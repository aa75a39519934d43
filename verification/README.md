# Dithering

A desktop application that applies error diffusion, Bayer and halftone dithering to a picture,
and the verified library that holds its logic.

## Layout

- `src/` is the library, verified with Verus:
  - `raster`, `scale`, `palette`, `config`: the image model and its limits, the block grid of a
    scale and the expansion back to full size, palettes and effect settings;
  - `diffusion`, `ordered`: which neighbours receive diffused error and with which weights, the
    Bayer ranks and the palette pairs that ordered dithering blends between;
  - `codec`, `png_writer`, `clipboard`: decoding by content with size limits checked before any
    pixel is decoded, PNG encoding, and clipboard images;
  - `document`, `session`, `events`, `coordinator`: the document state machine, the bookkeeping of
    background loads and saves, render requests and events, and which worker events still count;
  - `settings`, `labels`, `viewer`, `texture_cache`: the settings panel's model, names and
    shortcuts, viewer tiles, and the texture cache with its least-recently-used eviction.
- `tests/` exercises the library on concrete values.
- `app/` is the `eframe` application around it: windows and dialogs, files and the clipboard, the
  render worker thread, and the parts that compute in floating point (linear light, the dithering
  algorithms' arithmetic, zoom and the overview's resampling).
