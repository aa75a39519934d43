//! Dithering: the verified logic of an image dithering application. The library holds the
//! raster model and its limits, the scale grid and expansion, palettes and effect settings, the
//! integer parts of error diffusion, Bayer and halftone rendering, content-based image decoding
//! and PNG encoding, the document state machine and the session around it, the render
//! coordinator's decisions, and the viewer's tiles and texture cache.
pub mod cancellation;
pub mod clipboard;
pub mod codec;
pub mod config;
pub mod coordinator;
pub mod diffusion;
pub mod document;
pub mod events;
pub mod labels;
pub mod ordered;
pub mod palette;
pub mod png_writer;
pub mod raster;
pub mod scale;
pub mod session;
pub mod settings;
pub mod texture_cache;
pub mod viewer;

pub use cancellation::{AtomicCancellationToken, CancellationCheck, NeverCancel};
pub use clipboard::{clipboard_data_to_raster, ClipboardError, ClipboardImage, ImageClipboard};
pub use codec::{DecodedImage, ImageCodec, ImageLoadError, SourceFormat};
pub use config::{
    BayerMatrix, ConfigError, DotShape, EffectConfig, EffectKind, ErrorDiffusionAlgorithm,
    ErrorDiffusionConfig, HalftoneConfig, OrderedConfig,
};
pub use coordinator::{Dispatch, RequestTracker, WorkerStep};
pub use document::{Document, DocumentState, ResultView, Status};
pub use events::{
    DocumentId, ProcessingEvent, RenderError, RenderRequest, RequestIdentity, Revision,
};
pub use palette::{Palette, PaletteError, MAX_PALETTE_COLORS, MIN_PALETTE_COLORS};
pub use png_writer::PngWriter;
pub use raster::{Raster, RasterError, Rgb8, MAX_PIXELS, MAX_SIDE};
pub use scale::{Scale, ScaleError, MAX_SCALE, MIN_SCALE};
pub use session::Session;
pub use settings::{ActiveEffect, Settings};
