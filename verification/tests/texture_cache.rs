use dithering::texture_cache::{TextureCache, TileKey, MAX_CACHE_BYTES};
use dithering::viewer::{tile_rgba, tile_side, ImageVariant, ViewImageId};
use dithering::Raster;

fn result_id(document: u64, revision: u64) -> ViewImageId {
    ViewImageId {
        document,
        revision,
        variant: ImageVariant::Result,
    }
}

fn draw_tile(
    cache: &mut TextureCache<Vec<u8>>,
    raster: &Raster,
    id: ViewImageId,
    x: u32,
    y: u32,
    max_texture_side: usize,
) -> usize {
    let side = tile_side(max_texture_side);
    cache.tile_with(TileKey { image: id, x, y }, || {
        let (_, _, pixels) = tile_rgba(raster, x, y, side);
        let bytes = pixels.len();
        (pixels, bytes)
    })
}

#[test]
fn tile_cache_evicts_old_entries_when_the_limit_is_reached() {
    let raster = Raster::new(8, 2, vec![255; 8 * 2 * 4]).expect("valid fixture");
    let id = result_id(1, 1);
    let mut cache: TextureCache<Vec<u8>> = TextureCache::with_limit(32);
    for x in 0..4 {
        cache.begin_frame();
        draw_tile(&mut cache, &raster, id, x, 0, 2);
    }
    assert!(cache.bytes() <= cache.max_bytes());
    assert!(cache.tile_count() <= 2);
}

#[test]
fn long_texture_churn_stays_bounded() {
    let raster = Raster::new(16, 16, vec![255; 16 * 16 * 4]).expect("valid fixture");
    let mut cache: TextureCache<Vec<u8>> = TextureCache::with_limit(128);
    for revision in 0..10_000 {
        cache.begin_frame();
        draw_tile(&mut cache, &raster, result_id(1, revision), 0, 0, 4);
        assert!(cache.bytes() <= cache.max_bytes());
        assert!(cache.tile_count() <= 2);
    }
}

#[test]
fn a_new_cache_is_empty_with_the_default_limit() {
    let cache: TextureCache<u8> = TextureCache::new();
    assert_eq!(cache.bytes(), 0);
    assert_eq!(cache.max_bytes(), MAX_CACHE_BYTES);
    assert_eq!(cache.max_bytes(), 128 * 1024 * 1024);
    assert_eq!(cache.tile_count(), 0);
    assert_eq!(cache.reduced_count(), 0);
}

#[test]
fn a_drawn_tile_reuses_its_texture() {
    let mut cache: TextureCache<u32> = TextureCache::with_limit(1000);
    let key = TileKey { image: result_id(1, 1), x: 0, y: 0 };
    let first = cache.tile_with(key, || (7, 16));
    assert_eq!(*cache.tile_texture(first), 7);
    cache.begin_frame();
    let second = cache.tile_with(key, || (9, 16));
    assert_eq!(*cache.tile_texture(second), 7);
    assert_eq!(cache.tile_count(), 1);
    assert_eq!(cache.bytes(), 16);
}

#[test]
fn tiles_of_the_current_frame_are_never_evicted() {
    let mut cache: TextureCache<u32> = TextureCache::with_limit(10);
    let a = TileKey { image: result_id(1, 1), x: 0, y: 0 };
    let b = TileKey { image: result_id(1, 1), x: 1, y: 0 };
    cache.tile_with(a, || (1, 8));
    cache.tile_with(b, || (2, 8));
    assert_eq!(cache.tile_count(), 2);
    assert_eq!(cache.bytes(), 16);
    cache.begin_frame();
    let c = TileKey { image: result_id(1, 1), x: 2, y: 0 };
    cache.tile_with(c, || (3, 8));
    assert_eq!(cache.tile_count(), 1);
    assert_eq!(cache.bytes(), 8);
}

#[test]
fn the_least_recently_used_tile_goes_first() {
    let mut cache: TextureCache<u32> = TextureCache::with_limit(16);
    let a = TileKey { image: result_id(1, 1), x: 0, y: 0 };
    let b = TileKey { image: result_id(1, 1), x: 1, y: 0 };
    let c = TileKey { image: result_id(1, 1), x: 2, y: 0 };
    cache.tile_with(a, || (1, 8));
    cache.begin_frame();
    cache.tile_with(b, || (2, 8));
    cache.begin_frame();
    cache.tile_with(c, || (3, 8));
    assert_eq!(cache.tile_count(), 2);
    assert_eq!(cache.find_tile(a), None);
    assert!(cache.find_tile(b).is_some());
    assert!(cache.find_tile(c).is_some());
}

#[test]
fn overviews_of_older_revisions_are_replaced() {
    let mut cache: TextureCache<u32> = TextureCache::with_limit(1000);
    let first = cache.reduced_with(result_id(1, 1), || (1, 12));
    assert_eq!(*cache.reduced_texture(first), 1);
    let second = cache.reduced_with(result_id(1, 2), || (2, 20));
    assert_eq!(*cache.reduced_texture(second), 2);
    assert_eq!(cache.reduced_count(), 1);
    assert_eq!(cache.bytes(), 20);
    let original = ViewImageId {
        document: 1,
        revision: 1,
        variant: ImageVariant::Original,
    };
    cache.reduced_with(original, || (3, 4));
    assert_eq!(cache.reduced_count(), 2);
    let again = cache.reduced_with(result_id(1, 2), || (9, 20));
    assert_eq!(*cache.reduced_texture(again), 2);
    assert_eq!(cache.bytes(), 24);
}

#[test]
fn retaining_a_document_drops_the_others() {
    let mut cache: TextureCache<u32> = TextureCache::with_limit(1000);
    cache.reduced_with(result_id(1, 1), || (1, 10));
    cache.reduced_with(result_id(2, 1), || (2, 10));
    cache.tile_with(TileKey { image: result_id(1, 1), x: 0, y: 0 }, || (3, 5));
    cache.tile_with(TileKey { image: result_id(2, 1), x: 0, y: 0 }, || (4, 5));
    cache.retain_document(2);
    assert_eq!(cache.reduced_count(), 1);
    assert_eq!(cache.tile_count(), 1);
    assert_eq!(cache.bytes(), 15);
}
