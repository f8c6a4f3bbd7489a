use std::cell::Cell;

use dynamic_glyphs::{GlyphAlphaMap, GlyphBitmapCache, GlyphId, ProviderGlyphBitmap};

fn id(v: u16) -> GlyphId {
    GlyphId::new(v).unwrap()
}

fn bitmap(advance: i16, size: usize) -> ProviderGlyphBitmap {
    ProviderGlyphBitmap {
        x: 0,
        y: 0,
        width: 1,
        height: 1,
        advance,
        pixel_stride: 1,
        alpha_map: GlyphAlphaMap::new(vec![1; size]),
        sdf: false,
    }
}

fn fetch(cache: &mut GlyphBitmapCache, g: u16, advance: i16, size: usize, renders: &Cell<usize>) -> i16 {
    cache
        .get_or_insert_with(id(g), || {
            renders.set(renders.get() + 1);
            bitmap(advance, size)
        })
        .advance
}

#[test]
fn cache_hit_does_not_render_again() {
    let renders = Cell::new(0);
    let mut cache = GlyphBitmapCache::new(100);
    assert_eq!(fetch(&mut cache, 5, 11, 4, &renders), 11);
    assert_eq!(renders.get(), 1);
    // the second access returns the cached bitmap, not what the renderer would give now
    assert_eq!(fetch(&mut cache, 5, 99, 4, &renders), 11);
    assert_eq!(renders.get(), 1);
}

#[test]
fn zero_budget_never_caches() {
    let renders = Cell::new(0);
    let mut cache = GlyphBitmapCache::new(0);
    assert_eq!(fetch(&mut cache, 5, 11, 4, &renders), 11);
    assert_eq!(fetch(&mut cache, 5, 12, 4, &renders), 12);
    assert_eq!(fetch(&mut cache, 5, 13, 0, &renders), 13);
    assert_eq!(renders.get(), 3);
}

#[test]
fn eviction_drops_least_recently_used() {
    let renders = Cell::new(0);
    let mut cache = GlyphBitmapCache::new(10);
    fetch(&mut cache, 1, 1, 4, &renders);
    fetch(&mut cache, 2, 2, 4, &renders);
    // touch glyph 1: glyph 2 becomes the least recently used
    fetch(&mut cache, 1, 1, 4, &renders);
    assert_eq!(renders.get(), 2);
    // 12 bytes > 10: glyph 2 goes
    fetch(&mut cache, 3, 3, 4, &renders);
    assert_eq!(renders.get(), 3);
    fetch(&mut cache, 1, 1, 4, &renders);
    fetch(&mut cache, 3, 3, 4, &renders);
    assert_eq!(renders.get(), 3);
    fetch(&mut cache, 2, 2, 4, &renders);
    assert_eq!(renders.get(), 4);
}

#[test]
fn single_oversized_glyph_stays_cached() {
    let renders = Cell::new(0);
    let mut cache = GlyphBitmapCache::new(3);
    fetch(&mut cache, 1, 1, 10, &renders);
    fetch(&mut cache, 1, 1, 10, &renders);
    assert_eq!(renders.get(), 1);
    // a second oversized glyph evicts the first one
    fetch(&mut cache, 2, 2, 10, &renders);
    fetch(&mut cache, 2, 2, 10, &renders);
    assert_eq!(renders.get(), 2);
    fetch(&mut cache, 1, 1, 10, &renders);
    assert_eq!(renders.get(), 3);
}

#[test]
fn budget_fits_several_glyphs() {
    let renders = Cell::new(0);
    let mut cache = GlyphBitmapCache::new(12);
    for g in 1..=3 {
        fetch(&mut cache, g, g as i16, 4, &renders);
    }
    for g in 1..=3 {
        fetch(&mut cache, g, g as i16, 4, &renders);
    }
    assert_eq!(renders.get(), 3);
    // a fourth glyph pushes the oldest (glyph 1) out, and only that one
    fetch(&mut cache, 4, 4, 4, &renders);
    fetch(&mut cache, 2, 2, 4, &renders);
    fetch(&mut cache, 3, 3, 4, &renders);
    fetch(&mut cache, 4, 4, 4, &renders);
    assert_eq!(renders.get(), 4);
    fetch(&mut cache, 1, 1, 4, &renders);
    assert_eq!(renders.get(), 5);
}

#[test]
fn empty_bitmaps_cost_nothing() {
    let renders = Cell::new(0);
    let mut cache = GlyphBitmapCache::new(1);
    for g in 1..=5 {
        fetch(&mut cache, g, 0, 0, &renders);
    }
    for g in 1..=5 {
        fetch(&mut cache, g, 0, 0, &renders);
    }
    assert_eq!(renders.get(), 5);
}

#[test]
fn accounting_follows_the_cached_bitmaps() {
    let renders = Cell::new(0);
    let mut cache = GlyphBitmapCache::new(10);
    assert_eq!((cache.len(), cache.current_bytes()), (0, 0));
    fetch(&mut cache, 1, 1, 3, &renders);
    fetch(&mut cache, 2, 2, 5, &renders);
    assert_eq!((cache.len(), cache.current_bytes()), (2, 8));
    // a hit changes nothing in the accounting
    fetch(&mut cache, 1, 1, 3, &renders);
    assert_eq!((cache.len(), cache.current_bytes()), (2, 8));
    // 8 + 4 > 10: the least recently used glyph 2 (5 bytes) goes
    fetch(&mut cache, 3, 3, 4, &renders);
    assert_eq!((cache.len(), cache.current_bytes()), (2, 7));
    // a glyph larger than the budget stays alone
    fetch(&mut cache, 4, 4, 30, &renders);
    assert_eq!((cache.len(), cache.current_bytes()), (1, 30));
    let mut off = GlyphBitmapCache::new(0);
    fetch(&mut off, 1, 1, 3, &renders);
    assert_eq!((off.len(), off.current_bytes()), (0, 0));
}
