//! Runtime glyph provider support for a software text renderer: glyph-id
//! strategies, a byte-bounded LRU cache of glyph bitmaps, fonts whose glyphs
//! are fetched on demand from a provider, and the service that selects them.

mod dynamic_font;
mod font_service;
mod glyph_cache;
mod glyph_ids;
mod glyph_provider;
mod text;

pub use dynamic_font::{
    DEFAULT_GLYPH_CACHE_BYTES, DynamicFont, DynamicFontCache, FontKeyModel, RenderableGlyph,
    RenderableModel, ShapedGlyph, answers_uniquely, bmp_codepoint_glyph_id, bmp_glyph_value,
    div_toward_zero, glyph_bitmap_done, glyph_for_char_done, key_of,
    lemma_glyph_for_char_is_shaping, lemma_one_font_per_key, lemma_shape_concatenation,
    pixel_size_to_u16, pixel_size_u16_of, render_glyph_done, renderable_of, renderable_value,
    renders_uniquely, shape_text_done, shaped_id, shaped_ids,
};
pub use font_service::FontService;
pub use glyph_cache::{
    CacheEntryModel, GlyphBitmapCache, GlyphCacheModel, access_step, evict,
    lemma_access_evicts_oldest, lemma_access_keeps, lemma_access_keeps_accounting,
    lemma_access_preserves_wf, lemma_access_then_lookup, lemma_evict,
    lemma_zero_budget_keeps_nothing, run_accesses, saturating_add_usize, saturating_sub_usize,
    total_weight,
};
pub use glyph_ids::{GlyphIdMap, assigned_count, lemma_id_leads_back, lemma_ids_are_distinct};
pub use glyph_provider::{
    BitmapModel, FontRequest, FontRequestModel, GlyphAlphaMap, GlyphId, GlyphIdStrategy,
    GlyphProvider, ProviderFontMetrics, ProviderGlyphBitmap, glyph_value,
};
pub use text::{char_utf8_len, lemma_encode_utf8_append, lemma_utf8_prefix_step, utf8_prefix_len};
