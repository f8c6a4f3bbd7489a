# dynamic_glyphs

On-demand glyphs for a software text renderer. A `GlyphProvider` supplied by
the application renders glyph bitmaps at run time; this library assigns glyph
ids (by BMP code point or by asking the provider), keeps a least-recently-used
cache of bitmaps bounded by their total size, makes one `DynamicFont` per
family, weight, style and pixel size, and selects the dynamic font for a
request through `FontService`.

- `src/` is the library, verified with Verus: every public function carries a
  contract, and the cache's laws (read after access, oldest-first eviction,
  byte budget, exact accounting) are proof functions in `src/glyph_cache.rs`.
- `app/` connects the library to Slint's core types (font requests, glyph ids,
  the text layout traits); it holds the floating-point pixel size computation.
- `tests/` exercises the library on concrete values.
