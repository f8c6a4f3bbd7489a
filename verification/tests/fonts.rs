use std::cell::{Cell, RefCell};
use std::rc::Rc;

use dynamic_glyphs::{
    DEFAULT_GLYPH_CACHE_BYTES, DynamicFont, DynamicFontCache, FontRequest, FontService,
    GlyphAlphaMap, GlyphId, GlyphIdStrategy, GlyphProvider, ProviderFontMetrics,
    ProviderGlyphBitmap,
};

#[derive(Default)]
struct Calls {
    metrics: Cell<usize>,
    ids: Cell<usize>,
    renders: Cell<usize>,
    last_request: RefCell<Option<FontRequest>>,
}

#[derive(Clone)]
struct TestProvider {
    supported: bool,
    calls: Rc<Calls>,
}

impl TestProvider {
    fn new(supported: bool) -> Self {
        TestProvider { supported, calls: Rc::new(Calls::default()) }
    }
}

impl GlyphProvider for TestProvider {
    fn supports(&self, _request: &FontRequest) -> bool {
        self.supported
    }

    fn font_metrics(&self, request: &FontRequest, px_size: u16) -> ProviderFontMetrics {
        self.calls.metrics.set(self.calls.metrics.get() + 1);
        *self.calls.last_request.borrow_mut() = Some(request.clone());
        let px = px_size as i16;
        ProviderFontMetrics { ascent: px * 3 / 4, descent: -(px / 4), x_height: px / 2, cap_height: px * 3 / 4 }
    }

    fn glyph_id_for_char(
        &self,
        _request: &FontRequest,
        ch: char,
        _strategy: GlyphIdStrategy,
    ) -> Option<GlyphId> {
        self.calls.ids.set(self.calls.ids.get() + 1);
        match ch {
            '?' => None,
            '🙂' => GlyphId::new(7),
            _ => GlyphId::new((ch as u32 % 60000) as u16 + 1),
        }
    }

    fn render_glyph(&self, _request: &FontRequest, glyph_id: GlyphId, px_size: u16) -> ProviderGlyphBitmap {
        self.calls.renders.set(self.calls.renders.get() + 1);
        let g = glyph_id.get();
        if g == 33 {
            // an empty glyph, such as a space
            return ProviderGlyphBitmap {
                x: 0,
                y: 0,
                width: 0,
                height: 0,
                advance: 4,
                pixel_stride: 0,
                alpha_map: GlyphAlphaMap::new(vec![]),
                sdf: false,
            };
        }
        ProviderGlyphBitmap {
            x: 1,
            y: -3,
            width: 2,
            height: 3,
            advance: (px_size / 2) as i16 + (g % 3) as i16,
            pixel_stride: 2,
            alpha_map: GlyphAlphaMap::new(vec![g as u8; 6]),
            sdf: g % 2 == 0,
        }
    }
}

fn request(family: &str) -> FontRequest {
    FontRequest {
        family: Some(family.to_string()),
        weight: None,
        pixel_size_bits: None,
        letter_spacing_bits: None,
        line_height_factor_bits: None,
        italic: false,
    }
}

fn font(strategy: GlyphIdStrategy, pixel_size: i16) -> (DynamicFont<TestProvider>, Rc<Calls>) {
    let provider = TestProvider::new(true);
    let calls = provider.calls.clone();
    (DynamicFont::new(provider, &request("Sans"), pixel_size, strategy, 1024), calls)
}

#[test]
fn font_metrics_come_from_the_provider() {
    let (f, calls) = font(GlyphIdStrategy::DynamicAssignment, 20);
    assert_eq!(calls.metrics.get(), 1);
    assert_eq!(f.ascent(), 15);
    assert_eq!(f.descent(), -5);
    assert_eq!(f.height(), 20);
    assert_eq!(f.x_height(), 10);
    assert_eq!(f.cap_height(), 15);
    assert_eq!(f.default_advance(), 20);
    assert_eq!(f.scale_delta(), 256);
}

#[test]
fn max_lines_divides_toward_zero() {
    let (f, _) = font(GlyphIdStrategy::DynamicAssignment, 20);
    assert_eq!(f.max_lines(100), 5);
    assert_eq!(f.max_lines(59), 2);
    assert_eq!(f.max_lines(0), 0);
    assert_eq!(f.max_lines(-41), (-2i16) as usize);
}

#[test]
fn bmp_strategy_uses_code_points_without_asking_the_provider() {
    let (mut f, calls) = font(GlyphIdStrategy::BmpCodepoint, 20);
    assert_eq!(f.glyph_id_for_char('A').map(|g| g.get()), Some(65));
    assert!(f.glyph_id_for_char('🙂').is_none());
    assert!(f.glyph_for_char('🙂').is_none());
    assert_eq!(calls.ids.get(), 0);
    let g = f.glyph_for_char('A').unwrap();
    assert_eq!(g.glyph_id.map(|g| g.get()), Some(65));
    assert_eq!(g.advance, 10 + 65 % 3);
    assert_eq!(g.text_byte_offset, 0);
}

#[test]
fn dynamic_strategy_asks_the_provider() {
    let (mut f, calls) = font(GlyphIdStrategy::DynamicAssignment, 20);
    assert_eq!(f.glyph_id_for_char('🙂').map(|g| g.get()), Some(7));
    assert!(f.glyph_for_char('?').is_none());
    assert_eq!(calls.ids.get(), 2);
    assert_eq!(calls.renders.get(), 0);
}

#[test]
fn glyph_bitmaps_are_cached_per_font() {
    let (mut f, calls) = font(GlyphIdStrategy::BmpCodepoint, 20);
    let a = f.glyph_for_char('A').unwrap();
    let b = f.glyph_for_char('A').unwrap();
    assert_eq!(a.advance, b.advance);
    assert_eq!(calls.renders.get(), 1);
}

#[test]
fn shape_text_gives_byte_offsets_and_default_advances() {
    let (mut f, calls) = font(GlyphIdStrategy::DynamicAssignment, 20);
    let glyphs = f.shape_text("aé?你🙂");
    let offsets: Vec<usize> = glyphs.iter().map(|g| g.text_byte_offset).collect();
    assert_eq!(offsets, vec![0, 1, 3, 4, 7]);
    assert!(glyphs[2].glyph_id.is_none());
    assert_eq!(glyphs[2].advance, 20);
    assert_eq!(glyphs[4].glyph_id.map(|g| g.get()), Some(7));
    assert_eq!(glyphs[4].advance, 10 + 7 % 3);
    assert_eq!(glyphs[0].glyph_id.map(|g| g.get()), Some('a' as u16 + 1));
    assert_eq!(calls.renders.get(), 4);
    assert!(f.shape_text("").is_empty());
}

#[test]
fn shape_text_with_bmp_strategy() {
    let (mut f, _) = font(GlyphIdStrategy::BmpCodepoint, 16);
    let glyphs = f.shape_text("A🙂B");
    assert_eq!(glyphs.len(), 3);
    assert_eq!(glyphs[0].glyph_id.map(|g| g.get()), Some(65));
    assert!(glyphs[1].glyph_id.is_none());
    assert_eq!(glyphs[1].advance, 16);
    assert_eq!(glyphs[2].text_byte_offset, 5);
}

#[test]
fn render_glyph_skips_empty_bitmaps() {
    let (mut f, _) = font(GlyphIdStrategy::BmpCodepoint, 20);
    assert!(f.render_glyph(GlyphId::new(33).unwrap()).is_none());
    let g = f.render_glyph(GlyphId::new(66).unwrap()).unwrap();
    assert_eq!((g.x, g.y, g.width, g.height, g.pixel_stride, g.sdf), (256, -768, 2, 3, 2, true));
    assert_eq!(g.alpha_map.as_slice(), &[66u8; 6]);
}

#[test]
fn font_cache_makes_one_font_per_key() {
    let provider = TestProvider::new(true);
    let calls = provider.calls.clone();
    let mut cache: DynamicFontCache<TestProvider> = DynamicFontCache::default();
    let a = cache.get_or_create(provider.clone(), &request("Sans"), 20, GlyphIdStrategy::BmpCodepoint);
    let b = cache.get_or_create(provider.clone(), &request("Sans"), 20, GlyphIdStrategy::BmpCodepoint);
    assert_eq!(a, b);
    assert_eq!(cache.len(), 1);
    assert_eq!(calls.metrics.get(), 1);
    let c = cache.get_or_create(provider.clone(), &request("Sans"), 24, GlyphIdStrategy::BmpCodepoint);
    let d = cache.get_or_create(provider.clone(), &request("Serif"), 20, GlyphIdStrategy::BmpCodepoint);
    let e = cache.get_or_create(
        provider.clone(),
        &FontRequest { weight: Some(700), ..request("Sans") },
        20,
        GlyphIdStrategy::BmpCodepoint,
    );
    assert_eq!((c, d, e), (1, 2, 3));
    assert_eq!(cache.len(), 4);
    assert_eq!(cache.font(c).ascent(), 18);
    // the glyph cache of a cached font is kept between lookups
    cache.glyph_for_char(a, 'A');
    let again = cache.get_or_create(provider.clone(), &request("Sans"), 20, GlyphIdStrategy::BmpCodepoint);
    cache.glyph_for_char(again, 'A');
    assert_eq!(calls.renders.get(), 1);
    cache.clear();
    assert_eq!(cache.len(), 0);
}

#[test]
fn font_cache_hands_the_whole_request_to_the_provider() {
    let provider = TestProvider::new(true);
    let calls = provider.calls.clone();
    let mut cache: DynamicFontCache<TestProvider> = DynamicFontCache::default();
    let first = FontRequest {
        pixel_size_bits: Some(12.5f32.to_bits()),
        letter_spacing_bits: Some(1.5f32.to_bits()),
        line_height_factor_bits: Some(1.25f32.to_bits()),
        ..request("Sans")
    };
    let a = cache.get_or_create(provider.clone(), &first, 20, GlyphIdStrategy::BmpCodepoint);
    let seen = calls.last_request.borrow().clone().unwrap();
    assert_eq!(seen.family.as_deref(), Some("Sans"));
    assert_eq!(seen.pixel_size_bits, Some(12.5f32.to_bits()));
    assert_eq!(seen.letter_spacing_bits, Some(1.5f32.to_bits()));
    assert_eq!(seen.line_height_factor_bits, Some(1.25f32.to_bits()));
    // spacing and line height are not part of the key: the cached font is reused
    let second = FontRequest { letter_spacing_bits: Some(3.0f32.to_bits()), ..request("Sans") };
    let b = cache.get_or_create(provider.clone(), &second, 20, GlyphIdStrategy::BmpCodepoint);
    assert_eq!(a, b);
    assert_eq!(calls.metrics.get(), 1);
    assert_eq!(cache.len(), 1);
}

#[test]
fn glyph_cache_budget_applies_to_new_fonts() {
    let provider = TestProvider::new(true);
    let calls = provider.calls.clone();
    let mut cache: DynamicFontCache<TestProvider> = DynamicFontCache::default();
    let a = cache.get_or_create(provider.clone(), &request("Sans"), 20, GlyphIdStrategy::BmpCodepoint);
    cache.glyph_for_char(a, 'A');
    cache.set_glyph_cache_bytes(0);
    assert_eq!(cache.len(), 0);
    let b = cache.get_or_create(provider.clone(), &request("Sans"), 20, GlyphIdStrategy::BmpCodepoint);
    cache.glyph_for_char(b, 'A');
    cache.glyph_for_char(b, 'A');
    assert_eq!(calls.renders.get(), 3);
    assert_eq!(DEFAULT_GLYPH_CACHE_BYTES, 64 * 1024);
}

#[test]
fn service_without_provider_selects_nothing() {
    let mut service: FontService<TestProvider> = FontService::default();
    assert!(service.match_font(&request("Sans"), 20).is_none());
    assert_eq!(service.font_count(), 0);
}

#[test]
fn service_respects_provider_support() {
    let mut service: FontService<TestProvider> = FontService::default();
    service.set_glyph_provider(Some(TestProvider::new(false)));
    assert!(service.match_font(&request("Sans"), 20).is_none());
    assert_eq!(service.font_count(), 0);
    service.set_glyph_provider(Some(TestProvider::new(true)));
    let a = service.match_font(&request("Sans"), 20).unwrap();
    let b = service.match_font(&request("Sans"), 20).unwrap();
    assert_eq!(a, b);
    assert_eq!(service.font_count(), 1);
    assert!(service.select_font(&request("Sans"), 20, false).is_none());
    assert_eq!(service.select_font(&request("Serif"), 20, true), Some(1));
}

#[test]
fn service_uses_its_strategy_and_drops_fonts_on_change() {
    let mut service: FontService<TestProvider> = FontService::default();
    service.set_glyph_provider(Some(TestProvider::new(true)));
    let a = service.match_font(&request("Sans"), 20).unwrap();
    assert_eq!(service.font(a).glyph_id_for_char('🙂').map(|g| g.get()), Some(7));
    service.set_glyph_id_strategy(GlyphIdStrategy::DynamicAssignment);
    assert_eq!(service.font_count(), 1);
    service.set_glyph_id_strategy(GlyphIdStrategy::BmpCodepoint);
    assert_eq!(service.font_count(), 0);
    let b = service.match_font(&request("Sans"), 20).unwrap();
    assert!(service.font(b).glyph_id_for_char('🙂').is_none());
    service.set_glyph_cache_bytes(10);
    assert_eq!(service.font_count(), 0);
    service.match_font(&request("Sans"), 20).unwrap();
    service.set_glyph_provider(None);
    assert_eq!(service.font_count(), 0);
    assert!(service.match_font(&request("Sans"), 20).is_none());
}

#[test]
fn rendering_after_eviction_matches_a_fresh_font() {
    let provider = TestProvider::new(true);
    let calls = provider.calls.clone();
    // room for one glyph of six bytes only
    let mut small = DynamicFont::new(provider.clone(), &request("Sans"), 20, GlyphIdStrategy::BmpCodepoint, 6);
    let first = small.render_glyph(GlyphId::new(66).unwrap()).unwrap();
    small.render_glyph(GlyphId::new(67).unwrap());
    small.render_glyph(GlyphId::new(68).unwrap());
    let again = small.render_glyph(GlyphId::new(66).unwrap()).unwrap();
    assert_eq!(calls.renders.get(), 4);
    let mut fresh = DynamicFont::new(provider, &request("Sans"), 20, GlyphIdStrategy::BmpCodepoint, 6);
    let other = fresh.render_glyph(GlyphId::new(66).unwrap()).unwrap();
    for g in [&again, &other] {
        assert_eq!((g.x, g.y, g.width, g.height, g.pixel_stride, g.sdf), (first.x, first.y, first.width, first.height, first.pixel_stride, first.sdf));
        assert_eq!(g.alpha_map.as_slice(), first.alpha_map.as_slice());
    }
}

#[test]
fn glyph_for_char_agrees_with_shaping_one_character() {
    let (mut f, _) = font(GlyphIdStrategy::DynamicAssignment, 20);
    for ch in ['a', '🙂', '?'] {
        let single = f.glyph_for_char(ch);
        let shaped = f.shape_text(&ch.to_string());
        assert_eq!(shaped.len(), 1);
        match single {
            Some(g) => {
                assert_eq!(shaped[0].glyph_id.map(|i| i.get()), g.glyph_id.map(|i| i.get()));
                assert_eq!(shaped[0].advance, g.advance);
            }
            None => {
                assert!(shaped[0].glyph_id.is_none());
                assert_eq!(shaped[0].advance, 20);
            }
        }
    }
}

#[test]
fn service_operations_reach_the_selected_font() {
    let provider = TestProvider::new(true);
    let calls = provider.calls.clone();
    let mut service: FontService<TestProvider> = FontService::default();
    service.set_glyph_provider(Some(provider));
    service.set_glyph_id_strategy(GlyphIdStrategy::BmpCodepoint);
    let a = service.match_font(&request("Sans"), 20).unwrap();
    assert_eq!(service.glyph_for_char(a, 'A').unwrap().advance, 10 + 65 % 3);
    assert_eq!(service.shape_text(a, "AB").len(), 2);
    assert_eq!(service.glyph_bitmap(a, GlyphId::new(65).unwrap()).advance, 10 + 65 % 3);
    assert!(service.render_glyph(a, GlyphId::new(33).unwrap()).is_none());
    assert_eq!(calls.renders.get(), 3);
    assert_eq!(service.font(a).ascent(), 15);
}
