use dynamic_glyphs::{
    FontRequest, GlyphAlphaMap, GlyphId, GlyphIdStrategy, ProviderFontMetrics,
    ProviderGlyphBitmap, bmp_codepoint_glyph_id, pixel_size_to_u16,
};

fn bitmap(width: i16, height: i16, bytes: Vec<u8>) -> ProviderGlyphBitmap {
    ProviderGlyphBitmap {
        x: 1,
        y: -2,
        width,
        height,
        advance: 7,
        pixel_stride: width.max(0) as u16,
        alpha_map: GlyphAlphaMap::new(bytes),
        sdf: false,
    }
}

#[test]
fn glyph_id_rejects_zero() {
    assert!(GlyphId::new(0).is_none());
    assert_eq!(GlyphId::new(42).unwrap().get(), 42);
    assert_eq!(GlyphId::new(u16::MAX).unwrap().get(), u16::MAX);
}

#[test]
fn strategy_defaults_to_dynamic_assignment() {
    assert_eq!(GlyphIdStrategy::default(), GlyphIdStrategy::DynamicAssignment);
}

#[test]
fn bitmap_without_pixels_is_empty() {
    assert!(bitmap(0, 3, vec![1, 2, 3]).is_empty());
    assert!(bitmap(3, -1, vec![1, 2, 3]).is_empty());
    assert!(bitmap(-4, 3, vec![1, 2, 3]).is_empty());
    assert!(bitmap(1, 1, vec![]).is_empty());
    assert!(!bitmap(1, 1, vec![255]).is_empty());
}

#[test]
fn bitmap_clone_keeps_content() {
    let b = bitmap(2, 1, vec![9, 8]);
    let c = b.clone();
    assert_eq!(c.alpha_map.as_slice(), &[9, 8]);
    assert_eq!((c.x, c.y, c.width, c.height, c.advance, c.pixel_stride, c.sdf), (1, -2, 2, 1, 7, 2, false));
    assert_eq!(c.alpha_map.len(), 2);
}

#[test]
fn metrics_are_plain_values() {
    let m = ProviderFontMetrics { ascent: 12, descent: -4, x_height: 6, cap_height: 9 };
    let n = m;
    assert_eq!(m, n);
}

#[test]
fn font_request_clone_keeps_fields() {
    let r = FontRequest {
        family: Some("Sans".to_string()),
        weight: Some(700),
        pixel_size_bits: Some(16.0f32.to_bits()),
        letter_spacing_bits: Some((-0.5f32).to_bits()),
        line_height_factor_bits: None,
        italic: true,
    };
    let c = r.clone();
    assert_eq!(c.family.as_deref(), Some("Sans"));
    assert_eq!(c.weight, Some(700));
    assert_eq!(c.pixel_size_bits, Some(16.0f32.to_bits()));
    assert_eq!(c.letter_spacing_bits, Some((-0.5f32).to_bits()));
    assert_eq!(c.line_height_factor_bits, None);
    assert!(c.italic);
}

#[test]
fn pixel_size_conversion_clamps_non_positive() {
    assert_eq!(pixel_size_to_u16(-5), 0);
    assert_eq!(pixel_size_to_u16(i16::MIN), 0);
    assert_eq!(pixel_size_to_u16(0), 0);
    assert_eq!(pixel_size_to_u16(12), 12);
    assert_eq!(pixel_size_to_u16(i16::MAX), 32767);
}

#[test]
fn bmp_strategy_maps_code_points() {
    assert_eq!(bmp_codepoint_glyph_id('A').map(|g| g.get()), Some(65));
    assert_eq!(bmp_codepoint_glyph_id('你').map(|g| g.get()), Some(0x4F60));
    assert_eq!(bmp_codepoint_glyph_id('\u{FFFF}').map(|g| g.get()), Some(0xFFFF));
    assert!(bmp_codepoint_glyph_id('\0').is_none());
    assert!(bmp_codepoint_glyph_id('\u{10000}').is_none());
    assert!(bmp_codepoint_glyph_id('🙂').is_none());
}
