use dynamic_glyphs::{GlyphId, GlyphIdMap, GlyphIdStrategy};

fn dynamic(map: &mut GlyphIdMap, ch: char) -> Option<u16> {
    map.glyph_id_for_char(ch, GlyphIdStrategy::DynamicAssignment).map(|g| g.get())
}

#[test]
fn ids_are_sequential_and_stable() {
    let mut map = GlyphIdMap::new();
    assert_eq!(dynamic(&mut map, '你'), Some(1));
    assert_eq!(dynamic(&mut map, '🙂'), Some(2));
    assert_eq!(dynamic(&mut map, 'a'), Some(3));
    assert_eq!(dynamic(&mut map, '你'), Some(1));
    assert_eq!(dynamic(&mut map, '🙂'), Some(2));
    assert_eq!(dynamic(&mut map, 'b'), Some(4));
}

#[test]
fn ids_lead_back_to_their_characters() {
    let mut map = GlyphIdMap::new();
    let smile = map.glyph_id_for_char('🙂', GlyphIdStrategy::DynamicAssignment).unwrap();
    let ni = map.glyph_id_for_char('你', GlyphIdStrategy::DynamicAssignment).unwrap();
    assert_eq!(map.codepoint_for_glyph_id(smile), '🙂' as u32);
    assert_eq!(map.codepoint_for_glyph_id(ni), '你' as u32);
    // an id never handed out stands for its own code point
    assert_eq!(map.codepoint_for_glyph_id(GlyphId::new(65).unwrap()), 65);
}

#[test]
fn bmp_strategy_leaves_the_map_alone() {
    let mut map = GlyphIdMap::new();
    let a = map.glyph_id_for_char('A', GlyphIdStrategy::BmpCodepoint);
    assert_eq!(a.map(|g| g.get()), Some(65));
    assert!(map.glyph_id_for_char('🙂', GlyphIdStrategy::BmpCodepoint).is_none());
    assert_eq!(dynamic(&mut map, 'A'), Some(1));
}

#[test]
fn ids_run_out_after_65535_characters() {
    let mut map = GlyphIdMap::new();
    let mut count = 0u32;
    let mut last = None;
    for cp in 0x10000u32..0x20000 {
        let ch = char::from_u32(cp).unwrap();
        match dynamic(&mut map, ch) {
            Some(id) => {
                count += 1;
                last = Some(id);
            }
            None => break,
        }
    }
    assert_eq!(count, 65535);
    assert_eq!(last, Some(65535));
    assert_eq!(dynamic(&mut map, 'x'), None);
    // characters seen before keep their ids
    assert_eq!(dynamic(&mut map, '\u{10000}'), Some(1));
}
