use std::collections::BTreeMap;

use vstd::prelude::*;

use crate::dynamic_font::{bmp_codepoint_glyph_id, bmp_glyph_value};
use crate::glyph_provider::{GlyphId, GlyphIdStrategy, glyph_value};

verus! {

broadcast use vstd::std_specs::btree::group_btree_axioms, vstd::laws_cmp::group_laws_cmp;

/// How many glyph ids have been handed out when `next` is the next one to
/// hand out (zero once all of 1..=65535 are used).
pub open spec fn assigned_count(next: u16) -> nat {
    if next == 0 {
        65535
    } else {
        (next - 1) as nat
    }
}

/// The glyph-id map of the dynamic-assignment strategy: characters get ids
/// 1, 2, 3, ... in the order in which they are first asked for, keep them
/// for good, and can be found again from their ids.
pub struct GlyphIdMap {
    next_dynamic_id: u16,
    char_to_id: BTreeMap<u32, GlyphId>,
    id_to_codepoint: BTreeMap<u16, u32>,
}

impl GlyphIdMap {
    /// The id the next new character gets; zero once every id is used.
    pub closed spec fn next_id(&self) -> u16 {
        self.next_dynamic_id
    }

    /// The ids of the characters seen so far, by code point.
    pub closed spec fn ids(&self) -> Map<u32, u16> {
        self.char_to_id@.map_values(|g: GlyphId| g.value())
    }

    /// The code points of the ids handed out so far.
    pub closed spec fn codepoints(&self) -> Map<u16, u32> {
        self.id_to_codepoint@
    }

    /// Ids 1 up to the count handed out are assigned, each to exactly one
    /// code point, and the two maps are inverse to each other.
    pub open spec fn wf(&self) -> bool {
        &&& forall|id: u16|
            #![trigger self.codepoints().contains_key(id)]
            self.codepoints().contains_key(id) <==> 1 <= id <= assigned_count(self.next_id())
        &&& forall|c: u32|
            #![trigger self.ids().contains_key(c)]
            self.ids().contains_key(c) ==> self.codepoints().contains_key(self.ids()[c])
                && self.codepoints()[self.ids()[c]] == c
        &&& forall|id: u16|
            #![trigger self.codepoints().contains_key(id)]
            self.codepoints().contains_key(id) ==> self.ids().contains_key(self.codepoints()[id])
                && self.ids()[self.codepoints()[id]] == id
    }

    /// An empty map whose first id will be 1.
    pub fn new() -> (r: GlyphIdMap)
        ensures
            r.wf(),
            r.next_id() == 1,
            r.ids() == Map::<u32, u16>::empty(),
            r.codepoints() == Map::<u16, u32>::empty(),
    {
        let r = GlyphIdMap {
            next_dynamic_id: 1,
            char_to_id: BTreeMap::new(),
            id_to_codepoint: BTreeMap::new(),
        };
        proof {
            assert(r.ids() =~= Map::<u32, u16>::empty());
        }
        r
    }

    /// Hands out the next id for `codepoint`, or `None` once all ids are used.
    fn allocate_id(&mut self, codepoint: u32) -> (r: Option<GlyphId>)
        ensures
            old(self).next_id() == 0 ==> r is None && *final(self) == *old(self),
            old(self).next_id() != 0 ==> {
                &&& r matches Some(g) && g.value() == old(self).next_id()
                &&& final(self).next_id() == if old(self).next_id() == u16::MAX {
                    0
                } else {
                    (old(self).next_id() + 1) as u16
                }
                &&& final(self).codepoints() == old(self).codepoints().insert(
                    old(self).next_id(),
                    codepoint,
                )
                &&& final(self).ids() == old(self).ids()
            },
    {
        let next: u16 = self.next_dynamic_id;
        if next == 0 {
            return None;
        }
        let id = match GlyphId::new(next) {
            Some(id) => id,
            None => return None,
        };
        self.next_dynamic_id = if next == u16::MAX { 0 } else { next + 1 };
        self.id_to_codepoint.insert(next, codepoint);
        Some(id)
    }

    /// The code point that `glyph_id` was handed out for; an id that was not
    /// handed out stands for the code point of its own value.
    pub fn codepoint_for_glyph_id(&self, glyph_id: GlyphId) -> (r: u32)
        ensures
            r == if self.codepoints().contains_key(glyph_id.value()) {
                self.codepoints()[glyph_id.value()]
            } else {
                glyph_id.value() as u32
            },
    {
        let key: u16 = glyph_id.get();
        match self.id_to_codepoint.get(&key) {
            Some(codepoint) => *codepoint,
            None => key as u32,
        }
    }

    /// The glyph id of `ch`: under the BMP strategy its code point when that
    /// is in U+0001..=U+FFFF; under dynamic assignment the id it already has,
    /// or else the next id (and `None` once all ids are used).
    pub fn glyph_id_for_char(&mut self, ch: char, strategy: GlyphIdStrategy) -> (r: Option<GlyphId>)
        requires
            old(self).wf(),
        ensures
            final(self).wf(),
            strategy == GlyphIdStrategy::BmpCodepoint ==> {
                &&& glyph_value(r) == bmp_glyph_value(ch)
                &&& *final(self) == *old(self)
            },
            strategy == GlyphIdStrategy::DynamicAssignment && old(self).ids().contains_key(
                ch as u32,
            ) ==> {
                &&& glyph_value(r) == Some(old(self).ids()[ch as u32])
                &&& *final(self) == *old(self)
            },
            strategy == GlyphIdStrategy::DynamicAssignment && !old(self).ids().contains_key(
                ch as u32,
            ) && old(self).next_id() == 0 ==> {
                &&& r is None
                &&& *final(self) == *old(self)
            },
            strategy == GlyphIdStrategy::DynamicAssignment && !old(self).ids().contains_key(
                ch as u32,
            ) && old(self).next_id() != 0 ==> {
                &&& glyph_value(r) == Some(old(self).next_id())
                &&& final(self).next_id() == if old(self).next_id() == u16::MAX {
                    0
                } else {
                    (old(self).next_id() + 1) as u16
                }
                &&& final(self).ids() == old(self).ids().insert(ch as u32, old(self).next_id())
                &&& final(self).codepoints() == old(self).codepoints().insert(
                    old(self).next_id(),
                    ch as u32,
                )
            },
    {
        match strategy {
            GlyphIdStrategy::BmpCodepoint => bmp_codepoint_glyph_id(ch),
            GlyphIdStrategy::DynamicAssignment => {
                let codepoint: u32 = ch as u32;
                match self.char_to_id.get(&codepoint) {
                    Some(existing) => {
                        return Some(*existing);
                    },
                    None => {},
                }
                let ghost before = *self;
                let id = match self.allocate_id(codepoint) {
                    Some(id) => id,
                    None => return None,
                };
                self.char_to_id.insert(codepoint, id);
                proof {
                    assert(self.ids() =~= before.ids().insert(codepoint, id.value()));
                    let n = before.next_id();
                    assert forall|k: u16| #![trigger self.codepoints().contains_key(k)]
                        self.codepoints().contains_key(k) <==> 1 <= k <= assigned_count(
                            self.next_id(),
                        ) by {
                        if k != n {
                            assert(before.codepoints().contains_key(k) == self.codepoints().contains_key(
                                k,
                            ));
                        }
                    }
                    assert forall|c: u32| #![trigger self.ids().contains_key(c)]
                        self.ids().contains_key(c) implies self.codepoints().contains_key(
                            self.ids()[c],
                        ) && self.codepoints()[self.ids()[c]] == c by {
                        if c != codepoint {
                            assert(before.ids().contains_key(c));
                            assert(before.codepoints().contains_key(before.ids()[c]));
                        }
                    }
                    assert forall|k: u16| #![trigger self.codepoints().contains_key(k)]
                        self.codepoints().contains_key(k) implies self.ids().contains_key(
                            self.codepoints()[k],
                        ) && self.ids()[self.codepoints()[k]] == k by {
                        if k != n {
                            assert(before.codepoints().contains_key(k));
                            assert(before.ids().contains_key(before.codepoints()[k]));
                        }
                    }
                }
                Some(id)
            },
        }
    }
}

/// Distinct characters get distinct ids: the id map is injective.
pub proof fn lemma_ids_are_distinct(m: GlyphIdMap, c1: u32, c2: u32)
    requires
        m.wf(),
        m.ids().contains_key(c1),
        m.ids().contains_key(c2),
        c1 != c2,
    ensures
        m.ids()[c1] != m.ids()[c2],
{
}

/// Every id handed out leads back to its character.
pub proof fn lemma_id_leads_back(m: GlyphIdMap, c: u32)
    requires
        m.wf(),
        m.ids().contains_key(c),
    ensures
        m.codepoints().contains_key(m.ids()[c]),
        m.codepoints()[m.ids()[c]] == c,
{
}

} // verus!
