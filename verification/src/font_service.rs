use vstd::prelude::*;
use vstd::utf8::encode_utf8;

use crate::dynamic_font::{
    DynamicFont, DynamicFontCache, RenderableGlyph, ShapedGlyph, glyph_bitmap_done,
    glyph_for_char_done, key_of, pixel_size_u16_of, render_glyph_done, renderable_value,
    shape_text_done,
};
use crate::glyph_provider::{
    FontRequest, GlyphId, GlyphIdStrategy, GlyphProvider, ProviderGlyphBitmap,
};

verus! {

/// Manages the glyph provider, the glyph-id strategy and the dynamic fonts
/// made from them, and selects the dynamic font for a request.
pub struct FontService<P> {
    glyph_provider: Option<P>,
    glyph_id_strategy: GlyphIdStrategy,
    dynamic_font_cache: DynamicFontCache<P>,
}

impl<P: GlyphProvider + Clone> Default for FontService<P> {
    fn default() -> (r: Self)
        ensures
            r.wf(),
            r.provider() is None,
            r.strategy() == GlyphIdStrategy::DynamicAssignment,
            r.cache().keys().len() == 0,
            r.cache().glyph_cache_bytes() == crate::dynamic_font::DEFAULT_GLYPH_CACHE_BYTES,
    {
        FontService {
            glyph_provider: None,
            glyph_id_strategy: GlyphIdStrategy::default(),
            dynamic_font_cache: DynamicFontCache::default(),
        }
    }
}

impl<P: GlyphProvider + Clone> FontService<P> {
    /// The registered glyph provider, if any.
    pub closed spec fn provider(&self) -> Option<P> {
        self.glyph_provider
    }

    /// The glyph-id strategy of fonts made from now on.
    pub closed spec fn strategy(&self) -> GlyphIdStrategy {
        self.glyph_id_strategy
    }

    /// The dynamic fonts made so far.
    pub closed spec fn cache(&self) -> DynamicFontCache<P> {
        self.dynamic_font_cache
    }

    /// The cache is well formed, and every cached font was made with the
    /// current strategy and a clone of the current provider.
    pub open spec fn wf(&self) -> bool {
        &&& self.cache().wf()
        &&& forall|i: int|
            0 <= i < self.cache().fonts().len() ==> {
                &&& (#[trigger] self.cache().fonts()[i]).strategy() == self.strategy()
                &&& self.provider() is Some
                &&& cloned(self.provider().unwrap(), self.cache().fonts()[i].provider())
            }
    }

    /// Registers `provider` (or none) and drops every dynamic font.
    pub fn set_glyph_provider(&mut self, provider: Option<P>)
        requires
            old(self).wf(),
        ensures
            final(self).wf(),
            final(self).provider() == provider,
            final(self).strategy() == old(self).strategy(),
            final(self).cache().keys().len() == 0,
            final(self).cache().glyph_cache_bytes() == old(self).cache().glyph_cache_bytes(),
    {
        self.glyph_provider = provider;
        self.dynamic_font_cache.clear();
    }

    /// Sets the glyph-id strategy; drops every dynamic font when it changes.
    pub fn set_glyph_id_strategy(&mut self, strategy: GlyphIdStrategy)
        requires
            old(self).wf(),
        ensures
            final(self).wf(),
            final(self).strategy() == strategy,
            final(self).provider() == old(self).provider(),
            final(self).cache().glyph_cache_bytes() == old(self).cache().glyph_cache_bytes(),
            old(self).strategy() != strategy ==> final(self).cache().keys().len() == 0,
            old(self).strategy() == strategy ==> final(self).cache() == old(self).cache(),
    {
        let previous = self.glyph_id_strategy;
        self.glyph_id_strategy = strategy;
        if previous != strategy {
            self.dynamic_font_cache.clear();
        }
    }

    /// Sets the glyph bitmap budget of the fonts made from now on and drops every dynamic font.
    pub fn set_glyph_cache_bytes(&mut self, bytes: usize)
        requires
            old(self).wf(),
        ensures
            final(self).wf(),
            final(self).provider() == old(self).provider(),
            final(self).strategy() == old(self).strategy(),
            final(self).cache().keys().len() == 0,
            final(self).cache().glyph_cache_bytes() == bytes,
    {
        self.dynamic_font_cache.set_glyph_cache_bytes(bytes);
    }

    /// The dynamic font for `request` at `pixel_size`, made if needed, when a
    /// provider is registered and `supported` says that it supports the
    /// request; `None` otherwise, and then nothing changes.
    pub fn select_font(&mut self, request: &FontRequest, pixel_size: i16, supported: bool) -> (r:
        Option<usize>)
        requires
            old(self).wf(),
        ensures
            final(self).wf(),
            final(self).provider() == old(self).provider(),
            final(self).strategy() == old(self).strategy(),
            final(self).cache().glyph_cache_bytes() == old(self).cache().glyph_cache_bytes(),
            r is Some <==> old(self).provider() is Some && supported,
            r is None ==> final(self).cache() == old(self).cache(),
            r matches Some(idx) ==> {
                &&& idx < final(self).cache().keys().len()
                &&& final(self).cache().keys()[idx as int] == key_of(request@, pixel_size)
                &&& key_of(
                    final(self).cache().fonts()[idx as int].request(),
                    final(self).cache().fonts()[idx as int].pixel_size(),
                ) == key_of(request@, pixel_size)
                &&& final(self).cache().fonts()[idx as int].request().family == request@.family
                &&& final(self).cache().fonts()[idx as int].request().weight == request@.weight
                &&& final(self).cache().fonts()[idx as int].request().italic == request@.italic
                &&& final(self).cache().fonts()[idx as int].pixel_size() == pixel_size
                &&& final(self).cache().fonts()[idx as int].provider().metrics_for(
                    final(self).cache().fonts()[idx as int].request(),
                    pixel_size_u16_of(pixel_size),
                    final(self).cache().fonts()[idx as int].metrics(),
                )
                &&& final(self).cache().fonts()[idx as int].strategy() == old(self).strategy()
                &&& cloned(
                    old(self).provider().unwrap(),
                    final(self).cache().fonts()[idx as int].provider(),
                )
                &&& (old(self).cache().has_key(key_of(request@, pixel_size)) ==> {
                    &&& final(self).cache().keys() == old(self).cache().keys()
                    &&& final(self).cache().fonts() == old(self).cache().fonts()
                })
                &&& (!old(self).cache().has_key(key_of(request@, pixel_size)) ==> {
                    &&& idx == old(self).cache().keys().len()
                    &&& final(self).cache().keys() == old(self).cache().keys().push(
                        key_of(request@, pixel_size),
                    )
                    &&& final(self).cache().fonts().take(idx as int) == old(self).cache().fonts()
                    &&& final(self).cache().fonts()[idx as int].request() == request@
                    &&& final(self).cache().fonts()[idx as int].pixel_size() == pixel_size
                    &&& final(self).cache().fonts()[idx as int].glyph_cache().entries.len() == 0
                    &&& final(self).cache().fonts()[idx as int].glyph_cache().max_bytes
                        == old(self).cache().glyph_cache_bytes()
                })
            },
    {
        if !supported {
            return None;
        }
        match &self.glyph_provider {
            None => None,
            Some(provider) => {
                let provider = provider.clone();
                let ghost old_fonts = self.dynamic_font_cache.fonts();
                let idx = self.dynamic_font_cache.get_or_create(
                    provider,
                    request,
                    pixel_size,
                    self.glyph_id_strategy,
                );
                proof {
                    assert forall|i: int|
                        0 <= i < self.cache().fonts().len() implies {
                        &&& (#[trigger] self.cache().fonts()[i]).strategy() == self.strategy()
                        &&& self.provider() is Some
                        &&& cloned(self.provider().unwrap(), self.cache().fonts()[i].provider())
                    } by {
                        if i < old_fonts.len() {
                            assert(self.cache().fonts()[i] == old_fonts[i]);
                        }
                    }
                }
                Some(idx)
            },
        }
    }

    /// The dynamic font for `request` at the physical `pixel_size`, when a
    /// provider is registered and reports that it supports the request.
    pub fn match_font(&mut self, request: &FontRequest, pixel_size: i16) -> (r: Option<usize>)
        requires
            old(self).wf(),
        ensures
            final(self).wf(),
            final(self).provider() == old(self).provider(),
            final(self).strategy() == old(self).strategy(),
            final(self).cache().glyph_cache_bytes() == old(self).cache().glyph_cache_bytes(),
            old(self).provider() is None ==> r is None,
            r is None ==> final(self).cache() == old(self).cache(),
            old(self).provider() matches Some(p) ==> p.supported(request@, r is Some),
            r matches Some(idx) ==> {
                &&& old(self).provider() is Some
                &&& idx < final(self).cache().keys().len()
                &&& final(self).cache().keys()[idx as int] == key_of(request@, pixel_size)
                &&& key_of(
                    final(self).cache().fonts()[idx as int].request(),
                    final(self).cache().fonts()[idx as int].pixel_size(),
                ) == key_of(request@, pixel_size)
                &&& final(self).cache().fonts()[idx as int].request().family == request@.family
                &&& final(self).cache().fonts()[idx as int].request().weight == request@.weight
                &&& final(self).cache().fonts()[idx as int].request().italic == request@.italic
                &&& final(self).cache().fonts()[idx as int].pixel_size() == pixel_size
                &&& final(self).cache().fonts()[idx as int].provider().metrics_for(
                    final(self).cache().fonts()[idx as int].request(),
                    pixel_size_u16_of(pixel_size),
                    final(self).cache().fonts()[idx as int].metrics(),
                )
                &&& final(self).cache().fonts()[idx as int].strategy() == old(self).strategy()
                &&& cloned(
                    old(self).provider().unwrap(),
                    final(self).cache().fonts()[idx as int].provider(),
                )
                &&& (old(self).cache().has_key(key_of(request@, pixel_size)) ==> {
                    &&& final(self).cache().keys() == old(self).cache().keys()
                    &&& final(self).cache().fonts() == old(self).cache().fonts()
                })
                &&& (!old(self).cache().has_key(key_of(request@, pixel_size)) ==> {
                    &&& idx == old(self).cache().keys().len()
                    &&& final(self).cache().keys() == old(self).cache().keys().push(
                        key_of(request@, pixel_size),
                    )
                    &&& final(self).cache().fonts().take(idx as int) == old(self).cache().fonts()
                    &&& final(self).cache().fonts()[idx as int].request() == request@
                    &&& final(self).cache().fonts()[idx as int].pixel_size() == pixel_size
                    &&& final(self).cache().fonts()[idx as int].glyph_cache().entries.len() == 0
                    &&& final(self).cache().fonts()[idx as int].glyph_cache().max_bytes
                        == old(self).cache().glyph_cache_bytes()
                })
            },
    {
        let supported = match &self.glyph_provider {
            Some(provider) => provider.supports(request),
            None => false,
        };
        self.select_font(request, pixel_size, supported)
    }

    /// The number of dynamic fonts made so far.
    pub fn font_count(&self) -> (r: usize)
        ensures
            r == self.cache().keys().len(),
    {
        self.dynamic_font_cache.len()
    }

    /// The dynamic font at `idx`, as `select_font` or `match_font` returned it.
    pub fn font(&self, idx: usize) -> (r: &DynamicFont<P>)
        requires
            idx < self.cache().keys().len(),
        ensures
            *r == self.cache().fonts()[idx as int],
    {
        self.dynamic_font_cache.font(idx)
    }

    proof fn lemma_font_changed(before: Self, after: Self, idx: int)
        requires
            before.wf(),
            0 <= idx < before.cache().keys().len(),
            after.provider() == before.provider(),
            after.strategy() == before.strategy(),
            after.cache().wf(),
            after.cache().only_font_changed(&before.cache(), idx),
        ensures
            after.wf(),
    {
        assert forall|i: int| 0 <= i < after.cache().fonts().len() implies {
            &&& (#[trigger] after.cache().fonts()[i]).strategy() == after.strategy()
            &&& after.provider() is Some
            &&& cloned(after.provider().unwrap(), after.cache().fonts()[i].provider())
        } by {
            if i != idx {
                assert(after.cache().fonts()[i] == before.cache().fonts()[i]);
            } else {
                assert(after.cache().fonts()[i].same_font(&before.cache().fonts()[i]));
            }
        }
    }

    /// The bitmap of a glyph of the dynamic font at `idx`.
    pub fn glyph_bitmap(&mut self, idx: usize, glyph_id: GlyphId) -> (r: ProviderGlyphBitmap)
        requires
            old(self).wf(),
            idx < old(self).cache().keys().len(),
        ensures
            final(self).wf(),
            final(self).provider() == old(self).provider(),
            final(self).strategy() == old(self).strategy(),
            final(self).cache().only_font_changed(&old(self).cache(), idx as int),
            glyph_bitmap_done(
                old(self).cache().fonts()[idx as int],
                final(self).cache().fonts()[idx as int],
                glyph_id, r@,
            ),
    {
        let ghost before = *self;
        let r = self.dynamic_font_cache.glyph_bitmap(idx, glyph_id);
        proof {
            Self::lemma_font_changed(before, *self, idx as int);
        }
        r
    }

    /// The glyph of `ch` in the dynamic font at `idx`.
    pub fn glyph_for_char(&mut self, idx: usize, ch: char) -> (r: Option<ShapedGlyph>)
        requires
            old(self).wf(),
            idx < old(self).cache().keys().len(),
        ensures
            final(self).wf(),
            final(self).provider() == old(self).provider(),
            final(self).strategy() == old(self).strategy(),
            final(self).cache().only_font_changed(&old(self).cache(), idx as int),
            glyph_for_char_done(
                old(self).cache().fonts()[idx as int],
                final(self).cache().fonts()[idx as int],
                ch, r,
            ),
    {
        let ghost before = *self;
        let r = self.dynamic_font_cache.glyph_for_char(idx, ch);
        proof {
            Self::lemma_font_changed(before, *self, idx as int);
        }
        r
    }

    /// Shapes `text` with the dynamic font at `idx`.
    pub fn shape_text(&mut self, idx: usize, text: &str) -> (r: Vec<ShapedGlyph>)
        requires
            old(self).wf(),
            idx < old(self).cache().keys().len(),
            encode_utf8(text@).len() <= usize::MAX,
        ensures
            final(self).wf(),
            final(self).provider() == old(self).provider(),
            final(self).strategy() == old(self).strategy(),
            final(self).cache().only_font_changed(&old(self).cache(), idx as int),
            shape_text_done(
                old(self).cache().fonts()[idx as int],
                final(self).cache().fonts()[idx as int],
                text@, r@,
            ),
    {
        let ghost before = *self;
        let r = self.dynamic_font_cache.shape_text(idx, text);
        proof {
            Self::lemma_font_changed(before, *self, idx as int);
        }
        r
    }

    /// The glyph ready for drawing in the dynamic font at `idx`.
    pub fn render_glyph(&mut self, idx: usize, glyph_id: GlyphId) -> (r: Option<RenderableGlyph>)
        requires
            old(self).wf(),
            idx < old(self).cache().keys().len(),
        ensures
            final(self).wf(),
            final(self).provider() == old(self).provider(),
            final(self).strategy() == old(self).strategy(),
            final(self).cache().only_font_changed(&old(self).cache(), idx as int),
            render_glyph_done(
                old(self).cache().fonts()[idx as int],
                final(self).cache().fonts()[idx as int],
                glyph_id, renderable_value(r),
            ),
    {
        let ghost before = *self;
        let r = self.dynamic_font_cache.render_glyph(idx, glyph_id);
        proof {
            Self::lemma_font_changed(before, *self, idx as int);
        }
        r
    }
}

} // verus!
