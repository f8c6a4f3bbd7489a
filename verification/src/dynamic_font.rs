use vstd::prelude::*;
use vstd::std_specs::iter::IteratorSpec;
use vstd::utf8::encode_utf8;

use crate::glyph_cache::{
    CacheEntryModel, GlyphBitmapCache, GlyphCacheModel, lemma_access_keeps, run_accesses,
};
use crate::glyph_provider::{
    BitmapModel, FontRequest, FontRequestModel, GlyphAlphaMap, GlyphId, GlyphIdStrategy,
    GlyphProvider, ProviderFontMetrics, ProviderGlyphBitmap, clone_family, glyph_value,
};
use crate::text::{char_utf8_len, lemma_utf8_prefix_step, utf8_prefix_len};

verus! {

/// The glyph bitmap budget, in bytes, of the fonts of a new cache.
pub const DEFAULT_GLYPH_CACHE_BYTES: usize = 64 * 1024;

/// The provider size of a pixel size: non-positive sizes become zero.
pub open spec fn pixel_size_u16_of(pixel_size: i16) -> u16 {
    if pixel_size <= 0 {
        0
    } else {
        pixel_size as u16
    }
}

/// Converts a pixel size to the size handed to a provider; non-positive sizes become zero.
pub fn pixel_size_to_u16(pixel_size: i16) -> (r: u16)
    ensures
        r == pixel_size_u16_of(pixel_size),
{
    let px: i16 = pixel_size;
    if px <= 0 {
        0
    } else {
        px as u16
    }
}

/// The glyph id that the BMP strategy gives a character: its code point, when
/// that is in U+0001..=U+FFFF.
pub open spec fn bmp_glyph_value(ch: char) -> Option<u16> {
    if (ch as u32) == 0 || (ch as u32) > 0xFFFF {
        None
    } else {
        Some((ch as u32) as u16)
    }
}

/// The BMP strategy gives every character of U+0001..=U+FFFF its own code
/// point as glyph id, and no glyph id to U+0000 or to a character beyond the BMP.
pub proof fn lemma_bmp_glyph_is_code_point(ch: char)
    ensures
        bmp_glyph_value(ch) is Some <==> 1 <= (ch as u32) && (ch as u32) <= 0xFFFF,
        bmp_glyph_value(ch) matches Some(v) ==> v as u32 == ch as u32,
{
}

/// Uses the code point of `ch` as its glyph id when it lies in U+0001..=U+FFFF.
pub fn bmp_codepoint_glyph_id(ch: char) -> (r: Option<GlyphId>)
    ensures
        glyph_value(r) == bmp_glyph_value(ch),
        r is Some <==> 1 <= (ch as u32) && (ch as u32) <= 0xFFFF,
        r matches Some(g) ==> g.value() as u32 == ch as u32,
{
    let codepoint: u32 = ch as u32;
    if codepoint == 0 || codepoint > 0xFFFF {
        None
    } else {
        GlyphId::new(codepoint as u16)
    }
}

/// What identifies a dynamic font: the request's family, weight and style,
/// and the pixel size.
pub struct FontKeyModel {
    pub family: Option<Seq<char>>,
    pub weight: Option<i32>,
    pub italic: bool,
    pub pixel_size: i16,
}

/// The key of a request at a pixel size.
pub open spec fn key_of(request: FontRequestModel, pixel_size: i16) -> FontKeyModel {
    FontKeyModel {
        family: request.family,
        weight: request.weight,
        italic: request.italic,
        pixel_size,
    }
}

/// Two requests at two pixel sizes share a key exactly when they ask for the
/// same family, weight and style at the same pixel size.
pub proof fn lemma_key_identifies(a: FontRequestModel, a_size: i16, b: FontRequestModel, b_size: i16)
    ensures
        key_of(a, a_size) == key_of(b, b_size) <==> {
            &&& a.family == b.family
            &&& a.weight == b.weight
            &&& a.italic == b.italic
            &&& a_size == b_size
        },
{
}

struct DynamicFontKey {
    family: Option<String>,
    weight: Option<i32>,
    italic: bool,
    pixel_size: i16,
}

impl View for DynamicFontKey {
    type V = FontKeyModel;

    closed spec fn view(&self) -> FontKeyModel {
        FontKeyModel {
            family: match self.family {
                Some(f) => Some(f@),
                None => None,
            },
            weight: self.weight,
            italic: self.italic,
            pixel_size: self.pixel_size,
        }
    }
}

impl DynamicFontKey {
    fn new(request: &FontRequest, pixel_size: i16) -> (r: Self)
        ensures
            r@ == key_of(request@, pixel_size),
    {
        DynamicFontKey {
            family: clone_family(&request.family),
            weight: request.weight,
            italic: request.italic,
            pixel_size,
        }
    }

    fn same(&self, other: &Self) -> (r: bool)
        ensures
            r == (self@ == other@),
    {
        let family_same = match (&self.family, &other.family) {
            (Some(a), Some(b)) => *a == *b,
            (None, None) => true,
            _ => false,
        };
        let weight_same = match (self.weight, other.weight) {
            (Some(a), Some(b)) => a == b,
            (None, None) => true,
            _ => false,
        };
        family_same && weight_same && self.italic == other.italic && self.pixel_size
            == other.pixel_size
    }
}

struct DynamicFontData<P> {
    request: FontRequest,
    pixel_size: i16,
    provider: P,
    strategy: GlyphIdStrategy,
    metrics: ProviderFontMetrics,
    glyph_cache: GlyphBitmapCache,
}

impl<P: GlyphProvider> DynamicFontData<P> {
    fn pixel_size_u16(&self) -> (r: u16)
        ensures
            r == pixel_size_u16_of(self.pixel_size),
    {
        pixel_size_to_u16(self.pixel_size)
    }

    fn glyph_id_for_char(&self, ch: char) -> (r: Option<GlyphId>)
        ensures
            self.strategy == GlyphIdStrategy::BmpCodepoint ==> glyph_value(r) == bmp_glyph_value(
                ch,
            ),
            self.strategy == GlyphIdStrategy::DynamicAssignment ==> self.provider.assigned(
                self.request@,
                ch,
                GlyphIdStrategy::DynamicAssignment,
                glyph_value(r),
            ),
    {
        match self.strategy {
            GlyphIdStrategy::BmpCodepoint => bmp_codepoint_glyph_id(ch),
            GlyphIdStrategy::DynamicAssignment => self.provider.glyph_id_for_char(
                &self.request,
                ch,
                self.strategy,
            ),
        }
    }
}

/// One glyph of shaped text.
#[derive(Clone, Copy, Debug)]
pub struct ShapedGlyph {
    /// The glyph, or `None` for a character that has none.
    pub glyph_id: Option<GlyphId>,
    /// The horizontal advance in pixels.
    pub advance: i16,
    /// The byte offset in the text of the character that produced the glyph.
    pub text_byte_offset: usize,
}

/// The glyph id of an optional shaped glyph.
pub open spec fn shaped_id(glyph: Option<ShapedGlyph>) -> Option<GlyphId> {
    match glyph {
        Some(g) => g.glyph_id,
        None => None,
    }
}

/// The provider renders at most one bitmap for the request, glyph and size.
pub open spec fn renders_uniquely<P: GlyphProvider>(
    provider: P,
    request: FontRequestModel,
    glyph_id: u16,
    px_size: u16,
) -> bool {
    forall|b1: BitmapModel, b2: BitmapModel|
        #![trigger provider.rendered(request, glyph_id, px_size, b1), provider.rendered(request, glyph_id, px_size, b2)]
        provider.rendered(request, glyph_id, px_size, b1) && provider.rendered(
            request,
            glyph_id,
            px_size,
            b2,
        ) ==> b1 == b2
}

/// What `glyph_bitmap` does: `after` is the font once it has returned `r`
/// for `glyph_id`. A hit returns the cached bitmap, a miss what the provider
/// renders; either way the bitmap is one the provider rendered for the font's
/// request, the glyph and the provider size, and it is then cached (unless
/// the budget is zero).
pub open spec fn glyph_bitmap_done<P: GlyphProvider>(
    before: DynamicFont<P>,
    after: DynamicFont<P>,
    glyph_id: GlyphId,
    r: BitmapModel,
) -> bool {
    &&& after.wf()
    &&& after.same_font(&before)
    &&& (before.glyph_cache().lookup(glyph_id.value()) matches Some(b) ==> r == b)
    &&& after.glyph_cache() == before.glyph_cache().access(glyph_id.value(), r)
    &&& (after.glyph_cache().max_bytes > 0 ==> after.glyph_cache().lookup(glyph_id.value())
        == Some(r))
    &&& before.provider().rendered(before.request(), glyph_id.value(), before.provider_size(), r)
}

/// What `glyph_for_char` does: `after` is the font once it has returned `r`
/// for `ch`. The glyph id is the code point under the BMP strategy and the
/// provider's under dynamic assignment; without one there is no glyph and the
/// cache is untouched; with one, the advance is that of the bitmap that
/// `glyph_bitmap` yields for it.
pub open spec fn glyph_for_char_done<P: GlyphProvider>(
    before: DynamicFont<P>,
    after: DynamicFont<P>,
    ch: char,
    r: Option<ShapedGlyph>,
) -> bool {
    &&& after.wf()
    &&& after.same_font(&before)
    &&& (before.strategy() == GlyphIdStrategy::BmpCodepoint ==> glyph_value(shaped_id(r))
        == bmp_glyph_value(ch))
    &&& (before.strategy() == GlyphIdStrategy::DynamicAssignment ==> before.provider().assigned(
        before.request(),
        ch,
        GlyphIdStrategy::DynamicAssignment,
        glyph_value(shaped_id(r)),
    ))
    &&& (r is None ==> after.glyph_cache() == before.glyph_cache())
    &&& (r matches Some(g) ==> {
        &&& g.glyph_id is Some
        &&& g.text_byte_offset == 0
        &&& exists|b: BitmapModel|
            #![trigger before.glyph_cache().access(g.glyph_id.unwrap().value(), b)]
            {
                &&& after.glyph_cache() == before.glyph_cache().access(
                    g.glyph_id.unwrap().value(),
                    b,
                )
                &&& g.advance == b.advance
                &&& (before.glyph_cache().lookup(g.glyph_id.unwrap().value()) matches Some(c)
                    ==> b == c)
                &&& before.provider().rendered(
                    before.request(),
                    g.glyph_id.unwrap().value(),
                    before.provider_size(),
                    b,
                )
            }
    })
}

/// What `shape_text` does: `after` is the font once it has shaped `text` into
/// `r`. One glyph per character with its UTF-8 byte offset; ids as in
/// `glyph_for_char`; a character without an id advances by the pixel size;
/// the others advance by the bitmaps of a run of glyph cache accesses, each
/// one the provider rendered.
pub open spec fn shape_text_done<P: GlyphProvider>(
    before: DynamicFont<P>,
    after: DynamicFont<P>,
    text: Seq<char>,
    r: Seq<ShapedGlyph>,
) -> bool {
    &&& after.wf()
    &&& after.same_font(&before)
    &&& r.len() == text.len()
    &&& forall|i: int|
        0 <= i < r.len() ==> (#[trigger] r[i]).text_byte_offset == utf8_prefix_len(text, i)
    &&& forall|i: int|
        0 <= i < r.len() ==> (#[trigger] r[i]).glyph_id is None ==> r[i].advance
            == before.pixel_size()
    &&& (before.strategy() == GlyphIdStrategy::BmpCodepoint ==> forall|i: int|
        0 <= i < r.len() ==> glyph_value((#[trigger] r[i]).glyph_id) == bmp_glyph_value(text[i]))
    &&& (before.strategy() == GlyphIdStrategy::DynamicAssignment ==> forall|i: int|
        0 <= i < r.len() ==> before.provider().assigned(
            before.request(),
            text[i],
            GlyphIdStrategy::DynamicAssignment,
            glyph_value((#[trigger] r[i]).glyph_id),
        ))
    &&& exists|bitmaps: Seq<BitmapModel>|
        #![trigger run_accesses(before.glyph_cache(), shaped_ids(r), bitmaps)]
        {
            &&& bitmaps.len() == r.len()
            &&& run_accesses(before.glyph_cache(), shaped_ids(r), bitmaps) == Some(
                after.glyph_cache(),
            )
            &&& forall|i: int|
                0 <= i < r.len() ==> (#[trigger] r[i]).glyph_id is Some ==> r[i].advance
                    == bitmaps[i].advance
            &&& forall|i: int|
                0 <= i < r.len() ==> (#[trigger] r[i]).glyph_id is Some
                    ==> before.provider().rendered(
                    before.request(),
                    r[i].glyph_id.unwrap().value(),
                    before.provider_size(),
                    bitmaps[i],
                )
        }
}

/// What `render_glyph` does: `after` is the font once it has returned `r` for
/// `glyph_id`. `r` is what the bitmap that `glyph_bitmap` yields renders as;
/// when the provider renders at most one bitmap for the glyph, `r` is what
/// that bitmap renders as, whatever the cache held.
pub open spec fn render_glyph_done<P: GlyphProvider>(
    before: DynamicFont<P>,
    after: DynamicFont<P>,
    glyph_id: GlyphId,
    r: Option<RenderableModel>,
) -> bool {
    &&& after.wf()
    &&& after.same_font(&before)
    &&& exists|b: BitmapModel|
        #![trigger before.glyph_cache().access(glyph_id.value(), b)]
        {
            &&& after.glyph_cache() == before.glyph_cache().access(glyph_id.value(), b)
            &&& r == renderable_of(b)
            &&& (before.glyph_cache().lookup(glyph_id.value()) matches Some(c) ==> b == c)
            &&& before.provider().rendered(
                before.request(),
                glyph_id.value(),
                before.provider_size(),
                b,
            )
        }
    &&& (renders_uniquely(
        before.provider(),
        before.request(),
        glyph_id.value(),
        before.provider_size(),
    ) ==> forall|b: BitmapModel|
        #[trigger] before.provider().rendered(
            before.request(),
            glyph_id.value(),
            before.provider_size(),
            b,
        ) ==> r == renderable_of(b))
}

/// The glyph ids of shaped glyphs, by value.
pub open spec fn shaped_ids(glyphs: Seq<ShapedGlyph>) -> Seq<Option<u16>> {
    glyphs.map_values(|g: ShapedGlyph| glyph_value(g.glyph_id))
}

/// A glyph ready for drawing.
#[derive(Debug)]
pub struct RenderableGlyph {
    /// Horizontal bearing in 1/256 pixel units.
    pub x: i32,
    /// Vertical bearing in 1/256 pixel units.
    pub y: i32,
    /// Width in pixels, positive.
    pub width: i16,
    /// Height in pixels, positive.
    pub height: i16,
    /// The coverage bytes.
    pub alpha_map: GlyphAlphaMap,
    /// Bytes per row of the alpha map.
    pub pixel_stride: u16,
    /// True if the alpha map holds signed distance field data.
    pub sdf: bool,
}

/// The mathematical content of a renderable glyph.
pub struct RenderableModel {
    pub x: i32,
    pub y: i32,
    pub width: i16,
    pub height: i16,
    pub alpha_map: Seq<u8>,
    pub pixel_stride: u16,
    pub sdf: bool,
}

impl View for RenderableGlyph {
    type V = RenderableModel;

    open spec fn view(&self) -> RenderableModel {
        RenderableModel {
            x: self.x,
            y: self.y,
            width: self.width,
            height: self.height,
            alpha_map: self.alpha_map@,
            pixel_stride: self.pixel_stride,
            sdf: self.sdf,
        }
    }
}

/// What a bitmap renders as: nothing when it has no pixels, else its box
/// with the bearings in 1/256 pixel units.
pub open spec fn renderable_of(b: BitmapModel) -> Option<RenderableModel> {
    if b.has_no_pixels() {
        None
    } else {
        Some(
            RenderableModel {
                x: (b.x * 256) as i32,
                y: (b.y * 256) as i32,
                width: b.width,
                height: b.height,
                alpha_map: b.alpha_map,
                pixel_stride: b.pixel_stride,
                sdf: b.sdf,
            },
        )
    }
}

/// A bitmap renders as nothing exactly when it has no width, no height or no
/// coverage bytes; otherwise as its own box, alpha map, stride and distance
/// field flag, with the bearings scaled to 1/256 pixel units.
pub proof fn lemma_renderable_keeps_bitmap(b: BitmapModel)
    ensures
        renderable_of(b) is None <==> (b.width <= 0 || b.height <= 0 || b.alpha_map.len() == 0),
        renderable_of(b) matches Some(g) ==> {
            &&& g.x == b.x * 256
            &&& g.y == b.y * 256
            &&& g.width == b.width
            &&& g.height == b.height
            &&& g.alpha_map == b.alpha_map
            &&& g.pixel_stride == b.pixel_stride
            &&& g.sdf == b.sdf
        },
{
}

/// The renderable form of an optional glyph, by value.
pub open spec fn renderable_value(r: Option<RenderableGlyph>) -> Option<RenderableModel> {
    match r {
        Some(g) => Some(g@),
        None => None,
    }
}

/// `a / b` rounded toward zero.
pub open spec fn div_toward_zero(a: int, b: int) -> int {
    let q: int = (if a < 0 { -a } else { a }) / (if b < 0 { -b } else { b });
    if (a < 0) == (b < 0) {
        q
    } else {
        -q
    }
}

/// Division rounded toward zero leaves a remainder `a - q * b` with the sign
/// of `a` and smaller in size than `b`; for non-negative `a` and positive
/// `b`, `q` is the number of whole `b`s in `a`.
pub proof fn lemma_div_toward_zero_remainder(a: int, b: int)
    requires
        b != 0,
    ensures
        a >= 0 ==> 0 <= a - div_toward_zero(a, b) * b && a - div_toward_zero(a, b) * b < if b < 0 {
            -b
        } else {
            b
        },
        a < 0 ==> a - div_toward_zero(a, b) * b <= 0 && -(if b < 0 {
            -b
        } else {
            b
        }) < a - div_toward_zero(a, b) * b,
        a >= 0 && b > 0 ==> div_toward_zero(a, b) * b <= a && a < (div_toward_zero(a, b) + 1) * b,
{
    let aa: int = if a < 0 { -a } else { a };
    let ab: int = if b < 0 { -b } else { b };
    let q: int = aa / ab;
    assert(0 <= aa - q * ab < ab) by (nonlinear_arith)
        requires
            aa >= 0,
            ab > 0,
            q == aa / ab,
    {
    }
    let d = div_toward_zero(a, b);
    if (a < 0) == (b < 0) {
        assert(d == q);
        if b < 0 {
            assert(d * b == -(q * ab)) by (nonlinear_arith)
                requires
                    ab == -b,
                    d == q,
            {
            }
        } else {
            assert(d * b == q * ab);
        }
    } else {
        assert(d == -q);
        if b < 0 {
            assert(d * b == q * ab) by (nonlinear_arith)
                requires
                    ab == -b,
                    d == -q,
            {
            }
        } else {
            assert(d * b == -(q * ab)) by (nonlinear_arith)
                requires
                    ab == b,
                    d == -q,
            {
            }
        }
    }
    assert((d + 1) * b == d * b + b) by (nonlinear_arith);
}

/// A font whose glyphs come from a glyph provider, with its own glyph bitmap cache.
pub struct DynamicFont<P> {
    data: DynamicFontData<P>,
}

impl<P: GlyphProvider> DynamicFont<P> {
    /// The request the font was made for.
    pub closed spec fn request(&self) -> FontRequestModel {
        self.data.request@
    }

    /// The pixel size of the font.
    pub closed spec fn pixel_size(&self) -> i16 {
        self.data.pixel_size
    }

    /// The provider of the font's glyphs.
    pub closed spec fn provider(&self) -> P {
        self.data.provider
    }

    /// How the font assigns glyph ids.
    pub closed spec fn strategy(&self) -> GlyphIdStrategy {
        self.data.strategy
    }

    /// The metrics the provider gave for the font.
    pub closed spec fn metrics(&self) -> ProviderFontMetrics {
        self.data.metrics
    }

    /// The state of the font's glyph bitmap cache.
    pub closed spec fn glyph_cache(&self) -> GlyphCacheModel {
        self.data.glyph_cache@
    }

    /// The size handed to the provider: the pixel size, or zero when that is not positive.
    pub open spec fn provider_size(&self) -> u16 {
        pixel_size_u16_of(self.pixel_size())
    }

    /// Every cached bitmap is one the provider rendered for the font's
    /// request, its glyph and the provider size.
    pub open spec fn cache_rendered(&self) -> bool {
        forall|i: int|
            0 <= i < self.glyph_cache().entries.len() ==> self.provider().rendered(
                self.request(),
                (#[trigger] self.glyph_cache().entries[i]).glyph_id,
                self.provider_size(),
                self.glyph_cache().entries[i].bitmap,
            )
    }

    /// The glyph cache is well formed and holds only bitmaps the provider
    /// rendered for this font, and the metrics are the provider's for the
    /// font's request at the provider size.
    pub open spec fn wf(&self) -> bool {
        &&& self.glyph_cache().wf()
        &&& self.cache_rendered()
        &&& self.provider().metrics_for(self.request(), self.provider_size(), self.metrics())
    }

    /// Everything but the glyph cache is as in `other`.
    pub open spec fn same_font(&self, other: &Self) -> bool {
        &&& self.request() == other.request()
        &&& self.pixel_size() == other.pixel_size()
        &&& self.provider() == other.provider()
        &&& self.strategy() == other.strategy()
        &&& self.metrics() == other.metrics()
    }

    /// Makes the font for `request` at `pixel_size`, asking `provider` for its
    /// metrics at the provider size of `pixel_size`, with an empty glyph cache
    /// of `glyph_cache_bytes` bytes.
    pub fn new(
        provider: P,
        request: &FontRequest,
        pixel_size: i16,
        strategy: GlyphIdStrategy,
        glyph_cache_bytes: usize,
    ) -> (r: Self)
        ensures
            r.wf(),
            r.request() == request@,
            r.pixel_size() == pixel_size,
            r.provider() == provider,
            r.strategy() == strategy,
            r.glyph_cache().entries.len() == 0,
            r.glyph_cache().current_bytes == 0,
            r.glyph_cache().max_bytes == glyph_cache_bytes,
            provider.metrics_for(request@, pixel_size_u16_of(pixel_size), r.metrics()),
    {
        let px_size: u16 = pixel_size_to_u16(pixel_size);
        let metrics = provider.font_metrics(request, px_size);
        DynamicFont {
            data: DynamicFontData {
                request: request.clone(),
                pixel_size,
                provider,
                strategy,
                metrics,
                glyph_cache: GlyphBitmapCache::new(glyph_cache_bytes),
            },
        }
    }

    /// The glyph id of `ch`: its code point under the BMP strategy, else what the provider assigns.
    pub fn glyph_id_for_char(&self, ch: char) -> (r: Option<GlyphId>)
        ensures
            self.strategy() == GlyphIdStrategy::BmpCodepoint ==> glyph_value(r)
                == bmp_glyph_value(ch),
            self.strategy() == GlyphIdStrategy::DynamicAssignment ==> self.provider().assigned(
                self.request(),
                ch,
                GlyphIdStrategy::DynamicAssignment,
                glyph_value(r),
            ),
    {
        self.data.glyph_id_for_char(ch)
    }

    /// The bitmap of a glyph, from the glyph cache or else rendered by the
    /// provider at the font's request and provider size (and then cached).
    pub fn glyph_bitmap(&mut self, glyph_id: GlyphId) -> (r: ProviderGlyphBitmap)
        requires
            old(self).wf(),
        ensures
            glyph_bitmap_done(*old(self), *final(self), glyph_id, r@),
    {
        let ghost before = *self;
        let px: u16 = self.data.pixel_size_u16();
        let provider = &self.data.provider;
        let request = &self.data.request;
        let render = || -> (b: ProviderGlyphBitmap)
            ensures
                provider.rendered(request@, glyph_id.value(), px, b@),
            {
                provider.render_glyph(request, glyph_id, px)
            };
        let r = self.data.glyph_cache.get_or_insert_with(glyph_id, render);
        proof {
            let m = before.glyph_cache();
            let pred = |e: CacheEntryModel|
                before.provider().rendered(
                    before.request(),
                    e.glyph_id,
                    before.provider_size(),
                    e.bitmap,
                );
            if m.contains(glyph_id.value()) {
                let q: int = m.position(glyph_id.value());
                assert(pred(m.entries[q]));
            }
            assert forall|i: int| 0 <= i < m.entries.len() implies pred(#[trigger] m.entries[i]) by {
                assert(before.provider().rendered(
                    before.request(),
                    m.entries[i].glyph_id,
                    before.provider_size(),
                    m.entries[i].bitmap,
                ));
            }
            lemma_access_keeps(m, glyph_id.value(), r@, pred);
            assert forall|i: int| 0 <= i < self.glyph_cache().entries.len() implies self.provider().rendered(
                self.request(),
                (#[trigger] self.glyph_cache().entries[i]).glyph_id,
                self.provider_size(),
                self.glyph_cache().entries[i].bitmap,
            ) by {
                assert(pred(self.glyph_cache().entries[i]));
            }
        }
        r
    }

    /// The advance of a character without a glyph: the pixel size.
    pub fn default_advance(&self) -> (r: i16)
        ensures
            r == self.pixel_size(),
    {
        self.data.pixel_size
    }

    /// The glyph of `ch` with its advance, or `None` when the character has no glyph.
    pub fn glyph_for_char(&mut self, ch: char) -> (r: Option<ShapedGlyph>)
        requires
            old(self).wf(),
        ensures
            glyph_for_char_done(*old(self), *final(self), ch, r),
    {
        let glyph_id = match self.data.glyph_id_for_char(ch) {
            Some(id) => id,
            None => return None,
        };
        let bitmap = self.glyph_bitmap(glyph_id);
        Some(ShapedGlyph { glyph_id: Some(glyph_id), advance: bitmap.advance, text_byte_offset: 0 })
    }

    /// Shapes `text`: one glyph per character, in order, with the byte offset of
    /// the character; a character without a glyph advances by the pixel size.
    pub fn shape_text(&mut self, text: &str) -> (r: Vec<ShapedGlyph>)
        requires
            old(self).wf(),
            encode_utf8(text@).len() <= usize::MAX,
        ensures
            shape_text_done(*old(self), *final(self), text@, r@),
    {
        broadcast use vstd::string::axiom_spec_iter, vstd::string::next_postcondition;

        let mut glyphs: Vec<ShapedGlyph> = Vec::new();
        let mut chars = text.chars();
        let mut byte_offset: usize = 0;
        let ghost start = *self;
        let ghost mut bitmaps: Seq<BitmapModel> = Seq::empty();
        proof {
            assert(shaped_ids(glyphs@) =~= Seq::<Option<u16>>::empty());
            assert(text@.take(0) =~= Seq::<char>::empty());
            assert(encode_utf8(Seq::<char>::empty()) =~= Seq::<u8>::empty());
        }
        loop
            invariant
                self.wf(),
                self.same_font(&start),
                start == *old(self),
                encode_utf8(text@).len() <= usize::MAX,
                glyphs.len() <= text@.len(),
                chars.remaining() == text@.skip(glyphs.len() as int),
                byte_offset == utf8_prefix_len(text@, glyphs.len() as int),
                forall|i: int|
                    0 <= i < glyphs.len() ==> (#[trigger] glyphs[i]).text_byte_offset
                        == utf8_prefix_len(text@, i),
                forall|i: int|
                    0 <= i < glyphs.len() ==> (#[trigger] glyphs[i]).glyph_id is None
                        ==> glyphs[i].advance == start.pixel_size(),
                start.strategy() == GlyphIdStrategy::BmpCodepoint ==> forall|i: int|
                    0 <= i < glyphs.len() ==> glyph_value((#[trigger] glyphs[i]).glyph_id)
                        == bmp_glyph_value(text@[i]),
                bitmaps.len() == glyphs.len(),
                run_accesses(start.glyph_cache(), shaped_ids(glyphs@), bitmaps) == Some(
                    self.glyph_cache(),
                ),
                forall|i: int|
                    0 <= i < glyphs.len() ==> (#[trigger] glyphs[i]).glyph_id is Some
                        ==> glyphs[i].advance == bitmaps[i].advance,
                forall|i: int|
                    0 <= i < glyphs.len() ==> (#[trigger] glyphs[i]).glyph_id is Some
                        ==> start.provider().rendered(
                        start.request(),
                        glyphs[i].glyph_id.unwrap().value(),
                        start.provider_size(),
                        bitmaps[i],
                    ),
                start.strategy() == GlyphIdStrategy::DynamicAssignment ==> forall|i: int|
                    0 <= i < glyphs.len() ==> start.provider().assigned(
                        start.request(),
                        text@[i],
                        GlyphIdStrategy::DynamicAssignment,
                        glyph_value((#[trigger] glyphs[i]).glyph_id),
                    ),
            ensures
                glyphs.len() == text@.len(),
                self.wf(),
                self.same_font(&start),
                forall|i: int|
                    0 <= i < glyphs.len() ==> (#[trigger] glyphs[i]).text_byte_offset
                        == utf8_prefix_len(text@, i),
                forall|i: int|
                    0 <= i < glyphs.len() ==> (#[trigger] glyphs[i]).glyph_id is None
                        ==> glyphs[i].advance == start.pixel_size(),
                start.strategy() == GlyphIdStrategy::BmpCodepoint ==> forall|i: int|
                    0 <= i < glyphs.len() ==> glyph_value((#[trigger] glyphs[i]).glyph_id)
                        == bmp_glyph_value(text@[i]),
                bitmaps.len() == glyphs.len(),
                run_accesses(start.glyph_cache(), shaped_ids(glyphs@), bitmaps) == Some(
                    self.glyph_cache(),
                ),
                forall|i: int|
                    0 <= i < glyphs.len() ==> (#[trigger] glyphs[i]).glyph_id is Some
                        ==> glyphs[i].advance == bitmaps[i].advance,
                forall|i: int|
                    0 <= i < glyphs.len() ==> (#[trigger] glyphs[i]).glyph_id is Some
                        ==> start.provider().rendered(
                        start.request(),
                        glyphs[i].glyph_id.unwrap().value(),
                        start.provider_size(),
                        bitmaps[i],
                    ),
                start.strategy() == GlyphIdStrategy::DynamicAssignment ==> forall|i: int|
                    0 <= i < glyphs.len() ==> start.provider().assigned(
                        start.request(),
                        text@[i],
                        GlyphIdStrategy::DynamicAssignment,
                        glyph_value((#[trigger] glyphs[i]).glyph_id),
                    ),
            decreases text@.len() - glyphs.len(),
        {
            let next = chars.next();
            match next {
                None => {
                    proof {
                        assert(text@.skip(glyphs.len() as int).len() == 0);
                    }
                    break ;
                },
                Some(ch) => {
                    let ghost i: int = glyphs.len() as int;
                    proof {
                        assert(text@.skip(i).len() > 0);
                        assert(ch == text@[i]);
                        assert(text@.skip(i).drop_first() =~= text@.skip(i + 1));
                        lemma_utf8_prefix_step(text@, i);
                    }
                    let glyph_id = self.data.glyph_id_for_char(ch);
                    let ghost before = self.glyph_cache();
                    let ghost old_glyphs = glyphs@;
                    let ghost old_bitmaps = bitmaps;
                    let advance: i16 = match glyph_id {
                        Some(id) => {
                            let bitmap = self.glyph_bitmap(id);
                            proof {
                                bitmaps = bitmaps.push(bitmap@);
                            }
                            bitmap.advance
                        },
                        None => {
                            proof {
                                bitmaps = bitmaps.push(vstd::pervasive::arbitrary());
                            }
                            self.default_advance()
                        },
                    };
                    glyphs.push(ShapedGlyph { glyph_id, advance, text_byte_offset: byte_offset });
                    proof {
                        assert(shaped_ids(glyphs@).drop_last() =~= shaped_ids(old_glyphs));
                        assert(bitmaps.drop_last() =~= old_bitmaps);
                        assert(shaped_ids(glyphs@).last() == glyph_value(glyph_id));
                        assert(run_accesses(start.glyph_cache(), shaped_ids(old_glyphs), old_bitmaps)
                            == Some(before));
                    }
                    let width: usize = char_utf8_len(ch);
                    byte_offset = byte_offset + width;
                },
            }
        }
        glyphs
    }

    /// How many lines of the font's height fit in `max_height`: the quotient
    /// rounded toward zero, converted to `usize`.
    pub fn max_lines(&self, max_height: i16) -> (r: usize)
        requires
            i16::MIN <= self.metrics().ascent - self.metrics().descent <= i16::MAX,
            self.metrics().ascent - self.metrics().descent != 0,
            !(max_height == i16::MIN && self.metrics().ascent - self.metrics().descent == -1),
        ensures
            r == div_toward_zero(
                max_height as int,
                self.metrics().ascent - self.metrics().descent,
            ) as usize,
            max_height >= 0 && self.metrics().ascent - self.metrics().descent > 0 ==> {
                &&& r * (self.metrics().ascent - self.metrics().descent) <= max_height
                &&& max_height < (r + 1) * (self.metrics().ascent - self.metrics().descent)
            },
    {
        let height: i16 = self.height();
        let a: i32 = max_height as i32;
        let b: i32 = height as i32;
        let abs_a: i32 = if a < 0 { -a } else { a };
        let abs_b: i32 = if b < 0 { -b } else { b };
        let q: i32 = abs_a / abs_b;
        let signed: i32 = if (a < 0) == (b < 0) { q } else { -q };
        proof {
            assert(signed == div_toward_zero(a as int, b as int));
            assert(q <= abs_a) by (nonlinear_arith)
                requires
                    abs_a >= 0,
                    abs_b >= 1,
                    q == abs_a / abs_b,
            {
            }
            assert(abs_b >= 2 ==> q <= 16384) by (nonlinear_arith)
                requires
                    abs_a <= 32768,
                    abs_b >= 1,
                    q == abs_a / abs_b,
            {
            }
        }
        proof {
            lemma_div_toward_zero_remainder(a as int, b as int);
        }
        let lines: i16 = signed as i16;
        lines as usize
    }

    /// The ascent in pixels.
    pub fn ascent(&self) -> (r: i16)
        ensures
            r == self.metrics().ascent,
    {
        self.data.metrics.ascent
    }

    /// The line height in pixels: ascent minus descent.
    pub fn height(&self) -> (r: i16)
        requires
            i16::MIN <= self.metrics().ascent - self.metrics().descent <= i16::MAX,
        ensures
            r == self.metrics().ascent - self.metrics().descent,
    {
        self.data.metrics.ascent - self.data.metrics.descent
    }

    /// The descent in pixels.
    pub fn descent(&self) -> (r: i16)
        ensures
            r == self.metrics().descent,
    {
        self.data.metrics.descent
    }

    /// The x-height in pixels.
    pub fn x_height(&self) -> (r: i16)
        ensures
            r == self.metrics().x_height,
    {
        self.data.metrics.x_height
    }

    /// The cap height in pixels.
    pub fn cap_height(&self) -> (r: i16)
        ensures
            r == self.metrics().cap_height,
    {
        self.data.metrics.cap_height
    }

    /// The glyph ready for drawing, or `None` when its bitmap has no pixels.
    pub fn render_glyph(&mut self, glyph_id: GlyphId) -> (r: Option<RenderableGlyph>)
        requires
            old(self).wf(),
        ensures
            render_glyph_done(*old(self), *final(self), glyph_id, renderable_value(r)),
    {
        let glyph = self.glyph_bitmap(glyph_id);
        if glyph.is_empty() {
            return None;
        }
        let width: i16 = if glyph.width > 0 { glyph.width } else { 0 };
        let height: i16 = if glyph.height > 0 { glyph.height } else { 0 };
        if width == 0 || height == 0 {
            return None;
        }
        Some(
            RenderableGlyph {
                x: (glyph.x as i32) * 256,
                y: (glyph.y as i32) * 256,
                width,
                height,
                alpha_map: glyph.alpha_map,
                pixel_stride: glyph.pixel_stride,
                sdf: glyph.sdf,
            },
        )
    }

    /// The scale between the glyph bitmaps and the drawing, in 1/256 units: one.
    pub fn scale_delta(&self) -> (r: u16)
        ensures
            r == 256,
    {
        256
    }
}

struct FontCacheEntry<P> {
    key: DynamicFontKey,
    font: DynamicFont<P>,
}

/// The dynamic fonts made so far, one per key, and the glyph bitmap budget
/// that new fonts get.
pub struct DynamicFontCache<P> {
    entries: Vec<FontCacheEntry<P>>,
    glyph_cache_bytes: usize,
}

impl<P: GlyphProvider> Default for DynamicFontCache<P> {
    fn default() -> (r: Self)
        ensures
            r.wf(),
            r.keys().len() == 0,
            r.glyph_cache_bytes() == DEFAULT_GLYPH_CACHE_BYTES,
    {
        let r = DynamicFontCache { entries: Vec::new(), glyph_cache_bytes: DEFAULT_GLYPH_CACHE_BYTES };
        proof {
            assert(r.keys() =~= Seq::<FontKeyModel>::empty());
        }
        r
    }
}

impl<P: GlyphProvider> DynamicFontCache<P> {
    /// The keys of the cached fonts, oldest first.
    pub closed spec fn keys(&self) -> Seq<FontKeyModel> {
        self.entries@.map_values(|e: FontCacheEntry<P>| e.key@)
    }

    /// The cached fonts, in the order of `keys`.
    pub closed spec fn fonts(&self) -> Seq<DynamicFont<P>> {
        self.entries@.map_values(|e: FontCacheEntry<P>| e.font)
    }

    /// The glyph bitmap budget, in bytes, of fonts made from now on.
    pub closed spec fn glyph_cache_bytes(&self) -> nat {
        self.glyph_cache_bytes as nat
    }

    /// Keys are unique and belong to their fonts, and every font is well formed.
    pub open spec fn wf(&self) -> bool {
        &&& self.keys().len() == self.fonts().len()
        &&& forall|i: int, j: int|
            0 <= i < j < self.keys().len() ==> self.keys()[i] != self.keys()[j]
        &&& forall|i: int|
            0 <= i < self.fonts().len() ==> (#[trigger] self.fonts()[i]).wf() && self.keys()[i]
                == key_of(self.fonts()[i].request(), self.fonts()[i].pixel_size())
    }

    /// The key is cached.
    pub open spec fn has_key(&self, key: FontKeyModel) -> bool {
        exists|i: int| 0 <= i < self.keys().len() && self.keys()[i] == key
    }

    /// Drops every cached font.
    pub fn clear(&mut self)
        ensures
            final(self).wf(),
            final(self).keys().len() == 0,
            final(self).glyph_cache_bytes() == old(self).glyph_cache_bytes(),
    {
        self.entries.clear();
        proof {
            assert(self.keys() =~= Seq::<FontKeyModel>::empty());
            assert(self.fonts() =~= Seq::<DynamicFont<P>>::empty());
        }
    }

    /// Sets the glyph bitmap budget of fonts made from now on, and drops every cached font.
    pub fn set_glyph_cache_bytes(&mut self, glyph_cache_bytes: usize)
        ensures
            final(self).wf(),
            final(self).keys().len() == 0,
            final(self).glyph_cache_bytes() == glyph_cache_bytes,
    {
        self.glyph_cache_bytes = glyph_cache_bytes;
        self.clear();
    }

    /// The number of cached fonts.
    pub fn len(&self) -> (r: usize)
        ensures
            r == self.keys().len(),
    {
        self.entries.len()
    }

    /// The position of the font cached for `request` at `pixel_size`; when
    /// there is none, makes it (asking `provider` for its metrics), with
    /// `strategy` and an empty glyph cache of the current budget, and adds it last.
    pub fn get_or_create(
        &mut self,
        provider: P,
        request: &FontRequest,
        pixel_size: i16,
        strategy: GlyphIdStrategy,
    ) -> (idx: usize)
        requires
            old(self).wf(),
        ensures
            final(self).wf(),
            final(self).glyph_cache_bytes() == old(self).glyph_cache_bytes(),
            idx < final(self).keys().len(),
            final(self).keys()[idx as int] == key_of(request@, pixel_size),
            key_of(final(self).fonts()[idx as int].request(), final(self).fonts()[idx as int].pixel_size())
                == key_of(request@, pixel_size),
            final(self).fonts()[idx as int].request().family == request@.family,
            final(self).fonts()[idx as int].request().weight == request@.weight,
            final(self).fonts()[idx as int].request().italic == request@.italic,
            final(self).fonts()[idx as int].pixel_size() == pixel_size,
            final(self).fonts()[idx as int].provider().metrics_for(
                final(self).fonts()[idx as int].request(),
                pixel_size_u16_of(pixel_size),
                final(self).fonts()[idx as int].metrics(),
            ),
            old(self).has_key(key_of(request@, pixel_size)) ==> {
                &&& final(self).keys() == old(self).keys()
                &&& final(self).fonts() == old(self).fonts()
            },
            !old(self).has_key(key_of(request@, pixel_size)) ==> {
                &&& idx == old(self).keys().len()
                &&& final(self).keys() == old(self).keys().push(key_of(request@, pixel_size))
                &&& final(self).fonts().take(idx as int) == old(self).fonts()
                &&& final(self).fonts()[idx as int].request() == request@
                &&& final(self).fonts()[idx as int].pixel_size() == pixel_size
                &&& final(self).fonts()[idx as int].provider() == provider
                &&& final(self).fonts()[idx as int].strategy() == strategy
                &&& final(self).fonts()[idx as int].glyph_cache().entries.len() == 0
                &&& final(self).fonts()[idx as int].glyph_cache().current_bytes == 0
                &&& final(self).fonts()[idx as int].glyph_cache().max_bytes
                    == old(self).glyph_cache_bytes()
            },
    {
        let key = DynamicFontKey::new(request, pixel_size);
        let n: usize = self.entries.len();
        let mut i: usize = 0;
        while i < n
            invariant
                n == self.entries.len(),
                i <= n,
                *self == *old(self),
                old(self).wf(),
                key@ == key_of(request@, pixel_size),
                forall|j: int| 0 <= j < i ==> self.keys()[j] != key@,
            decreases n - i,
        {
            if self.entries[i].key.same(&key) {
                return i;
            }
            i += 1;
        }
        let font = DynamicFont::new(provider, request, pixel_size, strategy, self.glyph_cache_bytes);
        let ghost old_fonts = self.fonts();
        let ghost old_keys = self.keys();
        self.entries.push(FontCacheEntry { key, font });
        proof {
            assert(self.keys() =~= old_keys.push(key@));
            assert(self.fonts().take(n as int) =~= old_fonts);
            assert forall|i: int| 0 <= i < self.fonts().len() implies (#[trigger] self.fonts()[i]).wf()
                && self.keys()[i] == key_of(self.fonts()[i].request(), self.fonts()[i].pixel_size()) by {
                if i < n {
                    assert(self.fonts()[i] == old_fonts[i]);
                }
            }
        }
        n
    }

    /// The cached font at `idx`.
    pub fn font(&self, idx: usize) -> (r: &DynamicFont<P>)
        requires
            idx < self.keys().len(),
        ensures
            *r == self.fonts()[idx as int],
    {
        &self.entries[idx].font
    }

    /// The cache differs from `before` at most in the glyph cache of the font at `idx`.
    pub open spec fn only_font_changed(&self, before: &Self, idx: int) -> bool {
        &&& self.keys() == before.keys()
        &&& self.glyph_cache_bytes() == before.glyph_cache_bytes()
        &&& self.fonts().len() == before.fonts().len()
        &&& forall|j: int|
            0 <= j < self.fonts().len() && j != idx ==> #[trigger] self.fonts()[j]
                == before.fonts()[j]
        &&& self.fonts()[idx].same_font(&before.fonts()[idx])
    }

    fn font_mut(&mut self, idx: usize) -> (r: &mut DynamicFont<P>)
        requires
            idx < old(self).keys().len(),
        ensures
            *r == old(self).fonts()[idx as int],
            final(self).keys() == old(self).keys(),
            final(self).glyph_cache_bytes() == old(self).glyph_cache_bytes(),
            final(self).fonts() == old(self).fonts().update(idx as int, *final(r)),
    {
        &mut self.entries[idx].font
    }

    proof fn lemma_font_replaced(before: Self, after: Self, idx: int)
        requires
            before.wf(),
            0 <= idx < before.keys().len(),
            after.keys() == before.keys(),
            after.glyph_cache_bytes() == before.glyph_cache_bytes(),
            after.fonts() == before.fonts().update(idx, after.fonts()[idx]),
            after.fonts()[idx].wf(),
            after.fonts()[idx].same_font(&before.fonts()[idx]),
        ensures
            after.wf(),
            after.only_font_changed(&before, idx),
    {
        assert forall|i: int| 0 <= i < after.fonts().len() implies (#[trigger] after.fonts()[i]).wf()
            && after.keys()[i] == key_of(after.fonts()[i].request(), after.fonts()[i].pixel_size()) by {
            if i != idx {
                assert(after.fonts()[i] == before.fonts()[i]);
            }
        }
    }

    /// The bitmap of a glyph of the font at `idx`; see `DynamicFont::glyph_bitmap`.
    pub fn glyph_bitmap(&mut self, idx: usize, glyph_id: GlyphId) -> (r: ProviderGlyphBitmap)
        requires
            old(self).wf(),
            idx < old(self).keys().len(),
        ensures
            final(self).wf(),
            final(self).only_font_changed(old(self), idx as int),
            glyph_bitmap_done(old(self).fonts()[idx as int], final(self).fonts()[idx as int], glyph_id, r@),
    {
        let ghost before = *self;
        let font = self.font_mut(idx);
        let r = font.glyph_bitmap(glyph_id);
        proof {
            Self::lemma_font_replaced(before, *self, idx as int);
        }
        r
    }

    /// The glyph of `ch` in the font at `idx`; see `DynamicFont::glyph_for_char`.
    pub fn glyph_for_char(&mut self, idx: usize, ch: char) -> (r: Option<ShapedGlyph>)
        requires
            old(self).wf(),
            idx < old(self).keys().len(),
        ensures
            final(self).wf(),
            final(self).only_font_changed(old(self), idx as int),
            glyph_for_char_done(old(self).fonts()[idx as int], final(self).fonts()[idx as int], ch, r),
    {
        let ghost before = *self;
        let font = self.font_mut(idx);
        let r = font.glyph_for_char(ch);
        proof {
            Self::lemma_font_replaced(before, *self, idx as int);
        }
        r
    }

    /// Shapes `text` with the font at `idx`; see `DynamicFont::shape_text`.
    pub fn shape_text(&mut self, idx: usize, text: &str) -> (r: Vec<ShapedGlyph>)
        requires
            old(self).wf(),
            idx < old(self).keys().len(),
            encode_utf8(text@).len() <= usize::MAX,
        ensures
            final(self).wf(),
            final(self).only_font_changed(old(self), idx as int),
            shape_text_done(old(self).fonts()[idx as int], final(self).fonts()[idx as int], text@, r@),
    {
        let ghost before = *self;
        let font = self.font_mut(idx);
        let r = font.shape_text(text);
        proof {
            Self::lemma_font_replaced(before, *self, idx as int);
        }
        r
    }

    /// The glyph ready for drawing in the font at `idx`; see `DynamicFont::render_glyph`.
    pub fn render_glyph(&mut self, idx: usize, glyph_id: GlyphId) -> (r: Option<RenderableGlyph>)
        requires
            old(self).wf(),
            idx < old(self).keys().len(),
        ensures
            final(self).wf(),
            final(self).only_font_changed(old(self), idx as int),
            render_glyph_done(old(self).fonts()[idx as int], final(self).fonts()[idx as int], glyph_id, renderable_value(r)),
    {
        let ghost before = *self;
        let font = self.font_mut(idx);
        let r = font.render_glyph(glyph_id);
        proof {
            Self::lemma_font_replaced(before, *self, idx as int);
        }
        r
    }
}

/// One font per key: two cached fonts with the same key are the same font.
pub proof fn lemma_one_font_per_key<P: GlyphProvider>(
    cache: DynamicFontCache<P>,
    i: int,
    j: int,
)
    requires
        cache.wf(),
        0 <= i < cache.keys().len(),
        0 <= j < cache.keys().len(),
        cache.keys()[i] == cache.keys()[j],
    ensures
        i == j,
{
    if i < j {
        assert(cache.keys()[i] != cache.keys()[j]);
    } else if j < i {
        assert(cache.keys()[j] != cache.keys()[i]);
    }
}


/// The provider answers every question about a request at a provider size
/// in at most one way: one glyph id per character under dynamic assignment,
/// one bitmap per glyph.
pub open spec fn answers_uniquely<P: GlyphProvider>(
    provider: P,
    request: FontRequestModel,
    px_size: u16,
) -> bool {
    &&& forall|ch: char, a: Option<u16>, b: Option<u16>|
        #![trigger provider.assigned(request, ch, GlyphIdStrategy::DynamicAssignment, a), provider.assigned(request, ch, GlyphIdStrategy::DynamicAssignment, b)]
        provider.assigned(request, ch, GlyphIdStrategy::DynamicAssignment, a)
            && provider.assigned(request, ch, GlyphIdStrategy::DynamicAssignment, b) ==> a == b
    &&& forall|g: u16| #[trigger] renders_uniquely(provider, request, g, px_size)
}

proof fn lemma_same_glyph_value(a: Option<GlyphId>, b: Option<GlyphId>)
    requires
        glyph_value(a) == glyph_value(b),
    ensures
        a == b,
{
    if let (Some(x), Some(y)) = (a, b) {
        GlyphId::lemma_value_determines(x, y);
    }
}

/// Two fonts with the same identity shape a character the same way, whatever
/// their glyph caches hold, when the provider answers uniquely: the glyph id
/// and the advance at position `i` of one shaping equal those at `j` of the
/// other when both positions hold the same character.
proof fn lemma_same_shaped_glyph<P: GlyphProvider>(
    f0: DynamicFont<P>,
    f1: DynamicFont<P>,
    s: Seq<char>,
    r: Seq<ShapedGlyph>,
    i: int,
    g0: DynamicFont<P>,
    g1: DynamicFont<P>,
    t: Seq<char>,
    q: Seq<ShapedGlyph>,
    j: int,
)
    requires
        shape_text_done(f0, f1, s, r),
        shape_text_done(g0, g1, t, q),
        g0.same_font(&f0),
        answers_uniquely(f0.provider(), f0.request(), f0.provider_size()),
        0 <= i < s.len(),
        0 <= j < t.len(),
        s[i] == t[j],
    ensures
        r[i].glyph_id == q[j].glyph_id,
        r[i].advance == q[j].advance,
{
    let p = f0.provider();
    if f0.strategy() == GlyphIdStrategy::DynamicAssignment {
        assert(p.assigned(f0.request(), s[i], GlyphIdStrategy::DynamicAssignment, glyph_value(r[i].glyph_id)));
        assert(p.assigned(f0.request(), t[j], GlyphIdStrategy::DynamicAssignment, glyph_value(q[j].glyph_id)));
    } else {
        assert(glyph_value(r[i].glyph_id) == bmp_glyph_value(s[i]));
        assert(glyph_value(q[j].glyph_id) == bmp_glyph_value(t[j]));
    }
    lemma_same_glyph_value(r[i].glyph_id, q[j].glyph_id);
    if r[i].glyph_id is Some {
        let bs = choose|bitmaps: Seq<BitmapModel>|
            {
                &&& bitmaps.len() == r.len()
                &&& run_accesses(f0.glyph_cache(), shaped_ids(r), bitmaps) == Some(f1.glyph_cache())
                &&& forall|k: int|
                    0 <= k < r.len() ==> (#[trigger] r[k]).glyph_id is Some ==> r[k].advance
                        == bitmaps[k].advance
                &&& forall|k: int|
                    0 <= k < r.len() ==> (#[trigger] r[k]).glyph_id is Some ==> p.rendered(
                        f0.request(),
                        r[k].glyph_id.unwrap().value(),
                        f0.provider_size(),
                        bitmaps[k],
                    )
            };
        let cs = choose|bitmaps: Seq<BitmapModel>|
            {
                &&& bitmaps.len() == q.len()
                &&& run_accesses(g0.glyph_cache(), shaped_ids(q), bitmaps) == Some(g1.glyph_cache())
                &&& forall|k: int|
                    0 <= k < q.len() ==> (#[trigger] q[k]).glyph_id is Some ==> q[k].advance
                        == bitmaps[k].advance
                &&& forall|k: int|
                    0 <= k < q.len() ==> (#[trigger] q[k]).glyph_id is Some ==> g0.provider().rendered(
                        g0.request(),
                        q[k].glyph_id.unwrap().value(),
                        g0.provider_size(),
                        bitmaps[k],
                    )
            };
        let g = r[i].glyph_id.unwrap().value();
        assert(r[i].glyph_id is Some ==> r[i].advance == bs[i].advance);
        assert(q[j].glyph_id is Some ==> q[j].advance == cs[j].advance);
        assert(p.rendered(f0.request(), g, f0.provider_size(), bs[i]));
        assert(p.rendered(f0.request(), g, f0.provider_size(), cs[j]));
        assert(renders_uniquely(p, f0.request(), g, f0.provider_size()));
    }
}

/// The glyph of a character is the glyph of shaping that character alone,
/// when the provider answers uniquely; the glyph caches may differ in any way.
pub proof fn lemma_glyph_for_char_is_shaping<P: GlyphProvider>(
    f0: DynamicFont<P>,
    f1: DynamicFont<P>,
    ch: char,
    g: Option<ShapedGlyph>,
    h0: DynamicFont<P>,
    h1: DynamicFont<P>,
    r: Seq<ShapedGlyph>,
)
    requires
        glyph_for_char_done(f0, f1, ch, g),
        shape_text_done(h0, h1, seq![ch], r),
        h0.same_font(&f0),
        answers_uniquely(f0.provider(), f0.request(), f0.provider_size()),
    ensures
        r.len() == 1,
        g matches Some(x) ==> r[0] == x,
        g is None ==> r[0].glyph_id is None && r[0].advance == f0.pixel_size(),
{
    let p = f0.provider();
    let s = seq![ch];
    assert(s[0] == ch);
    assert(s.take(0) =~= Seq::<char>::empty());
    assert(encode_utf8(Seq::<char>::empty()) =~= Seq::<u8>::empty());
    if f0.strategy() == GlyphIdStrategy::DynamicAssignment {
        assert(p.assigned(f0.request(), s[0], GlyphIdStrategy::DynamicAssignment, glyph_value(r[0].glyph_id)));
        assert(p.assigned(f0.request(), ch, GlyphIdStrategy::DynamicAssignment, glyph_value(shaped_id(g))));
    } else {
        assert(glyph_value(r[0].glyph_id) == bmp_glyph_value(s[0]));
    }
    lemma_same_glyph_value(r[0].glyph_id, shaped_id(g));
    if let Some(x) = g {
        let id = x.glyph_id.unwrap().value();
        let b = choose|b: BitmapModel|
            {
                &&& f1.glyph_cache() == f0.glyph_cache().access(id, b)
                &&& x.advance == b.advance
                &&& (f0.glyph_cache().lookup(id) matches Some(c) ==> b == c)
                &&& p.rendered(f0.request(), id, f0.provider_size(), b)
            };
        let cs = choose|bitmaps: Seq<BitmapModel>|
            {
                &&& bitmaps.len() == r.len()
                &&& run_accesses(h0.glyph_cache(), shaped_ids(r), bitmaps) == Some(h1.glyph_cache())
                &&& forall|k: int|
                    0 <= k < r.len() ==> (#[trigger] r[k]).glyph_id is Some ==> r[k].advance
                        == bitmaps[k].advance
                &&& forall|k: int|
                    0 <= k < r.len() ==> (#[trigger] r[k]).glyph_id is Some ==> h0.provider().rendered(
                        h0.request(),
                        r[k].glyph_id.unwrap().value(),
                        h0.provider_size(),
                        bitmaps[k],
                    )
            };
        assert(r[0].glyph_id is Some ==> r[0].advance == cs[0].advance);
        assert(p.rendered(f0.request(), id, f0.provider_size(), cs[0]));
        assert(renders_uniquely(p, f0.request(), id, f0.provider_size()));
    }
}

/// Shaping a concatenation gives the shapes of the parts, the second one's
/// byte offsets moved by the byte length of the first, when the provider
/// answers uniquely; the glyph caches may differ in any way.
pub proof fn lemma_shape_concatenation<P: GlyphProvider>(
    f0: DynamicFont<P>,
    f1: DynamicFont<P>,
    f2: DynamicFont<P>,
    g0: DynamicFont<P>,
    g1: DynamicFont<P>,
    a: Seq<char>,
    b: Seq<char>,
    r1: Seq<ShapedGlyph>,
    r2: Seq<ShapedGlyph>,
    r: Seq<ShapedGlyph>,
)
    requires
        shape_text_done(f0, f1, a, r1),
        shape_text_done(f1, f2, b, r2),
        shape_text_done(g0, g1, a + b, r),
        g0.same_font(&f0),
        answers_uniquely(f0.provider(), f0.request(), f0.provider_size()),
    ensures
        r.len() == r1.len() + r2.len(),
        forall|i: int| 0 <= i < r1.len() ==> r[i] == r1[i],
        forall|i: int|
            0 <= i < r2.len() ==> r[r1.len() + i] == (ShapedGlyph {
                text_byte_offset: ((#[trigger] r2[i]).text_byte_offset + encode_utf8(a).len()) as usize,
                ..r2[i]
            }),
{
    let ab = a + b;
    assert forall|i: int| 0 <= i < r1.len() implies r[i] == r1[i] by {
        assert(ab[i] == a[i]);
        lemma_same_shaped_glyph(f0, f1, a, r1, i, g0, g1, ab, r, i);
        assert(ab.take(i) =~= a.take(i));
    }
    assert forall|i: int| 0 <= i < r2.len() implies r[r1.len() + i] == (ShapedGlyph {
        text_byte_offset: ((#[trigger] r2[i]).text_byte_offset + encode_utf8(a).len()) as usize,
        ..r2[i]
    }) by {
        let k = r1.len() + i;
        assert(ab[k] == b[i]);
        lemma_same_shaped_glyph(f1, f2, b, r2, i, g0, g1, ab, r, k);
        assert(ab.take(k) =~= a + b.take(i));
        crate::text::lemma_encode_utf8_append(a, b.take(i));
    }
}

} // verus!
