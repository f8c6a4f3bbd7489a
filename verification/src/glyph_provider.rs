use vstd::prelude::*;

verus! {

/// A glyph identifier: a non-zero 16-bit number that a provider assigns to a glyph.
#[derive(Clone, Copy, Debug, PartialEq, Eq, Structural)]
pub struct GlyphId {
    pub(crate) id: u16,
}

impl GlyphId {
    #[verifier::type_invariant]
    spec fn nonzero(self) -> bool {
        self.id != 0
    }

    /// The numeric value of the identifier.
    pub closed spec fn value(self) -> u16 {
        self.id
    }

    /// Makes an identifier from `value`; `None` when `value` is zero.
    pub fn new(value: u16) -> (res: Option<GlyphId>)
        ensures
            res is None <==> value == 0,
            res matches Some(g) ==> g.value() == value,
    {
        if value == 0 {
            None
        } else {
            Some(GlyphId { id: value })
        }
    }

    /// The numeric value of the identifier, never zero.
    pub fn get(&self) -> (r: u16)
        ensures
            r == self.value(),
            r != 0,
    {
        proof {
            use_type_invariant(self);
        }
        self.id
    }

    /// Two identifiers are equal exactly when their values are.
    pub proof fn lemma_value_determines(a: GlyphId, b: GlyphId)
        ensures
            a == b <==> a.value() == b.value(),
    {
    }
}

/// Selects how glyph IDs are assigned for a dynamic glyph provider.
#[derive(Clone, Copy, Debug, PartialEq, Eq, Structural)]
pub enum GlyphIdStrategy {
    /// Assign glyph IDs dynamically and sequentially.
    DynamicAssignment,
    /// Use BMP codepoint values as glyph IDs when possible.
    BmpCodepoint,
}

impl Default for GlyphIdStrategy {
    fn default() -> (r: Self)
        ensures
            r == GlyphIdStrategy::DynamicAssignment,
    {
        GlyphIdStrategy::DynamicAssignment
    }
}

/// Font metrics returned by a glyph provider, in pixel units.
#[derive(Clone, Copy, Debug, PartialEq, Eq, Structural)]
pub struct ProviderFontMetrics {
    /// Font ascent in pixels (typically positive).
    pub ascent: i16,
    /// Font descent in pixels (typically negative).
    pub descent: i16,
    /// X-height in pixels.
    pub x_height: i16,
    /// Cap height in pixels.
    pub cap_height: i16,
}

/// The coverage (alpha or signed distance field) bytes of a glyph bitmap.
#[derive(Debug)]
pub struct GlyphAlphaMap {
    /// One byte per pixel, row by row.
    pub bytes: Vec<u8>,
}

impl View for GlyphAlphaMap {
    type V = Seq<u8>;

    open spec fn view(&self) -> Seq<u8> {
        self.bytes@
    }
}

impl GlyphAlphaMap {
    /// Wraps the given bytes.
    pub fn new(bytes: Vec<u8>) -> (r: GlyphAlphaMap)
        ensures
            r@ == bytes@,
    {
        GlyphAlphaMap { bytes }
    }

    /// The number of bytes.
    pub fn len(&self) -> (r: usize)
        ensures
            r == self@.len(),
    {
        self.bytes.len()
    }

    /// True when there are no bytes.
    pub fn is_empty(&self) -> (r: bool)
        ensures
            r <==> self@.len() == 0,
    {
        self.bytes.len() == 0
    }

    /// The bytes as a slice.
    pub fn as_slice(&self) -> (r: &[u8])
        ensures
            r@ == self@,
    {
        self.bytes.as_slice()
    }
}

impl Clone for GlyphAlphaMap {
    fn clone(&self) -> (r: Self)
        ensures
            r@ == self@,
    {
        let bytes = self.bytes.clone();
        proof {
            assert(bytes@ =~= self.bytes@);
        }
        GlyphAlphaMap { bytes }
    }
}

/// The mathematical content of a glyph bitmap.
pub struct BitmapModel {
    pub x: i16,
    pub y: i16,
    pub width: i16,
    pub height: i16,
    pub advance: i16,
    pub pixel_stride: u16,
    pub alpha_map: Seq<u8>,
    pub sdf: bool,
}

impl BitmapModel {
    /// There is no bitmap data to render.
    pub open spec fn has_no_pixels(self) -> bool {
        self.width <= 0 || self.height <= 0 || self.alpha_map.len() == 0
    }
}

/// A glyph bitmap and its metrics returned by a glyph provider, in pixel units.
#[derive(Debug)]
pub struct ProviderGlyphBitmap {
    /// Horizontal bearing relative to the baseline in pixels.
    pub x: i16,
    /// Vertical bearing relative to the baseline in pixels.
    pub y: i16,
    /// Glyph bitmap width in pixels.
    pub width: i16,
    /// Glyph bitmap height in pixels.
    pub height: i16,
    /// Horizontal advance in pixels.
    pub advance: i16,
    /// Pixel stride in bytes for each row of the alpha map.
    pub pixel_stride: u16,
    /// Alpha map or SDF data for the glyph.
    pub alpha_map: GlyphAlphaMap,
    /// True if the glyph uses signed distance field data.
    pub sdf: bool,
}

impl View for ProviderGlyphBitmap {
    type V = BitmapModel;

    open spec fn view(&self) -> BitmapModel {
        BitmapModel {
            x: self.x,
            y: self.y,
            width: self.width,
            height: self.height,
            advance: self.advance,
            pixel_stride: self.pixel_stride,
            alpha_map: self.alpha_map@,
            sdf: self.sdf,
        }
    }
}

impl ProviderGlyphBitmap {
    /// Returns true if there is no glyph bitmap data to render.
    pub fn is_empty(&self) -> (r: bool)
        ensures
            r == self@.has_no_pixels(),
    {
        self.width <= 0 || self.height <= 0 || self.alpha_map.is_empty()
    }
}

impl Clone for ProviderGlyphBitmap {
    fn clone(&self) -> (r: Self)
        ensures
            r@ == self@,
    {
        ProviderGlyphBitmap {
            x: self.x,
            y: self.y,
            width: self.width,
            height: self.height,
            advance: self.advance,
            pixel_stride: self.pixel_stride,
            alpha_map: self.alpha_map.clone(),
            sdf: self.sdf,
        }
    }
}

/// What a font request asks for.
///
/// The lengths and the line height factor are single-precision values; the
/// library carries each as its IEEE 754 bit pattern, unchanged, so that a
/// provider receives exactly what was asked for.
#[derive(Debug)]
pub struct FontRequest {
    /// The font family; `None` asks for the default family.
    pub family: Option<String>,
    /// The font weight; `None` asks for the default weight.
    pub weight: Option<i32>,
    /// The bit pattern of the logical pixel size; `None` asks for the default size.
    pub pixel_size_bits: Option<u32>,
    /// The bit pattern of the logical letter spacing; `None` for no extra spacing.
    pub letter_spacing_bits: Option<u32>,
    /// The bit pattern of the line height factor; `None` keeps the natural line height.
    pub line_height_factor_bits: Option<u32>,
    /// Whether an italic face is asked for.
    pub italic: bool,
}

/// The mathematical content of a font request.
pub struct FontRequestModel {
    pub family: Option<Seq<char>>,
    pub weight: Option<i32>,
    pub pixel_size_bits: Option<u32>,
    pub letter_spacing_bits: Option<u32>,
    pub line_height_factor_bits: Option<u32>,
    pub italic: bool,
}

impl View for FontRequest {
    type V = FontRequestModel;

    open spec fn view(&self) -> FontRequestModel {
        FontRequestModel {
            family: match self.family {
                Some(f) => Some(f@),
                None => None,
            },
            weight: self.weight,
            pixel_size_bits: self.pixel_size_bits,
            letter_spacing_bits: self.letter_spacing_bits,
            line_height_factor_bits: self.line_height_factor_bits,
            italic: self.italic,
        }
    }
}

/// Copies an optional family name.
pub(crate) fn clone_family(family: &Option<String>) -> (r: Option<String>)
    ensures
        match (r, *family) {
            (Some(a), Some(b)) => a@ == b@,
            (None, None) => true,
            _ => false,
        },
{
    match family {
        Some(f) => Some(f.clone()),
        None => None,
    }
}

impl Clone for FontRequest {
    fn clone(&self) -> (r: Self)
        ensures
            r@ == self@,
    {
        FontRequest {
            family: clone_family(&self.family),
            weight: self.weight,
            pixel_size_bits: self.pixel_size_bits,
            letter_spacing_bits: self.letter_spacing_bits,
            line_height_factor_bits: self.line_height_factor_bits,
            italic: self.italic,
        }
    }
}

/// The optional glyph id, by value.
pub open spec fn glyph_value(id: Option<GlyphId>) -> Option<u16> {
    match id {
        Some(g) => Some(g.value()),
        None => None,
    }
}

/// Supplies glyph data at runtime for the software renderer.
///
/// Implemented by the users of the library. Each method's result is tied to
/// its arguments by a relation that the implementation may define: the
/// default, `true`, promises nothing beyond the types; an equation pins the
/// result down. The
/// relations claim no purity: a provider whose answers change from call to
/// call defines relations that hold of every answer it may give.
///
/// Only a provider written inside `verus!` can override the relations. For a
/// provider written in plain Rust they stay `true`, and the contracts that
/// speak through them say nothing about what such a provider returned.
pub trait GlyphProvider {
    /// `answer` may be what `supports` says of `request`.
    open spec fn supported(&self, request: FontRequestModel, answer: bool) -> bool {
        true
    }

    /// `metrics` may be what `font_metrics` gives for `request` at `px_size`.
    open spec fn metrics_for(
        &self,
        request: FontRequestModel,
        px_size: u16,
        metrics: ProviderFontMetrics,
    ) -> bool {
        true
    }

    /// `glyph_id` may be what `glyph_id_for_char` gives for `request`, `ch` and `strategy`.
    open spec fn assigned(
        &self,
        request: FontRequestModel,
        ch: char,
        strategy: GlyphIdStrategy,
        glyph_id: Option<u16>,
    ) -> bool {
        true
    }

    /// `bitmap` may be what `render_glyph` gives for `request`, `glyph_id` and `px_size`.
    open spec fn rendered(
        &self,
        request: FontRequestModel,
        glyph_id: u16,
        px_size: u16,
        bitmap: BitmapModel,
    ) -> bool {
        true
    }

    /// Returns true if this provider can satisfy the requested font.
    fn supports(&self, request: &FontRequest) -> (r: bool)
        ensures
            self.supported(request@, r),
    ;

    /// Returns font metrics in pixels for the requested font and size.
    fn font_metrics(&self, request: &FontRequest, px_size: u16) -> (r: ProviderFontMetrics)
        ensures
            self.metrics_for(request@, px_size, r),
    ;

    /// Returns a glyph ID for the given character and strategy.
    fn glyph_id_for_char(
        &self,
        request: &FontRequest,
        ch: char,
        strategy: GlyphIdStrategy,
    ) -> (r: Option<GlyphId>)
        ensures
            self.assigned(request@, ch, strategy, glyph_value(r)),
    ;

    /// Renders a glyph bitmap for the given ID and size.
    fn render_glyph(
        &self,
        request: &FontRequest,
        glyph_id: GlyphId,
        px_size: u16,
    ) -> (r: ProviderGlyphBitmap)
        ensures
            self.rendered(request@, glyph_id.value(), px_size, r@),
    ;
}

} // verus!
