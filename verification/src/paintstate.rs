//! The paint state: the style/transform/shadow snapshot that drawing
//! commands consume, together with its mathematical view.
//!
//! `save` pushes an independent snapshot of the whole state; `restore`
//! pops one and replaces the live state wholesale. Mutating a style
//! attribute touches only the live state, never the stack.

use vstd::prelude::*;

use crate::canvas_trait::{
    CanvasGradientStop, CompositionOrBlending, CompositionStyle, FillOrStrokeStyle, LineCapStyle,
    LineJoinStyle, Rgba,
};
use crate::geometry::Transform2D;
use vstd::string::StringExecFns;

verus! {

/// Font style keywords of the CSS `font` shorthand.
#[derive(Clone, Copy, Debug, PartialEq, Eq, Structural)]
pub enum FontStyle {
    Normal,
    Italic,
    Oblique,
}

/// Font variant keywords of the CSS `font` shorthand.
#[derive(Clone, Copy, Debug, PartialEq, Eq, Structural)]
pub enum FontVariant {
    Normal,
    SmallCaps,
}

/// A resolved font request: size in integer pixels, style keywords and
/// the requested family name.
#[derive(Debug)]
pub struct Font {
    pub font_size: i64,
    pub font_style: FontStyle,
    pub font_family: String,
    pub font_variant: FontVariant,
}

/// The mathematical value of a [`Font`].
pub ghost struct FontView {
    pub font_size: int,
    pub font_style: FontStyle,
    pub font_family: Seq<char>,
    pub font_variant: FontVariant,
}

impl View for Font {
    type V = FontView;

    open spec fn view(&self) -> FontView {
        FontView {
            font_size: self.font_size as int,
            font_style: self.font_style,
            font_family: self.font_family@,
            font_variant: self.font_variant,
        }
    }
}

impl Clone for Font {
    fn clone(&self) -> (r: Font)
        ensures
            r@ == self@,
    {
        Font {
            font_size: self.font_size,
            font_style: self.font_style,
            font_family: self.font_family.clone(),
            font_variant: self.font_variant,
        }
    }
}

impl Font {
    /// Parses a CSS font shorthand; never fails (unrecognized parts
    /// leave the corresponding defaults in place).
    pub fn new(rules: &str) -> (f: Font)
        ensures
            f@ == crate::csshelper::spec_parse_font(rules@),
    {
        crate::csshelper::parse_fonts_style(rules)
    }
}

/// The mathematical value of a [`FillOrStrokeStyle`].
pub ghost enum StyleView {
    Color(Rgba),
    LinearGradient {
        x0: int,
        y0: int,
        x1: int,
        y1: int,
        stops: Seq<CanvasGradientStop>,
    },
    RadialGradient {
        x0: int,
        y0: int,
        r0: int,
        x1: int,
        y1: int,
        r1: int,
        stops: Seq<CanvasGradientStop>,
    },
    Surface {
        surface_data: Seq<u8>,
        width: int,
        height: int,
        repeat_x: bool,
        repeat_y: bool,
    },
}

impl View for FillOrStrokeStyle {
    type V = StyleView;

    open spec fn view(&self) -> StyleView {
        match self {
            FillOrStrokeStyle::Color(c) => StyleView::Color(*c),
            FillOrStrokeStyle::LinearGradient(g) => StyleView::LinearGradient {
                x0: g.x0 as int,
                y0: g.y0 as int,
                x1: g.x1 as int,
                y1: g.y1 as int,
                stops: g.stops@,
            },
            FillOrStrokeStyle::RadialGradient(g) => StyleView::RadialGradient {
                x0: g.x0 as int,
                y0: g.y0 as int,
                r0: g.r0 as int,
                x1: g.x1 as int,
                y1: g.y1 as int,
                r1: g.r1 as int,
                stops: g.stops@,
            },
            FillOrStrokeStyle::Surface(s) => StyleView::Surface {
                surface_data: s.surface_data@,
                width: s.surface_size.width as int,
                height: s.surface_size.height as int,
                repeat_x: s.repeat_x,
                repeat_y: s.repeat_y,
            },
        }
    }
}

impl StyleView {
    /// View-level twin of
    /// [`FillOrStrokeStyle::spec_is_zero_size_gradient`].
    pub open spec fn is_zero_size_gradient(self) -> bool {
        match self {
            StyleView::LinearGradient { x0, y0, x1, y1, .. } => x0 == x1 && y0 == y1,
            StyleView::RadialGradient { x0, y0, r0, x1, y1, r1, .. } => x0 == x1 && y0 == y1 && r0
                == r1,
            _ => false,
        }
    }
}

/// Clones a fill/stroke style; the copy has the same view.
pub fn clone_style(style: &FillOrStrokeStyle) -> (r: FillOrStrokeStyle)
    ensures
        r@ == style@,
{
    match style {
        FillOrStrokeStyle::Color(c) => FillOrStrokeStyle::Color(*c),
        FillOrStrokeStyle::LinearGradient(g) => FillOrStrokeStyle::LinearGradient(
            crate::canvas_trait::LinearGradientStyle {
                x0: g.x0,
                y0: g.y0,
                x1: g.x1,
                y1: g.y1,
                stops: clone_stops(&g.stops),
            },
        ),
        FillOrStrokeStyle::RadialGradient(g) => FillOrStrokeStyle::RadialGradient(
            crate::canvas_trait::RadialGradientStyle {
                x0: g.x0,
                y0: g.y0,
                r0: g.r0,
                x1: g.x1,
                y1: g.y1,
                r1: g.r1,
                stops: clone_stops(&g.stops),
            },
        ),
        FillOrStrokeStyle::Surface(s) => FillOrStrokeStyle::Surface(
            crate::canvas_trait::SurfaceStyle {
                surface_data: clone_bytes(&s.surface_data),
                surface_size: s.surface_size,
                repeat_x: s.repeat_x,
                repeat_y: s.repeat_y,
            },
        ),
    }
}

fn clone_stops(stops: &Vec<CanvasGradientStop>) -> (r: Vec<CanvasGradientStop>)
    ensures
        r@ == stops@,
{
    let mut out: Vec<CanvasGradientStop> = Vec::new();
    let mut i: usize = 0;
    while i < stops.len()
        invariant
            i <= stops.len(),
            out@ == stops@.subrange(0, i as int),
        decreases stops.len() - i,
    {
        out.push(stops[i]);
        i += 1;
    }
    assert(out@ =~= stops@);
    out
}

/// Copies a byte vector.
pub fn clone_bytes(bytes: &Vec<u8>) -> (r: Vec<u8>)
    ensures
        r@ == bytes@,
{
    let mut out: Vec<u8> = Vec::new();
    let mut i: usize = 0;
    while i < bytes.len()
        invariant
            i <= bytes.len(),
            out@ == bytes@.subrange(0, i as int),
        decreases bytes.len() - i,
    {
        out.push(bytes[i]);
        i += 1;
    }
    assert(out@ =~= bytes@);
    out
}

/// Placeholder for a gradient object a backend resolves at draw time.
#[derive(Debug)]
pub struct Gradient {}

/// Placeholder for a pattern object a backend resolves at draw time.
#[derive(Debug)]
pub struct Pattern {}

/// The live rendering style snapshot.
///
/// `global_alpha` is in thousandths (the default `1000` stands for a
/// fully opaque one); shadow offsets, blur, line width and miter limit
/// are integer canvas units.
#[derive(Debug)]
pub struct PaintState {
    pub fill_style: FillOrStrokeStyle,
    pub stroke_style: FillOrStrokeStyle,
    pub font: Font,
    pub global_alpha: i64,
    pub global_composition: CompositionOrBlending,
    pub transform: Transform2D,
    pub shadow_offset_x: i64,
    pub shadow_offset_y: i64,
    pub shadow_blur: i64,
    pub shadow_color: Rgba,
    pub line_width: i64,
    pub line_cap: LineCapStyle,
    pub line_join: LineJoinStyle,
    pub miter_limit: i64,
}

/// The mathematical value of a [`PaintState`]: every attribute of the
/// snapshot, with strings and buffers replaced by their sequences.
pub ghost struct PaintStateView {
    pub fill_style: StyleView,
    pub stroke_style: StyleView,
    pub font: FontView,
    pub global_alpha: int,
    pub global_composition: CompositionOrBlending,
    pub transform: Transform2D,
    pub shadow_offset_x: int,
    pub shadow_offset_y: int,
    pub shadow_blur: int,
    pub shadow_color: Rgba,
    pub line_width: int,
    pub line_cap: LineCapStyle,
    pub line_join: LineJoinStyle,
    pub miter_limit: int,
}

impl View for PaintState {
    type V = PaintStateView;

    open spec fn view(&self) -> PaintStateView {
        PaintStateView {
            fill_style: self.fill_style@,
            stroke_style: self.stroke_style@,
            font: self.font@,
            global_alpha: self.global_alpha as int,
            global_composition: self.global_composition,
            transform: self.transform,
            shadow_offset_x: self.shadow_offset_x as int,
            shadow_offset_y: self.shadow_offset_y as int,
            shadow_blur: self.shadow_blur as int,
            shadow_color: self.shadow_color,
            line_width: self.line_width as int,
            line_cap: self.line_cap,
            line_join: self.line_join,
            miter_limit: self.miter_limit as int,
        }
    }
}

impl Clone for PaintState {
    fn clone(&self) -> (r: PaintState)
        ensures
            r@ == self@,
    {
        PaintState {
            fill_style: clone_style(&self.fill_style),
            stroke_style: clone_style(&self.stroke_style),
            font: self.font.clone(),
            global_alpha: self.global_alpha,
            global_composition: self.global_composition,
            transform: self.transform,
            shadow_offset_x: self.shadow_offset_x,
            shadow_offset_y: self.shadow_offset_y,
            shadow_blur: self.shadow_blur,
            shadow_color: self.shadow_color,
            line_width: self.line_width,
            line_cap: self.line_cap,
            line_join: self.line_join,
            miter_limit: self.miter_limit,
        }
    }
}

impl PaintStateView {
    /// The state every fresh context starts from: near-transparent
    /// black paints, a ten-pixel default font request, the identity
    /// transform, no shadow, hairline strokes with miter joins.
    pub open spec fn spec_default() -> PaintStateView {
        PaintStateView {
            fill_style: StyleView::Color(Rgba { red: 0, green: 0, blue: 0, alpha: 1 }),
            stroke_style: StyleView::Color(Rgba { red: 0, green: 0, blue: 0, alpha: 1 }),
            font: FontView {
                font_size: 10,
                font_style: FontStyle::Normal,
                font_family: "san-serif"@,
                font_variant: FontVariant::Normal,
            },
            global_alpha: 1000,
            global_composition: CompositionOrBlending::Composition(CompositionStyle::SrcOver),
            transform: Transform2D::spec_identity(),
            shadow_offset_x: 0,
            shadow_offset_y: 0,
            shadow_blur: 0,
            shadow_color: Rgba { red: 0, green: 0, blue: 0, alpha: 0 },
            line_width: 1,
            line_cap: LineCapStyle::Butt,
            line_join: LineJoinStyle::Miter,
            miter_limit: 10,
        }
    }
}

impl Default for PaintState {
    /// The default paint state of a fresh context.
    fn default() -> (s: PaintState)
        ensures
            s@ == PaintStateView::spec_default(),
    {
        PaintState::new()
    }
}

impl PaintState {
    /// The default paint state of a fresh context.
    pub fn new() -> (s: PaintState)
        ensures
            s@ == PaintStateView::spec_default(),
    {
        PaintState {
            fill_style: FillOrStrokeStyle::Color(Rgba { red: 0, green: 0, blue: 0, alpha: 1 }),
            stroke_style: FillOrStrokeStyle::Color(Rgba { red: 0, green: 0, blue: 0, alpha: 1 }),
            font: Font {
                font_size: 10,
                font_style: FontStyle::Normal,
                font_family: String::from_str("san-serif"),
                font_variant: FontVariant::Normal,
            },
            global_alpha: 1000,
            global_composition: CompositionOrBlending::Composition(CompositionStyle::SrcOver),
            transform: Transform2D::identity(),
            shadow_offset_x: 0,
            shadow_offset_y: 0,
            shadow_blur: 0,
            shadow_color: Rgba { red: 0, green: 0, blue: 0, alpha: 0 },
            line_width: 1,
            line_cap: LineCapStyle::Butt,
            line_join: LineJoinStyle::Miter,
            miter_limit: 10,
        }
    }
}

} // verus!
