//! The command vocabulary of the canvas protocol: messages, fill and
//! stroke styles, composition operators and line attributes.
//!
//! Every message is a self-contained value; a context applies messages
//! strictly in arrival order. Colors are 8-bit RGBA; gradient stop
//! offsets are thousandths of the gradient extent.

use vstd::prelude::*;

use crate::geometry::{Point2D, Rect, Size2D, Transform2D};
use crate::strutil::str_eq;

verus! {

/// Gradient stop offsets range over `0 ..= OFFSET_UNIT`, standing for
/// the real interval from zero to one.
pub const OFFSET_UNIT: i64 = 1000;

/// An 8-bit straight-alpha RGBA color.
#[derive(Clone, Copy, Debug, PartialEq, Eq, Structural)]
pub struct Rgba {
    pub red: u8,
    pub green: u8,
    pub blue: u8,
    pub alpha: u8,
}

impl Rgba {
    pub fn new(red: u8, green: u8, blue: u8, alpha: u8) -> (c: Rgba)
        ensures
            c == (Rgba { red, green, blue, alpha }),
    {
        Rgba { red, green, blue, alpha }
    }
}

/// One color stop of a gradient; `offset` is in thousandths.
#[derive(Clone, Copy, Debug, PartialEq, Eq, Structural)]
pub struct CanvasGradientStop {
    pub offset: i64,
    pub color: Rgba,
}

/// A linear gradient between two anchor points.
#[derive(Clone, Debug)]
pub struct LinearGradientStyle {
    pub x0: i64,
    pub y0: i64,
    pub x1: i64,
    pub y1: i64,
    pub stops: Vec<CanvasGradientStop>,
}

impl LinearGradientStyle {
    pub fn new(x0: i64, y0: i64, x1: i64, y1: i64, stops: Vec<CanvasGradientStop>) -> (s:
        LinearGradientStyle)
        ensures
            s.x0 == x0 && s.y0 == y0 && s.x1 == x1 && s.y1 == y1,
            s.stops == stops,
    {
        LinearGradientStyle { x0, y0, x1, y1, stops }
    }

    /// A linear gradient with coincident anchors has zero extent.
    pub open spec fn spec_is_zero_size(self) -> bool {
        self.x0 == self.x1 && self.y0 == self.y1
    }
}

/// A radial gradient between two circles.
#[derive(Clone, Debug)]
pub struct RadialGradientStyle {
    pub x0: i64,
    pub y0: i64,
    pub r0: i64,
    pub x1: i64,
    pub y1: i64,
    pub r1: i64,
    pub stops: Vec<CanvasGradientStop>,
}

impl RadialGradientStyle {
    pub fn new(
        x0: i64,
        y0: i64,
        r0: i64,
        x1: i64,
        y1: i64,
        r1: i64,
        stops: Vec<CanvasGradientStop>,
    ) -> (s: RadialGradientStyle)
        ensures
            s.x0 == x0 && s.y0 == y0 && s.r0 == r0,
            s.x1 == x1 && s.y1 == y1 && s.r1 == r1,
            s.stops == stops,
    {
        RadialGradientStyle { x0, y0, r0, x1, y1, r1, stops }
    }

    /// A radial gradient with equal radii at equal centers has zero
    /// extent.
    pub open spec fn spec_is_zero_size(self) -> bool {
        self.x0 == self.x1 && self.y0 == self.y1 && self.r0 == self.r1
    }
}

/// A repeating-pattern style backed by an RGBA8 pixel buffer.
#[derive(Clone, Debug)]
pub struct SurfaceStyle {
    pub surface_data: Vec<u8>,
    pub surface_size: Size2D,
    pub repeat_x: bool,
    pub repeat_y: bool,
}

impl SurfaceStyle {
    pub fn new(surface_data: Vec<u8>, surface_size: Size2D, repeat_x: bool, repeat_y: bool) -> (s:
        SurfaceStyle)
        ensures
            s.surface_data == surface_data,
            s.surface_size == surface_size,
            s.repeat_x == repeat_x,
            s.repeat_y == repeat_y,
    {
        SurfaceStyle { surface_data, surface_size, repeat_x, repeat_y }
    }
}

/// What a fill or stroke paints with.
#[derive(Clone, Debug)]
pub enum FillOrStrokeStyle {
    Color(Rgba),
    LinearGradient(LinearGradientStyle),
    RadialGradient(RadialGradientStyle),
    Surface(SurfaceStyle),
}

impl FillOrStrokeStyle {
    /// A degenerate gradient collapses to zero extent; painting with it
    /// paints nothing (and is not an error).
    pub open spec fn spec_is_zero_size_gradient(self) -> bool {
        match self {
            FillOrStrokeStyle::LinearGradient(g) => g.spec_is_zero_size(),
            FillOrStrokeStyle::RadialGradient(g) => g.spec_is_zero_size(),
            _ => false,
        }
    }

    pub fn is_zero_size_gradient(&self) -> (r: bool)
        ensures
            r == self.spec_is_zero_size_gradient(),
    {
        match self {
            FillOrStrokeStyle::LinearGradient(g) => {
                g.x0 == g.x1 && g.y0 == g.y1
            },
            FillOrStrokeStyle::RadialGradient(g) => {
                g.x0 == g.x1 && g.y0 == g.y1 && g.r0 == g.r1
            },
            _ => false,
        }
    }
}

/// Fill rule for path filling and point-in-path queries.
#[derive(Clone, Copy, Debug, PartialEq, Eq, Structural)]
pub enum FillRule {
    Nonzero,
    Evenodd,
}

/// CSS blend modes.
#[derive(Clone, Copy, Debug, PartialEq, Eq, Structural)]
pub enum BlendingStyle {
    Multiply,
    Screen,
    Overlay,
    Darken,
    Lighten,
    ColorDodge,
    ColorBurn,
    HardLight,
    SoftLight,
    Difference,
    Exclusion,
    Hue,
    Saturation,
    Color,
    Luminosity,
}

/// Porter-Duff composition operators.
#[derive(Clone, Copy, Debug, PartialEq, Eq, Structural)]
pub enum CompositionStyle {
    SrcIn,
    SrcOut,
    SrcOver,
    SrcAtop,
    DestIn,
    DestOut,
    DestOver,
    DestAtop,
    Copy,
    Lighter,
    Xor,
}

impl BlendingStyle {
    /// The CSS name of this blend mode.
    pub open spec fn spec_to_str(self) -> Seq<char> {
        match self {
            BlendingStyle::Multiply => "multiply"@,
            BlendingStyle::Screen => "screen"@,
            BlendingStyle::Overlay => "overlay"@,
            BlendingStyle::Darken => "darken"@,
            BlendingStyle::Lighten => "lighten"@,
            BlendingStyle::ColorDodge => "color-dodge"@,
            BlendingStyle::ColorBurn => "color-burn"@,
            BlendingStyle::HardLight => "hard-light"@,
            BlendingStyle::SoftLight => "soft-light"@,
            BlendingStyle::Difference => "difference"@,
            BlendingStyle::Exclusion => "exclusion"@,
            BlendingStyle::Hue => "hue"@,
            BlendingStyle::Saturation => "saturation"@,
            BlendingStyle::Color => "color"@,
            BlendingStyle::Luminosity => "luminosity"@,
        }
    }

    pub fn to_str(&self) -> (r: &'static str)
        ensures
            r@ == self.spec_to_str(),
    {
        match *self {
            BlendingStyle::Multiply => "multiply",
            BlendingStyle::Screen => "screen",
            BlendingStyle::Overlay => "overlay",
            BlendingStyle::Darken => "darken",
            BlendingStyle::Lighten => "lighten",
            BlendingStyle::ColorDodge => "color-dodge",
            BlendingStyle::ColorBurn => "color-burn",
            BlendingStyle::HardLight => "hard-light",
            BlendingStyle::SoftLight => "soft-light",
            BlendingStyle::Difference => "difference",
            BlendingStyle::Exclusion => "exclusion",
            BlendingStyle::Hue => "hue",
            BlendingStyle::Saturation => "saturation",
            BlendingStyle::Color => "color",
            BlendingStyle::Luminosity => "luminosity",
        }
    }

    /// The blend mode named by a CSS keyword, if any.
    pub open spec fn spec_from_str(s: Seq<char>) -> Result<BlendingStyle, ()> {
        if s == "multiply"@ {
            Ok(BlendingStyle::Multiply)
        } else if s == "screen"@ {
            Ok(BlendingStyle::Screen)
        } else if s == "overlay"@ {
            Ok(BlendingStyle::Overlay)
        } else if s == "darken"@ {
            Ok(BlendingStyle::Darken)
        } else if s == "lighten"@ {
            Ok(BlendingStyle::Lighten)
        } else if s == "color-dodge"@ {
            Ok(BlendingStyle::ColorDodge)
        } else if s == "color-burn"@ {
            Ok(BlendingStyle::ColorBurn)
        } else if s == "hard-light"@ {
            Ok(BlendingStyle::HardLight)
        } else if s == "soft-light"@ {
            Ok(BlendingStyle::SoftLight)
        } else if s == "difference"@ {
            Ok(BlendingStyle::Difference)
        } else if s == "exclusion"@ {
            Ok(BlendingStyle::Exclusion)
        } else if s == "hue"@ {
            Ok(BlendingStyle::Hue)
        } else if s == "saturation"@ {
            Ok(BlendingStyle::Saturation)
        } else if s == "color"@ {
            Ok(BlendingStyle::Color)
        } else if s == "luminosity"@ {
            Ok(BlendingStyle::Luminosity)
        } else {
            Err(())
        }
    }

    pub fn from_str(string: &str) -> (r: Result<BlendingStyle, ()>)
        ensures
            r == BlendingStyle::spec_from_str(string@),
    {
        if str_eq(string, "multiply") {
            Ok(BlendingStyle::Multiply)
        } else if str_eq(string, "screen") {
            Ok(BlendingStyle::Screen)
        } else if str_eq(string, "overlay") {
            Ok(BlendingStyle::Overlay)
        } else if str_eq(string, "darken") {
            Ok(BlendingStyle::Darken)
        } else if str_eq(string, "lighten") {
            Ok(BlendingStyle::Lighten)
        } else if str_eq(string, "color-dodge") {
            Ok(BlendingStyle::ColorDodge)
        } else if str_eq(string, "color-burn") {
            Ok(BlendingStyle::ColorBurn)
        } else if str_eq(string, "hard-light") {
            Ok(BlendingStyle::HardLight)
        } else if str_eq(string, "soft-light") {
            Ok(BlendingStyle::SoftLight)
        } else if str_eq(string, "difference") {
            Ok(BlendingStyle::Difference)
        } else if str_eq(string, "exclusion") {
            Ok(BlendingStyle::Exclusion)
        } else if str_eq(string, "hue") {
            Ok(BlendingStyle::Hue)
        } else if str_eq(string, "saturation") {
            Ok(BlendingStyle::Saturation)
        } else if str_eq(string, "color") {
            Ok(BlendingStyle::Color)
        } else if str_eq(string, "luminosity") {
            Ok(BlendingStyle::Luminosity)
        } else {
            Err(())
        }
    }
}

impl CompositionStyle {
    /// The CSS name of this composition operator.
    pub open spec fn spec_to_str(self) -> Seq<char> {
        match self {
            CompositionStyle::SrcIn => "source-in"@,
            CompositionStyle::SrcOut => "source-out"@,
            CompositionStyle::SrcOver => "source-over"@,
            CompositionStyle::SrcAtop => "source-atop"@,
            CompositionStyle::DestIn => "destination-in"@,
            CompositionStyle::DestOut => "destination-out"@,
            CompositionStyle::DestOver => "destination-over"@,
            CompositionStyle::DestAtop => "destination-atop"@,
            CompositionStyle::Copy => "copy"@,
            CompositionStyle::Lighter => "lighter"@,
            CompositionStyle::Xor => "xor"@,
        }
    }

    pub fn to_str(&self) -> (r: &'static str)
        ensures
            r@ == self.spec_to_str(),
    {
        match *self {
            CompositionStyle::SrcIn => "source-in",
            CompositionStyle::SrcOut => "source-out",
            CompositionStyle::SrcOver => "source-over",
            CompositionStyle::SrcAtop => "source-atop",
            CompositionStyle::DestIn => "destination-in",
            CompositionStyle::DestOut => "destination-out",
            CompositionStyle::DestOver => "destination-over",
            CompositionStyle::DestAtop => "destination-atop",
            CompositionStyle::Copy => "copy",
            CompositionStyle::Lighter => "lighter",
            CompositionStyle::Xor => "xor",
        }
    }

    /// The composition operator named by a CSS keyword, if any.
    pub open spec fn spec_from_str(s: Seq<char>) -> Result<CompositionStyle, ()> {
        if s == "source-in"@ {
            Ok(CompositionStyle::SrcIn)
        } else if s == "source-out"@ {
            Ok(CompositionStyle::SrcOut)
        } else if s == "source-over"@ {
            Ok(CompositionStyle::SrcOver)
        } else if s == "source-atop"@ {
            Ok(CompositionStyle::SrcAtop)
        } else if s == "destination-in"@ {
            Ok(CompositionStyle::DestIn)
        } else if s == "destination-out"@ {
            Ok(CompositionStyle::DestOut)
        } else if s == "destination-over"@ {
            Ok(CompositionStyle::DestOver)
        } else if s == "destination-atop"@ {
            Ok(CompositionStyle::DestAtop)
        } else if s == "copy"@ {
            Ok(CompositionStyle::Copy)
        } else if s == "lighter"@ {
            Ok(CompositionStyle::Lighter)
        } else if s == "xor"@ {
            Ok(CompositionStyle::Xor)
        } else {
            Err(())
        }
    }

    pub fn from_str(string: &str) -> (r: Result<CompositionStyle, ()>)
        ensures
            r == CompositionStyle::spec_from_str(string@),
    {
        if str_eq(string, "source-in") {
            Ok(CompositionStyle::SrcIn)
        } else if str_eq(string, "source-out") {
            Ok(CompositionStyle::SrcOut)
        } else if str_eq(string, "source-over") {
            Ok(CompositionStyle::SrcOver)
        } else if str_eq(string, "source-atop") {
            Ok(CompositionStyle::SrcAtop)
        } else if str_eq(string, "destination-in") {
            Ok(CompositionStyle::DestIn)
        } else if str_eq(string, "destination-out") {
            Ok(CompositionStyle::DestOut)
        } else if str_eq(string, "destination-over") {
            Ok(CompositionStyle::DestOver)
        } else if str_eq(string, "destination-atop") {
            Ok(CompositionStyle::DestAtop)
        } else if str_eq(string, "copy") {
            Ok(CompositionStyle::Copy)
        } else if str_eq(string, "lighter") {
            Ok(CompositionStyle::Lighter)
        } else if str_eq(string, "xor") {
            Ok(CompositionStyle::Xor)
        } else {
            Err(())
        }
    }
}

/// Either a composition operator or a blend mode.
#[derive(Clone, Copy, Debug, PartialEq, Eq, Structural)]
pub enum CompositionOrBlending {
    Composition(CompositionStyle),
    Blending(BlendingStyle),
}

impl Default for CompositionOrBlending {
    /// The canvas default composition operator is source-over.
    fn default() -> (r: CompositionOrBlending)
        ensures
            r == CompositionOrBlending::Composition(CompositionStyle::SrcOver),
    {
        CompositionOrBlending::Composition(CompositionStyle::SrcOver)
    }
}

impl CompositionOrBlending {
    /// A keyword names a composition operator first, a blend mode
    /// otherwise.
    pub open spec fn spec_from_str(s: Seq<char>) -> Result<CompositionOrBlending, ()> {
        if CompositionStyle::spec_from_str(s) is Ok {
            Ok(CompositionOrBlending::Composition(CompositionStyle::spec_from_str(s).unwrap()))
        } else if BlendingStyle::spec_from_str(s) is Ok {
            Ok(CompositionOrBlending::Blending(BlendingStyle::spec_from_str(s).unwrap()))
        } else {
            Err(())
        }
    }

    pub fn from_str(string: &str) -> (r: Result<CompositionOrBlending, ()>)
        ensures
            r == CompositionOrBlending::spec_from_str(string@),
    {
        if let Ok(op) = CompositionStyle::from_str(string) {
            return Ok(CompositionOrBlending::Composition(op));
        }
        if let Ok(op) = BlendingStyle::from_str(string) {
            return Ok(CompositionOrBlending::Blending(op));
        }
        Err(())
    }
}

/// Line cap styles.
#[derive(Clone, Copy, Debug, PartialEq, Eq, Structural)]
pub enum LineCapStyle {
    Butt,
    Round,
    Square,
}

/// Line join styles.
#[derive(Clone, Copy, Debug, PartialEq, Eq, Structural)]
pub enum LineJoinStyle {
    Round,
    Bevel,
    Miter,
}

impl LineCapStyle {
    pub open spec fn spec_from_str(s: Seq<char>) -> Result<LineCapStyle, ()> {
        if s == "butt"@ {
            Ok(LineCapStyle::Butt)
        } else if s == "round"@ {
            Ok(LineCapStyle::Round)
        } else if s == "square"@ {
            Ok(LineCapStyle::Square)
        } else {
            Err(())
        }
    }

    pub fn from_str(string: &str) -> (r: Result<LineCapStyle, ()>)
        ensures
            r == LineCapStyle::spec_from_str(string@),
    {
        if str_eq(string, "butt") {
            Ok(LineCapStyle::Butt)
        } else if str_eq(string, "round") {
            Ok(LineCapStyle::Round)
        } else if str_eq(string, "square") {
            Ok(LineCapStyle::Square)
        } else {
            Err(())
        }
    }
}

impl LineJoinStyle {
    pub open spec fn spec_from_str(s: Seq<char>) -> Result<LineJoinStyle, ()> {
        if s == "round"@ {
            Ok(LineJoinStyle::Round)
        } else if s == "bevel"@ {
            Ok(LineJoinStyle::Bevel)
        } else if s == "miter"@ {
            Ok(LineJoinStyle::Miter)
        } else {
            Err(())
        }
    }

    pub fn from_str(string: &str) -> (r: Result<LineJoinStyle, ()>)
        ensures
            r == LineJoinStyle::spec_from_str(string@),
    {
        if str_eq(string, "round") {
            Ok(LineJoinStyle::Round)
        } else if str_eq(string, "bevel") {
            Ok(LineJoinStyle::Bevel)
        } else if str_eq(string, "miter") {
            Ok(LineJoinStyle::Miter)
        } else {
            Err(())
        }
    }
}

/// The 2D drawing commands.
///
/// Angles (for `Arc` and `Ellipse`) are fixed-point milliradians; they
/// are carried through to the rasterizer unchanged. `FillText` and
/// `StrokeText` position text at an integer baseline origin with an
/// optional maximum width.
#[derive(Clone, Debug)]
pub enum Canvas2dMsg {
    Arc(Point2D, i64, i64, i64, bool),
    ArcTo(Point2D, Point2D, i64),
    DrawImage(Vec<u8>, Size2D, Rect, Rect, bool),
    DrawImageSelf(Size2D, Rect, Rect, bool),
    BeginPath,
    BezierCurveTo(Point2D, Point2D, Point2D),
    ClearRect(Rect),
    Clip,
    ClosePath,
    Ellipse(Point2D, i64, i64, i64, i64, i64, bool),
    Fill,
    FillText(String, i64, i64, Option<i64>),
    FillRect(Rect),
    IsPointInPath(i64, i64, FillRule),
    LineTo(Point2D),
    MoveTo(Point2D),
    PutImageData(Vec<u8>, Point2D, Size2D, Rect),
    QuadraticCurveTo(Point2D, Point2D),
    Rect(Rect),
    RestoreContext,
    SaveContext,
    StrokeRect(Rect),
    Stroke,
    StrokeText(String, i64, i64, Option<i64>),
    SetFillStyle(FillOrStrokeStyle),
    SetFontStyle(String),
    SetStrokeStyle(FillOrStrokeStyle),
    SetLineWidth(i64),
    SetLineCap(LineCapStyle),
    SetLineJoin(LineJoinStyle),
    SetMiterLimit(i64),
    SetGlobalAlpha(i64),
    SetGlobalComposition(CompositionOrBlending),
    SetTransform(Transform2D),
    SetShadowOffsetX(i64),
    SetShadowOffsetY(i64),
    SetShadowBlur(i64),
    SetShadowColor(Rgba),
    GetImageData(Rect, Size2D),
    NotImplement,
}

/// Messages a script-side caller sends besides drawing commands.
#[derive(Clone, Copy, Debug, PartialEq, Eq, Structural)]
pub enum FromScriptMsg {
    SendPixels,
}

/// The top-level protocol: drawing commands, whole-surface queries, and
/// the terminal `Close`.
#[derive(Clone, Debug)]
pub enum CanvasMsg {
    Canvas2d(Canvas2dMsg),
    GetImageData(Rect, Size2D),
    FromScript(FromScriptMsg),
    Close,
}

} // verus!
