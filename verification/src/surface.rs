//! The software draw target: the backend adapter of the library.
//!
//! The target owns a premultiplied BGRA pixel buffer and a render log.
//! Rectangle-level operations under an axis-preserving transform —
//! solid source-over fills, clears, raw pixel copies, nearest-neighbor
//! image draws and the blur-free shadow composite — are applied to the
//! buffer with exact integer semantics. Everything else (path fills and
//! strokes, clips, gradient and pattern paints, smoothed image draws,
//! rotated draws, exotic composition operators) is appended to the
//! render log in order, for an external rasterizer to consume; the
//! pixel model applies no clipping.

use vstd::prelude::*;
use vstd::pervasive::VecAdditionalExecFns;

use crate::canvas_trait::{CompositionOrBlending, CompositionStyle, FillOrStrokeStyle, LineCapStyle,
    LineJoinStyle, Rgba};
use crate::geometry::{Point2D, Rect, Size2D, Transform2D, COORD_MAX};
use crate::paintstate::clone_style;
use crate::path::PathSegment;

verus! {

/// Largest side length of a surface, in pixels.
pub const SIDE_MAX: usize = 16384;

/// One premultiplied pixel, channels in the buffer's BGRA order.
#[derive(Clone, Copy, Debug, PartialEq, Eq, Structural)]
pub struct Pixel {
    pub b: u8,
    pub g: u8,
    pub r: u8,
    pub a: u8,
}

/// Stroke attributes handed to the rasterizer.
#[derive(Clone, Copy, Debug, PartialEq, Eq, Structural)]
pub struct StrokeOptions {
    pub line_width: i64,
    pub line_cap: LineCapStyle,
    pub line_join: LineJoinStyle,
    pub miter_limit: i64,
}

/// The image filter of a surface draw: nearest-neighbor, or the
/// backend's high-quality filter.
#[derive(Clone, Copy, Debug, PartialEq, Eq, Structural)]
pub enum Filter {
    Point,
    Linear,
}

/// An operation delegated to the external rasterizer, recorded in
/// order.
#[derive(Debug)]
pub enum RenderOp {
    FillPath {
        path: Vec<PathSegment>,
        style: FillOrStrokeStyle,
        alpha: i64,
        comp: CompositionOrBlending,
        transform: Transform2D,
    },
    StrokePath {
        path: Vec<PathSegment>,
        style: FillOrStrokeStyle,
        alpha: i64,
        comp: CompositionOrBlending,
        stroke_opts: StrokeOptions,
        transform: Transform2D,
    },
    ClipPath { path: Vec<PathSegment> },
    PopClip,
    FillRect {
        rect: Rect,
        style: FillOrStrokeStyle,
        alpha: i64,
        comp: CompositionOrBlending,
        transform: Transform2D,
    },
    StrokeRect {
        rect: Rect,
        style: FillOrStrokeStyle,
        alpha: i64,
        comp: CompositionOrBlending,
        stroke_opts: StrokeOptions,
        transform: Transform2D,
    },
    StrokeLine {
        from: Point2D,
        to: Point2D,
        style: FillOrStrokeStyle,
        alpha: i64,
        comp: CompositionOrBlending,
        stroke_opts: StrokeOptions,
        transform: Transform2D,
    },
    ClearRect { rect: Rect, transform: Transform2D },
    DrawSurface {
        data: Vec<u8>,
        image_size: Size2D,
        dest_rect: Rect,
        filter: Filter,
        alpha: i64,
        comp: CompositionOrBlending,
        transform: Transform2D,
    },
    ShadowComposite {
        origin: Point2D,
        color: Rgba,
        offset: Point2D,
        sigma: i64,
        comp: CompositionOrBlending,
    },
}

/// The mathematical value of a logged operation.
pub ghost enum RenderOpView {
    FillPath {
        path: Seq<PathSegment>,
        style: crate::paintstate::StyleView,
        alpha: int,
        comp: CompositionOrBlending,
        transform: Transform2D,
    },
    StrokePath {
        path: Seq<PathSegment>,
        style: crate::paintstate::StyleView,
        alpha: int,
        comp: CompositionOrBlending,
        stroke_opts: StrokeOptions,
        transform: Transform2D,
    },
    ClipPath { path: Seq<PathSegment> },
    PopClip,
    FillRect {
        rect: Rect,
        style: crate::paintstate::StyleView,
        alpha: int,
        comp: CompositionOrBlending,
        transform: Transform2D,
    },
    StrokeRect {
        rect: Rect,
        style: crate::paintstate::StyleView,
        alpha: int,
        comp: CompositionOrBlending,
        stroke_opts: StrokeOptions,
        transform: Transform2D,
    },
    StrokeLine {
        from: Point2D,
        to: Point2D,
        style: crate::paintstate::StyleView,
        alpha: int,
        comp: CompositionOrBlending,
        stroke_opts: StrokeOptions,
        transform: Transform2D,
    },
    ClearRect { rect: Rect, transform: Transform2D },
    DrawSurface {
        data: Seq<u8>,
        image_size: Size2D,
        dest_rect: Rect,
        filter: Filter,
        alpha: int,
        comp: CompositionOrBlending,
        transform: Transform2D,
    },
    ShadowComposite {
        origin: Point2D,
        color: Rgba,
        offset: Point2D,
        sigma: int,
        comp: CompositionOrBlending,
    },
}

impl View for RenderOp {
    type V = RenderOpView;

    open spec fn view(&self) -> RenderOpView {
        match self {
            RenderOp::FillPath { path, style, alpha, comp, transform } => RenderOpView::FillPath {
                path: path@,
                style: style@,
                alpha: *alpha as int,
                comp: *comp,
                transform: *transform,
            },
            RenderOp::StrokePath {
                path,
                style,
                alpha,
                comp,
                stroke_opts,
                transform,
            } => RenderOpView::StrokePath {
                path: path@,
                style: style@,
                alpha: *alpha as int,
                comp: *comp,
                stroke_opts: *stroke_opts,
                transform: *transform,
            },
            RenderOp::ClipPath { path } => RenderOpView::ClipPath { path: path@ },
            RenderOp::PopClip => RenderOpView::PopClip,
            RenderOp::FillRect { rect, style, alpha, comp, transform } => RenderOpView::FillRect {
                rect: *rect,
                style: style@,
                alpha: *alpha as int,
                comp: *comp,
                transform: *transform,
            },
            RenderOp::StrokeRect {
                rect,
                style,
                alpha,
                comp,
                stroke_opts,
                transform,
            } => RenderOpView::StrokeRect {
                rect: *rect,
                style: style@,
                alpha: *alpha as int,
                comp: *comp,
                stroke_opts: *stroke_opts,
                transform: *transform,
            },
            RenderOp::StrokeLine {
                from,
                to,
                style,
                alpha,
                comp,
                stroke_opts,
                transform,
            } => RenderOpView::StrokeLine {
                from: *from,
                to: *to,
                style: style@,
                alpha: *alpha as int,
                comp: *comp,
                stroke_opts: *stroke_opts,
                transform: *transform,
            },
            RenderOp::ClearRect { rect, transform } => RenderOpView::ClearRect {
                rect: *rect,
                transform: *transform,
            },
            RenderOp::DrawSurface {
                data,
                image_size,
                dest_rect,
                filter,
                alpha,
                comp,
                transform,
            } => RenderOpView::DrawSurface {
                data: data@,
                image_size: *image_size,
                dest_rect: *dest_rect,
                filter: *filter,
                alpha: *alpha as int,
                comp: *comp,
                transform: *transform,
            },
            RenderOp::ShadowComposite { origin, color, offset, sigma, comp } => (
            RenderOpView::ShadowComposite {
                origin: *origin,
                color: *color,
                offset: *offset,
                sigma: *sigma as int,
                comp: *comp,
            }),
        }
    }
}

/// The view of a render log: the views of its operations, in order.
pub open spec fn log_view(log: Vec<RenderOp>) -> Seq<RenderOpView> {
    log@.map(|_k: int, op: RenderOp| op@)
}

/// Index of pixel `(x, y)` in a buffer of width `w`.
pub open spec fn pix(w: int, x: int, y: int) -> int {
    y * w + x
}

/// Byte index of channel `ch` of pixel `(col, row)` in a row-major
/// BGRA byte block of width `iw`.
pub open spec fn byte_at(iw: int, row: int, col: int, ch: int) -> int {
    4 * (row * iw + col) + ch
}

pub proof fn lemma_pix_unique(w: int, x: int, y: int, x2: int, y2: int)
    requires
        0 <= x < w,
        0 <= x2 < w,
        0 <= y,
        0 <= y2,
        pix(w, x, y) == pix(w, x2, y2),
    ensures
        x == x2 && y == y2,
{
    assert(y == y2 && x == x2) by (nonlinear_arith)
        requires
            0 <= x < w,
            0 <= x2 < w,
            0 <= y,
            0 <= y2,
            y * w + x == y2 * w + x2,
    ;
}

pub proof fn lemma_pix_bound(w: int, h: int, x: int, y: int)
    requires
        0 <= x < w,
        0 <= y < h,
    ensures
        0 <= pix(w, x, y) < w * h,
        y * w <= pix(w, x, y),
{
    assert(0 <= y * w + x < w * h) by (nonlinear_arith)
        requires
            0 <= x < w,
            0 <= y < h,
    ;
}

pub proof fn lemma_area_bound(w: int, h: int)
    requires
        0 < w <= SIDE_MAX,
        0 < h <= SIDE_MAX,
    ensures
        w * h <= SIDE_MAX * SIDE_MAX,
{
    assert(w * h <= SIDE_MAX * SIDE_MAX) by (nonlinear_arith)
        requires
            0 < w <= SIDE_MAX,
            0 < h <= SIDE_MAX,
    ;
}

/// `round(c * a / 255)`: the premultiplied value of a color channel.
pub open spec fn premul_channel(c: u8, a: u8) -> u8 {
    (((c as int) * (a as int) + 127) / 255) as u8
}

/// Bounded inputs have a bounded product.
pub proof fn lemma_mul_bounds(a: int, b: int, ca: int, cb: int)
    requires
        0 <= a <= ca,
        0 <= b <= cb,
    ensures
        0 <= a * b <= ca * cb,
{
    assert(0 <= a * b <= ca * cb) by (nonlinear_arith)
        requires
            0 <= a <= ca,
            0 <= b <= cb,
    ;
}

pub fn premultiply_channel(c: u8, a: u8) -> (r: u8)
    ensures
        r == premul_channel(c, a),
{
    proof {
        lemma_mul_bounds(c as int, a as int, 255, 255);
    }
    (((c as u32) * (a as u32) + 127) / 255) as u8
}

/// Global alpha values live in `0 ..= 1000` thousandths.
pub open spec fn clamp_milli(ga: int) -> int {
    if ga < 0 {
        0
    } else if ga > 1000 {
        1000
    } else {
        ga
    }
}

pub fn clamp_milli_exec(ga: i64) -> (r: i64)
    ensures
        r == clamp_milli(ga as int),
{
    if ga < 0 {
        0
    } else if ga > 1000 {
        1000
    } else {
        ga
    }
}

/// A channel scaled by a global alpha in thousandths.
pub open spec fn scale_channel(c: u8, ga: int) -> u8 {
    ((c as int) * clamp_milli(ga) / 1000) as u8
}

pub fn scale_channel_exec(c: u8, ga: i64) -> (r: u8)
    ensures
        r == scale_channel(c, ga as int),
{
    let m = clamp_milli_exec(ga);
    proof {
        lemma_mul_bounds(c as int, m as int, 255, 1000);
    }
    ((c as i64 * m) / 1000) as u8
}

/// Saturating source-over of one channel: the premultiplied source
/// plus the destination scaled by the source's remaining transparency.
pub open spec fn over_channel(d: u8, s: u8, sa: u8) -> u8 {
    let v = s as int + ((d as int) * (255 - sa as int) + 127) / 255;
    if v > 255 {
        255u8
    } else {
        v as u8
    }
}

pub fn over_channel_exec(d: u8, s: u8, sa: u8) -> (r: u8)
    ensures
        r == over_channel(d, s, sa),
{
    proof {
        lemma_mul_bounds(d as int, 255 - sa as int, 255, 255);
    }
    let v: u32 = s as u32 + ((d as u32) * (255 - sa as u32) + 127) / 255;
    if v > 255 {
        255u8
    } else {
        v as u8
    }
}

/// Source-over of whole premultiplied pixels.
pub open spec fn pixel_over(d: Pixel, s: Pixel) -> Pixel {
    Pixel {
        b: over_channel(d.b, s.b, s.a),
        g: over_channel(d.g, s.g, s.a),
        r: over_channel(d.r, s.r, s.a),
        a: over_channel(d.a, s.a, s.a),
    }
}

pub fn pixel_over_exec(d: Pixel, s: Pixel) -> (r: Pixel)
    ensures
        r == pixel_over(d, s),
{
    Pixel {
        b: over_channel_exec(d.b, s.b, s.a),
        g: over_channel_exec(d.g, s.g, s.a),
        r: over_channel_exec(d.r, s.r, s.a),
        a: over_channel_exec(d.a, s.a, s.a),
    }
}

/// The premultiplied source pixel of a solid paint under a global
/// alpha.
pub open spec fn solid_source(color: Rgba, ga: int) -> Pixel {
    let sa = ((color.alpha as int) * clamp_milli(ga) / 1000) as u8;
    Pixel {
        b: premul_channel(color.blue, sa),
        g: premul_channel(color.green, sa),
        r: premul_channel(color.red, sa),
        a: sa,
    }
}

pub fn solid_source_exec(color: Rgba, ga: i64) -> (r: Pixel)
    ensures
        r == solid_source(color, ga as int),
{
    let sa = scale_channel_exec(color.alpha, ga);
    Pixel {
        b: premultiply_channel(color.blue, sa),
        g: premultiply_channel(color.green, sa),
        r: premultiply_channel(color.red, sa),
        a: sa,
    }
}

/// A whole premultiplied pixel scaled by a global alpha in
/// thousandths.
pub open spec fn scale_pixel(p: Pixel, ga: int) -> Pixel {
    Pixel {
        b: scale_channel(p.b, ga),
        g: scale_channel(p.g, ga),
        r: scale_channel(p.r, ga),
        a: scale_channel(p.a, ga),
    }
}

pub fn scale_pixel_exec(p: Pixel, ga: i64) -> (r: Pixel)
    ensures
        r == scale_pixel(p, ga as int),
{
    Pixel {
        b: scale_channel_exec(p.b, ga),
        g: scale_channel_exec(p.g, ga),
        r: scale_channel_exec(p.r, ga),
        a: scale_channel_exec(p.a, ga),
    }
}

/// The shadow pixel cast by a snapshot pixel of alpha `sa`: the shadow
/// color, premultiplied, scaled by the snapshot's coverage.
pub open spec fn shadow_source(color: Rgba, sa: u8) -> Pixel {
    Pixel {
        b: premul_channel(premul_channel(color.blue, color.alpha), sa),
        g: premul_channel(premul_channel(color.green, color.alpha), sa),
        r: premul_channel(premul_channel(color.red, color.alpha), sa),
        a: premul_channel(color.alpha, sa),
    }
}

pub fn shadow_source_exec(color: Rgba, sa: u8) -> (r: Pixel)
    ensures
        r == shadow_source(color, sa),
{
    Pixel {
        b: premultiply_channel(premultiply_channel(color.blue, color.alpha), sa),
        g: premultiply_channel(premultiply_channel(color.green, color.alpha), sa),
        r: premultiply_channel(premultiply_channel(color.red, color.alpha), sa),
        a: premultiply_channel(color.alpha, sa),
    }
}

/// A value clamped into `[lo, hi]`.
pub open spec fn clamp_int(v: int, lo: int, hi: int) -> int {
    if v < lo {
        lo
    } else if v > hi {
        hi
    } else {
        v
    }
}

/// The channels of a pixel in buffer order.
pub open spec fn pixel_channel(p: Pixel, ch: int) -> u8 {
    if ch == 0 {
        p.b
    } else if ch == 1 {
        p.g
    } else if ch == 2 {
        p.r
    } else {
        p.a
    }
}

/// The device-space pixel box a user-space rectangle covers under an
/// axis-preserving transform, clamped to a `w` by `h` surface.
pub open spec fn spec_device_box(t: Transform2D, w: int, h: int, r: Rect) -> (int, int, int, int) {
    let c1 = t.spec_transform_point(r.origin);
    let c2 = t.spec_transform_point(
        Point2D {
            x: (r.origin.x + r.size.width) as i64,
            y: (r.origin.y + r.size.height) as i64,
        },
    );
    (
        clamp_int(crate::geometry::min_int(c1.x as int, c2.x as int), 0, w),
        clamp_int(crate::geometry::min_int(c1.y as int, c2.y as int), 0, h),
        clamp_int(crate::geometry::max_int(c1.x as int, c2.x as int), 0, w),
        clamp_int(crate::geometry::max_int(c1.y as int, c2.y as int), 0, h),
    )
}

/// Nearest-neighbor sample of a BGRA byte buffer for device pixel
/// `(x, y)` of the device box with origin `(dx0, dy0)` and extent
/// `(dwf, dhf)`.
pub open spec fn sample_nearest(
    bytes: Seq<u8>,
    sw: int,
    sh: int,
    dx0: int,
    dy0: int,
    dwf: int,
    dhf: int,
    x: int,
    y: int,
) -> Pixel {
    let sx = ((x - dx0) * sw) / dwf;
    let sy = ((y - dy0) * sh) / dhf;
    Pixel {
        b: bytes[4 * (sy * sw + sx)],
        g: bytes[4 * (sy * sw + sx) + 1],
        r: bytes[4 * (sy * sw + sx) + 2],
        a: bytes[4 * (sy * sw + sx) + 3],
    }
}

/// Whether an image's byte buffer matches its stated size.
pub open spec fn spec_image_valid(image_size: Size2D, data: Seq<u8>) -> bool {
    &&& 0 < image_size.width <= SIDE_MAX
    &&& 0 < image_size.height <= SIDE_MAX
    &&& data.len() == 4 * (image_size.width * image_size.height)
}

/// Whether a fill can be applied to the pixel buffer directly: a solid
/// color, composited source-over, under an axis-preserving transform.
pub open spec fn solid_over_axis(
    style: crate::paintstate::StyleView,
    comp: CompositionOrBlending,
    t: Transform2D,
) -> bool {
    &&& style is Color
    &&& comp == CompositionOrBlending::Composition(CompositionStyle::SrcOver)
    &&& t.spec_axis_preserving()
}

/// What a box paint writes at one pixel: the source itself, or the
/// source composited over the old value.
pub open spec fn paint_pixel(d: Pixel, s: Pixel, blend: bool) -> Pixel {
    if blend {
        pixel_over(d, s)
    } else {
        s
    }
}

/// The software draw target.
pub struct DrawTarget {
    pub width: usize,
    pub height: usize,
    pub data: Vec<Pixel>,
    pub transform: Transform2D,
    pub render_log: Vec<RenderOp>,
}

impl DrawTarget {
    /// Structural soundness: the buffer covers exactly the surface.
    pub open spec fn wf(self) -> bool {
        &&& 0 < self.width <= SIDE_MAX
        &&& 0 < self.height <= SIDE_MAX
        &&& self.data@.len() == self.width * self.height
    }

    /// A fresh, fully transparent surface under the identity
    /// transform.
    pub fn new(width: usize, height: usize) -> (t: DrawTarget)
        requires
            0 < width <= SIDE_MAX,
            0 < height <= SIDE_MAX,
        ensures
            t.wf(),
            t.width == width,
            t.height == height,
            t.transform == Transform2D::spec_identity(),
            t.render_log@.len() == 0,
            forall|k: int| 0 <= k < t.data@.len() ==> t.data@[k] == (Pixel {
                b: 0,
                g: 0,
                r: 0,
                a: 0,
            }),
    {
        proof {
            lemma_area_bound(width as int, height as int);
        }
        let total = width * height;
        let mut data: Vec<Pixel> = Vec::new();
        let mut i: usize = 0;
        while i < total
            invariant
                i <= total,
                data@.len() == i,
                forall|k: int| 0 <= k < i ==> data@[k] == (Pixel { b: 0, g: 0, r: 0, a: 0 }),
            decreases total - i,
        {
            data.push(Pixel { b: 0, g: 0, r: 0, a: 0 });
            i += 1;
        }
        DrawTarget {
            width,
            height,
            data,
            transform: Transform2D::identity(),
            render_log: Vec::new(),
        }
    }

    pub fn set_transform(&mut self, t: &Transform2D)
        ensures
            final(self).transform == *t,
            final(self).width == old(self).width,
            final(self).height == old(self).height,
            final(self).data == old(self).data,
            final(self).render_log == old(self).render_log,
    {
        self.transform = *t;
    }

    /// Paints the device-space box `[x0, x1) x [y0, y1)` with `src`,
    /// either replacing pixels or compositing source-over.
    fn paint_box(&mut self, x0: usize, y0: usize, x1: usize, y1: usize, src: Pixel, blend: bool)
        requires
            old(self).wf(),
            x0 <= x1 <= old(self).width,
            y0 <= y1 <= old(self).height,
        ensures
            final(self).wf(),
            final(self).width == old(self).width,
            final(self).height == old(self).height,
            final(self).transform == old(self).transform,
            final(self).render_log == old(self).render_log,
            forall|x: int, y: int|
                0 <= x < old(self).width && 0 <= y < old(self).height ==> final(self).data@[pix(
                    old(self).width as int,
                    x,
                    y,
                )] == (if x0 <= x < x1 && y0 <= y < y1 {
                    paint_pixel(old(self).data@[pix(old(self).width as int, x, y)], src, blend)
                } else {
                    old(self).data@[pix(old(self).width as int, x, y)]
                }),
    {
        let ghost w = self.width as int;
        let ghost h = self.height as int;
        let ghost data0 = self.data@;
        let mut y = y0;
        while y < y1
            invariant
                self.wf(),
                self.width == old(self).width,
                self.height == old(self).height,
                self.transform == old(self).transform,
                self.render_log == old(self).render_log,
                w == self.width as int,
                h == self.height as int,
                data0 == old(self).data@,
                y0 <= y <= y1,
                x0 <= x1 <= self.width,
                y1 <= self.height,
                forall|xx: int, yy: int|
                    0 <= xx < w && 0 <= yy < h ==> self.data@[pix(w, xx, yy)] == (if x0 <= xx < x1
                        && y0 <= yy < y {
                        paint_pixel(data0[pix(w, xx, yy)], src, blend)
                    } else {
                        data0[pix(w, xx, yy)]
                    }),
            decreases y1 - y,
        {
            let mut x = x0;
            while x < x1
                invariant
                    self.wf(),
                    self.width == old(self).width,
                    self.height == old(self).height,
                    self.transform == old(self).transform,
                    self.render_log == old(self).render_log,
                    w == self.width as int,
                    h == self.height as int,
                    data0 == old(self).data@,
                    y0 <= y < y1,
                    x0 <= x <= x1,
                    x1 <= self.width,
                    y1 <= self.height,
                    forall|xx: int, yy: int|
                        0 <= xx < w && 0 <= yy < h ==> self.data@[pix(w, xx, yy)] == (if (x0 <= xx
                            < x1 && y0 <= yy < y) || (y == yy && x0 <= xx < x) {
                            paint_pixel(data0[pix(w, xx, yy)], src, blend)
                        } else {
                            data0[pix(w, xx, yy)]
                        }),
                decreases x1 - x,
            {
                proof {
                    lemma_pix_bound(w, h, x as int, y as int);
                    lemma_area_bound(w, h);
                }
                let idx: usize = y * self.width + x;
                let d = self.data[idx];
                let v = if blend {
                    pixel_over_exec(d, src)
                } else {
                    src
                };
                let ghost pre = self.data@;
                self.data.set(idx, v);
                proof {
                    assert forall|xx: int, yy: int|
                        0 <= xx < w && 0 <= yy < h && !(xx == x as int && yy == y as int) implies
                        self.data@[pix(w, xx, yy)] == pre[pix(w, xx, yy)] by {
                        lemma_pix_bound(w, h, xx, yy);
                        if pix(w, xx, yy) == idx as int {
                            lemma_pix_unique(w, xx, yy, x as int, y as int);
                        }
                    }
                }
                x += 1;
            }
            y += 1;
        }
    }

    /// Appends one operation to the render log, pixels untouched.
    fn log_op(&mut self, op: RenderOp)
        ensures
            final(self).width == old(self).width,
            final(self).height == old(self).height,
            final(self).data == old(self).data,
            final(self).transform == old(self).transform,
            log_view(final(self).render_log) == log_view(old(self).render_log).push(op@),
    {
        let ghost oldlog = self.render_log;
        self.render_log.push(op);
        proof {
            assert(log_view(self.render_log) =~= log_view(oldlog).push(op@));
        }
    }

    /// The clamped device box of a user-space rectangle.
    fn device_box(&self, rect: &Rect) -> (r: (usize, usize, usize, usize))
        requires
            self.wf(),
            crate::geometry::rect_in_bounds(*rect),
            self.transform.spec_coeffs_in_bounds(),
        ensures
            (r.0 as int, r.1 as int, r.2 as int, r.3 as int) == spec_device_box(
                self.transform,
                self.width as int,
                self.height as int,
                *rect,
            ),
            r.0 <= r.2 <= self.width,
            r.1 <= r.3 <= self.height,
    {
        let c1 = self.transform.transform_point(&rect.origin);
        let corner = Point2D {
            x: rect.origin.x + rect.size.width,
            y: rect.origin.y + rect.size.height,
        };
        let c2 = self.transform.transform_point(&corner);
        let x0 = crate::geometry::min_i64(c1.x, c2.x);
        let x1 = crate::geometry::max_i64(c1.x, c2.x);
        let y0 = crate::geometry::min_i64(c1.y, c2.y);
        let y1 = crate::geometry::max_i64(c1.y, c2.y);
        (
            clamp_to(x0, self.width),
            clamp_to(y0, self.height),
            clamp_to(x1, self.width),
            clamp_to(y1, self.height),
        )
    }

    /// Fills a rectangle. A solid color under source-over and an
    /// axis-preserving transform is blended into the pixel buffer;
    /// anything else is delegated to the rasterizer.
    pub fn fill_rect(
        &mut self,
        rect: &Rect,
        style: &FillOrStrokeStyle,
        alpha: i64,
        comp: CompositionOrBlending,
    )
        requires
            old(self).wf(),
            crate::geometry::rect_in_bounds(*rect),
            old(self).transform.spec_coeffs_in_bounds(),
        ensures
            final(self).wf(),
            final(self).width == old(self).width,
            final(self).height == old(self).height,
            final(self).transform == old(self).transform,
            solid_over_axis(style@, comp, old(self).transform) ==> {
                let b = spec_device_box(
                    old(self).transform,
                    old(self).width as int,
                    old(self).height as int,
                    *rect,
                );
                let src = solid_source(style->Color_0, alpha as int);
                &&& log_view(final(self).render_log) == log_view(old(self).render_log)
                &&& forall|x: int, y: int|
                    0 <= x < old(self).width && 0 <= y < old(self).height ==> final(self).data@[pix(old(self).width as int, x, y)] == (if b.0 <= x < b.2 && b.1 <= y
                        < b.3 {
                        pixel_over(old(self).data@[pix(old(self).width as int, x, y)], src)
                    } else {
                        old(self).data@[pix(old(self).width as int, x, y)]
                    })
            },
            !solid_over_axis(style@, comp, old(self).transform) ==> {
                &&& final(self).data == old(self).data
                &&& log_view(final(self).render_log) == log_view(old(self).render_log).push(
                    RenderOpView::FillRect {
                        rect: *rect,
                        style: style@,
                        alpha: alpha as int,
                        comp,
                        transform: old(self).transform,
                    },
                )
            },
    {
        let solid = match style {
            FillOrStrokeStyle::Color(_) => true,
            _ => false,
        };
        let over = match comp {
            CompositionOrBlending::Composition(CompositionStyle::SrcOver) => true,
            _ => false,
        };
        if solid && over && self.transform.axis_preserving() {
            let color = match style {
                FillOrStrokeStyle::Color(c) => *c,
                _ => Rgba { red: 0, green: 0, blue: 0, alpha: 0 },
            };
            let src = solid_source_exec(color, alpha);
            let (x0, y0, x1, y1) = self.device_box(rect);
            self.paint_box(x0, y0, x1, y1, src, true);
        } else {
            self.log_op(
                RenderOp::FillRect {
                    rect: *rect,
                    style: clone_style(style),
                    alpha,
                    comp,
                    transform: self.transform,
                },
            );
        }
    }

    /// Clears a rectangle to transparent black; a non-axis-preserving
    /// transform delegates to the rasterizer.
    pub fn clear_rect(&mut self, rect: &Rect)
        requires
            old(self).wf(),
            crate::geometry::rect_in_bounds(*rect),
            old(self).transform.spec_coeffs_in_bounds(),
        ensures
            final(self).wf(),
            final(self).width == old(self).width,
            final(self).height == old(self).height,
            final(self).transform == old(self).transform,
            old(self).transform.spec_axis_preserving() ==> {
                let b = spec_device_box(
                    old(self).transform,
                    old(self).width as int,
                    old(self).height as int,
                    *rect,
                );
                &&& log_view(final(self).render_log) == log_view(old(self).render_log)
                &&& forall|x: int, y: int|
                    0 <= x < old(self).width && 0 <= y < old(self).height ==> final(self).data@[pix(old(self).width as int, x, y)] == (if b.0 <= x < b.2 && b.1 <= y
                        < b.3 {
                        Pixel { b: 0, g: 0, r: 0, a: 0 }
                    } else {
                        old(self).data@[pix(old(self).width as int, x, y)]
                    })
            },
            !old(self).transform.spec_axis_preserving() ==> {
                &&& final(self).data == old(self).data
                &&& log_view(final(self).render_log) == log_view(old(self).render_log).push(
                    RenderOpView::ClearRect { rect: *rect, transform: old(self).transform },
                )
            },
    {
        if self.transform.axis_preserving() {
            let (x0, y0, x1, y1) = self.device_box(rect);
            self.paint_box(x0, y0, x1, y1, Pixel { b: 0, g: 0, r: 0, a: 0 }, false);
        } else {
            self.log_op(RenderOp::ClearRect { rect: *rect, transform: self.transform });
        }
    }

    /// Delegates a rectangle stroke to the rasterizer.
    pub fn stroke_rect(
        &mut self,
        rect: &Rect,
        style: &FillOrStrokeStyle,
        alpha: i64,
        comp: CompositionOrBlending,
        stroke_opts: StrokeOptions,
    )
        ensures
            final(self).width == old(self).width,
            final(self).height == old(self).height,
            final(self).data == old(self).data,
            final(self).transform == old(self).transform,
            log_view(final(self).render_log) == log_view(old(self).render_log).push(
                RenderOpView::StrokeRect {
                    rect: *rect,
                    style: style@,
                    alpha: alpha as int,
                    comp,
                    stroke_opts,
                    transform: old(self).transform,
                },
            ),
    {
        self.log_op(
            RenderOp::StrokeRect {
                rect: *rect,
                style: clone_style(style),
                alpha,
                comp,
                stroke_opts,
                transform: self.transform,
            },
        );
    }

    /// Delegates a line stroke to the rasterizer.
    pub fn stroke_line(
        &mut self,
        from: Point2D,
        to: Point2D,
        style: &FillOrStrokeStyle,
        alpha: i64,
        comp: CompositionOrBlending,
        stroke_opts: StrokeOptions,
    )
        ensures
            final(self).width == old(self).width,
            final(self).height == old(self).height,
            final(self).data == old(self).data,
            final(self).transform == old(self).transform,
            log_view(final(self).render_log) == log_view(old(self).render_log).push(
                RenderOpView::StrokeLine {
                    from,
                    to,
                    style: style@,
                    alpha: alpha as int,
                    comp,
                    stroke_opts,
                    transform: old(self).transform,
                },
            ),
    {
        self.log_op(
            RenderOp::StrokeLine {
                from,
                to,
                style: clone_style(style),
                alpha,
                comp,
                stroke_opts,
                transform: self.transform,
            },
        );
    }

    /// Delegates a path fill to the rasterizer.
    pub fn fill_path(
        &mut self,
        path: Vec<PathSegment>,
        style: &FillOrStrokeStyle,
        alpha: i64,
        comp: CompositionOrBlending,
    )
        ensures
            final(self).width == old(self).width,
            final(self).height == old(self).height,
            final(self).data == old(self).data,
            final(self).transform == old(self).transform,
            log_view(final(self).render_log) == log_view(old(self).render_log).push(
                RenderOpView::FillPath {
                    path: path@,
                    style: style@,
                    alpha: alpha as int,
                    comp,
                    transform: old(self).transform,
                },
            ),
    {
        self.log_op(
            RenderOp::FillPath {
                path,
                style: clone_style(style),
                alpha,
                comp,
                transform: self.transform,
            },
        );
    }

    /// Delegates a path stroke to the rasterizer.
    pub fn stroke_path(
        &mut self,
        path: Vec<PathSegment>,
        style: &FillOrStrokeStyle,
        alpha: i64,
        comp: CompositionOrBlending,
        stroke_opts: StrokeOptions,
    )
        ensures
            final(self).width == old(self).width,
            final(self).height == old(self).height,
            final(self).data == old(self).data,
            final(self).transform == old(self).transform,
            log_view(final(self).render_log) == log_view(old(self).render_log).push(
                RenderOpView::StrokePath {
                    path: path@,
                    style: style@,
                    alpha: alpha as int,
                    comp,
                    stroke_opts,
                    transform: old(self).transform,
                },
            ),
    {
        self.log_op(
            RenderOp::StrokePath {
                path,
                style: clone_style(style),
                alpha,
                comp,
                stroke_opts,
                transform: self.transform,
            },
        );
    }

    /// Delegates a clip region push to the rasterizer.
    pub fn push_clip(&mut self, path: Vec<PathSegment>)
        ensures
            final(self).width == old(self).width,
            final(self).height == old(self).height,
            final(self).data == old(self).data,
            final(self).transform == old(self).transform,
            log_view(final(self).render_log) == log_view(old(self).render_log).push(
                RenderOpView::ClipPath { path: path@ },
            ),
    {
        self.log_op(RenderOp::ClipPath { path });
    }

    /// Replaces the device-space pixels covered by a source pixel
    /// block placed at `origin` (no blending, the put-image path).
    pub fn copy_pixels(&mut self, src: &Vec<Pixel>, sw: usize, sh: usize, origin: Point2D)
        requires
            old(self).wf(),
            src@.len() == sw * sh,
            sw <= SIDE_MAX,
            sh <= SIDE_MAX,
            -2 * COORD_MAX <= origin.x <= 2 * COORD_MAX,
            -2 * COORD_MAX <= origin.y <= 2 * COORD_MAX,
        ensures
            final(self).wf(),
            final(self).width == old(self).width,
            final(self).height == old(self).height,
            final(self).transform == old(self).transform,
            log_view(final(self).render_log) == log_view(old(self).render_log),
            forall|x: int, y: int|
                0 <= x < old(self).width && 0 <= y < old(self).height ==> final(self).data@[pix(
                    old(self).width as int,
                    x,
                    y,
                )] == (if origin.x <= x < origin.x + sw && origin.y <= y < origin.y + sh {
                    src@[pix(sw as int, x - origin.x, y - origin.y)]
                } else {
                    old(self).data@[pix(old(self).width as int, x, y)]
                }),
    {
        let ghost w = self.width as int;
        let ghost h = self.height as int;
        let ghost data0 = self.data@;
        let mut sy: usize = 0;
        while sy < sh
            invariant
                self.wf(),
                self.width == old(self).width,
                self.height == old(self).height,
                self.transform == old(self).transform,
                self.render_log == old(self).render_log,
                w == self.width as int,
                h == self.height as int,
                data0 == old(self).data@,
                src@.len() == sw * sh,
                sw <= SIDE_MAX,
                sh <= SIDE_MAX,
                -2 * COORD_MAX <= origin.x <= 2 * COORD_MAX,
                -2 * COORD_MAX <= origin.y <= 2 * COORD_MAX,
                sy <= sh,
                forall|x: int, y: int|
                    0 <= x < w && 0 <= y < h ==> self.data@[pix(w, x, y)] == (if origin.x <= x
                        < origin.x + sw && origin.y <= y < origin.y + sy {
                        src@[pix(sw as int, x - origin.x, y - origin.y)]
                    } else {
                        data0[pix(w, x, y)]
                    }),
            decreases sh - sy,
        {
            let dy: i64 = origin.y + sy as i64;
            if 0 <= dy && dy < self.height as i64 {
                let mut sx: usize = 0;
                while sx < sw
                    invariant
                        self.wf(),
                        self.width == old(self).width,
                        self.height == old(self).height,
                        self.transform == old(self).transform,
                        self.render_log == old(self).render_log,
                        w == self.width as int,
                        h == self.height as int,
                        data0 == old(self).data@,
                        src@.len() == sw * sh,
                        sw <= SIDE_MAX,
                        sh <= SIDE_MAX,
                        -2 * COORD_MAX <= origin.x <= 2 * COORD_MAX,
                        -2 * COORD_MAX <= origin.y <= 2 * COORD_MAX,
                        sy < sh,
                        sx <= sw,
                        dy == origin.y + sy,
                        0 <= dy < h,
                        forall|x: int, y: int|
                            0 <= x < w && 0 <= y < h ==> self.data@[pix(w, x, y)] == (if (origin.x
                                <= x < origin.x + sw && origin.y <= y < origin.y + sy) || (y == dy
                                && origin.x <= x < origin.x + sx) {
                                src@[pix(sw as int, x - origin.x, y - origin.y)]
                            } else {
                                data0[pix(w, x, y)]
                            }),
                    decreases sw - sx,
                {
                    let dx: i64 = origin.x + sx as i64;
                    if 0 <= dx && dx < self.width as i64 {
                        proof {
                            lemma_pix_bound(sw as int, sh as int, sx as int, sy as int);
                            lemma_pix_bound(w, h, dx as int, dy as int);
                            lemma_area_bound(w, h);
                            lemma_mul_bounds(sw as int, sh as int, SIDE_MAX as int, SIDE_MAX as int);
                        }
                        let sidx: usize = sy * sw + sx;
                        let didx: usize = (dy as usize) * self.width + (dx as usize);
                        let ghost pre = self.data@;
                        self.data.set(didx, src[sidx]);
                        proof {
                            assert forall|xx: int, yy: int|
                                0 <= xx < w && 0 <= yy < h && !(xx == dx as int && yy
                                    == dy as int) implies self.data@[pix(w, xx, yy)] == pre[pix(
                                w,
                                xx,
                                yy,
                            )] by {
                                lemma_pix_bound(w, h, xx, yy);
                                if pix(w, xx, yy) == didx as int {
                                    lemma_pix_unique(w, xx, yy, dx as int, dy as int);
                                }
                            }
                        }
                    }
                    sx += 1;
                }
            }
            sy += 1;
        }
    }

    /// Draws a BGRA byte image into a destination rectangle.
    ///
    /// A nearest-neighbor draw under source-over and an axis-preserving
    /// transform is applied to the pixel buffer; a smoothed, rotated or
    /// differently composited draw is delegated to the rasterizer. An
    /// image whose buffer does not match its size draws nothing.
    pub fn draw_surface(
        &mut self,
        data: &Vec<u8>,
        image_size: Size2D,
        dest_rect: Rect,
        filter: Filter,
        alpha: i64,
        comp: CompositionOrBlending,
    )
        requires
            old(self).wf(),
            crate::geometry::rect_in_bounds(dest_rect),
            old(self).transform.spec_coeffs_in_bounds(),
        ensures
            final(self).wf(),
            final(self).width == old(self).width,
            final(self).height == old(self).height,
            final(self).transform == old(self).transform,
            !spec_image_valid(image_size, data@) ==> final(self).data == old(self).data
                && log_view(final(self).render_log) == log_view(old(self).render_log),
            spec_image_valid(image_size, data@) && !(filter == Filter::Point && comp
                == CompositionOrBlending::Composition(CompositionStyle::SrcOver) && old(
                self,
            ).transform.spec_axis_preserving()) ==> final(self).data == old(self).data && log_view(
                final(self).render_log,
            ) == log_view(old(self).render_log).push(
                RenderOpView::DrawSurface {
                    data: data@,
                    image_size,
                    dest_rect,
                    filter,
                    alpha: alpha as int,
                    comp,
                    transform: old(self).transform,
                },
            ),
            spec_image_valid(image_size, data@) && filter == Filter::Point && comp
                == CompositionOrBlending::Composition(CompositionStyle::SrcOver) && old(
                self,
            ).transform.spec_axis_preserving() ==> {
                let c1 = old(self).transform.spec_transform_point(dest_rect.origin);
                let c2 = old(self).transform.spec_transform_point(
                    Point2D {
                        x: (dest_rect.origin.x + dest_rect.size.width) as i64,
                        y: (dest_rect.origin.y + dest_rect.size.height) as i64,
                    },
                );
                let dx0 = crate::geometry::min_int(c1.x as int, c2.x as int);
                let dy0 = crate::geometry::min_int(c1.y as int, c2.y as int);
                let dwf = crate::geometry::max_int(c1.x as int, c2.x as int) - dx0;
                let dhf = crate::geometry::max_int(c1.y as int, c2.y as int) - dy0;
                let b = spec_device_box(
                    old(self).transform,
                    old(self).width as int,
                    old(self).height as int,
                    dest_rect,
                );
                &&& log_view(final(self).render_log) == log_view(old(self).render_log)
                &&& (dwf == 0 || dhf == 0 ==> final(self).data == old(self).data)
                &&& (dwf > 0 && dhf > 0 ==> forall|x: int, y: int|
                    0 <= x < old(self).width && 0 <= y < old(self).height ==> final(self).data@[pix(
                        old(self).width as int,
                        x,
                        y,
                    )] == (if b.0 <= x < b.2 && b.1 <= y < b.3 {
                        pixel_over(
                            old(self).data@[pix(old(self).width as int, x, y)],
                            scale_pixel(
                                sample_nearest(
                                    data@,
                                    image_size.width as int,
                                    image_size.height as int,
                                    dx0,
                                    dy0,
                                    dwf,
                                    dhf,
                                    x,
                                    y,
                                ),
                                alpha as int,
                            ),
                        )
                    } else {
                        old(self).data@[pix(old(self).width as int, x, y)]
                    }))
            },
    {
        if !(0 < image_size.width && image_size.width <= SIDE_MAX as i64 && 0
            < image_size.height && image_size.height <= SIDE_MAX as i64) {
            assert(!spec_image_valid(image_size, data@));
            return ;
        }
        proof {
            lemma_area_bound(image_size.width as int, image_size.height as int);
        }
        if data.len() != 4 * ((image_size.width as usize) * (image_size.height as usize)) {
            assert(!spec_image_valid(image_size, data@));
            return ;
        }
        assert(spec_image_valid(image_size, data@));
        let point = match filter {
            Filter::Point => true,
            Filter::Linear => false,
        };
        let over = match comp {
            CompositionOrBlending::Composition(CompositionStyle::SrcOver) => true,
            _ => false,
        };
        if !(point && over && self.transform.axis_preserving()) {
            self.log_op(
                RenderOp::DrawSurface {
                    data: crate::paintstate::clone_bytes(data),
                    image_size,
                    dest_rect,
                    filter,
                    alpha,
                    comp,
                    transform: self.transform,
                },
            );
            return ;
        }
        let sw = image_size.width as usize;
        let sh = image_size.height as usize;
        let c1 = self.transform.transform_point(&dest_rect.origin);
        let corner = Point2D {
            x: dest_rect.origin.x + dest_rect.size.width,
            y: dest_rect.origin.y + dest_rect.size.height,
        };
        let c2 = self.transform.transform_point(&corner);
        let dx0 = crate::geometry::min_i64(c1.x, c2.x);
        let dy0 = crate::geometry::min_i64(c1.y, c2.y);
        let dwf = crate::geometry::max_i64(c1.x, c2.x) - dx0;
        let dhf = crate::geometry::max_i64(c1.y, c2.y) - dy0;
        if dwf == 0 || dhf == 0 {
            return ;
        }
        let bx0 = clamp_to(dx0, self.width);
        let by0 = clamp_to(dy0, self.height);
        let bx1 = clamp_to(dx0 + dwf, self.width);
        let by1 = clamp_to(dy0 + dhf, self.height);
        if bx0 >= bx1 || by0 >= by1 {
            return ;
        }
        let ghost w = self.width as int;
        let ghost h = self.height as int;
        let ghost data0 = self.data@;
        let mut y = by0;
        while y < by1
            invariant
                self.wf(),
                self.width == old(self).width,
                self.height == old(self).height,
                self.transform == old(self).transform,
                self.render_log == old(self).render_log,
                w == self.width as int,
                h == self.height as int,
                data0 == old(self).data@,
                sw == image_size.width as int,
                sh == image_size.height as int,
                0 < sw <= SIDE_MAX,
                0 < sh <= SIDE_MAX,
                data@.len() == 4 * (sw * sh),
                0 < dwf,
                0 < dhf,
                dx0 <= bx0 <= bx1 <= self.width,
                dy0 <= by0 <= by1 <= self.height,
                bx1 <= dx0 + dwf,
                by1 <= dy0 + dhf,
                by0 <= y <= by1,
                forall|xx: int, yy: int|
                    0 <= xx < w && 0 <= yy < h ==> self.data@[pix(w, xx, yy)] == (if bx0 <= xx
                        < bx1 && by0 <= yy < y {
                        pixel_over(
                            data0[pix(w, xx, yy)],
                            scale_pixel(
                                sample_nearest(
                                    data@,
                                    sw as int,
                                    sh as int,
                                    dx0 as int,
                                    dy0 as int,
                                    dwf as int,
                                    dhf as int,
                                    xx,
                                    yy,
                                ),
                                alpha as int,
                            ),
                        )
                    } else {
                        data0[pix(w, xx, yy)]
                    }),
            decreases by1 - y,
        {
            let mut x = bx0;
            while x < bx1
                invariant
                    self.wf(),
                    self.width == old(self).width,
                    self.height == old(self).height,
                    self.transform == old(self).transform,
                    self.render_log == old(self).render_log,
                    w == self.width as int,
                    h == self.height as int,
                    data0 == old(self).data@,
                    sw == image_size.width as int,
                    sh == image_size.height as int,
                    0 < sw <= SIDE_MAX,
                    0 < sh <= SIDE_MAX,
                    data@.len() == 4 * (sw * sh),
                    0 < dwf,
                    0 < dhf,
                    dx0 <= bx0 <= bx1 <= self.width,
                    dy0 <= by0 <= by1 <= self.height,
                    bx1 <= dx0 + dwf,
                    by1 <= dy0 + dhf,
                    by0 <= y < by1,
                    bx0 <= x <= bx1,
                    forall|xx: int, yy: int|
                        0 <= xx < w && 0 <= yy < h ==> self.data@[pix(w, xx, yy)] == (if (bx0 <= xx
                            < bx1 && by0 <= yy < y) || (yy == y && bx0 <= xx < x) {
                            pixel_over(
                                data0[pix(w, xx, yy)],
                                scale_pixel(
                                    sample_nearest(
                                        data@,
                                        sw as int,
                                        sh as int,
                                        dx0 as int,
                                        dy0 as int,
                                        dwf as int,
                                        dhf as int,
                                        xx,
                                        yy,
                                    ),
                                    alpha as int,
                                ),
                            )
                        } else {
                            data0[pix(w, xx, yy)]
                        }),
                decreases bx1 - x,
            {
                let xrel: u64 = (x as i64 - dx0) as u64;
                let yrel: u64 = (y as i64 - dy0) as u64;
                proof {
                    lemma_mul_bounds(xrel as int, sw as int, u64::MAX as int, SIDE_MAX as int);
                    lemma_mul_bounds(yrel as int, sh as int, u64::MAX as int, SIDE_MAX as int);
                    assert((xrel as int) * (sw as int) < (dwf as int) * (sw as int)) by (nonlinear_arith)
                        requires
                            0 <= xrel < dwf,
                            0 < sw,
                    ;
                    assert((yrel as int) * (sh as int) < (dhf as int) * (sh as int)) by (nonlinear_arith)
                        requires
                            0 <= yrel < dhf,
                            0 < sh,
                    ;
                    vstd::arithmetic::div_mod::lemma_multiply_divide_lt(
                        (xrel as int) * (sw as int),
                        dwf as int,
                        sw as int,
                    );
                    vstd::arithmetic::div_mod::lemma_multiply_divide_lt(
                        (yrel as int) * (sh as int),
                        dhf as int,
                        sh as int,
                    );
                    vstd::arithmetic::div_mod::lemma_div_pos_is_pos(
                        (xrel as int) * (sw as int),
                        dwf as int,
                    );
                    vstd::arithmetic::div_mod::lemma_div_pos_is_pos(
                        (yrel as int) * (sh as int),
                        dhf as int,
                    );
                }
                let sx: usize = (((xrel as u128) * (sw as u128)) / (dwf as u128)) as usize;
                let sy: usize = (((yrel as u128) * (sh as u128)) / (dhf as u128)) as usize;
                proof {
                    lemma_pix_bound(sw as int, sh as int, sx as int, sy as int);
                    lemma_area_bound(sw as int, sh as int);
                    lemma_pix_bound(w, h, x as int, y as int);
                    lemma_area_bound(w, h);
                }
                let base: usize = 4 * (sy * sw + sx);
                let sp = Pixel {
                    b: data[base],
                    g: data[base + 1],
                    r: data[base + 2],
                    a: data[base + 3],
                };
                let src = scale_pixel_exec(sp, alpha);
                let idx: usize = y * self.width + x;
                let d = self.data[idx];
                let ghost pre = self.data@;
                self.data.set(idx, pixel_over_exec(d, src));
                proof {
                    assert forall|xx: int, yy: int|
                        0 <= xx < w && 0 <= yy < h && !(xx == x as int && yy == y as int) implies
                        self.data@[pix(w, xx, yy)] == pre[pix(w, xx, yy)] by {
                        lemma_pix_bound(w, h, xx, yy);
                        if pix(w, xx, yy) == idx as int {
                            lemma_pix_unique(w, xx, yy, x as int, y as int);
                        }
                    }
                }
                x += 1;
            }
            y += 1;
        }
    }

    /// Composites an offscreen snapshot back as a shadow: each covered
    /// pixel casts the shadow color, scaled by its coverage, onto the
    /// surface at the offset position. The blur kernel of this backend
    /// is the identity; `sigma` is recorded when the composite is
    /// delegated.
    pub fn draw_surface_with_shadow(
        &mut self,
        snap: &Vec<Pixel>,
        sw: usize,
        sh: usize,
        origin: Point2D,
        color: Rgba,
        offset: Point2D,
        sigma: i64,
        comp: CompositionOrBlending,
    )
        requires
            old(self).wf(),
            snap@.len() == sw * sh,
            sw <= SIDE_MAX,
            sh <= SIDE_MAX,
            crate::geometry::point_in_bounds(origin),
            crate::geometry::point_in_bounds(offset),
        ensures
            final(self).wf(),
            final(self).width == old(self).width,
            final(self).height == old(self).height,
            final(self).transform == old(self).transform,
            comp != CompositionOrBlending::Composition(CompositionStyle::SrcOver) ==> final(self).data == old(self).data && log_view(final(self).render_log) == log_view(
                old(self).render_log,
            ).push(RenderOpView::ShadowComposite { origin, color, offset, sigma: sigma as int, comp }),
            comp == CompositionOrBlending::Composition(CompositionStyle::SrcOver) ==> {
                let ox = origin.x + offset.x;
                let oy = origin.y + offset.y;
                &&& log_view(final(self).render_log) == log_view(old(self).render_log)
                &&& forall|x: int, y: int|
                    0 <= x < old(self).width && 0 <= y < old(self).height ==> final(self).data@[pix(
                        old(self).width as int,
                        x,
                        y,
                    )] == (if ox <= x < ox + sw && oy <= y < oy + sh {
                        pixel_over(
                            old(self).data@[pix(old(self).width as int, x, y)],
                            shadow_source(color, snap@[pix(sw as int, x - ox, y - oy)].a),
                        )
                    } else {
                        old(self).data@[pix(old(self).width as int, x, y)]
                    })
            },
    {
        let over = match comp {
            CompositionOrBlending::Composition(CompositionStyle::SrcOver) => true,
            _ => false,
        };
        if !over {
            self.log_op(RenderOp::ShadowComposite { origin, color, offset, sigma, comp });
            return ;
        }
        let ox: i64 = origin.x + offset.x;
        let oy: i64 = origin.y + offset.y;
        let ghost w = self.width as int;
        let ghost h = self.height as int;
        let ghost data0 = self.data@;
        let mut sy: usize = 0;
        while sy < sh
            invariant
                self.wf(),
                self.width == old(self).width,
                self.height == old(self).height,
                self.transform == old(self).transform,
                self.render_log == old(self).render_log,
                w == self.width as int,
                h == self.height as int,
                data0 == old(self).data@,
                snap@.len() == sw * sh,
                sw <= SIDE_MAX,
                sh <= SIDE_MAX,
                ox == origin.x + offset.x,
                oy == origin.y + offset.y,
                -2 * COORD_MAX <= ox <= 2 * COORD_MAX,
                -2 * COORD_MAX <= oy <= 2 * COORD_MAX,
                sy <= sh,
                forall|x: int, y: int|
                    0 <= x < w && 0 <= y < h ==> self.data@[pix(w, x, y)] == (if ox <= x < ox + sw
                        && oy <= y < oy + sy {
                        pixel_over(
                            data0[pix(w, x, y)],
                            shadow_source(color, snap@[pix(sw as int, x - ox, y - oy)].a),
                        )
                    } else {
                        data0[pix(w, x, y)]
                    }),
            decreases sh - sy,
        {
            let dy: i64 = oy + sy as i64;
            if 0 <= dy && dy < self.height as i64 {
                let mut sx: usize = 0;
                while sx < sw
                    invariant
                        self.wf(),
                        self.width == old(self).width,
                        self.height == old(self).height,
                        self.transform == old(self).transform,
                        self.render_log == old(self).render_log,
                        w == self.width as int,
                        h == self.height as int,
                        data0 == old(self).data@,
                        snap@.len() == sw * sh,
                        sw <= SIDE_MAX,
                        sh <= SIDE_MAX,
                        ox == origin.x + offset.x,
                        oy == origin.y + offset.y,
                        -2 * COORD_MAX <= ox <= 2 * COORD_MAX,
                        -2 * COORD_MAX <= oy <= 2 * COORD_MAX,
                        sy < sh,
                        sx <= sw,
                        dy == oy + sy,
                        0 <= dy < h,
                        forall|x: int, y: int|
                            0 <= x < w && 0 <= y < h ==> self.data@[pix(w, x, y)] == (if (ox <= x
                                < ox + sw && oy <= y < oy + sy) || (y == dy && ox <= x < ox + sx) {
                                pixel_over(
                                    data0[pix(w, x, y)],
                                    shadow_source(color, snap@[pix(sw as int, x - ox, y - oy)].a),
                                )
                            } else {
                                data0[pix(w, x, y)]
                            }),
                    decreases sw - sx,
                {
                    let dx: i64 = ox + sx as i64;
                    if 0 <= dx && dx < self.width as i64 {
                        proof {
                            lemma_pix_bound(sw as int, sh as int, sx as int, sy as int);
                            lemma_pix_bound(w, h, dx as int, dy as int);
                            lemma_area_bound(w, h);
                            lemma_mul_bounds(
                                sw as int,
                                sh as int,
                                SIDE_MAX as int,
                                SIDE_MAX as int,
                            );
                        }
                        let sidx: usize = sy * sw + sx;
                        let didx: usize = (dy as usize) * self.width + (dx as usize);
                        let src = shadow_source_exec(color, snap[sidx].a);
                        let d = self.data[didx];
                        let ghost pre = self.data@;
                        self.data.set(didx, pixel_over_exec(d, src));
                        proof {
                            assert forall|xx: int, yy: int|
                                0 <= xx < w && 0 <= yy < h && !(xx == dx as int && yy
                                    == dy as int) implies self.data@[pix(w, xx, yy)] == pre[pix(
                                w,
                                xx,
                                yy,
                            )] by {
                                lemma_pix_bound(w, h, xx, yy);
                                if pix(w, xx, yy) == didx as int {
                                    lemma_pix_unique(w, xx, yy, dx as int, dy as int);
                                }
                            }
                        }
                    }
                    sx += 1;
                }
            }
            sy += 1;
        }
    }

    /// Reads back the pixels of a rectangle, clipped to both the
    /// caller's stated canvas size and the surface, as BGRA bytes in
    /// row-major order.
    pub fn read_pixels(&self, read_rect: &Rect, canvas_size: &Size2D) -> (r: Vec<u8>)
        requires
            self.wf(),
            crate::geometry::rect_in_bounds(*read_rect),
            crate::geometry::size_in_bounds(*canvas_size),
        ensures
            ({
                let sr = self.spec_read_rect(*read_rect, *canvas_size);
                &&& r@.len() == 4 * (sr.size.width * sr.size.height)
                &&& forall|row: int, col: int, ch: int|
                    0 <= row < sr.size.height && 0 <= col < sr.size.width && 0 <= ch < 4
                        ==> r@[#[trigger] byte_at(sr.size.width as int, row, col, ch)]
                        == pixel_channel(
                        self.data@[pix(
                            self.width as int,
                            sr.origin.x + col,
                            sr.origin.y + row,
                        )],
                        ch,
                    )
            }),
    {
        let zero = Point2D { x: 0, y: 0 };
        let canvas_rect = Rect { origin: zero, size: *canvas_size };
        let own_rect = Rect {
            origin: zero,
            size: Size2D { width: self.width as i64, height: self.height as i64 },
        };
        let sr = canvas_rect.intersection(read_rect).intersection(&own_rect);
        let ghost w = self.width as int;
        let ghost h = self.height as int;
        let iw = sr.size.width as usize;
        let ih = sr.size.height as usize;
        let mut out: Vec<u8> = Vec::new();
        proof {
            lemma_mul_bounds(iw as int, ih as int, SIDE_MAX as int, SIDE_MAX as int);
        }
        let mut row: usize = 0;
        while row < ih
            invariant
                self.wf(),
                w == self.width as int,
                h == self.height as int,
                sr == self.spec_read_rect(*read_rect, *canvas_size),
                iw == sr.size.width,
                ih == sr.size.height,
                0 <= sr.origin.x,
                0 <= sr.origin.y,
                sr.origin.x + iw <= w,
                sr.origin.y + ih <= h,
                iw <= SIDE_MAX,
                ih <= SIDE_MAX,
                row <= ih,
                out@.len() == 4 * (row * iw),
                forall|rr: int, cc: int, ch: int|
                    0 <= rr < row && 0 <= cc < iw && 0 <= ch < 4 ==> out@[#[trigger] byte_at(
                        iw as int,
                        rr,
                        cc,
                        ch,
                    )] == pixel_channel(
                        self.data@[pix(w, sr.origin.x + cc, sr.origin.y + rr)],
                        ch,
                    ),
            decreases ih - row,
        {
            let mut col: usize = 0;
            while col < iw
                invariant
                    self.wf(),
                    w == self.width as int,
                    h == self.height as int,
                    sr == self.spec_read_rect(*read_rect, *canvas_size),
                    iw == sr.size.width,
                    ih == sr.size.height,
                    0 <= sr.origin.x,
                    0 <= sr.origin.y,
                    sr.origin.x + iw <= w,
                    sr.origin.y + ih <= h,
                    iw <= SIDE_MAX,
                    ih <= SIDE_MAX,
                    row < ih,
                    col <= iw,
                    out@.len() == 4 * (row * iw + col),
                    forall|rr: int, cc: int, ch: int|
                        0 <= rr < row && 0 <= cc < iw && 0 <= ch < 4 ==> out@[#[trigger] byte_at(
                            iw as int,
                            rr,
                            cc,
                            ch,
                        )] == pixel_channel(
                            self.data@[pix(w, sr.origin.x + cc, sr.origin.y + rr)],
                            ch,
                        ),
                    forall|cc: int, ch: int|
                        0 <= cc < col && 0 <= ch < 4 ==> out@[#[trigger] byte_at(
                            iw as int,
                            row as int,
                            cc,
                            ch,
                        )] == pixel_channel(
                            self.data@[pix(w, sr.origin.x + cc, sr.origin.y + row)],
                            ch,
                        ),
                decreases iw - col,
            {
                let x = (sr.origin.x as usize) + col;
                let y = (sr.origin.y as usize) + row;
                proof {
                    lemma_pix_bound(w, h, x as int, y as int);
                    lemma_area_bound(w, h);
                    lemma_mul_bounds(row as int, iw as int, SIDE_MAX as int, SIDE_MAX as int);
                }
                let p = self.data[y * self.width + x];
                let ghost len0 = out@.len() as int;
                out.push(p.b);
                out.push(p.g);
                out.push(p.r);
                out.push(p.a);
                proof {
                    assert forall|rr: int, cc: int, ch: int|
                        ((0 <= rr < row && 0 <= cc < iw) || (rr == row && 0 <= cc < col)) && 0
                            <= ch < 4 implies 0 <= #[trigger] byte_at(iw as int, rr, cc, ch)
                        < len0 by {
                        assert(rr * iw + cc < row * iw + col) by (nonlinear_arith)
                            requires
                                (0 <= rr < row && 0 <= cc < iw) || (rr == row && 0 <= cc < col),
                                0 <= col < iw,
                        ;
                        assert(rr * iw + cc >= 0) by (nonlinear_arith)
                            requires
                                0 <= rr,
                                0 <= cc,
                                0 <= iw,
                        ;
                    }
                    assert(byte_at(iw as int, row as int, col as int, 0) == len0);
                    assert(byte_at(iw as int, row as int, col as int, 1) == len0 + 1);
                    assert(byte_at(iw as int, row as int, col as int, 2) == len0 + 2);
                    assert(byte_at(iw as int, row as int, col as int, 3) == len0 + 3);
                }
                col += 1;
            }
            proof {
                assert((row + 1) * (iw as int) == row * (iw as int) + iw) by (nonlinear_arith);
                assert forall|rr: int, cc: int, ch: int|
                    0 <= rr < row + 1 && 0 <= cc < iw && 0 <= ch < 4 implies out@[#[trigger] byte_at(
                    iw as int,
                    rr,
                    cc,
                    ch,
                )] == pixel_channel(
                    self.data@[pix(w, sr.origin.x + cc, sr.origin.y + rr)],
                    ch,
                ) by {
                    if rr == row {
                        assert(out@[byte_at(iw as int, row as int, cc, ch)] == pixel_channel(
                            self.data@[pix(w, sr.origin.x + cc, sr.origin.y + row)],
                            ch,
                        ));
                    }
                }
            }
            row += 1;
        }
        proof {
            assert((ih as int) * (iw as int) == (iw as int) * (ih as int)) by (nonlinear_arith);
        }
        out
    }

    /// The rectangle [`DrawTarget::read_pixels`] actually reads: the
    /// request clipped to the stated canvas size and to the surface.
    pub open spec fn spec_read_rect(self, read_rect: Rect, canvas_size: Size2D) -> Rect {
        let zero = Point2D { x: 0, y: 0 };
        (Rect { origin: zero, size: canvas_size }).spec_intersection(read_rect).spec_intersection(
            Rect {
                origin: zero,
                size: Size2D { width: self.width as i64, height: self.height as i64 },
            },
        )
    }

    /// A copy of the pixel buffer.
    pub fn snapshot(&self) -> (r: Vec<Pixel>)
        ensures
            r@ == self.data@,
    {
        let mut out: Vec<Pixel> = Vec::new();
        let mut i: usize = 0;
        while i < self.data.len()
            invariant
                i <= self.data.len(),
                out@ == self.data@.subrange(0, i as int),
            decreases self.data.len() - i,
        {
            out.push(self.data[i]);
            i += 1;
        }
        assert(out@ =~= self.data@);
        out
    }

    /// Delegates a clip region pop to the rasterizer.
    pub fn pop_clip(&mut self)
        ensures
            final(self).width == old(self).width,
            final(self).height == old(self).height,
            final(self).data == old(self).data,
            final(self).transform == old(self).transform,
            log_view(final(self).render_log) == log_view(old(self).render_log).push(
                RenderOpView::PopClip,
            ),
    {
        self.log_op(RenderOp::PopClip);
    }
}

fn clamp_to(v: i64, hi: usize) -> (r: usize)
    requires
        hi <= SIDE_MAX,
    ensures
        r as int == clamp_int(v as int, 0, hi as int),
{
    if v < 0 {
        0
    } else if v > hi as i64 {
        hi
    } else {
        v as usize
    }
}

} // verus!
