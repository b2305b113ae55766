//! The path model: an ordered sequence of segments built by the
//! geometry engine's primitive operations.
//!
//! Cubic control points are stored in third-units (three times their
//! canvas coordinates) so that the exact elevation of a quadratic curve
//! to a cubic needs no fractions: for a quadratic from `P0` over `CP`
//! to `P1`, the elevated control points are `C1 = P0 + 2/3(CP - P0)`
//! and `C2 = P1 + 2/3(CP - P1)`, that is `3*C1 = P0 + 2*CP` and
//! `3*C2 = P1 + 2*CP`.
//!
//! Angles are fixed-point milliradians carried through unchanged; an
//! arc produced by `arcTo` is recorded by its tangent points instead of
//! by derived angles, which determine the same arc exactly.

use vstd::prelude::*;

use crate::geometry::{coord_in_bounds, point_in_bounds, Point2D, COORD_MAX};

verus! {

/// One path segment. `Cubic` control coordinates are in third-units;
/// every other coordinate is in canvas units.
#[derive(Clone, Copy, Debug, PartialEq, Eq, Structural)]
pub enum PathSegment {
    MoveTo(Point2D),
    LineTo(Point2D),
    Cubic { ctrl1_x3: Point2D, ctrl2_x3: Point2D, to: Point2D },
    Arc { center: Point2D, radius: i64, start_angle: i64, end_angle: i64, ccw: bool },
    TangentArc { center: Point2D, radius: i64, from: Point2D, to: Point2D, ccw: bool },
    Ellipse {
        center: Point2D,
        radius_x: i64,
        radius_y: i64,
        rotation: i64,
        start_angle: i64,
        end_angle: i64,
        ccw: bool,
    },
    Close,
}

/// Three times the first elevated cubic control point of a quadratic.
pub open spec fn spec_quad_ctrl1_x3(p0: Point2D, cp: Point2D) -> Point2D {
    Point2D { x: (p0.x + 2 * cp.x) as i64, y: (p0.y + 2 * cp.y) as i64 }
}

/// Three times the second elevated cubic control point of a quadratic.
pub open spec fn spec_quad_ctrl2_x3(p1: Point2D, cp: Point2D) -> Point2D {
    Point2D { x: (p1.x + 2 * cp.x) as i64, y: (p1.y + 2 * cp.y) as i64 }
}

/// The exact cubic elevation of a quadratic curve, in third-units.
pub fn quad_to_cubic(p0: Point2D, cp: Point2D, p1: Point2D) -> (r: (Point2D, Point2D))
    requires
        point_in_guard_bounds(p0),
        point_in_bounds(cp),
        point_in_bounds(p1),
    ensures
        r.0 == spec_quad_ctrl1_x3(p0, cp),
        r.1 == spec_quad_ctrl2_x3(p1, cp),
{
    (
        Point2D { x: p0.x + 2 * cp.x, y: p0.y + 2 * cp.y },
        Point2D { x: p1.x + 2 * cp.x, y: p1.y + 2 * cp.y },
    )
}

/// The elevation is exact: three times `P0 + 2/3(CP - P0)` is the
/// stored first control point, and three times `P1 + 2/3(CP - P1)` the
/// second, coordinate for coordinate.
pub proof fn lemma_quad_elevation_exact(p0: Point2D, cp: Point2D, p1: Point2D)
    requires
        point_in_bounds(p0),
        point_in_bounds(cp),
        point_in_bounds(p1),
    ensures
        spec_quad_ctrl1_x3(p0, cp).x == 3 * p0.x + 2 * (cp.x - p0.x),
        spec_quad_ctrl1_x3(p0, cp).y == 3 * p0.y + 2 * (cp.y - p0.y),
        spec_quad_ctrl2_x3(p1, cp).x == 3 * p1.x + 2 * (cp.x - p1.x),
        spec_quad_ctrl2_x3(p1, cp).y == 3 * p1.y + 2 * (cp.y - p1.y),
{
}

/// Fixed-point scale of the arc-to trigonometry: a value `v` stands
/// for the real `v / FXA`.
pub const FXA: i64 = 1048576;

/// Upper bound of a squared distance between two guarded points.
pub const SQ_SUM_MAX: i64 = 0x4000_0000_0000_0000;

/// The guarded range of a tracked current point: an arc-to tangent
/// point may lie up to four times the input coordinate bound away.
pub open spec fn point_in_guard_bounds(p: Point2D) -> bool {
    -4 * COORD_MAX <= p.x <= 4 * COORD_MAX && -4 * COORD_MAX <= p.y <= 4 * COORD_MAX
}

/// Whether `r` is the integer square root of `n`.
pub open spec fn is_isqrt(n: int, r: int) -> bool {
    0 <= r && r * r <= n && n < (r + 1) * (r + 1)
}

/// The integer square root: the largest `r` with `r * r <= n`.
pub open spec fn spec_isqrt(n: int) -> int {
    choose|r: int| is_isqrt(n, r)
}

/// The integer square root is unique, so any witness equals it.
pub proof fn lemma_isqrt_unique(n: int, r: int)
    requires
        0 <= r,
        r * r <= n,
        n < (r + 1) * (r + 1),
    ensures
        spec_isqrt(n) == r,
{
    assert(is_isqrt(n, r));
    let q = spec_isqrt(n);
    assert(is_isqrt(n, q));
    assert(q == r) by (nonlinear_arith)
        requires
            0 <= r,
            r * r <= n,
            n < (r + 1) * (r + 1),
            0 <= q,
            q * q <= n,
            n < (q + 1) * (q + 1),
    ;
}

/// Binary-search integer square root over the full `u128` range.
pub fn isqrt_u128(n: u128) -> (r: u64)
    ensures
        (r as int) * (r as int) <= n as int,
        (n as int) < ((r as int) + 1) * ((r as int) + 1),
        r as int == spec_isqrt(n as int),
{
    let mut lo: u128 = 0;
    let mut hi: u128 = 0xFFFF_FFFF_FFFF_FFFF;
    proof {
        assert((0xFFFF_FFFF_FFFF_FFFFu128 as int + 1) * (0xFFFF_FFFF_FFFF_FFFFu128 as int + 1)
            > n as int) by (nonlinear_arith)
            requires
                n <= u128::MAX,
        ;
    }
    while lo < hi
        invariant
            lo <= hi,
            hi <= 0xFFFF_FFFF_FFFF_FFFF,
            (lo as int) * (lo as int) <= n as int,
            (n as int) < ((hi as int) + 1) * ((hi as int) + 1),
        decreases hi - lo,
    {
        let mid: u128 = lo + (hi - lo + 1) / 2;
        proof {
            crate::surface::lemma_mul_bounds(
                mid as int,
                mid as int,
                0xFFFF_FFFF_FFFF_FFFFu64 as int,
                0xFFFF_FFFF_FFFF_FFFFu64 as int,
            );
        }
        if mid * mid <= n {
            lo = mid;
        } else {
            hi = mid - 1;
        }
    }
    proof {
        lemma_isqrt_unique(n as int, lo as int);
    }
    lo as u64
}

/// Division truncated toward zero, for a positive divisor.
pub open spec fn spec_tdiv(a: int, b: int) -> int {
    if a >= 0 {
        a / b
    } else {
        -((-a) / b)
    }
}

/// Exec twin of [`spec_tdiv`] on `i128`.
pub fn tdiv_i128(a: i128, b: i128) -> (r: i128)
    requires
        b > 0,
        a != i128::MIN,
    ensures
        r == spec_tdiv(a as int, b as int),
        a >= 0 ==> 0 <= r <= a,
        a < 0 ==> a <= r <= 0,
{
    if a >= 0 {
        proof {
            vstd::arithmetic::div_mod::lemma_div_pos_is_pos(a as int, b as int);
            vstd::arithmetic::div_mod::lemma_div_nonincreasing(a as int, b as int);
        }
        ((a as u128) / (b as u128)) as i128
    } else {
        proof {
            vstd::arithmetic::div_mod::lemma_div_pos_is_pos((-a) as int, b as int);
            vstd::arithmetic::div_mod::lemma_div_nonincreasing((-a) as int, b as int);
        }
        -((((-a) as u128) / (b as u128)) as i128)
    }
}

/// Bounded factors have a bounded product (signed form).
pub proof fn lemma_mul_abs_bounds(a: int, b: int, ca: int, cb: int)
    requires
        -ca <= a <= ca,
        -cb <= b <= cb,
        0 <= ca,
        0 <= cb,
    ensures
        -(ca * cb) <= a * b <= ca * cb,
{
    assert(-(ca * cb) <= a * b <= ca * cb) by (nonlinear_arith)
        requires
            -ca <= a <= ca,
            -cb <= b <= cb,
            0 <= ca,
            0 <= cb,
    ;
}

/// The squared distance of two in-bounds points is nonnegative and
/// bounded.
pub proof fn lemma_sq_bounds(x: int, y: int)
    requires
        -5 * COORD_MAX <= x <= 5 * COORD_MAX,
        -5 * COORD_MAX <= y <= 5 * COORD_MAX,
    ensures
        0 <= x * x + y * y <= SQ_SUM_MAX,
        x * x >= 0,
        y * y >= 0,
{
    assert(0 <= x * x + y * y <= SQ_SUM_MAX && x * x >= 0 && y * y >= 0) by (nonlinear_arith)
        requires
            -5 * COORD_MAX <= x <= 5 * COORD_MAX,
            -5 * COORD_MAX <= y <= 5 * COORD_MAX,
    ;
}

/// The cross product that decides the arc-to orientation (zero means
/// the three points are collinear).
pub open spec fn spec_arc_dir(cp0: Point2D, cp1: Point2D, cp2: Point2D) -> int {
    (cp2.x - cp1.x) * (cp0.y - cp1.y) + (cp2.y - cp1.y) * (cp1.x - cp0.x)
}

/// The degenerate arc-to cases: a repeated control point, a zero
/// radius, or collinear control points. Each emits exactly one line to
/// `cp1` and no arc.
pub open spec fn arc_to_degenerate(cp0: Point2D, cp1: Point2D, cp2: Point2D, radius: i64) -> bool {
    cp0 == cp1 || cp1 == cp2 || radius == 0 || spec_arc_dir(cp0, cp1, cp2) == 0
}

/// The derived arc of a non-degenerate arc-to.
pub ghost struct ArcToGeom {
    pub tp1: Point2D,
    pub tp2: Point2D,
    pub center: Point2D,
    pub ccw: bool,
}

/// The tangent points and center a non-degenerate arc-to derives, at
/// fixed-point precision: with `a^2`, `b^2`, `c^2` the squared
/// distances among the control points,
/// `cos = (a^2 + b^2 - c^2) / (2 sqrt(a^2 b^2))` (clamped to one in
/// magnitude), `sin = sqrt(1 - cos^2)` and
/// `d = radius * sin / (1 - cos)` the tangent offset, the tangent
/// points lie `d` along each segment from `cp1` and the center sits
/// `radius` from the first tangent point, on the side the cross
/// product picks. `None` stands for a division by zero or a result
/// outside the guarded range: the integer analogue of a non-finite
/// value, which skips the arc.
pub open spec fn spec_arc_to_geometry(
    cp0: Point2D,
    cp1: Point2D,
    cp2: Point2D,
    radius: i64,
) -> Option<ArcToGeom> {
    let dir = spec_arc_dir(cp0, cp1, cp2);
    let a2 = (cp1.x - cp0.x) * (cp1.x - cp0.x) + (cp1.y - cp0.y) * (cp1.y - cp0.y);
    let b2 = (cp1.x - cp2.x) * (cp1.x - cp2.x) + (cp1.y - cp2.y) * (cp1.y - cp2.y);
    let c2 = (cp0.x - cp2.x) * (cp0.x - cp2.x) + (cp0.y - cp2.y) * (cp0.y - cp2.y);
    let sab = spec_isqrt(a2 * b2);
    let cos_raw = spec_tdiv((a2 + b2 - c2) * FXA, 2 * sab);
    let cosx = if cos_raw < -FXA {
        -FXA as int
    } else if cos_raw > FXA {
        FXA as int
    } else {
        cos_raw
    };
    let sinx = spec_isqrt(FXA * FXA - cosx * cosx);
    let denom = FXA - cosx;
    if sinx == 0 || denom == 0 {
        None
    } else {
        let d = spec_tdiv(radius * sinx, denom);
        let sa = spec_isqrt(a2);
        let sb = spec_isqrt(b2);
        let tp1x = cp1.x - spec_tdiv((cp1.x - cp0.x) * d, sa);
        let tp1y = cp1.y - spec_tdiv((cp1.y - cp0.y) * d, sa);
        let tp2x = cp1.x - spec_tdiv((cp1.x - cp2.x) * d, sb);
        let tp2y = cp1.y - spec_tdiv((cp1.y - cp2.y) * d, sb);
        let xoff = spec_tdiv((cp1.y - cp0.y) * radius, sa);
        let yoff = spec_tdiv((cp1.x - cp0.x) * radius, sa);
        let cx = if dir < 0 {
            tp1x + xoff
        } else {
            tp1x - xoff
        };
        let cy = if dir < 0 {
            tp1y - yoff
        } else {
            tp1y + yoff
        };
        let bound = 4 * (COORD_MAX as int);
        if -bound <= tp1x <= bound && -bound <= tp1y <= bound && -bound <= tp2x <= bound && -bound
            <= tp2y <= bound && -bound <= cx <= bound && -bound <= cy <= bound {
            Some(
                ArcToGeom {
                    tp1: Point2D { x: tp1x as i64, y: tp1y as i64 },
                    tp2: Point2D { x: tp2x as i64, y: tp2y as i64 },
                    center: Point2D { x: cx as i64, y: cy as i64 },
                    ccw: dir < 0,
                },
            )
        } else {
            None
        }
    }
}

/// A path under construction: its segments, the tracked current point,
/// and the start of the current subpath.
///
/// The current point is `None` when the path is fresh or when the last
/// segment was an angle-parameterized arc, whose endpoint is not an
/// integer point; operations that need a current point then use the
/// origin.
#[derive(Clone, Debug)]
pub struct Path {
    pub segments: Vec<PathSegment>,
    pub last_point: Option<Point2D>,
    pub subpath_start: Option<Point2D>,
}

impl Path {
    /// A fresh, empty path.
    pub fn new() -> (p: Path)
        ensures
            p.segments@ =~= Seq::<PathSegment>::empty(),
            p.last_point is None,
            p.subpath_start is None,
    {
        Path { segments: Vec::new(), last_point: None, subpath_start: None }
    }

    /// The point the next segment continues from.
    pub open spec fn spec_current_point(self) -> Point2D {
        match self.last_point {
            Some(p) => p,
            None => Point2D { x: 0, y: 0 },
        }
    }

    pub fn current_point(&self) -> (r: Point2D)
        ensures
            r == self.spec_current_point(),
    {
        match self.last_point {
            Some(p) => p,
            None => Point2D { x: 0, y: 0 },
        }
    }

    /// Starts a new subpath at `p`.
    pub fn move_to(&mut self, p: Point2D)
        ensures
            final(self).segments@ == old(self).segments@.push(PathSegment::MoveTo(p)),
            final(self).last_point == Some(p),
            final(self).subpath_start == Some(p),
    {
        self.segments.push(PathSegment::MoveTo(p));
        self.last_point = Some(p);
        self.subpath_start = Some(p);
    }

    /// Appends a straight line to `p`.
    pub fn line_to(&mut self, p: Point2D)
        ensures
            final(self).segments@ == old(self).segments@.push(PathSegment::LineTo(p)),
            final(self).last_point == Some(p),
            final(self).subpath_start == old(self).subpath_start,
    {
        self.segments.push(PathSegment::LineTo(p));
        self.last_point = Some(p);
    }

    /// Appends a cubic curve with control points given in third-units.
    pub fn cubic_to_x3(&mut self, ctrl1_x3: Point2D, ctrl2_x3: Point2D, to: Point2D)
        ensures
            final(self).segments@ == old(self).segments@.push(
                PathSegment::Cubic { ctrl1_x3, ctrl2_x3, to },
            ),
            final(self).last_point == Some(to),
            final(self).subpath_start == old(self).subpath_start,
    {
        self.segments.push(PathSegment::Cubic { ctrl1_x3, ctrl2_x3, to });
        self.last_point = Some(to);
    }

    /// Appends a cubic curve with canvas-unit control points.
    pub fn bezier_curve_to(&mut self, cp1: Point2D, cp2: Point2D, to: Point2D)
        requires
            point_in_bounds(cp1),
            point_in_bounds(cp2),
        ensures
            final(self).segments@ == old(self).segments@.push(
                PathSegment::Cubic {
                    ctrl1_x3: Point2D { x: (3 * cp1.x) as i64, y: (3 * cp1.y) as i64 },
                    ctrl2_x3: Point2D { x: (3 * cp2.x) as i64, y: (3 * cp2.y) as i64 },
                    to,
                },
            ),
            final(self).last_point == Some(to),
            final(self).subpath_start == old(self).subpath_start,
    {
        self.cubic_to_x3(
            Point2D { x: 3 * cp1.x, y: 3 * cp1.y },
            Point2D { x: 3 * cp2.x, y: 3 * cp2.y },
            to,
        );
    }

    /// Appends the exact cubic elevation of a quadratic curve from the
    /// current point over `cp` to `to`.
    pub fn quadratic_curve_to(&mut self, cp: Point2D, to: Point2D)
        requires
            point_in_guard_bounds(old(self).spec_current_point()),
            point_in_bounds(cp),
            point_in_bounds(to),
        ensures
            final(self).segments@ == old(self).segments@.push(
                PathSegment::Cubic {
                    ctrl1_x3: spec_quad_ctrl1_x3(old(self).spec_current_point(), cp),
                    ctrl2_x3: spec_quad_ctrl2_x3(to, cp),
                    to,
                },
            ),
            final(self).last_point == Some(to),
            final(self).subpath_start == old(self).subpath_start,
    {
        let p0 = self.current_point();
        let (c1, c2) = quad_to_cubic(p0, cp, to);
        self.cubic_to_x3(c1, c2, to);
    }

    /// Appends an angle-parameterized arc; the current point becomes
    /// indeterminate.
    pub fn arc(&mut self, center: Point2D, radius: i64, start_angle: i64, end_angle: i64, ccw: bool)
        ensures
            final(self).segments@ == old(self).segments@.push(
                PathSegment::Arc { center, radius, start_angle, end_angle, ccw },
            ),
            final(self).last_point is None,
            final(self).subpath_start == old(self).subpath_start,
    {
        self.segments.push(PathSegment::Arc { center, radius, start_angle, end_angle, ccw });
        self.last_point = None;
    }

    /// Appends an angle-parameterized ellipse arc; the current point
    /// becomes indeterminate.
    pub fn ellipse(
        &mut self,
        center: Point2D,
        radius_x: i64,
        radius_y: i64,
        rotation: i64,
        start_angle: i64,
        end_angle: i64,
        ccw: bool,
    )
        ensures
            final(self).segments@ == old(self).segments@.push(
                PathSegment::Ellipse {
                    center,
                    radius_x,
                    radius_y,
                    rotation,
                    start_angle,
                    end_angle,
                    ccw,
                },
            ),
            final(self).last_point is None,
            final(self).subpath_start == old(self).subpath_start,
    {
        self.segments.push(
            PathSegment::Ellipse { center, radius_x, radius_y, rotation, start_angle, end_angle, ccw },
        );
        self.last_point = None;
    }

    /// Closes the current subpath; the current point returns to the
    /// subpath's start.
    pub fn close_path(&mut self)
        ensures
            final(self).segments@ == old(self).segments@.push(PathSegment::Close),
            final(self).last_point == old(self).subpath_start,
            final(self).subpath_start == old(self).subpath_start,
    {
        self.segments.push(PathSegment::Close);
        self.last_point = match self.subpath_start {
            Some(p) => Some(p),
            None => None,
        };
    }

    /// Appends a rectangle: a move to its origin, lines along three
    /// sides, and a closing segment for the fourth.
    pub fn rect(&mut self, r: crate::geometry::Rect)
        requires
            crate::geometry::rect_in_bounds(r),
        ensures
            final(self).segments@ == old(self).segments@ + seq![
                PathSegment::MoveTo(r.origin),
                PathSegment::LineTo(
                    Point2D { x: (r.origin.x + r.size.width) as i64, y: r.origin.y },
                ),
                PathSegment::LineTo(
                    Point2D {
                        x: (r.origin.x + r.size.width) as i64,
                        y: (r.origin.y + r.size.height) as i64,
                    },
                ),
                PathSegment::LineTo(
                    Point2D { x: r.origin.x, y: (r.origin.y + r.size.height) as i64 },
                ),
                PathSegment::Close,
            ],
            final(self).last_point == Some(r.origin),
            final(self).subpath_start == Some(r.origin),
    {
        self.move_to(r.origin);
        self.line_to(Point2D { x: r.origin.x + r.size.width, y: r.origin.y });
        self.line_to(
            Point2D { x: r.origin.x + r.size.width, y: r.origin.y + r.size.height },
        );
        self.line_to(Point2D { x: r.origin.x, y: r.origin.y + r.size.height });
        self.close_path();
        assert(final(self).segments@ =~= old(self).segments@ + seq![
            PathSegment::MoveTo(r.origin),
            PathSegment::LineTo(Point2D { x: (r.origin.x + r.size.width) as i64, y: r.origin.y }),
            PathSegment::LineTo(
                Point2D {
                    x: (r.origin.x + r.size.width) as i64,
                    y: (r.origin.y + r.size.height) as i64,
                },
            ),
            PathSegment::LineTo(Point2D { x: r.origin.x, y: (r.origin.y + r.size.height) as i64 }),
            PathSegment::Close,
        ]);
    }
}

/// Everything [`Path::arc_to`] does: a degenerate call emits exactly
/// one line to `cp1` and no arc; otherwise the line to the first
/// tangent point and the tangent arc of [`spec_arc_to_geometry`] are
/// emitted, or only the line to `cp1` when that derivation fails (the
/// integer analogue of a non-finite result). The subpath start is
/// never touched.
pub open spec fn arc_to_post(pre: Path, post: Path, cp1: Point2D, cp2: Point2D, radius: i64) -> bool {
    &&& (arc_to_degenerate(pre.spec_current_point(), cp1, cp2, radius) ==> post.segments@
        == pre.segments@.push(PathSegment::LineTo(cp1)) && post.last_point == Some(cp1))
    &&& (!arc_to_degenerate(pre.spec_current_point(), cp1, cp2, radius) ==> ({
        let g = spec_arc_to_geometry(pre.spec_current_point(), cp1, cp2, radius);
        &&& (g is None ==> post.segments@ == pre.segments@.push(PathSegment::LineTo(cp1))
            && post.last_point == Some(cp1))
        &&& (g is Some ==> post.segments@ == pre.segments@.push(
            PathSegment::LineTo(g.unwrap().tp1),
        ).push(
            PathSegment::TangentArc {
                center: g.unwrap().center,
                radius,
                from: g.unwrap().tp1,
                to: g.unwrap().tp2,
                ccw: g.unwrap().ccw,
            },
        ) && post.last_point == Some(g.unwrap().tp2))
    }))
    &&& post.subpath_start == pre.subpath_start
}

impl Path {
    /// The tangent-circle operation: from the current point `P0`,
    /// `arcTo(cp1, cp2, radius)` joins the rays `P0 -> cp1` and
    /// `cp1 -> cp2` with an arc of the given radius.
    ///
    /// Degenerate cases, checked in this order: when `P0 == cp1`, or
    /// `cp1 == cp2`, or `radius == 0`, and likewise when the three
    /// points are collinear (the cross product of the direction vectors
    /// is zero), exactly one straight line to `cp1` is emitted and no
    /// arc. Otherwise the two tangent points and the arc center are
    /// derived with integer square roots at fixed-point precision
    /// [`FXA`]; when that derivation divides by zero or leaves the
    /// guarded coordinate range (the integer analogue of a non-finite
    /// result) the arc is skipped and only the line to `cp1` is
    /// emitted.
    #[verifier::rlimit(100)]
    pub fn arc_to(&mut self, cp1: Point2D, cp2: Point2D, radius: i64)
        requires
            point_in_guard_bounds(old(self).spec_current_point()),
            point_in_bounds(cp1),
            point_in_bounds(cp2),
            -COORD_MAX <= radius <= COORD_MAX,
        ensures
            arc_to_post(*old(self), *final(self), cp1, cp2, radius),
    {
        let cp0 = self.current_point();
        if (cp0.x == cp1.x && cp0.y == cp1.y) || (cp1.x == cp2.x && cp1.y == cp2.y) || radius == 0
        {
            self.line_to(cp1);
            return ;
        }
        proof {
            lemma_mul_abs_bounds(
                cp2.x - cp1.x,
                cp0.y - cp1.y,
                2 * COORD_MAX as int,
                5 * COORD_MAX as int,
            );
            lemma_mul_abs_bounds(
                cp2.y - cp1.y,
                cp1.x - cp0.x,
                2 * COORD_MAX as int,
                5 * COORD_MAX as int,
            );
        }
        let dir: i64 = (cp2.x - cp1.x) * (cp0.y - cp1.y) + (cp2.y - cp1.y) * (cp1.x - cp0.x);
        if dir == 0 {
            self.line_to(cp1);
            return ;
        }
        let dx01: i64 = cp1.x - cp0.x;
        let dy01: i64 = cp1.y - cp0.y;
        let dx12: i64 = cp1.x - cp2.x;
        let dy12: i64 = cp1.y - cp2.y;
        let dx02: i64 = cp0.x - cp2.x;
        let dy02: i64 = cp0.y - cp2.y;
        proof {
            lemma_sq_bounds(dx01 as int, dy01 as int);
            lemma_sq_bounds(dx12 as int, dy12 as int);
            lemma_sq_bounds(dx02 as int, dy02 as int);
        }
        let a2: i64 = dx01 * dx01 + dy01 * dy01;
        let b2: i64 = dx12 * dx12 + dy12 * dy12;
        let c2: i64 = dx02 * dx02 + dy02 * dy02;
        proof {
            assert(a2 > 0 && b2 > 0) by (nonlinear_arith)
                requires
                    a2 == (dx01 as int) * dx01 + (dy01 as int) * dy01,
                    b2 == (dx12 as int) * dx12 + (dy12 as int) * dy12,
                    dx01 != 0 || dy01 != 0,
                    dx12 != 0 || dy12 != 0,
            ;
            crate::surface::lemma_mul_bounds(
                a2 as int,
                b2 as int,
                SQ_SUM_MAX as int,
                SQ_SUM_MAX as int,
            );
            assert(0 < (a2 as int) * (b2 as int)) by (nonlinear_arith)
                requires
                    0 < a2,
                    0 < b2,
            ;
        }
        let sab: u64 = isqrt_u128((a2 as u128) * (b2 as u128));
        proof {
            assert(sab > 0) by (nonlinear_arith)
                requires
                    0 < (a2 as int) * (b2 as int),
                    ((sab as int) + 1) * ((sab as int) + 1) > (a2 as int) * (b2 as int),
                    sab >= 0,
            ;
            lemma_mul_abs_bounds(
                (a2 as int) + b2 - c2,
                FXA as int,
                3 * SQ_SUM_MAX as int,
                FXA as int,
            );
        }
        let cos_num: i128 = (a2 as i128) + (b2 as i128) - (c2 as i128);
        let cos_raw: i128 = tdiv_i128(cos_num * (FXA as i128), 2 * (sab as i128));
        let cosx: i128 = if cos_raw < -(FXA as i128) {
            -(FXA as i128)
        } else if cos_raw > (FXA as i128) {
            FXA as i128
        } else {
            cos_raw
        };
        proof {
            lemma_mul_abs_bounds(cosx as int, cosx as int, FXA as int, FXA as int);
            assert((cosx as int) * cosx >= 0) by (nonlinear_arith);
        }
        let sinx: u64 = isqrt_u128(((FXA as i128) * (FXA as i128) - cosx * cosx) as u128);
        proof {
            assert(sinx as int <= FXA) by (nonlinear_arith)
                requires
                    (sinx as int) * (sinx as int) <= (FXA as int) * (FXA as int),
                    sinx >= 0,
            ;
        }
        let denom: i128 = (FXA as i128) - cosx;
        if sinx == 0 || denom == 0 {
            self.line_to(cp1);
            return ;
        }
        proof {
            lemma_mul_abs_bounds(radius as int, sinx as int, COORD_MAX as int, FXA as int);
        }
        let d: i128 = tdiv_i128((radius as i128) * (sinx as i128), denom);
        let sa: u64 = isqrt_u128(a2 as u128);
        let sb: u64 = isqrt_u128(b2 as u128);
        proof {
            assert(sa > 0 && sb > 0) by (nonlinear_arith)
                requires
                    0 < a2,
                    0 < b2,
                    ((sa as int) + 1) * ((sa as int) + 1) > a2 as int,
                    ((sb as int) + 1) * ((sb as int) + 1) > b2 as int,
                    sa >= 0,
                    sb >= 0,
            ;
            let dmax: int = (COORD_MAX as int) * (FXA as int);
            lemma_mul_abs_bounds(dx01 as int, d as int, 5 * COORD_MAX as int, dmax);
            lemma_mul_abs_bounds(dy01 as int, d as int, 5 * COORD_MAX as int, dmax);
            lemma_mul_abs_bounds(dx12 as int, d as int, 5 * COORD_MAX as int, dmax);
            lemma_mul_abs_bounds(dy12 as int, d as int, 5 * COORD_MAX as int, dmax);
            lemma_mul_abs_bounds(
                dy01 as int,
                radius as int,
                5 * COORD_MAX as int,
                COORD_MAX as int,
            );
            lemma_mul_abs_bounds(
                dx01 as int,
                radius as int,
                5 * COORD_MAX as int,
                COORD_MAX as int,
            );
        }
        let tp1x: i128 = (cp1.x as i128) - tdiv_i128((dx01 as i128) * d, sa as i128);
        let tp1y: i128 = (cp1.y as i128) - tdiv_i128((dy01 as i128) * d, sa as i128);
        let tp2x: i128 = (cp1.x as i128) - tdiv_i128((dx12 as i128) * d, sb as i128);
        let tp2y: i128 = (cp1.y as i128) - tdiv_i128((dy12 as i128) * d, sb as i128);
        let xoff: i128 = tdiv_i128((dy01 as i128) * (radius as i128), sa as i128);
        let yoff: i128 = tdiv_i128((dx01 as i128) * (radius as i128), sa as i128);
        let cx: i128 = if dir < 0 {
            tp1x + xoff
        } else {
            tp1x - xoff
        };
        let cy: i128 = if dir < 0 {
            tp1y - yoff
        } else {
            tp1y + yoff
        };
        let bound: i128 = 4 * (COORD_MAX as i128);
        if !(-bound <= tp1x && tp1x <= bound && -bound <= tp1y && tp1y <= bound && -bound <= tp2x
            && tp2x <= bound && -bound <= tp2y && tp2y <= bound && -bound <= cx && cx <= bound
            && -bound <= cy && cy <= bound) {
            self.line_to(cp1);
            return ;
        }
        let tp1 = Point2D { x: tp1x as i64, y: tp1y as i64 };
        let tp2 = Point2D { x: tp2x as i64, y: tp2y as i64 };
        let center = Point2D { x: cx as i64, y: cy as i64 };
        let anticlockwise = dir < 0;
        self.line_to(tp1);
        self.segments.push(
            PathSegment::TangentArc { center, radius, from: tp1, to: tp2, ccw: anticlockwise },
        );
        self.last_point = Some(tp2);
    }

    /// Copies the segment list (for handing a snapshot to the
    /// rasterizer).
    pub fn snapshot(&self) -> (r: Vec<PathSegment>)
        ensures
            r@ == self.segments@,
    {
        let mut out: Vec<PathSegment> = Vec::new();
        let mut i: usize = 0;
        while i < self.segments.len()
            invariant
                i <= self.segments.len(),
                out@ == self.segments@.subrange(0, i as int),
            decreases self.segments.len() - i,
        {
            out.push(self.segments[i]);
            i += 1;
        }
        assert(out@ =~= self.segments@);
        out
    }
}

} // verus!
