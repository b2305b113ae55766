//! Integer 2D geometry: points, sizes, rectangles and affine transforms.
//!
//! All coordinates are `i64` canvas units. Arithmetic on coordinates is
//! guarded by the bound [`COORD_MAX`], generous enough for any canvas
//! while keeping every intermediate product inside the machine types.

use vstd::prelude::*;

verus! {

/// Largest coordinate magnitude the geometry engine accepts.
///
/// With `|x| <= COORD_MAX` every difference fits in 30 bits, every
/// squared distance in 61 bits, and products of two squared distances
/// in an `i128`.
pub const COORD_MAX: i64 = 0x1000_0000;

/// Scale of the fixed-point transform coefficients: a coefficient `c`
/// denotes the rational `c / FX_ONE`.
pub const FX_ONE: i64 = 65536;

/// A point (or displacement) in integer canvas units.
#[derive(Clone, Copy, Debug, PartialEq, Eq, Structural)]
pub struct Point2D {
    pub x: i64,
    pub y: i64,
}

/// A width/height pair in integer canvas units.
#[derive(Clone, Copy, Debug, PartialEq, Eq, Structural)]
pub struct Size2D {
    pub width: i64,
    pub height: i64,
}

/// An axis-aligned rectangle: an origin and a size.
#[derive(Clone, Copy, Debug, PartialEq, Eq, Structural)]
pub struct Rect {
    pub origin: Point2D,
    pub size: Size2D,
}

/// A 2D affine transform with fixed-point coefficients (scale [`FX_ONE`]):
/// maps `(x, y)` to
/// `((x*m11 + y*m21 + m31) / FX_ONE, (x*m12 + y*m22 + m32) / FX_ONE)`.
#[derive(Clone, Copy, Debug, PartialEq, Eq, Structural)]
pub struct Transform2D {
    pub m11: i64,
    pub m12: i64,
    pub m21: i64,
    pub m22: i64,
    pub m31: i64,
    pub m32: i64,
}

pub open spec fn coord_in_bounds(v: i64) -> bool {
    -COORD_MAX <= v && v <= COORD_MAX
}

pub open spec fn point_in_bounds(p: Point2D) -> bool {
    coord_in_bounds(p.x) && coord_in_bounds(p.y)
}

pub open spec fn size_in_bounds(s: Size2D) -> bool {
    coord_in_bounds(s.width) && coord_in_bounds(s.height)
}

pub open spec fn rect_in_bounds(r: Rect) -> bool {
    point_in_bounds(r.origin) && size_in_bounds(r.size)
}

impl Point2D {
    pub fn new(x: i64, y: i64) -> (p: Point2D)
        ensures
            p.x == x,
            p.y == y,
    {
        Point2D { x, y }
    }
}

impl Size2D {
    pub fn new(width: i64, height: i64) -> (s: Size2D)
        ensures
            s.width == width,
            s.height == height,
    {
        Size2D { width, height }
    }

    /// A size is empty when either extent is not positive; an empty
    /// rectangle covers no pixels.
    pub open spec fn spec_is_empty(self) -> bool {
        self.width <= 0 || self.height <= 0
    }

    pub fn is_empty(&self) -> (r: bool)
        ensures
            r == self.spec_is_empty(),
    {
        self.width <= 0 || self.height <= 0
    }
}

impl Rect {
    pub fn new(origin: Point2D, size: Size2D) -> (r: Rect)
        ensures
            r.origin == origin,
            r.size == size,
    {
        Rect { origin, size }
    }

    pub open spec fn spec_is_empty(self) -> bool {
        self.size.spec_is_empty()
    }

    pub fn is_empty(&self) -> (r: bool)
        ensures
            r == self.spec_is_empty(),
    {
        self.size.is_empty()
    }

    pub open spec fn spec_max_x(self) -> int {
        self.origin.x + self.size.width
    }

    pub open spec fn spec_max_y(self) -> int {
        self.origin.y + self.size.height
    }

    pub fn max_x(&self) -> (r: i64)
        requires
            rect_in_bounds(*self),
        ensures
            r == self.spec_max_x(),
    {
        self.origin.x + self.size.width
    }

    pub fn max_y(&self) -> (r: i64)
        requires
            rect_in_bounds(*self),
        ensures
            r == self.spec_max_y(),
    {
        self.origin.y + self.size.height
    }

    /// Whether a point lies inside the rectangle (max edges exclusive).
    pub open spec fn spec_contains(self, x: int, y: int) -> bool {
        self.origin.x <= x < self.spec_max_x() && self.origin.y <= y < self.spec_max_y()
    }

    /// The intersection of two rectangles, empty intersections
    /// normalized to the zero rectangle at the origin.
    pub open spec fn spec_intersection(self, other: Rect) -> Rect {
        let x0 = max_int(self.origin.x as int, other.origin.x as int);
        let y0 = max_int(self.origin.y as int, other.origin.y as int);
        let x1 = min_int(self.spec_max_x(), other.spec_max_x());
        let y1 = min_int(self.spec_max_y(), other.spec_max_y());
        if x0 < x1 && y0 < y1 {
            Rect {
                origin: Point2D { x: x0 as i64, y: y0 as i64 },
                size: Size2D { width: (x1 - x0) as i64, height: (y1 - y0) as i64 },
            }
        } else {
            Rect {
                origin: Point2D { x: 0, y: 0 },
                size: Size2D { width: 0, height: 0 },
            }
        }
    }

    pub fn intersection(&self, other: &Rect) -> (r: Rect)
        requires
            rect_in_bounds(*self),
            rect_in_bounds(*other),
        ensures
            r == self.spec_intersection(*other),
            rect_in_bounds(r),
    {
        let x0 = max_i64(self.origin.x, other.origin.x);
        let y0 = max_i64(self.origin.y, other.origin.y);
        let x1 = min_i64(self.max_x(), other.max_x());
        let y1 = min_i64(self.max_y(), other.max_y());
        if x0 < x1 && y0 < y1 {
            Rect {
                origin: Point2D { x: x0, y: y0 },
                size: Size2D { width: x1 - x0, height: y1 - y0 },
            }
        } else {
            Rect { origin: Point2D { x: 0, y: 0 }, size: Size2D { width: 0, height: 0 } }
        }
    }

    /// The rectangle shifted by a displacement.
    pub open spec fn spec_translate(self, d: Point2D) -> Rect {
        Rect {
            origin: Point2D {
                x: (self.origin.x + d.x) as i64,
                y: (self.origin.y + d.y) as i64,
            },
            size: self.size,
        }
    }

    pub fn translate(&self, d: &Point2D) -> (r: Rect)
        requires
            rect_in_bounds(*self),
            point_in_bounds(*d),
        ensures
            r == self.spec_translate(*d),
    {
        Rect {
            origin: Point2D { x: self.origin.x + d.x, y: self.origin.y + d.y },
            size: self.size,
        }
    }
}

pub open spec fn min_int(a: int, b: int) -> int {
    if a <= b { a } else { b }
}

pub open spec fn max_int(a: int, b: int) -> int {
    if a >= b { a } else { b }
}

pub fn min_i64(a: i64, b: i64) -> (r: i64)
    ensures
        r == min_int(a as int, b as int),
{
    if a <= b { a } else { b }
}

pub fn max_i64(a: i64, b: i64) -> (r: i64)
    ensures
        r == max_int(a as int, b as int),
{
    if a >= b { a } else { b }
}

impl Transform2D {
    /// The identity transform.
    pub fn identity() -> (t: Transform2D)
        ensures
            t == Transform2D::spec_identity(),
    {
        Transform2D { m11: FX_ONE, m12: 0, m21: 0, m22: FX_ONE, m31: 0, m32: 0 }
    }

    pub open spec fn spec_identity() -> Transform2D {
        Transform2D { m11: FX_ONE, m12: 0, m21: 0, m22: FX_ONE, m31: 0, m32: 0 }
    }

    /// A transform without rotation or shear maps axis-aligned
    /// rectangles to axis-aligned rectangles.
    pub open spec fn spec_axis_preserving(self) -> bool {
        self.m12 == 0 && self.m21 == 0
    }

    pub fn axis_preserving(&self) -> (r: bool)
        ensures
            r == self.spec_axis_preserving(),
    {
        self.m12 == 0 && self.m21 == 0
    }

    /// All coefficients small enough that transforming a bounded point
    /// stays inside `i64` arithmetic.
    pub open spec fn spec_coeffs_in_bounds(self) -> bool {
        &&& coord_in_bounds(self.m11)
        &&& coord_in_bounds(self.m12)
        &&& coord_in_bounds(self.m21)
        &&& coord_in_bounds(self.m22)
        &&& coord_in_bounds(self.m31)
        &&& coord_in_bounds(self.m32)
    }

    /// The image of a point, rounded towards negative infinity on each
    /// axis (fixed-point truncation of the affine map).
    pub open spec fn spec_transform_point(self, p: Point2D) -> Point2D {
        Point2D {
            x: fx_div(p.x * self.m11 + p.y * self.m21 + self.m31) as i64,
            y: fx_div(p.x * self.m12 + p.y * self.m22 + self.m32) as i64,
        }
    }

    pub fn transform_point(&self, p: &Point2D) -> (r: Point2D)
        requires
            self.spec_coeffs_in_bounds(),
            -2 * COORD_MAX <= p.x <= 2 * COORD_MAX,
            -2 * COORD_MAX <= p.y <= 2 * COORD_MAX,
        ensures
            r == self.spec_transform_point(*p),
            -5 * (COORD_MAX as int) * (COORD_MAX as int) <= r.x <= 5 * (COORD_MAX as int) * (
            COORD_MAX as int),
            -5 * (COORD_MAX as int) * (COORD_MAX as int) <= r.y <= 5 * (COORD_MAX as int) * (
            COORD_MAX as int),
    {
        proof {
            lemma_transform_product_bounds(p.x as int, self.m11 as int);
            lemma_transform_product_bounds(p.y as int, self.m21 as int);
            lemma_transform_product_bounds(p.x as int, self.m12 as int);
            lemma_transform_product_bounds(p.y as int, self.m22 as int);
        }
        let xs: i64 = p.x * self.m11 + p.y * self.m21 + self.m31;
        let ys: i64 = p.x * self.m12 + p.y * self.m22 + self.m32;
        Point2D { x: div_floor_fx(xs), y: div_floor_fx(ys) }
    }
}

/// Flooring division of a fixed-point value by [`FX_ONE`].
pub open spec fn fx_div(v: int) -> int {
    // `int` division in specifications is Euclidean; for a positive
    // divisor it coincides with flooring division.
    v / (FX_ONE as int)
}

fn div_floor_fx(v: i64) -> (r: i64)
    requires
        v != i64::MIN,
    ensures
        r == fx_div(v as int),
        v >= 0 ==> 0 <= r <= v,
        v < 0 ==> v <= r <= 0,
{
    if v >= 0 {
        proof {
            vstd::arithmetic::div_mod::lemma_div_nonincreasing(v as int, FX_ONE as int);
            vstd::arithmetic::div_mod::lemma_div_pos_is_pos(v as int, FX_ONE as int);
        }
        v / FX_ONE
    } else {
        let q: i64 = (-v) / FX_ONE;
        let rem: i64 = (-v) % FX_ONE;
        proof {
            vstd::arithmetic::div_mod::lemma_div_nonincreasing((-v) as int, FX_ONE as int);
            vstd::arithmetic::div_mod::lemma_div_pos_is_pos((-v) as int, FX_ONE as int);
            vstd::arithmetic::div_mod::lemma_fundamental_div_mod((-v) as int, FX_ONE as int);
            if rem != 0 {
                assert(q as int * FX_ONE as int >= q as int) by (nonlinear_arith)
                    requires
                        q >= 0,
                ;
            }
        }
        if rem == 0 {
            -q
        } else {
            -q - 1
        }
    }
}

proof fn lemma_transform_product_bounds(a: int, b: int)
    requires
        -2 * COORD_MAX <= a <= 2 * COORD_MAX,
        -COORD_MAX <= b <= COORD_MAX,
    ensures
        -2 * (COORD_MAX as int) * (COORD_MAX as int) <= a * b <= 2 * (COORD_MAX as int) * (
        COORD_MAX as int),
{
    assert(a * b <= 2 * (COORD_MAX as int) * (COORD_MAX as int)) by (nonlinear_arith)
        requires -2 * COORD_MAX <= a <= 2 * COORD_MAX && -COORD_MAX <= b <= COORD_MAX;
    assert(-(2 * (COORD_MAX as int) * (COORD_MAX as int)) <= a * b) by (nonlinear_arith)
        requires -2 * COORD_MAX <= a <= 2 * COORD_MAX && -COORD_MAX <= b <= COORD_MAX;
}

} // verus!
