//! The glyph-provider model: an explicit, immutable font registry, and
//! the text-flip transform applied to glyph outlines.
//!
//! Glyph space is Y-up while canvas space is Y-down, so every outline
//! point is mapped by `(x, y) -> (scale * x, -y)` before it is
//! translated to its position on the baseline. The horizontal scale is
//! the exact rational `num / den` (with truncating division), which the
//! text layout uses to compress a run of text into a maximum width.

use vstd::prelude::*;

use crate::geometry::{Point2D, COORD_MAX};
use crate::strutil::str_eq;

verus! {

/// Largest magnitude of a glyph metric or outline coordinate.
pub const GLYPH_MAX: i64 = 65536;

/// One outline event of a glyph, in glyph space.
#[derive(Clone, Copy, Debug, PartialEq, Eq, Structural)]
pub enum GlyphEvent {
    MoveTo(Point2D),
    LineTo(Point2D),
    QuadraticTo(Point2D, Point2D),
    CubicTo(Point2D, Point2D, Point2D),
    Close,
}

/// One glyph: its character, advance and ink width, and its outline.
#[derive(Clone, Debug)]
pub struct Glyph {
    pub character: char,
    pub advance: i64,
    pub width: i64,
    pub outline: Vec<GlyphEvent>,
}

/// The glyphs of one font family.
#[derive(Clone, Debug)]
pub struct FontFamily {
    pub name: String,
    pub glyphs: Vec<Glyph>,
}

/// A process-wide font registry: an immutable family list, built once
/// and then only read.
#[derive(Clone, Debug)]
pub struct FontRegistry {
    pub families: Vec<FontFamily>,
}

pub open spec fn glyph_wf(g: Glyph) -> bool {
    &&& 0 <= g.advance <= GLYPH_MAX
    &&& 0 <= g.width <= GLYPH_MAX
    &&& forall|i: int|
        0 <= i < g.outline@.len() ==> event_in_glyph_bounds(#[trigger] g.outline@[i])
    &&& (g.outline@.len() > 0 ==> g.outline@[0] is MoveTo)
}

pub open spec fn glyph_point_bounded(p: Point2D) -> bool {
    -GLYPH_MAX <= p.x <= GLYPH_MAX && -GLYPH_MAX <= p.y <= GLYPH_MAX
}

pub open spec fn event_in_glyph_bounds(e: GlyphEvent) -> bool {
    match e {
        GlyphEvent::MoveTo(p) => glyph_point_bounded(p),
        GlyphEvent::LineTo(p) => glyph_point_bounded(p),
        GlyphEvent::QuadraticTo(cp, to) => glyph_point_bounded(cp) && glyph_point_bounded(to),
        GlyphEvent::CubicTo(c1, c2, to) => glyph_point_bounded(c1) && glyph_point_bounded(c2)
            && glyph_point_bounded(to),
        GlyphEvent::Close => true,
    }
}

pub open spec fn family_wf(f: FontFamily) -> bool {
    &&& forall|i: int| 0 <= i < f.glyphs@.len() ==> glyph_wf(#[trigger] f.glyphs@[i])
    &&& forall|i: int, j: int|
        0 <= i < j < f.glyphs@.len() ==> (#[trigger] f.glyphs@[i]).character != (
        #[trigger] f.glyphs@[j]).character
}

impl FontRegistry {
    /// Every family is sound and family names are unique, so a name
    /// resolves to exactly one family.
    pub open spec fn wf(self) -> bool {
        &&& forall|i: int| 0 <= i < self.families@.len() ==> family_wf(#[trigger] self.families@[i])
        &&& forall|i: int, j: int|
            0 <= i < j < self.families@.len() ==> (#[trigger] self.families@[i]).name@ != (
            #[trigger] self.families@[j]).name@
    }

    /// The family registered under a name (meaningful when
    /// [`FontRegistry::spec_has_family`] holds).
    pub open spec fn spec_family(self, name: Seq<char>) -> FontFamily {
        self.families@[choose|i: int|
            0 <= i < self.families@.len() && (#[trigger] self.families@[i]).name@ == name]
    }

    /// An empty registry.
    pub fn new() -> (r: FontRegistry)
        ensures
            r.wf(),
            r.families@.len() == 0,
    {
        FontRegistry { families: Vec::new() }
    }

    /// Whether some family in the registry carries this name.
    pub open spec fn spec_has_family(self, name: Seq<char>) -> bool {
        exists|i: int| 0 <= i < self.families@.len() && (#[trigger] self.families@[i]).name@ == name
    }

    /// A name resolves to exactly one family in a sound registry.
    pub proof fn lemma_family_unique(self, name: Seq<char>, i: int)
        requires
            self.wf(),
            0 <= i < self.families@.len(),
            self.families@[i].name@ == name,
        ensures
            self.families@[i] == self.spec_family(name),
            self.spec_has_family(name),
    {
        assert(0 <= i < self.families@.len() && (#[trigger] self.families@[i]).name@ == name);
        let j = choose|j: int|
            0 <= j < self.families@.len() && (#[trigger] self.families@[j]).name@ == name;
        if i != j {
            if i < j {
                assert(self.families@[i].name@ != self.families@[j].name@);
            } else {
                assert(self.families@[j].name@ != self.families@[i].name@);
            }
        }
    }

    /// The index of the family carrying this name, if any.
    pub fn find_family(&self, name: &str) -> (r: Option<usize>)
        ensures
            r is Some ==> r.unwrap() < self.families@.len() && self.families@[
                r.unwrap() as int
            ].name@ == name@ && self.spec_has_family(name@),
            r is None ==> !self.spec_has_family(name@),
    {
        let mut i: usize = 0;
        while i < self.families.len()
            invariant
                i <= self.families@.len(),
                forall|j: int| 0 <= j < i ==> (#[trigger] self.families@[j]).name@ != name@,
            decreases self.families@.len() - i,
        {
            if str_eq(self.families[i].name.as_str(), name) {
                return Some(i);
            }
            i += 1;
        }
        None
    }

    /// Looks a family up by name.
    pub fn get(&self, name: &str) -> (r: Option<&FontFamily>)
        ensures
            r is Some ==> r.unwrap().name@ == name@ && self.spec_has_family(name@),
            r is None ==> !self.spec_has_family(name@),
            self.wf() && r is Some ==> family_wf(*r.unwrap()),
    {
        match self.find_family(name) {
            Some(i) => Some(&self.families[i]),
            None => None,
        }
    }

    /// Registers a family's glyphs under a name. A name already
    /// registered keeps its old glyphs, and the call reports success,
    /// as re-adding a loaded font is not an error.
    pub fn add_font_instance(&mut self, family_name: String, glyphs: Vec<Glyph>) -> (r: Result<
        (),
        (),
    >)
        requires
            old(self).wf(),
            forall|i: int| 0 <= i < glyphs@.len() ==> glyph_wf(#[trigger] glyphs@[i]),
            forall|i: int, j: int|
                0 <= i < j < glyphs@.len() ==> (#[trigger] glyphs@[i]).character != (
                #[trigger] glyphs@[j]).character,
        ensures
            final(self).wf(),
            r is Ok,
            old(self).spec_has_family(family_name@) ==> final(self).families@ == old(self).families@,
            !old(self).spec_has_family(family_name@) ==> final(self).families@.len() == old(self).families@.len() + 1
                && final(self).families@.last().name@ == family_name@
                && final(self).families@.last().glyphs@ == glyphs@
                && final(self).families@.subrange(0, old(self).families@.len() as int) == old(self).families@,
    {
        if self.find_family(family_name.as_str()).is_some() {
            return Ok(());
        }
        let ghost oldfams = self.families@;
        self.families.push(FontFamily { name: family_name, glyphs });
        proof {
            assert(self.families@.subrange(0, oldfams.len() as int) =~= oldfams);
            assert forall|i: int| 0 <= i < self.families@.len() implies family_wf(
                #[trigger] self.families@[i],
            ) by {
                if i < oldfams.len() {
                    assert(self.families@[i] == oldfams[i]);
                }
            }
            assert forall|i: int, j: int| 0 <= i < j < self.families@.len() implies (
            #[trigger] self.families@[i]).name@ != (#[trigger] self.families@[j]).name@ by {
                if j < oldfams.len() {
                    assert(self.families@[i] == oldfams[i] && self.families@[j] == oldfams[j]);
                } else {
                    assert(self.families@[i] == oldfams[i]);
                    assert(!old(self).spec_has_family(self.families@[j].name@));
                }
            }
        }
        Ok(())
    }
}

impl FontFamily {
    /// A character resolves to exactly one glyph in a sound family.
    pub proof fn lemma_glyph_unique(self, c: char, i: int)
        requires
            family_wf(self),
            0 <= i < self.glyphs@.len(),
            self.glyphs@[i].character == c,
        ensures
            self.glyphs@[i] == self.spec_glyph(c),
            self.spec_has_glyph(c),
    {
        assert(0 <= i < self.glyphs@.len() && (#[trigger] self.glyphs@[i]).character == c);
        let j = choose|j: int|
            0 <= j < self.glyphs@.len() && (#[trigger] self.glyphs@[j]).character == c;
        if i != j {
            if i < j {
                assert(self.glyphs@[i].character != self.glyphs@[j].character);
            } else {
                assert(self.glyphs@[j].character != self.glyphs@[i].character);
            }
        }
    }

    /// The glyph for a character, if the family has one.
    pub fn get_glyph(&self, c: char) -> (r: Option<&Glyph>)
        ensures
            r is Some ==> r.unwrap().character == c && self.spec_has_glyph(c),
            r is None ==> !self.spec_has_glyph(c),
            family_wf(*self) && r is Some ==> glyph_wf(*r.unwrap()) && *r.unwrap()
                == self.spec_glyph(c),
    {
        let mut i: usize = 0;
        while i < self.glyphs.len()
            invariant
                i <= self.glyphs@.len(),
                forall|j: int| 0 <= j < i ==> (#[trigger] self.glyphs@[j]).character != c,
            decreases self.glyphs@.len() - i,
        {
            if self.glyphs[i].character == c {
                proof {
                    if family_wf(*self) {
                        self.lemma_glyph_unique(c, i as int);
                    }
                }
                return Some(&self.glyphs[i]);
            }
            i += 1;
        }
        None
    }

    pub open spec fn spec_has_glyph(self, c: char) -> bool {
        exists|i: int| 0 <= i < self.glyphs@.len() && (#[trigger] self.glyphs@[i]).character == c
    }

    /// The first glyph whose character is `c`.
    pub open spec fn spec_glyph(self, c: char) -> Glyph {
        self.glyphs@[choose|i: int|
            0 <= i < self.glyphs@.len() && (#[trigger] self.glyphs@[i]).character == c]
    }
}

/// A coordinate scaled by the rational `num / den`, the quotient
/// truncated toward zero.
pub open spec fn spec_scale_coord(v: int, num: int, den: int) -> int {
    if v * num >= 0 {
        (v * num) / den
    } else {
        -((-(v * num)) / den)
    }
}

pub fn scale_coord(v: i64, num: i64, den: i64) -> (r: i64)
    requires
        -COORD_MAX <= v <= COORD_MAX,
        0 <= num <= 2 * COORD_MAX,
        0 < den,
    ensures
        r == spec_scale_coord(v as int, num as int, den as int),
        num <= den ==> (if v >= 0 {
            0 <= r <= v
        } else {
            v <= r <= 0
        }),
{
    proof {
        assert(-(2 * (COORD_MAX as int) * (COORD_MAX as int)) <= (v as int) * (num as int) <= 2 * (
        COORD_MAX as int) * (COORD_MAX as int)) by (nonlinear_arith)
            requires
                -COORD_MAX <= v <= COORD_MAX,
                0 <= num <= 2 * COORD_MAX,
        ;
    }
    let prod: i64 = v * num;
    if prod >= 0 {
        proof {
            vstd::arithmetic::div_mod::lemma_div_pos_is_pos(prod as int, den as int);
            if num <= den {
                if v >= 0 {
                    assert(prod as int <= (v as int) * (den as int)) by (nonlinear_arith)
                        requires
                            prod == (v as int) * (num as int),
                            0 <= num <= den,
                            v >= 0,
                    ;
                    vstd::arithmetic::div_mod::lemma_div_is_ordered(
                        prod as int,
                        (v as int) * (den as int),
                        den as int,
                    );
                    vstd::arithmetic::div_mod::lemma_div_multiples_vanish(v as int, den as int);
                    assert((den as int) * (v as int) == (v as int) * (den as int))
                        by (nonlinear_arith);
                } else {
                    assert(prod == 0) by (nonlinear_arith)
                        requires
                            prod == (v as int) * (num as int),
                            num >= 0,
                            prod >= 0,
                            v < 0,
                    ;
                    vstd::arithmetic::div_mod::lemma_div_of0(den as int);
                }
            }
        }
        prod / den
    } else {
        proof {
            vstd::arithmetic::div_mod::lemma_div_pos_is_pos((-prod) as int, den as int);
            if num <= den {
                assert(v < 0) by (nonlinear_arith)
                    requires
                        prod == (v as int) * (num as int),
                        num >= 0,
                        prod < 0,
                ;
                assert((-prod) as int <= (-(v as int)) * (den as int)) by (nonlinear_arith)
                    requires
                        prod == (v as int) * (num as int),
                        0 <= num <= den,
                        v < 0,
                ;
                vstd::arithmetic::div_mod::lemma_div_is_ordered(
                    (-prod) as int,
                    (-(v as int)) * (den as int),
                    den as int,
                );
                vstd::arithmetic::div_mod::lemma_div_multiples_vanish(-(v as int), den as int);
                assert((den as int) * (-(v as int)) == (-(v as int)) * (den as int))
                    by (nonlinear_arith);
            }
        }
        -((-prod) / den)
    }
}

/// A shrinking scale keeps a coordinate inside its bound.
pub proof fn lemma_scale_coord_bound(v: int, num: int, den: int, bound: int)
    requires
        -bound <= v <= bound,
        0 <= num <= den,
        0 < den,
    ensures
        -bound <= spec_scale_coord(v, num, den) <= bound,
        v >= 0 ==> 0 <= spec_scale_coord(v, num, den) <= v,
        v < 0 ==> v <= spec_scale_coord(v, num, den) <= 0,
{
    let prod = v * num;
    if prod >= 0 {
        vstd::arithmetic::div_mod::lemma_div_pos_is_pos(prod, den);
        if v >= 0 {
            assert(prod <= v * den) by (nonlinear_arith)
                requires
                    prod == v * num,
                    0 <= num <= den,
                    v >= 0,
            ;
            vstd::arithmetic::div_mod::lemma_div_is_ordered(prod, v * den, den);
            vstd::arithmetic::div_mod::lemma_div_multiples_vanish(v, den);
            assert(den * v == v * den) by (nonlinear_arith);
        } else {
            assert(prod == 0) by (nonlinear_arith)
                requires
                    prod == v * num,
                    num >= 0,
                    prod >= 0,
                    v < 0,
            ;
            vstd::arithmetic::div_mod::lemma_div_of0(den);
        }
    } else {
        vstd::arithmetic::div_mod::lemma_div_pos_is_pos(-prod, den);
        assert(v < 0) by (nonlinear_arith)
            requires
                prod == v * num,
                num >= 0,
                prod < 0,
        ;
        assert(-prod <= (-v) * den) by (nonlinear_arith)
            requires
                prod == v * num,
                0 <= num <= den,
                v < 0,
        ;
        vstd::arithmetic::div_mod::lemma_div_is_ordered(-prod, (-v) * den, den);
        vstd::arithmetic::div_mod::lemma_div_multiples_vanish(-v, den);
        assert(den * (-v) == (-v) * den) by (nonlinear_arith);
    }
}

/// A pen half-advance, applied twice, never exceeds the unscaled
/// advance: the glyph centering cannot outrun the advance box.
pub proof fn lemma_half_scale_bound(v: int, num: int, den: int)
    requires
        0 <= v,
        0 <= num <= den,
        0 < den,
    ensures
        0 <= spec_scale_coord(v, num, 2 * den),
        2 * spec_scale_coord(v, num, 2 * den) <= v,
{
    let prod = v * num;
    assert(prod >= 0) by (nonlinear_arith)
        requires
            prod == v * num,
            v >= 0,
            num >= 0,
    ;
    let q = prod / (2 * den);
    vstd::arithmetic::div_mod::lemma_div_pos_is_pos(prod, 2 * den);
    vstd::arithmetic::div_mod::lemma_fundamental_div_mod(prod, 2 * den);
    vstd::arithmetic::div_mod::lemma_mod_division_less_than_divisor(prod, 2 * den);
    assert((2 * den) * q <= prod);
    assert(prod <= v * den) by (nonlinear_arith)
        requires
            prod == v * num,
            0 <= num <= den,
            v >= 0,
    ;
    assert(2 * q <= v) by (nonlinear_arith)
        requires
            (2 * den) * q <= v * den,
            den > 0,
    ;
}

/// The text-flip transform of one point: `(x, y)` maps to
/// `(scale * x, -y)`.
pub open spec fn spec_flip_point(p: Point2D, num: int, den: int) -> Point2D {
    Point2D { x: spec_scale_coord(p.x as int, num, den) as i64, y: (-p.y) as i64 }
}

/// The text-flip transform of one outline event.
pub open spec fn spec_flip_event(e: GlyphEvent, num: int, den: int) -> GlyphEvent {
    match e {
        GlyphEvent::MoveTo(p) => GlyphEvent::MoveTo(spec_flip_point(p, num, den)),
        GlyphEvent::LineTo(p) => GlyphEvent::LineTo(spec_flip_point(p, num, den)),
        GlyphEvent::QuadraticTo(cp, to) => GlyphEvent::QuadraticTo(
            spec_flip_point(cp, num, den),
            spec_flip_point(to, num, den),
        ),
        GlyphEvent::CubicTo(c1, c2, to) => GlyphEvent::CubicTo(
            spec_flip_point(c1, num, den),
            spec_flip_point(c2, num, den),
            spec_flip_point(to, num, den),
        ),
        GlyphEvent::Close => GlyphEvent::Close,
    }
}

/// Applies the text-flip transform `(x, y) -> (scale * x, -y)` to an
/// outline event, with `scale` the rational `num / den`.
pub fn flip_text(num: i64, den: i64, event: GlyphEvent) -> (r: GlyphEvent)
    requires
        event_in_glyph_bounds(event),
        0 <= num <= 2 * COORD_MAX,
        0 < den,
    ensures
        r == spec_flip_event(event, num as int, den as int),
        num <= den ==> event_in_glyph_bounds(r),
{
    match event {
        GlyphEvent::MoveTo(p) => GlyphEvent::MoveTo(flip_point(p, num, den)),
        GlyphEvent::LineTo(p) => GlyphEvent::LineTo(flip_point(p, num, den)),
        GlyphEvent::QuadraticTo(cp, to) => GlyphEvent::QuadraticTo(
            flip_point(cp, num, den),
            flip_point(to, num, den),
        ),
        GlyphEvent::CubicTo(c1, c2, to) => GlyphEvent::CubicTo(
            flip_point(c1, num, den),
            flip_point(c2, num, den),
            flip_point(to, num, den),
        ),
        GlyphEvent::Close => GlyphEvent::Close,
    }
}

fn flip_point(p: Point2D, num: i64, den: i64) -> (r: Point2D)
    requires
        glyph_point_bounded(p),
        0 <= num <= 2 * COORD_MAX,
        0 < den,
    ensures
        r == spec_flip_point(p, num as int, den as int),
        num <= den ==> glyph_point_bounded(r),
{
    Point2D { x: scale_coord(p.x, num, den), y: -p.y }
}

} // verus!
