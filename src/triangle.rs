//! Right triangles, given by the two sides at the right angle (base and
//! height). The area is half the product of those sides, rounded toward
//! zero; the perimeter adds the hypotenuse, rounded down. Two triangles
//! are equal when both their areas and their perimeters are, and are
//! ordered by area, then by perimeter.

use vstd::prelude::*;

use crate::arith::{
    compare_i128,
    compare_ints,
    div_toward_zero,
    div_toward_zero_i128,
    fits_i32,
    floor_sqrt,
    floor_sqrt_u64,
    is_floor_sqrt,
    lemma_floor_sqrt,
};
use crate::shape::Shape;
use crate::text::{
    chars_of,
    comma_fields,
    number_at,
    number_field,
    split_commas,
    text_at,
    text_field,
    ParseError,
};
use core::cmp::Ordering;
use vstd::std_specs::cmp::{PartialEqSpec, PartialOrdSpec};

verus! {

/// Half of `base * height`, rounded toward zero.
pub open spec fn triangle_area(base: int, height: int) -> int {
    div_toward_zero(base * height, 2)
}

/// The two sides plus the hypotenuse rounded down.
pub open spec fn triangle_perimeter(base: int, height: int) -> int {
    base + height + floor_sqrt(base * base + height * height)
}

#[derive(Debug, Clone)]
pub struct Triangle {
    pub base: i32,
    pub height: i32,
    pub name: String,
}

impl Triangle {
    pub fn new(base: i32, height: i32, name: &str) -> (r: Triangle)
        ensures
            r.base == base,
            r.height == height,
            r.name@ == name@,
    {
        Triangle { base, height, name: String::from_str(name) }
    }

    /// Reads `"height,base,name"` (the height comes first, unlike in `new`).
    /// An absent number reads as 0 and an absent name as the empty text;
    /// fields after the name are ignored.
    pub fn parse(s: &str) -> (r: Result<Triangle, ParseError>)
        ensures
            ({
                let f = split_commas(s@);
                match r {
                    Ok(x) => {
                        &&& number_field(f, 0) == Some(x.height as int)
                        &&& number_field(f, 1) == Some(x.base as int)
                        &&& x.name@ == text_field(f, 2)
                    },
                    Err(e) => {
                        ||| number_field(f, 0) is None && e.field == 0
                        ||| number_field(f, 0) is Some && number_field(f, 1) is None && e.field
                            == 1
                    },
                }
            }),
    {
        let chars = chars_of(s);
        let bounds = comma_fields(&chars);
        let height = match number_at(&chars, &bounds, 0) {
            Some(v) => v,
            None => {
                return Err(ParseError { field: 0 });
            },
        };
        let base = match number_at(&chars, &bounds, 1) {
            Some(v) => v,
            None => {
                return Err(ParseError { field: 1 });
            },
        };
        let name = text_at(s, &bounds, 2);
        Ok(Triangle { base, height, name })
    }

    /// The area, computed without overflow.
    fn area_wide(&self) -> (r: i128)
        ensures
            r == self.area_spec(),
    {
        let b = self.base as i128;
        let h = self.height as i128;
        assert(-0x4000_0000_0000_0000 <= b * h <= 0x4000_0000_0000_0000) by (nonlinear_arith)
            requires
                -0x8000_0000 <= b <= 0x7fff_ffff,
                -0x8000_0000 <= h <= 0x7fff_ffff,
        ;
        div_toward_zero_i128(b * h, 2)
    }

    /// The perimeter, computed without overflow.
    fn perimeter_wide(&self) -> (r: i128)
        ensures
            r == self.perimeter_spec(),
    {
        let b = self.base as i128;
        let h = self.height as i128;
        assert(0 <= b * b <= 0x4000_0000_0000_0000 && 0 <= h * h <= 0x4000_0000_0000_0000)
            by (nonlinear_arith)
            requires
                -0x8000_0000 <= b <= 0x7fff_ffff,
                -0x8000_0000 <= h <= 0x7fff_ffff,
        ;
        let hyp = floor_sqrt_u64((b * b + h * h) as u64);
        proof {
            lemma_floor_sqrt(b * b + h * h);
            assert(hyp <= 0x1_0000_0000) by (nonlinear_arith)
                requires
                    hyp * hyp <= b * b + h * h,
                    b * b + h * h <= 0x8000_0000_0000_0000,
            ;
        }
        b + h + hyp as i128
    }
}

impl Shape for Triangle {
    open spec fn area_spec(&self) -> int {
        triangle_area(self.base as int, self.height as int)
    }

    open spec fn perimeter_spec(&self) -> int {
        triangle_perimeter(self.base as int, self.height as int)
    }

    open spec fn length_spec(&self) -> int {
        0
    }

    open spec fn width_spec(&self) -> int {
        0
    }

    open spec fn name_spec(&self) -> Seq<char> {
        self.name@
    }

    /// A triangle has no length or width: the result has base and height 0.
    fn construct(length: i32, width: i32, name: &str) -> (r: Triangle)
        ensures
            r.base == 0,
            r.height == 0,
    {
        Triangle::new(0, 0, name)
    }

    fn area(&self) -> (r: i32) {
        self.area_wide() as i32
    }

    fn perimeter(&self) -> (r: i32) {
        self.perimeter_wide() as i32
    }

    /// A triangle has no length: nothing changes.
    fn set_length(&mut self, length: i32)
        ensures
            *final(self) == *old(self),
            final(self).area_spec() == old(self).area_spec(),
            final(self).perimeter_spec() == old(self).perimeter_spec(),
    {
    }

    fn get_length(&self) -> (r: i32) {
        0
    }

    /// A triangle has no width: nothing changes.
    fn set_width(&mut self, width: i32)
        ensures
            *final(self) == *old(self),
            final(self).area_spec() == old(self).area_spec(),
            final(self).perimeter_spec() == old(self).perimeter_spec(),
    {
    }

    fn get_width(&self) -> (r: i32) {
        0
    }

    fn set_name(&mut self, name: &str)
        ensures
            final(self).base == old(self).base,
            final(self).height == old(self).height,
    {
        self.name = String::from_str(name);
    }

    fn get_name(&self) -> (r: &str) {
        self.name.as_str()
    }
}

impl Triangle {
    /// Equality of triangles is an equivalence: it compares the pairs of
    /// area and perimeter.
    pub proof fn lemma_eq_is_equivalence(a: Triangle, b: Triangle, c: Triangle)
        ensures
            a.eq_spec(&b) <==> (a.area_spec(), a.perimeter_spec()) == (
                b.area_spec(),
                b.perimeter_spec(),
            ),
            a.eq_spec(&a),
            a.eq_spec(&b) == b.eq_spec(&a),
            a.eq_spec(&b) && b.eq_spec(&c) ==> a.eq_spec(&c),
    {
    }

    /// Two triangles are equal exactly when comparing them gives `Equal`.
    pub proof fn lemma_cmp_agrees_with_eq(a: Triangle, b: Triangle)
        ensures
            a.eq_spec(&b) <==> a.partial_cmp_spec(&b) == Some(Ordering::Equal),
    {
    }

    /// Where `base * height` is not negative, the area is half of it
    /// rounded down.
    pub proof fn lemma_area_is_half_rounded_down(t: Triangle)
        requires
            t.base * t.height >= 0,
        ensures
            t.area_spec() == (t.base * t.height) / 2,
    {
    }

    /// The perimeter is the sum of the two sides and the square root of the
    /// sum of their squares, rounded down.
    pub proof fn lemma_perimeter_adds_hypotenuse(t: Triangle)
        ensures
            is_floor_sqrt(
                t.base * t.base + t.height * t.height,
                t.perimeter_spec() - t.base - t.height,
            ),
    {
        let b = t.base as int;
        let h = t.height as int;
        assert(b * b + h * h >= 0) by (nonlinear_arith);
        lemma_floor_sqrt(b * b + h * h);
    }
}

impl PartialEq for Triangle {
    /// Triangles of the same area and the same perimeter are equal.
    fn eq(&self, other: &Triangle) -> (r: bool) {
        self.area_wide() == other.area_wide() && self.perimeter_wide() == other.perimeter_wide()
    }

    fn ne(&self, other: &Triangle) -> (r: bool) {
        !self.eq(other)
    }
}

impl vstd::std_specs::cmp::PartialEqSpecImpl for Triangle {
    open spec fn obeys_eq_spec() -> bool {
        true
    }

    open spec fn eq_spec(&self, other: &Triangle) -> bool {
        self.area_spec() == other.area_spec() && self.perimeter_spec() == other.perimeter_spec()
    }
}

impl PartialOrd for Triangle {
    /// Triangles are ordered by area, then by perimeter.
    fn partial_cmp(&self, other: &Triangle) -> (r: Option<Ordering>) {
        let by_area = compare_i128(self.area_wide(), other.area_wide());
        match by_area {
            Ordering::Equal => Some(compare_i128(self.perimeter_wide(), other.perimeter_wide())),
            _ => Some(by_area),
        }
    }
}

impl vstd::std_specs::cmp::PartialOrdSpecImpl for Triangle {
    open spec fn obeys_partial_cmp_spec() -> bool {
        true
    }

    open spec fn partial_cmp_spec(&self, other: &Triangle) -> Option<Ordering> {
        let by_area = compare_ints(self.area_spec(), other.area_spec());
        if by_area == Ordering::Equal {
            Some(compare_ints(self.perimeter_spec(), other.perimeter_spec()))
        } else {
            Some(by_area)
        }
    }
}

} // verus!
