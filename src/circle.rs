//! Circles. Pi is taken as `PI_NUM / PI_DEN`; the area and the perimeter
//! are the exact values under that constant, rounded toward zero. Two
//! circles are equal when both their areas and their perimeters are, and
//! are ordered by area, then by perimeter.

use vstd::prelude::*;

use crate::arith::{
    compare_i128,
    compare_ints,
    div_toward_zero,
    div_toward_zero_i128,
    fits_i32,
    PI_DEN,
    PI_NUM,
};
use crate::shape::Shape;
use crate::text::{
    chars_of,
    comma_fields,
    number_at,
    number_field,
    split_commas,
    text_at,
    text_field,
    ParseError,
};
use core::cmp::Ordering;
use vstd::std_specs::cmp::{PartialEqSpec, PartialOrdSpec};

verus! {

/// Pi times the square of the radius, rounded toward zero.
pub open spec fn circle_area(radius: int) -> int {
    div_toward_zero(PI_NUM * (radius * radius), PI_DEN as int)
}

/// Two times pi times the radius, rounded toward zero.
pub open spec fn circle_perimeter(radius: int) -> int {
    div_toward_zero(2 * PI_NUM * radius, PI_DEN as int)
}

#[derive(Debug, Clone)]
pub struct Circle {
    pub radius: i32,
    pub name: String,
}

impl Circle {
    pub fn new(radius: i32, name: &str) -> (r: Circle)
        ensures
            r.radius == radius,
            r.name@ == name@,
    {
        Circle { radius, name: String::from_str(name) }
    }

    /// Reads `"radius,name"`. An absent radius reads as 0 and an absent name
    /// as the empty text; fields after the name are ignored.
    pub fn parse(s: &str) -> (r: Result<Circle, ParseError>)
        ensures
            ({
                let f = split_commas(s@);
                match r {
                    Ok(x) => {
                        &&& number_field(f, 0) == Some(x.radius as int)
                        &&& x.name@ == text_field(f, 1)
                    },
                    Err(e) => number_field(f, 0) is None && e.field == 0,
                }
            }),
    {
        let chars = chars_of(s);
        let bounds = comma_fields(&chars);
        let radius = match number_at(&chars, &bounds, 0) {
            Some(v) => v,
            None => {
                return Err(ParseError { field: 0 });
            },
        };
        let name = text_at(s, &bounds, 1);
        Ok(Circle { radius, name })
    }

    /// The area, computed without overflow.
    fn area_wide(&self) -> (r: i128)
        ensures
            r == self.area_spec(),
    {
        let r = self.radius as i128;
        assert(0 <= r * r <= 0x4000_0000_0000_0000) by (nonlinear_arith)
            requires
                -0x8000_0000 <= r <= 0x7fff_ffff,
        ;
        assert(0 <= PI_NUM * (r * r) <= 0x10_0000_0000_0000 * 0x4000_0000_0000_0000)
            by (nonlinear_arith)
            requires
                0 <= r * r <= 0x4000_0000_0000_0000,
        ;
        div_toward_zero_i128(PI_NUM * (r * r), PI_DEN)
    }

    /// The perimeter, computed without overflow.
    fn perimeter_wide(&self) -> (r: i128)
        ensures
            r == self.perimeter_spec(),
    {
        div_toward_zero_i128(2 * PI_NUM * self.radius as i128, PI_DEN)
    }
}

impl Shape for Circle {
    open spec fn area_spec(&self) -> int {
        circle_area(self.radius as int)
    }

    open spec fn perimeter_spec(&self) -> int {
        circle_perimeter(self.radius as int)
    }

    open spec fn length_spec(&self) -> int {
        0
    }

    open spec fn width_spec(&self) -> int {
        0
    }

    open spec fn name_spec(&self) -> Seq<char> {
        self.name@
    }

    /// A circle has no length or width: the result has radius 0.
    fn construct(length: i32, width: i32, name: &str) -> (r: Circle)
        ensures
            r.radius == 0,
    {
        Circle::new(0, name)
    }

    fn area(&self) -> (r: i32) {
        self.area_wide() as i32
    }

    fn perimeter(&self) -> (r: i32) {
        self.perimeter_wide() as i32
    }

    /// A circle has no length: nothing changes.
    fn set_length(&mut self, length: i32)
        ensures
            *final(self) == *old(self),
            final(self).area_spec() == old(self).area_spec(),
            final(self).perimeter_spec() == old(self).perimeter_spec(),
    {
    }

    fn get_length(&self) -> (r: i32) {
        0
    }

    /// A circle has no width: nothing changes.
    fn set_width(&mut self, width: i32)
        ensures
            *final(self) == *old(self),
            final(self).area_spec() == old(self).area_spec(),
            final(self).perimeter_spec() == old(self).perimeter_spec(),
    {
    }

    fn get_width(&self) -> (r: i32) {
        0
    }

    fn set_name(&mut self, name: &str)
        ensures
            final(self).radius == old(self).radius,
    {
        self.name = String::from_str(name);
    }

    fn get_name(&self) -> (r: &str) {
        self.name.as_str()
    }
}

impl Circle {
    /// Equality of circles is an equivalence: it compares the pairs of
    /// area and perimeter.
    pub proof fn lemma_eq_is_equivalence(a: Circle, b: Circle, c: Circle)
        ensures
            a.eq_spec(&b) <==> (a.area_spec(), a.perimeter_spec()) == (
                b.area_spec(),
                b.perimeter_spec(),
            ),
            a.eq_spec(&a),
            a.eq_spec(&b) == b.eq_spec(&a),
            a.eq_spec(&b) && b.eq_spec(&c) ==> a.eq_spec(&c),
    {
    }

    /// Two circles are equal exactly when comparing them gives `Equal`.
    pub proof fn lemma_cmp_agrees_with_eq(a: Circle, b: Circle)
        ensures
            a.eq_spec(&b) <==> a.partial_cmp_spec(&b) == Some(Ordering::Equal),
    {
    }

    /// The area and the perimeter are pi times the square of the radius and
    /// two times pi times the radius, each off by less than one, with pi
    /// taken as `PI_NUM / PI_DEN`. The area is never above its exact value.
    pub proof fn lemma_measures_within_one(c: Circle)
        ensures
            0 <= PI_NUM * (c.radius * c.radius) - c.area_spec() * PI_DEN < PI_DEN,
            -PI_DEN < 2 * PI_NUM * c.radius - c.perimeter_spec() * PI_DEN < PI_DEN,
    {
        let r = c.radius as int;
        assert(r * r >= 0) by (nonlinear_arith);
    }
}

impl PartialEq for Circle {
    /// Circles of the same area and the same perimeter are equal.
    fn eq(&self, other: &Circle) -> (r: bool) {
        self.area_wide() == other.area_wide() && self.perimeter_wide() == other.perimeter_wide()
    }

    fn ne(&self, other: &Circle) -> (r: bool) {
        !self.eq(other)
    }
}

impl vstd::std_specs::cmp::PartialEqSpecImpl for Circle {
    open spec fn obeys_eq_spec() -> bool {
        true
    }

    open spec fn eq_spec(&self, other: &Circle) -> bool {
        self.area_spec() == other.area_spec() && self.perimeter_spec() == other.perimeter_spec()
    }
}

impl PartialOrd for Circle {
    /// Circles are ordered by area, then by perimeter.
    fn partial_cmp(&self, other: &Circle) -> (r: Option<Ordering>) {
        let by_area = compare_i128(self.area_wide(), other.area_wide());
        match by_area {
            Ordering::Equal => Some(compare_i128(self.perimeter_wide(), other.perimeter_wide())),
            _ => Some(by_area),
        }
    }
}

impl vstd::std_specs::cmp::PartialOrdSpecImpl for Circle {
    open spec fn obeys_partial_cmp_spec() -> bool {
        true
    }

    open spec fn partial_cmp_spec(&self, other: &Circle) -> Option<Ordering> {
        let by_area = compare_ints(self.area_spec(), other.area_spec());
        if by_area == Ordering::Equal {
            Some(compare_ints(self.perimeter_spec(), other.perimeter_spec()))
        } else {
            Some(by_area)
        }
    }
}

} // verus!
