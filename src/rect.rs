//! Rectangles: area `length * width`, perimeter `2 * (length + width)`.
//! Two rectangles are equal when their areas are, and are ordered by area.

use vstd::prelude::*;

use crate::arith::{compare_i128, compare_ints, fits_i32};
use crate::shape::Shape;
use crate::text::{
    chars_of,
    comma_fields,
    number_at,
    number_field,
    split_commas,
    text_at,
    text_field,
    ParseError,
};
use core::cmp::Ordering;
use vstd::std_specs::cmp::{PartialEqSpec, PartialOrdSpec};

verus! {

pub open spec fn rect_area(length: int, width: int) -> int {
    length * width
}

pub open spec fn rect_perimeter(length: int, width: int) -> int {
    2 * (length + width)
}

#[derive(Debug, Clone)]
pub struct Rect {
    pub length: i32,
    pub width: i32,
    pub name: String,
}

impl Rect {
    pub fn new(length: i32, width: i32, name: &str) -> (r: Rect)
        ensures
            r.length == length,
            r.width == width,
            r.name@ == name@,
    {
        Rect { length, width, name: String::from_str(name) }
    }

    /// Reads `"length,width,name"`. An absent number reads as 0 and an
    /// absent name as the empty text; fields after the name are ignored.
    pub fn parse(s: &str) -> (r: Result<Rect, ParseError>)
        ensures
            ({
                let f = split_commas(s@);
                match r {
                    Ok(x) => {
                        &&& number_field(f, 0) == Some(x.length as int)
                        &&& number_field(f, 1) == Some(x.width as int)
                        &&& x.name@ == text_field(f, 2)
                    },
                    Err(e) => {
                        ||| number_field(f, 0) is None && e.field == 0
                        ||| number_field(f, 0) is Some && number_field(f, 1) is None && e.field
                            == 1
                    },
                }
            }),
    {
        let chars = chars_of(s);
        let bounds = comma_fields(&chars);
        let length = match number_at(&chars, &bounds, 0) {
            Some(v) => v,
            None => {
                return Err(ParseError { field: 0 });
            },
        };
        let width = match number_at(&chars, &bounds, 1) {
            Some(v) => v,
            None => {
                return Err(ParseError { field: 1 });
            },
        };
        let name = text_at(s, &bounds, 2);
        Ok(Rect { length, width, name })
    }

    /// The area, computed without overflow.
    fn area_wide(&self) -> (r: i64)
        ensures
            r == self.area_spec(),
    {
        let l = self.length as i64;
        let w = self.width as i64;
        assert(-0x4000_0000_0000_0000 <= l * w <= 0x4000_0000_0000_0000) by (nonlinear_arith)
            requires
                -0x8000_0000 <= l <= 0x7fff_ffff,
                -0x8000_0000 <= w <= 0x7fff_ffff,
        ;
        l * w
    }
}

impl Default for Rect {
    /// The unit square named "default".
    fn default() -> (r: Rect)
        ensures
            r.length == 1,
            r.width == 1,
            r.name@ == "default"@,
    {
        Rect { length: 1, width: 1, name: String::from_str("default") }
    }
}

impl Shape for Rect {
    open spec fn area_spec(&self) -> int {
        rect_area(self.length as int, self.width as int)
    }

    open spec fn perimeter_spec(&self) -> int {
        rect_perimeter(self.length as int, self.width as int)
    }

    open spec fn length_spec(&self) -> int {
        self.length as int
    }

    open spec fn width_spec(&self) -> int {
        self.width as int
    }

    open spec fn name_spec(&self) -> Seq<char> {
        self.name@
    }

    fn construct(length: i32, width: i32, name: &str) -> (r: Rect)
        ensures
            r.length == length,
            r.width == width,
    {
        Rect::new(length, width, name)
    }

    fn area(&self) -> (r: i32) {
        self.area_wide() as i32
    }

    fn perimeter(&self) -> (r: i32) {
        (2 * (self.length as i64 + self.width as i64)) as i32
    }

    fn set_length(&mut self, length: i32)
        ensures
            final(self).length == length,
    {
        self.length = length;
    }

    fn get_length(&self) -> (r: i32) {
        self.length
    }

    fn set_width(&mut self, width: i32)
        ensures
            final(self).width == width,
    {
        self.width = width;
    }

    fn get_width(&self) -> (r: i32) {
        self.width
    }

    fn set_name(&mut self, name: &str)
        ensures
            final(self).length == old(self).length,
            final(self).width == old(self).width,
    {
        self.name = String::from_str(name);
    }

    fn get_name(&self) -> (r: &str) {
        self.name.as_str()
    }
}

impl Rect {
    /// Equality of rectangles is an equivalence: it compares the areas.
    pub proof fn lemma_eq_is_equivalence(a: Rect, b: Rect, c: Rect)
        ensures
            a.eq_spec(&b) <==> a.area_spec() == b.area_spec(),
            a.eq_spec(&a),
            a.eq_spec(&b) == b.eq_spec(&a),
            a.eq_spec(&b) && b.eq_spec(&c) ==> a.eq_spec(&c),
    {
    }

    /// Two rectangles are equal exactly when comparing them gives `Equal`.
    pub proof fn lemma_cmp_agrees_with_eq(a: Rect, b: Rect)
        ensures
            a.eq_spec(&b) <==> a.partial_cmp_spec(&b) == Some(Ordering::Equal),
    {
    }
}

impl PartialEq for Rect {
    /// Rectangles of the same area are equal, whatever their sides and names.
    fn eq(&self, other: &Rect) -> (r: bool) {
        self.area_wide() == other.area_wide()
    }

    fn ne(&self, other: &Rect) -> (r: bool) {
        !self.eq(other)
    }
}

impl vstd::std_specs::cmp::PartialEqSpecImpl for Rect {
    open spec fn obeys_eq_spec() -> bool {
        true
    }

    open spec fn eq_spec(&self, other: &Rect) -> bool {
        self.area_spec() == other.area_spec()
    }
}

impl PartialOrd for Rect {
    /// Rectangles are ordered by area.
    fn partial_cmp(&self, other: &Rect) -> (r: Option<Ordering>) {
        Some(compare_i128(self.area_wide() as i128, other.area_wide() as i128))
    }
}

impl vstd::std_specs::cmp::PartialOrdSpecImpl for Rect {
    open spec fn obeys_partial_cmp_spec() -> bool {
        true
    }

    open spec fn partial_cmp_spec(&self, other: &Rect) -> Option<Ordering> {
        Some(compare_ints(self.area_spec(), other.area_spec()))
    }
}

} // verus!
