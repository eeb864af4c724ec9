//! The operations that every shape offers.

use vstd::prelude::*;

use crate::arith::fits_i32;

verus! {

/// A plane shape with integer measures and a name.
///
/// Every shape answers the same accessors. Those for a dimension that a
/// shape does not have (the length or width of a circle) read 0 and change
/// nothing.
pub trait Shape: Sized {
    /// The area of the shape, exactly.
    spec fn area_spec(&self) -> int;

    /// The perimeter of the shape, exactly.
    spec fn perimeter_spec(&self) -> int;

    /// The length that the shape reports.
    spec fn length_spec(&self) -> int;

    /// The width that the shape reports.
    spec fn width_spec(&self) -> int;

    /// The name of the shape.
    spec fn name_spec(&self) -> Seq<char>;

    /// Builds a shape through this interface. A shape without a length and
    /// a width ignores both and has zero dimensions.
    fn construct(length: i32, width: i32, name: &str) -> (r: Self)
        ensures
            r.name_spec() == name@,
    ;

    fn area(&self) -> (r: i32)
        requires
            fits_i32(self.area_spec()),
        ensures
            r == self.area_spec(),
    ;

    fn perimeter(&self) -> (r: i32)
        requires
            fits_i32(self.perimeter_spec()),
        ensures
            r == self.perimeter_spec(),
    ;

    fn set_length(&mut self, length: i32)
        ensures
            final(self).width_spec() == old(self).width_spec(),
            final(self).name_spec() == old(self).name_spec(),
    ;

    fn get_length(&self) -> (r: i32)
        ensures
            r == self.length_spec(),
    ;

    fn set_width(&mut self, width: i32)
        ensures
            final(self).length_spec() == old(self).length_spec(),
            final(self).name_spec() == old(self).name_spec(),
    ;

    fn get_width(&self) -> (r: i32)
        ensures
            r == self.width_spec(),
    ;

    fn set_name(&mut self, name: &str)
        ensures
            final(self).name_spec() == name@,
            final(self).area_spec() == old(self).area_spec(),
            final(self).perimeter_spec() == old(self).perimeter_spec(),
            final(self).length_spec() == old(self).length_spec(),
            final(self).width_spec() == old(self).width_spec(),
    ;

    fn get_name(&self) -> (r: &str)
        ensures
            r@ == self.name_spec(),
    ;
}

} // verus!
