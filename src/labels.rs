//! Plain enumerations used as labels.

use vstd::prelude::*;

verus! {

/// The outcome of comparing two values.
#[derive(Debug, Clone, Copy, PartialEq, Eq)]
pub enum Comp {
    LessThan,
    GreaterThan,
    Equal,
}

/// A person's gender.
#[derive(Debug, Clone, Copy, PartialEq, Eq)]
pub enum Gender {
    Male,
    Female,
}

} // verus!
