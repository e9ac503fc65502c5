//! Values that can fill an array or a register.
use vstd::prelude::*;

verus! {

/// A value type with a distinguished zero and one. The two spec functions
/// describe `zero` and `one`; an implementation outside verified code keeps
/// their unspecified defaults.
pub trait ArrayElement: Copy {
    /// The zero of the type.
    closed spec fn zero_value() -> Self {
        arbitrary()
    }

    /// The one of the type.
    closed spec fn one_value() -> Self {
        arbitrary()
    }

    fn zero() -> (r: Self)
        ensures
            r == Self::zero_value(),
    ;

    fn one() -> (r: Self)
        ensures
            r == Self::one_value(),
    ;

    fn is_zero(&self) -> (r: bool)
        ensures
            r == (*self == Self::zero_value()),
    ;
}

impl ArrayElement for i32 {
    open spec fn zero_value() -> i32 {
        0
    }

    open spec fn one_value() -> i32 {
        1
    }

    fn zero() -> (r: i32) {
        0
    }

    fn one() -> (r: i32) {
        1
    }

    fn is_zero(&self) -> (r: bool) {
        *self == 0
    }
}

impl ArrayElement for i64 {
    open spec fn zero_value() -> i64 {
        0
    }

    open spec fn one_value() -> i64 {
        1
    }

    fn zero() -> (r: i64) {
        0
    }

    fn one() -> (r: i64) {
        1
    }

    fn is_zero(&self) -> (r: bool) {
        *self == 0
    }
}

} // verus!
