//! Conversions from source values to column values that need no closure.
use vstd::prelude::*;

verus! {

/// A column value that can be made from a source value of type `T`.
pub trait MyFrom<T>: Sized {
    /// The column value that stands for `t`.
    spec fn spec_my_from(t: T) -> Self;

    fn my_from(t: &T) -> (r: Self)
        ensures
            r == Self::spec_my_from(*t),
    ;
}

impl MyFrom<bool> for bool {
    open spec fn spec_my_from(t: bool) -> bool {
        t
    }

    fn my_from(t: &bool) -> (r: bool) {
        *t
    }
}

impl MyFrom<i32> for i32 {
    open spec fn spec_my_from(t: i32) -> i32 {
        t
    }

    fn my_from(t: &i32) -> (r: i32) {
        *t
    }
}

impl MyFrom<i64> for i64 {
    open spec fn spec_my_from(t: i64) -> i64 {
        t
    }

    fn my_from(t: &i64) -> (r: i64) {
        *t
    }
}

impl MyFrom<i8> for i32 {
    open spec fn spec_my_from(t: i8) -> i32 {
        t as i32
    }

    fn my_from(t: &i8) -> (r: i32) {
        *t as i32
    }
}

impl MyFrom<i16> for i32 {
    open spec fn spec_my_from(t: i16) -> i32 {
        t as i32
    }

    fn my_from(t: &i16) -> (r: i32) {
        *t as i32
    }
}

impl MyFrom<i32> for i64 {
    open spec fn spec_my_from(t: i32) -> i64 {
        t as i64
    }

    fn my_from(t: &i32) -> (r: i64) {
        *t as i64
    }
}

impl MyFrom<u32> for i64 {
    open spec fn spec_my_from(t: u32) -> i64 {
        t as i64
    }

    fn my_from(t: &u32) -> (r: i64) {
        *t as i64
    }
}

} // verus!
