//! The largest representable value of the primitive integer types.
use vstd::prelude::*;

verus! {

/// A type with a largest value.
pub trait MaxValue: Sized {
    /// The mathematical integer that a value stands for.
    spec fn value_of(v: Self) -> int;

    /// Returns the value that no other value of the type exceeds.
    fn max_value() -> (r: Self)
        ensures
            forall|x: Self| #[trigger] Self::value_of(x) <= Self::value_of(r),
    ;
}

impl MaxValue for i32 {
    open spec fn value_of(v: i32) -> int {
        v as int
    }

    fn max_value() -> (r: i32) {
        i32::MAX
    }
}

impl MaxValue for u32 {
    open spec fn value_of(v: u32) -> int {
        v as int
    }

    fn max_value() -> (r: u32) {
        u32::MAX
    }
}

impl MaxValue for i64 {
    open spec fn value_of(v: i64) -> int {
        v as int
    }

    fn max_value() -> (r: i64) {
        i64::MAX
    }
}

impl MaxValue for u64 {
    open spec fn value_of(v: u64) -> int {
        v as int
    }

    fn max_value() -> (r: u64) {
        u64::MAX
    }
}

} // verus!
