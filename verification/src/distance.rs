use vstd::prelude::*;

verus! {

/// A distance between two values of one type, as a count of units.
pub trait Distance: Sized {
    /// The exact distance between the two values.
    spec fn spec_distance(&self, other: &Self) -> int;

    /// Whether `distance` is defined on the two values (no overflow in its arithmetic).
    spec fn spec_distance_defined(&self, other: &Self) -> bool;

    fn distance(&self, other: &Self) -> (r: usize)
        requires
            self.spec_distance_defined(other),
        ensures
            r == self.spec_distance(other),
    ;
}

/// Every call of `V::default` gives the same value.
pub open spec fn default_is_fixed<V: Default>() -> bool {
    forall|a: V, b: V| call_ensures(V::default, (), a) && call_ensures(V::default, (), b) ==> a == b
}

/// The value `V::default` gives.
pub open spec fn default_value<V: Default>() -> V {
    choose|d: V| call_ensures(V::default, (), d)
}

/// A position as a mathematical integer.
pub open spec fn position(n: usize) -> int {
    n as int
}

/// Absolute difference of two integers.
pub open spec fn abs_diff(a: int, b: int) -> int {
    if a >= b { a - b } else { b - a }
}

/// The distance between two integers does not depend on their order, and is
/// zero from an integer to itself.
pub proof fn law_abs_diff_symmetric(a: int, b: int)
    ensures
        abs_diff(a, b) == abs_diff(b, a),
        abs_diff(a, a) == 0,
        abs_diff(a, b) >= 0,
        abs_diff(a, b) == 0 <==> a == b,
{
}

impl Distance for usize {
    open spec fn spec_distance(&self, other: &Self) -> int { abs_diff(*self as int, *other as int) }
    open spec fn spec_distance_defined(&self, other: &Self) -> bool { true }

    fn distance(&self, other: &Self) -> (r: usize) {
        if *self >= *other { *self - *other } else { *other - *self }
    }
}

impl Distance for u64 {
    /// The difference as a `usize` (truncated where `usize` is narrower).
    open spec fn spec_distance(&self, other: &Self) -> int { abs_diff(*self as int, *other as int) as usize as int }
    open spec fn spec_distance_defined(&self, other: &Self) -> bool { true }

    fn distance(&self, other: &Self) -> (r: usize) {
        let d: u64 = if *self >= *other { *self - *other } else { *other - *self };
        d as usize
    }
}

impl Distance for u32 {
    open spec fn spec_distance(&self, other: &Self) -> int { abs_diff(*self as int, *other as int) }
    open spec fn spec_distance_defined(&self, other: &Self) -> bool { true }

    fn distance(&self, other: &Self) -> (r: usize) {
        let d: u32 = if *self >= *other { *self - *other } else { *other - *self };
        d as usize
    }
}

impl Distance for u16 {
    open spec fn spec_distance(&self, other: &Self) -> int { abs_diff(*self as int, *other as int) }
    open spec fn spec_distance_defined(&self, other: &Self) -> bool { true }

    fn distance(&self, other: &Self) -> (r: usize) {
        let d: u16 = if *self >= *other { *self - *other } else { *other - *self };
        d as usize
    }
}

impl Distance for u8 {
    open spec fn spec_distance(&self, other: &Self) -> int { abs_diff(*self as int, *other as int) }
    open spec fn spec_distance_defined(&self, other: &Self) -> bool { true }

    fn distance(&self, other: &Self) -> (r: usize) {
        let d: u8 = if *self >= *other { *self - *other } else { *other - *self };
        d as usize
    }
}

// For the signed types the difference is computed in the type itself and then
// made absolute, so it is defined only where that difference and its absolute
// value fit in the type.

impl Distance for i64 {
    /// The difference as a `usize` (truncated where `usize` is narrower).
    open spec fn spec_distance(&self, other: &Self) -> int { abs_diff(*self as int, *other as int) as usize as int }
    open spec fn spec_distance_defined(&self, other: &Self) -> bool {
        i64::MIN < *self - *other <= i64::MAX
    }

    fn distance(&self, other: &Self) -> (r: usize) {
        let d: i64 = *self - *other;
        let a: i64 = if d < 0 { -d } else { d };
        a as usize
    }
}

impl Distance for i32 {
    open spec fn spec_distance(&self, other: &Self) -> int { abs_diff(*self as int, *other as int) }
    open spec fn spec_distance_defined(&self, other: &Self) -> bool {
        i32::MIN < *self - *other <= i32::MAX
    }

    fn distance(&self, other: &Self) -> (r: usize) {
        let d: i32 = *self - *other;
        let a: i32 = if d < 0 { -d } else { d };
        a as usize
    }
}

impl Distance for i16 {
    open spec fn spec_distance(&self, other: &Self) -> int { abs_diff(*self as int, *other as int) }
    open spec fn spec_distance_defined(&self, other: &Self) -> bool {
        i16::MIN < *self - *other <= i16::MAX
    }

    fn distance(&self, other: &Self) -> (r: usize) {
        let d: i16 = *self - *other;
        let a: i16 = if d < 0 { -d } else { d };
        a as usize
    }
}

impl Distance for i8 {
    open spec fn spec_distance(&self, other: &Self) -> int { abs_diff(*self as int, *other as int) }
    open spec fn spec_distance_defined(&self, other: &Self) -> bool {
        i8::MIN < *self - *other <= i8::MAX
    }

    fn distance(&self, other: &Self) -> (r: usize) {
        let d: i8 = *self - *other;
        let a: i8 = if d < 0 { -d } else { d };
        a as usize
    }
}

/// The distance between two integers of one type is how far apart they
/// are: the larger minus the smaller (for `u64` and `i64`, as a `usize`
/// holds it), the same from either side, and defined from either side alike.
pub proof fn law_integer_distance_is_absolute_difference(a_usize: usize, b_usize: usize, a_u64: u64, b_u64: u64, a_u32: u32, b_u32: u32, a_u16: u16, b_u16: u16, a_u8: u8, b_u8: u8, a_i64: i64, b_i64: i64, a_i32: i32, b_i32: i32, a_i16: i16, b_i16: i16, a_i8: i8, b_i8: i8)
    ensures
        a_usize.spec_distance(&b_usize) == (if a_usize >= b_usize { a_usize - b_usize } else { b_usize - a_usize }),
        a_usize.spec_distance(&b_usize) == b_usize.spec_distance(&a_usize),
        a_usize.spec_distance_defined(&b_usize) == b_usize.spec_distance_defined(&a_usize),
        a_u64.spec_distance(&b_u64) == (if a_u64 >= b_u64 { a_u64 - b_u64 } else { b_u64 - a_u64 }) as usize as int,
        a_u64.spec_distance(&b_u64) == b_u64.spec_distance(&a_u64),
        a_u64.spec_distance_defined(&b_u64) == b_u64.spec_distance_defined(&a_u64),
        a_u32.spec_distance(&b_u32) == (if a_u32 >= b_u32 { a_u32 - b_u32 } else { b_u32 - a_u32 }),
        a_u32.spec_distance(&b_u32) == b_u32.spec_distance(&a_u32),
        a_u32.spec_distance_defined(&b_u32) == b_u32.spec_distance_defined(&a_u32),
        a_u16.spec_distance(&b_u16) == (if a_u16 >= b_u16 { a_u16 - b_u16 } else { b_u16 - a_u16 }),
        a_u16.spec_distance(&b_u16) == b_u16.spec_distance(&a_u16),
        a_u16.spec_distance_defined(&b_u16) == b_u16.spec_distance_defined(&a_u16),
        a_u8.spec_distance(&b_u8) == (if a_u8 >= b_u8 { a_u8 - b_u8 } else { b_u8 - a_u8 }),
        a_u8.spec_distance(&b_u8) == b_u8.spec_distance(&a_u8),
        a_u8.spec_distance_defined(&b_u8) == b_u8.spec_distance_defined(&a_u8),
        a_i64.spec_distance(&b_i64) == (if a_i64 >= b_i64 { a_i64 - b_i64 } else { b_i64 - a_i64 }) as usize as int,
        a_i64.spec_distance(&b_i64) == b_i64.spec_distance(&a_i64),
        a_i64.spec_distance_defined(&b_i64) == b_i64.spec_distance_defined(&a_i64),
        a_i32.spec_distance(&b_i32) == (if a_i32 >= b_i32 { a_i32 - b_i32 } else { b_i32 - a_i32 }),
        a_i32.spec_distance(&b_i32) == b_i32.spec_distance(&a_i32),
        a_i32.spec_distance_defined(&b_i32) == b_i32.spec_distance_defined(&a_i32),
        a_i16.spec_distance(&b_i16) == (if a_i16 >= b_i16 { a_i16 - b_i16 } else { b_i16 - a_i16 }),
        a_i16.spec_distance(&b_i16) == b_i16.spec_distance(&a_i16),
        a_i16.spec_distance_defined(&b_i16) == b_i16.spec_distance_defined(&a_i16),
        a_i8.spec_distance(&b_i8) == (if a_i8 >= b_i8 { a_i8 - b_i8 } else { b_i8 - a_i8 }),
        a_i8.spec_distance(&b_i8) == b_i8.spec_distance(&a_i8),
        a_i8.spec_distance_defined(&b_i8) == b_i8.spec_distance_defined(&a_i8),
{
}

} // verus!
