//! The integer part of the shader math prelude: component minimum, maximum,
//! clamping and absolute value on integer scalars, with the same names the
//! target language uses.
use vstd::prelude::*;

verus! {

/// Minimum and maximum of a value and another, giving an `R`.
pub trait MinMax<V, R>: Sized {
    spec fn spec_min(self, b: V) -> R;

    spec fn spec_max(self, b: V) -> R;

    fn min(self, b: V) -> (r: R)
        ensures
            r == self.spec_min(b),
    ;

    fn max(self, b: V) -> (r: R)
        ensures
            r == self.spec_max(b),
    ;
}

impl MinMax<i32, i32> for i32 {
    open spec fn spec_min(self, b: i32) -> i32 {
        if self <= b {
            self
        } else {
            b
        }
    }

    open spec fn spec_max(self, b: i32) -> i32 {
        if self >= b {
            self
        } else {
            b
        }
    }

    fn min(self, b: i32) -> (r: i32) {
        if self <= b {
            self
        } else {
            b
        }
    }

    fn max(self, b: i32) -> (r: i32) {
        if self >= b {
            self
        } else {
            b
        }
    }
}

impl MinMax<u32, u32> for u32 {
    open spec fn spec_min(self, b: u32) -> u32 {
        if self <= b {
            self
        } else {
            b
        }
    }

    open spec fn spec_max(self, b: u32) -> u32 {
        if self >= b {
            self
        } else {
            b
        }
    }

    fn min(self, b: u32) -> (r: u32) {
        if self <= b {
            self
        } else {
            b
        }
    }

    fn max(self, b: u32) -> (r: u32) {
        if self >= b {
            self
        } else {
            b
        }
    }
}

/// The smaller of `a` and `b`.
pub fn min<T, U, R>(a: T, b: U) -> (r: R) where T: MinMax<U, R>
    ensures
        r == a.spec_min(b),
{
    a.min(b)
}

/// The larger of `a` and `b`.
pub fn max<T, U, R>(a: T, b: U) -> (r: R) where T: MinMax<U, R>
    ensures
        r == a.spec_max(b),
{
    a.max(b)
}

/// `x` limited to `minval` from below, then to `maxval` from above.
pub fn clamp<T, U, V, R>(x: T, minval: U, maxval: V) -> (r: R) where
    T: MinMax<U, R>,
    R: MinMax<V, R>,

    ensures
        r == x.spec_max(minval).spec_min(maxval),
{
    min(max(x, minval), maxval)
}

/// Operations applied to each component of a value.
pub trait ComponentWiseMath: Sized {
    spec fn abs_defined(self) -> bool;

    spec fn spec_abs(self) -> Self;

    fn abs(self) -> (r: Self)
        requires
            self.abs_defined(),
        ensures
            r == self.spec_abs(),
    ;
}

impl ComponentWiseMath for i32 {
    open spec fn abs_defined(self) -> bool {
        self != i32::MIN
    }

    open spec fn spec_abs(self) -> i32 {
        if self < 0 {
            (-self) as i32
        } else {
            self
        }
    }

    fn abs(self) -> (r: i32) {
        if self < 0 {
            -self
        } else {
            self
        }
    }
}

/// A clamped integer lies between the bounds whenever they are ordered.
pub proof fn lemma_clamp_in_bounds(x: i32, lo: i32, hi: i32)
    requires
        lo <= hi,
    ensures
        lo <= x.spec_max(lo).spec_min(hi) <= hi,
        lo <= x <= hi ==> x.spec_max(lo).spec_min(hi) == x,
{
}

} // verus!
