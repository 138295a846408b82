use vstd::prelude::*;

verus! {

/// The element type of every matrix in the engine.
///
/// Each operation is stated as a function of its operands: the engine's
/// contracts say which operations it applies to which entries, in which
/// order, and the element type decides what those operations compute.
pub trait Scalar: Copy {
    spec fn zero_spec() -> Self;

    spec fn add_spec(a: Self, b: Self) -> Self;

    spec fn sub_spec(a: Self, b: Self) -> Self;

    spec fn mul_spec(a: Self, b: Self) -> Self;

    spec fn div_spec(a: Self, b: Self) -> Self;

    /// The element that stands for the count `n`.
    spec fn count_spec(n: usize) -> Self;

    /// Whether the element lies strictly above zero.
    spec fn positive_spec(a: Self) -> bool;

    fn zero() -> (r: Self)
        ensures
            r == Self::zero_spec(),
    ;

    fn plus(self, o: Self) -> (r: Self)
        ensures
            r == Self::add_spec(self, o),
    ;

    fn minus(self, o: Self) -> (r: Self)
        ensures
            r == Self::sub_spec(self, o),
    ;

    fn times(self, o: Self) -> (r: Self)
        ensures
            r == Self::mul_spec(self, o),
    ;

    fn divided_by(self, o: Self) -> (r: Self)
        ensures
            r == Self::div_spec(self, o),
    ;

    fn count(n: usize) -> (r: Self)
        ensures
            r == Self::count_spec(n),
    ;

    fn is_positive(self) -> (r: bool)
        ensures
            r == Self::positive_spec(self),
    ;
}

/// Arithmetic modulo 2⁶⁴ on 64-bit words, exact and without rounding;
/// division by zero gives zero.
impl Scalar for u64 {
    open spec fn zero_spec() -> u64 {
        0
    }

    open spec fn add_spec(a: u64, b: u64) -> u64 {
        a.wrapping_add(b)
    }

    open spec fn sub_spec(a: u64, b: u64) -> u64 {
        a.wrapping_sub(b)
    }

    open spec fn mul_spec(a: u64, b: u64) -> u64 {
        a.wrapping_mul(b)
    }

    open spec fn div_spec(a: u64, b: u64) -> u64 {
        if b == 0 {
            0
        } else {
            a / b
        }
    }

    open spec fn count_spec(n: usize) -> u64 {
        n as u64
    }

    open spec fn positive_spec(a: u64) -> bool {
        a > 0
    }

    fn zero() -> (r: u64) {
        0
    }

    fn plus(self, o: u64) -> (r: u64) {
        self.wrapping_add(o)
    }

    fn minus(self, o: u64) -> (r: u64) {
        self.wrapping_sub(o)
    }

    fn times(self, o: u64) -> (r: u64) {
        self.wrapping_mul(o)
    }

    fn divided_by(self, o: u64) -> (r: u64) {
        if o == 0 {
            0
        } else {
            self / o
        }
    }

    fn count(n: usize) -> (r: u64) {
        n as u64
    }

    fn is_positive(self) -> (r: bool) {
        self > 0
    }
}

} // verus!
