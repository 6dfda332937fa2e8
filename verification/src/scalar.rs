//! The arithmetic the network is built on.

use vstd::prelude::*;

verus! {

/// A number type the network can compute with.
///
/// Each executable operation is tied to a specification function of the same
/// meaning, so that results of the network can be stated as expressions over
/// these operations. Two order facts are asked of every implementation: the
/// order is asymmetric, and a number made from a random word lies in the
/// half-open unit interval.
pub trait Scalar: Sized + Copy {
    /// The additive identity.
    spec fn zero_spec() -> Self;

    /// The multiplicative identity.
    spec fn one_spec() -> Self;

    /// Sum of two numbers.
    spec fn add_spec(self, rhs: Self) -> Self;

    /// Difference of two numbers.
    spec fn sub_spec(self, rhs: Self) -> Self;

    /// Product of two numbers.
    spec fn mul_spec(self, rhs: Self) -> Self;

    /// Quotient of two numbers.
    spec fn div_spec(self, rhs: Self) -> Self;

    /// Strict order.
    spec fn lt_spec(self, rhs: Self) -> bool;

    /// The number that stands for a count of items.
    spec fn count_spec(n: usize) -> Self;

    /// The number in `[0, 1)` that a 64-bit word is mapped to.
    spec fn unit_spec(word: u64) -> Self;

    /// The strict order never holds in both directions.
    proof fn lt_asymmetric(a: Self, b: Self)
        requires
            a.lt_spec(b),
        ensures
            !b.lt_spec(a),
    ;

    /// Every word is mapped into the half-open unit interval.
    proof fn unit_in_range(word: u64)
        ensures
            !Self::unit_spec(word).lt_spec(Self::zero_spec()),
            Self::unit_spec(word).lt_spec(Self::one_spec()),
    ;

    fn zero() -> (r: Self)
        ensures
            r == Self::zero_spec(),
    ;

    fn one() -> (r: Self)
        ensures
            r == Self::one_spec(),
    ;

    fn plus(self, rhs: Self) -> (r: Self)
        ensures
            r == self.add_spec(rhs),
    ;

    fn minus(self, rhs: Self) -> (r: Self)
        ensures
            r == self.sub_spec(rhs),
    ;

    fn times(self, rhs: Self) -> (r: Self)
        ensures
            r == self.mul_spec(rhs),
    ;

    fn over(self, rhs: Self) -> (r: Self)
        ensures
            r == self.div_spec(rhs),
    ;

    fn less_than(self, rhs: Self) -> (r: bool)
        ensures
            r == self.lt_spec(rhs),
    ;

    fn from_count(n: usize) -> (r: Self)
        ensures
            r == Self::count_spec(n),
    ;

    fn from_unit_word(word: u64) -> (r: Self)
        ensures
            r == Self::unit_spec(word),
    ;
}

/// `x` is not below zero.
pub open spec fn non_negative<S: Scalar>(x: S) -> bool {
    !x.lt_spec(S::zero_spec())
}

/// `x` lies in `[0, 1)`.
pub open spec fn in_unit_interval<S: Scalar>(x: S) -> bool {
    non_negative(x) && x.lt_spec(S::one_spec())
}

/// Zero is not below itself.
pub proof fn zero_non_negative<S: Scalar>()
    ensures
        non_negative(S::zero_spec()),
{
    if S::zero_spec().lt_spec(S::zero_spec()) {
        S::lt_asymmetric(S::zero_spec(), S::zero_spec());
    }
}

} // verus!
