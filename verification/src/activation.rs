//! The rectified linear unit and its derivative.

use vstd::prelude::*;
use crate::scalar::{Scalar, non_negative, zero_non_negative};

verus! {

/// `max(x, 0)`: `x` where zero lies strictly below it, zero elsewhere.
pub open spec fn relu_spec<S: Scalar>(x: S) -> S {
    if S::zero_spec().lt_spec(x) {
        x
    } else {
        S::zero_spec()
    }
}

/// Slope of the rectifier: one strictly above zero, zero elsewhere, zero
/// itself included.
pub open spec fn relu_derivative_spec<S: Scalar>(x: S) -> S {
    if S::zero_spec().lt_spec(x) {
        S::one_spec()
    } else {
        S::zero_spec()
    }
}

/// The rectifier never yields a number below zero.
pub proof fn relu_non_negative<S: Scalar>(x: S)
    ensures
        non_negative(relu_spec(x)),
{
    if S::zero_spec().lt_spec(x) {
        S::lt_asymmetric(S::zero_spec(), x);
    } else {
        zero_non_negative::<S>();
    }
}

pub fn relu<S: Scalar>(x: S) -> (r: S)
    ensures
        r == relu_spec(x),
        non_negative(r),
{
    proof {
        relu_non_negative(x);
    }
    if S::zero().less_than(x) {
        x
    } else {
        S::zero()
    }
}

pub fn relu_derivative<S: Scalar>(x: S) -> (r: S)
    ensures
        r == relu_derivative_spec(x),
{
    if S::zero().less_than(x) {
        S::one()
    } else {
        S::zero()
    }
}

} // verus!
