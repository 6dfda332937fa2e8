//! Measuring how far a network is from what was expected of it.

use vstd::prelude::*;
use crate::scalar::Scalar;
use crate::network::NetworkError;

verus! {

/// Sum of the squares of the first `n` numbers, added up from the left,
/// starting at zero.
pub open spec fn sum_of_squares<S: Scalar>(errors: Seq<S>, n: nat) -> S
    decreases n,
{
    if n == 0 {
        S::zero_spec()
    } else {
        sum_of_squares(errors, (n - 1) as nat).add_spec(errors[n - 1].mul_spec(errors[n - 1]))
    }
}

/// The mean of the squares: their sum over their count.
pub open spec fn mse_spec<S: Scalar>(errors: Seq<S>) -> S {
    sum_of_squares(errors, errors.len()).div_spec(S::count_spec(errors.len() as usize))
}

/// Mean squared error of a vector of residuals. An empty vector has no mean
/// and is turned down.
pub fn mse<S: Scalar>(errors: &[S]) -> (r: Result<S, NetworkError>)
    ensures
        errors@.len() > 0 ==> r == Ok::<S, NetworkError>(mse_spec(errors@)),
        errors@.len() == 0 ==> r == Err::<S, NetworkError>(NetworkError::EmptyInput),
{
    let n = errors.len();
    if n == 0 {
        return Err(NetworkError::EmptyInput);
    }
    let mut sum = S::zero();
    let mut k: usize = 0;
    while k < n
        invariant
            k <= n,
            n == errors@.len(),
            sum == sum_of_squares(errors@, k as nat),
        decreases n - k,
    {
        let e = errors[k];
        sum = sum.plus(e.times(e));
        k += 1;
    }
    Ok(sum.over(S::from_count(n)))
}

} // verus!
