//! A signed fixed-point number with sixteen fractional bits and saturating
//! arithmetic.

use vstd::prelude::*;
use crate::scalar::Scalar;

verus! {

/// How many raw units make one.
pub const FIXED_ONE: i64 = 65536;

/// A fixed-point number: `raw / 65536`.
#[derive(Clone, Copy, Debug, PartialEq, Eq)]
pub struct Fixed {
    pub raw: i64,
}

/// The nearest raw value that an integer can be stored as.
pub open spec fn saturate(v: int) -> i64 {
    if v > i64::MAX {
        i64::MAX
    } else if v < i64::MIN {
        i64::MIN
    } else {
        v as i64
    }
}

/// Raw quotient of two raw values: the floor of the exact quotient, and the
/// end of the range on the dividend's side where the divisor is zero.
pub open spec fn raw_quotient(a: int, b: int) -> int {
    if b != 0 {
        (a * 65536) / b
    } else if a > 0 {
        i64::MAX as int
    } else if a < 0 {
        i64::MIN as int
    } else {
        0
    }
}

fn saturate_wide(v: i128) -> (r: i64)
    ensures
        r == saturate(v as int),
{
    if v > i64::MAX as i128 {
        i64::MAX
    } else if v < i64::MIN as i128 {
        i64::MIN
    } else {
        v as i64
    }
}

proof fn product_fits(a: int, b: int)
    requires
        -0x8000_0000_0000_0000 <= a < 0x8000_0000_0000_0000,
        -0x8000_0000_0000_0000 <= b < 0x8000_0000_0000_0000,
    ensures
        -0x4000_0000_0000_0000_0000_0000_0000_0000 <= a * b
            <= 0x4000_0000_0000_0000_0000_0000_0000_0000,
{
    assert(-0x4000_0000_0000_0000_0000_0000_0000_0000 <= a * b
        <= 0x4000_0000_0000_0000_0000_0000_0000_0000) by (nonlinear_arith)
        requires
            -0x8000_0000_0000_0000 <= a < 0x8000_0000_0000_0000,
            -0x8000_0000_0000_0000 <= b < 0x8000_0000_0000_0000,
    ;
}

proof fn quotient_fits(x: int, d: int)
    requires
        d != 0,
    ensures
        x >= 0 ==> -x <= x / d <= x,
        x < 0 ==> x <= x / d <= -x,
{
    assert(x == d * (x / d) + x % d && 0 <= x % d) by (nonlinear_arith)
        requires
            d != 0,
    ;
    let q = x / d;
    let r = x % d;
    assert((x >= 0 ==> -x <= q <= x) && (x < 0 ==> x <= q <= -x)) by (nonlinear_arith)
        requires
            d != 0,
            x == d * q + r,
            0 <= r,
            r < d || r < -d,
    ;
}

impl Fixed {
    /// The number with the given raw value.
    pub fn from_raw(raw: i64) -> (r: Fixed)
        ensures
            r.raw == raw,
    {
        Fixed { raw }
    }

    /// The raw value: the number times 65536.
    pub fn raw(&self) -> (r: i64)
        ensures
            r == self.raw,
    {
        self.raw
    }
}

impl Scalar for Fixed {
    open spec fn zero_spec() -> Fixed {
        Fixed { raw: 0 }
    }

    open spec fn one_spec() -> Fixed {
        Fixed { raw: 65536 }
    }

    open spec fn add_spec(self, rhs: Fixed) -> Fixed {
        Fixed { raw: saturate(self.raw + rhs.raw) }
    }

    open spec fn sub_spec(self, rhs: Fixed) -> Fixed {
        Fixed { raw: saturate(self.raw - rhs.raw) }
    }

    open spec fn mul_spec(self, rhs: Fixed) -> Fixed {
        Fixed { raw: saturate((self.raw * rhs.raw) / 65536) }
    }

    open spec fn div_spec(self, rhs: Fixed) -> Fixed {
        Fixed { raw: saturate(raw_quotient(self.raw as int, rhs.raw as int)) }
    }

    open spec fn lt_spec(self, rhs: Fixed) -> bool {
        self.raw < rhs.raw
    }

    open spec fn count_spec(n: usize) -> Fixed {
        Fixed { raw: saturate(n * 65536) }
    }

    open spec fn unit_spec(word: u64) -> Fixed {
        Fixed { raw: (word >> 48) as i64 }
    }

    proof fn lt_asymmetric(a: Fixed, b: Fixed) {
    }

    proof fn unit_in_range(word: u64) {
        assert(word >> 48 < 65536) by (bit_vector);
    }

    fn zero() -> (r: Fixed) {
        Fixed { raw: 0 }
    }

    fn one() -> (r: Fixed) {
        Fixed { raw: FIXED_ONE }
    }

    fn plus(self, rhs: Fixed) -> (r: Fixed) {
        Fixed { raw: saturate_wide(self.raw as i128 + rhs.raw as i128) }
    }

    fn minus(self, rhs: Fixed) -> (r: Fixed) {
        Fixed { raw: saturate_wide(self.raw as i128 - rhs.raw as i128) }
    }

    fn times(self, rhs: Fixed) -> (r: Fixed) {
        proof {
            product_fits(self.raw as int, rhs.raw as int);
        }
        let wide: i128 = self.raw as i128 * rhs.raw as i128;
        match wide.checked_div_euclid(65536) {
            Some(q) => Fixed { raw: saturate_wide(q) },
            // The divisor is not zero and the quotient fits.
            None => Fixed { raw: 0 },
        }
    }

    fn over(self, rhs: Fixed) -> (r: Fixed) {
        let wide: i128 = self.raw as i128 * 65536;
        if rhs.raw == 0 {
            if self.raw > 0 {
                Fixed { raw: i64::MAX }
            } else if self.raw < 0 {
                Fixed { raw: i64::MIN }
            } else {
                Fixed { raw: 0 }
            }
        } else {
            proof {
                quotient_fits(wide as int, rhs.raw as int);
            }
            match wide.checked_div_euclid(rhs.raw as i128) {
                Some(q) => Fixed { raw: saturate_wide(q) },
                // The divisor is not zero and the quotient fits.
                None => Fixed { raw: 0 },
            }
        }
    }

    fn less_than(self, rhs: Fixed) -> (r: bool) {
        self.raw < rhs.raw
    }

    fn from_count(n: usize) -> (r: Fixed) {
        let wide: i128 = n as i128 * 65536;
        Fixed { raw: saturate_wide(wide) }
    }

    fn from_unit_word(word: u64) -> (r: Fixed) {
        assert(word >> 48 < 65536) by (bit_vector);
        Fixed { raw: (word >> 48) as i64 }
    }
}

} // verus!
