//! A fixed-point number with six decimal places.

use vstd::prelude::*;
use crate::scalar::{OrderedScalar, Scalar};

verus! {

/// Units per whole number.
pub const UNIT: i64 = 1_000_000;

/// A number held as a count of millionths, saturating at the ends of `i64`.
#[derive(Clone, Copy, Debug, PartialEq, Eq, Structural)]
pub struct Fixed {
    pub raw: i64,
}

/// `x` brought into the range of `i64`.
pub open spec fn clamp(x: int) -> int {
    if x < i64::MIN {
        i64::MIN as int
    } else if x > i64::MAX {
        i64::MAX as int
    } else {
        x
    }
}

/// `a / b` rounded toward zero, for a positive `b`.
pub open spec fn quot(a: int, b: int) -> int {
    if a >= 0 {
        a / b
    } else {
        -((-a) / b)
    }
}

/// `x` brought into the range of `i64`.
fn clamp_i128(x: i128) -> (r: i64)
    ensures
        r == clamp(x as int),
{
    if x < i64::MIN as i128 {
        i64::MIN
    } else if x > i64::MAX as i128 {
        i64::MAX
    } else {
        x as i64
    }
}

/// `a / b` rounded toward zero, for a positive `b`.
fn quot_i128(a: i128, b: i128) -> (r: i128)
    requires
        b > 0,
        a > i128::MIN,
    ensures
        r == quot(a as int, b as int),
{
    if a >= 0 {
        a / b
    } else {
        -((-a) / b)
    }
}

impl Fixed {
    /// The number that stands for `whole`.
    pub fn from_whole(whole: i32) -> (r: Fixed)
        ensures
            r.raw == whole * UNIT,
            r == Fixed::of_int(whole as int),
    {
        Fixed { raw: (whole as i64) * UNIT }
    }
}

impl Scalar for Fixed {
    open spec fn of_int(n: int) -> Fixed {
        Fixed { raw: clamp(n * UNIT) as i64 }
    }

    open spec fn plus_spec(self, rhs: Fixed) -> Fixed {
        Fixed { raw: clamp(self.raw + rhs.raw) as i64 }
    }

    open spec fn minus_spec(self, rhs: Fixed) -> Fixed {
        Fixed { raw: clamp(self.raw - rhs.raw) as i64 }
    }

    open spec fn times_spec(self, rhs: Fixed) -> Fixed {
        Fixed { raw: clamp(quot(self.raw * rhs.raw, UNIT as int)) as i64 }
    }

    open spec fn over_spec(self, rhs: Fixed) -> Fixed {
        if rhs.raw == 0 {
            if self.raw > 0 {
                Fixed { raw: i64::MAX }
            } else if self.raw < 0 {
                Fixed { raw: i64::MIN }
            } else {
                Fixed { raw: 0 }
            }
        } else if rhs.raw > 0 {
            Fixed { raw: clamp(quot(self.raw * UNIT, rhs.raw as int)) as i64 }
        } else {
            Fixed { raw: clamp(quot(-(self.raw * UNIT), -(rhs.raw as int))) as i64 }
        }
    }

    open spec fn negated_spec(self) -> Fixed {
        Fixed { raw: clamp(-(self.raw as int)) as i64 }
    }

    open spec fn magnitude_spec(self) -> Fixed {
        if self.raw >= 0 {
            self
        } else {
            self.negated_spec()
        }
    }

    open spec fn le_spec(self, rhs: Fixed) -> bool {
        self.raw <= rhs.raw
    }

    open spec fn same_spec(self, rhs: Fixed) -> bool {
        self.raw == rhs.raw
    }

    fn from_i64(n: i64) -> (r: Fixed) {
        Fixed { raw: clamp_i128((n as i128) * (UNIT as i128)) }
    }

    fn plus(self, rhs: Fixed) -> (r: Fixed) {
        Fixed { raw: clamp_i128(self.raw as i128 + rhs.raw as i128) }
    }

    fn minus(self, rhs: Fixed) -> (r: Fixed) {
        Fixed { raw: clamp_i128(self.raw as i128 - rhs.raw as i128) }
    }

    fn times(self, rhs: Fixed) -> (r: Fixed) {
        let a: i128 = self.raw as i128;
        let b: i128 = rhs.raw as i128;
        proof {
            assert(-0x4000_0000_0000_0000_0000_0000_0000_0000 <= a * b
                <= 0x4000_0000_0000_0000_0000_0000_0000_0000) by (nonlinear_arith)
                requires
                    -0x8000_0000_0000_0000 <= a <= 0x8000_0000_0000_0000,
                    -0x8000_0000_0000_0000 <= b <= 0x8000_0000_0000_0000,
            ;
        }
        Fixed { raw: clamp_i128(quot_i128(a * b, UNIT as i128)) }
    }

    fn over(self, rhs: Fixed) -> (r: Fixed) {
        let a: i128 = self.raw as i128;
        let b: i128 = rhs.raw as i128;
        assert(UNIT == 1_000_000);
        if rhs.raw == 0 {
            if self.raw > 0 {
                Fixed { raw: i64::MAX }
            } else if self.raw < 0 {
                Fixed { raw: i64::MIN }
            } else {
                Fixed { raw: 0 }
            }
        } else if rhs.raw > 0 {
            Fixed { raw: clamp_i128(quot_i128(a * (UNIT as i128), b)) }
        } else {
            Fixed { raw: clamp_i128(quot_i128(-(a * (UNIT as i128)), -b)) }
        }
    }

    fn negated(self) -> (r: Fixed) {
        Fixed { raw: clamp_i128(-(self.raw as i128)) }
    }

    fn magnitude(self) -> (r: Fixed) {
        if self.raw >= 0 {
            self
        } else {
            self.negated()
        }
    }

    fn le(self, rhs: Fixed) -> (r: bool) {
        self.raw <= rhs.raw
    }

    fn same(self, rhs: Fixed) -> (r: bool) {
        self.raw == rhs.raw
    }
}

impl OrderedScalar for Fixed {
    proof fn le_reflexive(a: Fixed) {
    }

    proof fn le_transitive(a: Fixed, b: Fixed, c: Fixed) {
    }

    proof fn plus_positive_grows(a: Fixed, b: Fixed) {
    }
}

} // verus!
