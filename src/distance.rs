use vstd::prelude::*;

verus! {

/// A distance along a ray, held as the bit pattern of an IEEE-754 single
/// precision number. The order of such numbers is modelled on integers, so the
/// nearest hit is chosen and proved without any floating-point arithmetic.
#[derive(Clone, Copy, Debug)]
pub struct Distance {
    pub bits: u32,
}

/// Sign bit of a single precision number.
pub const SIGN_BIT: u32 = 0x8000_0000;

/// Bit pattern of positive infinity; a larger magnitude is a NaN.
pub const INFINITY_BITS: u32 = 0x7F80_0000;

/// A pattern is a NaN when its exponent is all ones and its mantissa is not zero.
pub open spec fn nan_bits(bits: u32) -> bool {
    bits % SIGN_BIT > INFINITY_BITS
}

/// Position of a non-NaN pattern on the number line: the magnitude, negated
/// when the sign bit is set. Both zeros sit at 0.
pub open spec fn ordinal(bits: u32) -> int {
    if bits < SIGN_BIT {
        bits as int
    } else {
        -((bits - SIGN_BIT) as int)
    }
}

/// IEEE-754 `a < b`: false when either side is a NaN.
pub open spec fn less_bits(a: u32, b: u32) -> bool {
    !nan_bits(a) && !nan_bits(b) && ordinal(a) < ordinal(b)
}

impl Distance {
    pub open spec fn is_nan_spec(self) -> bool {
        nan_bits(self.bits)
    }

    pub open spec fn ordinal_spec(self) -> int {
        ordinal(self.bits)
    }

    /// Wraps the bit pattern of a number (as given by `f32::to_bits`).
    pub fn from_bits(bits: u32) -> (d: Distance)
        ensures
            d.bits == bits,
    {
        Distance { bits }
    }

    /// Whether the number is a NaN.
    pub fn is_nan(&self) -> (r: bool)
        ensures
            r == self.is_nan_spec(),
    {
        self.bits % SIGN_BIT > INFINITY_BITS
    }

    /// The strict comparison of IEEE-754: `self < other`.
    pub fn less_than(&self, other: &Distance) -> (r: bool)
        ensures
            r == less_bits(self.bits, other.bits),
    {
        let a = self.bits;
        let b = other.bits;
        if self.is_nan() || other.is_nan() {
            false
        } else if a < SIGN_BIT && b < SIGN_BIT {
            a < b
        } else if a >= SIGN_BIT && b >= SIGN_BIT {
            b < a
        } else if a >= SIGN_BIT {
            // a negative, b positive: only the two zeros compare equal
            !(a == SIGN_BIT && b == 0)
        } else {
            false
        }
    }
}

} // verus!
