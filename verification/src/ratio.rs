//! The downscale divisor as an exact number.
//!
//! A divisor is a single-precision binary number. It is kept by its IEEE-754
//! bit pattern, which identifies it exactly, and read as the fraction
//! `mantissa * 2^exponent` when a size is computed from it.

use vstd::prelude::*;
use vstd::arithmetic::power2::*;

verus! {

/// A single-precision number, held by its IEEE-754 bit pattern.
#[derive(Clone, Copy, Debug, PartialEq, Eq, Structural)]
pub struct Ratio {
    pub bits: u32,
}

/// The bit pattern of 2.
pub const TWO_BITS: u32 = 0x4000_0000;

/// The bit pattern of 1.5.
pub const ONE_AND_A_HALF_BITS: u32 = 0x3FC0_0000;

/// The divisor that settings start with: 2.
pub open spec fn initial_ratio() -> Ratio {
    Ratio { bits: TWO_BITS }
}

/// The divisor that replaces an unreadable value given on the command line: 2.
pub open spec fn argument_fallback() -> Ratio {
    Ratio { bits: TWO_BITS }
}

/// The divisor that replaces an unreadable value given in the configuration
/// text: 1.5.
pub open spec fn config_fallback() -> Ratio {
    Ratio { bits: ONE_AND_A_HALF_BITS }
}

impl Ratio {
    /// The sign bit: 1 for a negative number.
    pub open spec fn sign_field(self) -> nat {
        (self.bits / 0x8000_0000) as nat
    }

    /// The eight exponent bits.
    pub open spec fn exponent_field(self) -> nat {
        ((self.bits / 0x80_0000) % 0x100) as nat
    }

    /// The twenty-three fraction bits.
    pub open spec fn fraction_field(self) -> nat {
        (self.bits % 0x80_0000) as nat
    }

    /// The number is neither zero, negative, infinite nor a NaN: it can divide.
    pub open spec fn is_positive_finite(self) -> bool {
        &&& self.sign_field() == 0
        &&& self.exponent_field() != 0xFF
        &&& (self.exponent_field() != 0 || self.fraction_field() != 0)
    }

    /// The integer `m` of the reading `m * 2^e`.
    pub open spec fn mantissa(self) -> nat {
        if self.exponent_field() == 0 {
            self.fraction_field()
        } else {
            0x80_0000 + self.fraction_field()
        }
    }

    /// The power `e` of the reading `m * 2^e`.
    pub open spec fn exponent(self) -> int {
        if self.exponent_field() == 0 {
            -149
        } else {
            self.exponent_field() - 150
        }
    }

    /// The numerator of the number written as a fraction of two naturals.
    pub open spec fn numerator(self) -> nat {
        if self.exponent() >= 0 {
            self.mantissa() * pow2(self.exponent() as nat)
        } else {
            self.mantissa()
        }
    }

    /// The denominator of the number written as a fraction of two naturals.
    pub open spec fn denominator(self) -> nat {
        if self.exponent() >= 0 {
            1
        } else {
            pow2((-self.exponent()) as nat)
        }
    }

    /// The number with the given bit pattern.
    pub fn from_bits(bits: u32) -> (r: Ratio)
        ensures
            r.bits == bits,
    {
        Ratio { bits }
    }

    /// The number's bit pattern.
    pub fn to_bits(&self) -> (bits: u32)
        ensures
            bits == self.bits,
    {
        self.bits
    }

    /// The number 2.
    pub fn two() -> (r: Ratio)
        ensures
            r == initial_ratio(),
            r == argument_fallback(),
    {
        Ratio { bits: TWO_BITS }
    }

    /// The number 1.5.
    pub fn one_and_a_half() -> (r: Ratio)
        ensures
            r == config_fallback(),
    {
        Ratio { bits: ONE_AND_A_HALF_BITS }
    }

    /// Whether the number can divide: positive and finite.
    pub fn can_divide(&self) -> (ok: bool)
        ensures
            ok == self.is_positive_finite(),
    {
        let sign: u32 = self.bits / 0x8000_0000;
        let exponent: u32 = (self.bits / 0x80_0000) % 0x100;
        let fraction: u32 = self.bits % 0x80_0000;
        sign == 0 && exponent != 0xFF && (exponent != 0 || fraction != 0)
    }

    /// The reading `m * 2^e` of a positive finite number, as `(m, e)`.
    pub fn parts(&self) -> (parts: (u32, i32))
        requires
            self.is_positive_finite(),
        ensures
            parts.0 == self.mantissa(),
            parts.1 == self.exponent(),
            1 <= parts.0 < 0x100_0000,
            -149 <= parts.1 <= 104,
    {
        let exponent: u32 = (self.bits / 0x80_0000) % 0x100;
        let fraction: u32 = self.bits % 0x80_0000;
        if exponent == 0 {
            (fraction, -149)
        } else {
            (0x80_0000 + fraction, exponent as i32 - 150)
        }
    }
}

/// 2 reads as the fraction 2/1.
pub proof fn lemma_two_is_two()
    ensures
        initial_ratio().is_positive_finite(),
        initial_ratio().numerator() == 2 * initial_ratio().denominator(),
        initial_ratio().denominator() == 0x40_0000,
{
    lemma2_to64();
    let r = initial_ratio();
    assert(r.bits == 0x4000_0000);
    assert(r.exponent_field() == 128);
    assert(r.fraction_field() == 0);
    assert(r.exponent() == -22);
    assert(r.mantissa() == 0x80_0000);
}

/// 1.5 reads as the fraction 3/2.
pub proof fn lemma_one_and_a_half_is_three_halves()
    ensures
        config_fallback().is_positive_finite(),
        2 * config_fallback().numerator() == 3 * config_fallback().denominator(),
        config_fallback().denominator() == 0x80_0000,
{
    lemma2_to64();
    let r = config_fallback();
    assert(r.bits == 0x3FC0_0000);
    assert(r.exponent_field() == 127);
    assert(r.fraction_field() == 0x40_0000);
    assert(r.exponent() == -23);
    assert(r.mantissa() == 0xC0_0000);
}

} // verus!
