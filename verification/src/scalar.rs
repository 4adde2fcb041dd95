use vstd::prelude::*;
use vstd::arithmetic::div_mod::lemma_div_denominator;
use vstd::arithmetic::mul::lemma_mul_inequality;
use vstd::arithmetic::power2::{
    lemma2_to64, lemma2_to64_rest, lemma_pow2_adds, lemma_pow2_pos, lemma_pow2_strictly_increases,
    lemma_pow2_unfold, pow2,
};
use vstd::std_specs::cmp::PartialEqSpecImpl;

verus! {

/// Bit pattern of the single-precision number 0.
pub const ZERO_BITS: u32 = 0x0000_0000;

/// Bit pattern of the single-precision number 0.2.
pub const FIFTH_BITS: u32 = 0x3e4c_cccd;

/// Bit pattern of the single-precision number 0.25.
pub const QUARTER_BITS: u32 = 0x3e80_0000;

/// Bit pattern of the single-precision number 0.5.
pub const HALF_BITS: u32 = 0x3f00_0000;

/// Bit pattern of the single-precision number 0.8.
pub const FOUR_FIFTHS_BITS: u32 = 0x3f4c_cccd;

/// Bit pattern of the single-precision number 1.
pub const ONE_BITS: u32 = 0x3f80_0000;

/// Bit pattern of the single-precision number -1.
pub const MINUS_ONE_BITS: u32 = 0xbf80_0000;

/// A single-precision number, held as its IEEE 754 bit pattern.
///
/// The core never computes with such a number; it stores it, hands it back
/// and compares it. `==` is the numeric comparison of the format: a NaN is
/// equal to nothing, itself included, and the two zeros are equal.
#[derive(Clone, Copy, Debug)]
pub struct Scalar {
    pub bits: u32,
}

impl Scalar {
    /// The pattern without its sign bit.
    pub open spec fn magnitude(self) -> int {
        self.bits as int % 0x8000_0000
    }

    /// Exponent all ones and a fraction that is not zero.
    pub open spec fn is_nan(self) -> bool {
        self.magnitude() > 0x7f80_0000
    }

    /// Either of the two zeros.
    pub open spec fn is_zero(self) -> bool {
        self.magnitude() == 0
    }

    /// Numeric equality of the two numbers.
    pub open spec fn same_number(self, other: Scalar) -> bool {
        &&& !self.is_nan()
        &&& !other.is_nan()
        &&& (self.bits == other.bits || (self.is_zero() && other.is_zero()))
    }

    /// Whether the sign bit is set.
    pub open spec fn is_negative(self) -> bool {
        self.bits >= 0x8000_0000
    }

    /// The exponent field: eight bits above the fraction.
    pub open spec fn exponent(self) -> nat {
        ((self.bits / 0x80_0000) % 0x100) as nat
    }

    /// The fraction field with the leading one of a normal number put in
    /// front: 24 bits.
    pub open spec fn significand(self) -> nat {
        (0x80_0000 + self.bits % 0x80_0000) as nat
    }

    /// The magnitude of the number without what follows the point. A number
    /// with exponent field `e` is its significand times two to the power
    /// `e - 150`; below `e = 127` the magnitude is below one.
    pub open spec fn whole_part(self) -> nat {
        let e = self.exponent();
        if e < 127 {
            0
        } else if e < 150 {
            self.significand() / pow2((150 - e) as nat)
        } else {
            self.significand() * pow2((e - 150) as nat)
        }
    }

    /// The number as a lattice index: cut off toward zero and held to the
    /// range of an index. A NaN and every negative number give 0; a number
    /// beyond the largest index, infinity included, gives the largest index.
    pub open spec fn spec_truncate(self) -> usize {
        if self.is_nan() || self.is_negative() {
            0
        } else if self.whole_part() > usize::MAX {
            usize::MAX
        } else {
            self.whole_part() as usize
        }
    }

    /// The magnitude of the number rounded to the nearest whole number, a
    /// half rounded up. Below `e = 126` the magnitude is below one half.
    pub open spec fn nearest_whole(self) -> nat {
        let e = self.exponent();
        if e < 126 {
            0
        } else if e < 150 {
            (self.significand() + pow2((149 - e) as nat)) / pow2((150 - e) as nat)
        } else {
            self.significand() * pow2((e - 150) as nat)
        }
    }

    /// The number rounded to the nearest lattice index, a half rounded away
    /// from zero, and held to the range of an index: what rounding the number
    /// and then casting it to an index gives. A NaN and every negative number
    /// give 0.
    pub open spec fn spec_round(self) -> usize {
        if self.is_nan() || self.is_negative() {
            0
        } else if self.nearest_whole() > usize::MAX {
            usize::MAX
        } else {
            self.nearest_whole() as usize
        }
    }

    pub fn from_bits(bits: u32) -> (scalar: Self)
        ensures
            scalar.bits == bits,
    {
        Self { bits }
    }

    pub fn to_bits(self) -> (bits: u32)
        ensures
            bits == self.bits,
    {
        self.bits
    }

    pub fn nan(self) -> (r: bool)
        ensures
            r == self.is_nan(),
    {
        self.bits % 0x8000_0000 > 0x7f80_0000
    }

    /// The number as a lattice index, as a cast of the number to an index
    /// gives it.
    #[verifier::when_used_as_spec(spec_truncate)]
    pub fn truncate(self) -> (index: usize)
        ensures
            index == self.spec_truncate(),
    {
        if self.nan() || self.bits >= 0x8000_0000 {
            return 0;
        }
        let exponent: u32 = (self.bits / 0x80_0000) % 0x100;
        let significand: u128 = (0x80_0000 + self.bits % 0x80_0000) as u128;
        if exponent < 127 {
            return 0;
        }
        proof {
            lemma2_to64();
            lemma2_to64_rest();
        }
        if exponent > 190 {
            proof {
                let shift = (exponent - 150) as nat;
                lemma_pow2_pos(shift);
                if shift > 41 {
                    lemma_pow2_strictly_increases(41, shift);
                }
                lemma_pow2_adds(23, 41);
                lemma_mul_inequality(pow2(23) as int, significand as int, pow2(shift) as int);
                lemma_mul_inequality(pow2(41) as int, pow2(shift) as int, pow2(23) as int);
                assert(pow2(23) * pow2(shift) == pow2(shift) * pow2(23)) by (nonlinear_arith);
                assert(pow2(41) * pow2(23) == pow2(23) * pow2(41)) by (nonlinear_arith);
            }
            return usize::MAX;
        }
        let mut whole: u128 = significand;
        let mut done: u32 = 0;
        if exponent >= 150 {
            let shift: u32 = exponent - 150;
            while done < shift
                invariant
                    done <= shift <= 40,
                    whole == significand * pow2(done as nat),
                    whole < pow2((24 + done) as nat),
                    pow2(64) == 0x1_0000_0000_0000_0000,
                decreases shift - done,
            {
                proof {
                    lemma_pow2_unfold((done + 1) as nat);
                    lemma_pow2_unfold((25 + done) as nat);
                    if 25 + done < 64 {
                        lemma_pow2_strictly_increases((25 + done) as nat, 64);
                    }
                    assert(significand * (2 * pow2(done as nat)) == 2 * (significand * pow2(
                        done as nat,
                    ))) by (nonlinear_arith);
                }
                whole = whole * 2;
                done += 1;
            }
        } else {
            let shift: u32 = 150 - exponent;
            while done < shift
                invariant
                    done <= shift <= 23,
                    whole == significand as nat / pow2(done as nat),
                decreases shift - done,
            {
                proof {
                    lemma_pow2_unfold((done + 1) as nat);
                    lemma_pow2_pos(done as nat);
                    lemma_div_denominator(significand as int, pow2(done as nat) as int, 2);
                    assert(pow2(done as nat) * 2 == 2 * pow2(done as nat));
                }
                whole = whole / 2;
                done += 1;
            }
        }
        assert(whole == self.whole_part());
        if whole > usize::MAX as u128 {
            usize::MAX
        } else {
            whole as usize
        }
    }

    /// The number rounded to the nearest lattice index.
    #[verifier::when_used_as_spec(spec_round)]
    pub fn round(self) -> (index: usize)
        ensures
            index == self.spec_round(),
    {
        if self.nan() || self.bits >= 0x8000_0000 {
            return 0;
        }
        let exponent: u32 = (self.bits / 0x80_0000) % 0x100;
        if exponent < 126 {
            return 0;
        }
        if exponent >= 150 {
            return self.truncate();
        }
        let significand: u128 = (0x80_0000 + self.bits % 0x80_0000) as u128;
        proof {
            lemma2_to64();
        }
        let shift: u32 = 150 - exponent;
        let mut half: u128 = 1;
        let mut done: u32 = 1;
        while done < shift
            invariant
                1 <= done <= shift <= 24,
                half == pow2((done - 1) as nat),
                half < pow2(24),
                pow2(24) == 0x100_0000,
            decreases shift - done,
        {
            proof {
                lemma_pow2_unfold(done as nat);
                if done < 24 {
                    lemma_pow2_strictly_increases(done as nat, 24);
                }
            }
            half = half * 2;
            done += 1;
        }
        let sum: u128 = significand + half;
        let mut whole: u128 = sum;
        let mut done: u32 = 0;
        while done < shift
            invariant
                done <= shift <= 24,
                whole == sum as nat / pow2(done as nat),
            decreases shift - done,
        {
            proof {
                lemma_pow2_unfold((done + 1) as nat);
                lemma_pow2_pos(done as nat);
                lemma_div_denominator(sum as int, pow2(done as nat) as int, 2);
                assert(pow2(done as nat) * 2 == 2 * pow2(done as nat));
            }
            whole = whole / 2;
            done += 1;
        }
        assert(whole == self.nearest_whole());
        if whole > usize::MAX as u128 {
            usize::MAX
        } else {
            whole as usize
        }
    }

    pub fn zero(self) -> (r: bool)
        ensures
            r == self.is_zero(),
    {
        self.bits % 0x8000_0000 == 0
    }
}

impl PartialEq for Scalar {
    fn eq(&self, other: &Scalar) -> (r: bool) {
        !self.nan() && !other.nan() && (self.bits == other.bits || (self.zero() && other.zero()))
    }
}

impl PartialEqSpecImpl for Scalar {
    open spec fn obeys_eq_spec() -> bool {
        true
    }

    open spec fn eq_spec(&self, other: &Scalar) -> bool {
        self.same_number(*other)
    }
}

} // verus!
