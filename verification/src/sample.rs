//! Noise samples and their reduction to an 8-bit height.
//!
//! A sample is a binary64 value. It is carried as its IEEE-754 bit pattern, so
//! that two samples are equal exactly when they agree bit for bit, and so that
//! everything said about a sample is said about integers: a sign bit, an
//! eleven-bit exponent field and a 52-bit fraction field.
//!
//! The height of a sample is the sample scaled by `1/255` and cut down to a
//! byte: the fractional part is dropped, NaN and negative values give 0, and
//! values past the byte range give 255. For a value `v >= 0` that is the number
//! of whole multiples of 255 in `v`, which depends on the whole part of `v`
//! only, and that is how it is defined and computed here.
//!
//! In binary64 arithmetic the same byte comes out of `(1.0 / 255.0) * v`
//! converted to `u8`, although the product is rounded before it is cut down:
//! for each `k` from 1 to 255 the product of `255 * k` rounds to `k` itself, the
//! product of the next value below `255 * k` rounds to less than `k`, and
//! rounding keeps the order of values. That is a fact about binary64
//! arithmetic; it is not proved here, and the tests of this crate hold the two
//! computations against each other.
use vstd::arithmetic::div_mod::lemma_div_is_ordered_by_denominator;
use vstd::arithmetic::div_mod::lemma_fundamental_div_mod;
use vstd::arithmetic::power2::lemma2_to64;
use vstd::arithmetic::power2::lemma2_to64_rest;
use vstd::arithmetic::power2::lemma_pow2_pos;
use vstd::arithmetic::power2::lemma_pow2_strictly_increases;
use vstd::arithmetic::power2::pow2;
use vstd::bits::lemma_u64_shr_is_div;
use vstd::prelude::*;

verus! {

/// The bit that holds the sign of a binary64 value.
pub const SIGN_BIT: u64 = 0x8000_0000_0000_0000;

/// Two to the power 52: the weight of the implicit leading bit of a normal
/// binary64 significand, and the number of values of the fraction field.
pub const HIDDEN_BIT: u64 = 0x10_0000_0000_0000;

/// The exponent field of infinities and NaNs.
pub const EXPONENT_SPECIAL: u64 = 0x7ff;

/// The exponent field of a normal value `m * 2^0`, where `m` is the 53-bit
/// significand taken as an integer.
pub const EXPONENT_UNIT: u64 = 1075;

/// The exponent field of 1.0: below it, a value has no whole part.
pub const EXPONENT_ONE: u64 = 1023;

/// The exponent field of 65536.0: from it on, a finite value holds more than
/// 255 whole multiples of 255.
pub const EXPONENT_SATURATED: u64 = 1039;

/// A sample is divided by this to give a height.
pub const HEIGHT_DIVISOR: u64 = 255;

/// The largest height.
pub const HEIGHT_MAX: u8 = 255;

/// The bit pattern of `+0.0`.
pub const ZERO_BITS: u64 = 0;

/// The bit pattern of 255.0, the least value whose height is not 0.
pub const DIVISOR_BITS: u64 = 0x406F_E000_0000_0000;

/// The height that a sample is reduced to.
pub type NormalizedHeight = u8;

/// A scalar drawn from a noise field, as the bit pattern of a binary64 value.
#[derive(Clone, Copy, Debug, PartialEq, Eq, Structural)]
pub struct NoiseSample {
    pub bits: u64,
}

impl NoiseSample {
    /// The sign bit is set: the value is below zero, or is `-0.0`, or is a NaN
    /// with the sign bit set.
    pub open spec fn sign_set(self) -> bool {
        self.bits >= SIGN_BIT
    }

    /// The eleven-bit exponent field.
    pub open spec fn exponent_field(self) -> nat {
        (self.bits as nat / HIDDEN_BIT as nat) % 0x800
    }

    /// The 52-bit fraction field.
    pub open spec fn fraction_field(self) -> nat {
        self.bits as nat % HIDDEN_BIT as nat
    }

    /// The value is not a number.
    pub open spec fn is_nan(self) -> bool {
        self.exponent_field() == EXPONENT_SPECIAL && self.fraction_field() != 0
    }

    /// The value is `+inf` or `-inf`.
    pub open spec fn is_infinite(self) -> bool {
        self.exponent_field() == EXPONENT_SPECIAL && self.fraction_field() == 0
    }

    /// The value is neither NaN nor infinite.
    pub open spec fn is_finite(self) -> bool {
        self.exponent_field() != EXPONENT_SPECIAL
    }

    /// The significand of a finite value as an integer: the fraction field,
    /// with the implicit leading bit where the value is normal.
    pub open spec fn significand(self) -> nat {
        if self.exponent_field() == 0 {
            self.fraction_field()
        } else {
            HIDDEN_BIT as nat + self.fraction_field()
        }
    }

    /// The exponent field that scales the significand: subnormal values scale
    /// as the smallest normal ones do.
    pub open spec fn scale_field(self) -> nat {
        if self.exponent_field() == 0 {
            1
        } else {
            self.exponent_field()
        }
    }

    /// The magnitude of a finite value is
    /// `significand() * 2^(scale_field() - 1075)`.
    /// This is its whole part: the largest integer not above the magnitude.
    pub open spec fn whole_part(self) -> nat {
        if self.scale_field() >= EXPONENT_UNIT {
            self.significand() * pow2((self.scale_field() - EXPONENT_UNIT) as nat)
        } else {
            self.significand() / pow2((EXPONENT_UNIT - self.scale_field()) as nat)
        }
    }

    /// The height that the sample stands for.
    ///
    /// NaN and every value with the sign bit set give 0, `+inf` gives 255, and
    /// a finite value `v >= 0` gives the number of whole multiples of 255 in
    /// `v`, or 255 where there are more than that.
    pub open spec fn height(self) -> NormalizedHeight {
        if self.is_nan() || self.sign_set() {
            0
        } else if self.is_infinite() {
            HEIGHT_MAX
        } else if self.whole_part() / HEIGHT_DIVISOR as nat >= HEIGHT_MAX as nat {
            HEIGHT_MAX
        } else {
            (self.whole_part() / HEIGHT_DIVISOR as nat) as u8
        }
    }

    /// The sample with the given bit pattern.
    pub fn from_bits(bits: u64) -> (sample: NoiseSample)
        ensures
            sample.bits == bits,
    {
        NoiseSample { bits }
    }

    /// The sample's bit pattern.
    pub fn to_bits(&self) -> (bits: u64)
        ensures
            bits == self.bits,
    {
        self.bits
    }

    /// Computes the height of the sample.
    pub fn normalized(&self) -> (height: NormalizedHeight)
        ensures
            height == self.height(),
            0 <= height <= HEIGHT_MAX,
    {
        let bits: u64 = self.bits;
        let exponent: u64 = (bits >> 52) & 0x7ff;
        let fraction: u64 = bits & 0xf_ffff_ffff_ffff;
        proof {
            assert((bits >> 52) & 0x7ff == (bits / 0x10_0000_0000_0000) % 0x800) by (bit_vector);
            assert(bits & 0xf_ffff_ffff_ffff == bits % 0x10_0000_0000_0000) by (bit_vector);
            assert(exponent == self.exponent_field());
            assert(fraction == self.fraction_field());
        }
        if bits >= SIGN_BIT {
            return 0;
        }
        if exponent == EXPONENT_SPECIAL {
            return if fraction == 0 {
                HEIGHT_MAX
            } else {
                0
            };
        }
        if exponent < EXPONENT_ONE {
            proof {
                lemma_whole_part_below_one(*self);
            }
            return 0;
        }
        if exponent >= EXPONENT_SATURATED {
            proof {
                lemma_whole_part_large(*self);
            }
            return HEIGHT_MAX;
        }
        let shift: u64 = EXPONENT_UNIT - exponent;
        let significand: u64 = HIDDEN_BIT | fraction;
        let whole: u64 = significand >> shift;
        proof {
            assert(HIDDEN_BIT | fraction == HIDDEN_BIT + fraction) by (bit_vector)
                requires
                    fraction < 0x10_0000_0000_0000,
            ;
            lemma_u64_shr_is_div(significand, shift);
            assert(whole == self.whole_part());
        }
        let quotient: u64 = whole / HEIGHT_DIVISOR;
        if quotient >= HEIGHT_MAX as u64 {
            HEIGHT_MAX
        } else {
            quotient as u8
        }
    }
}

/// A sample whose exponent field is below that of 1.0 has a magnitude below
/// one.
proof fn lemma_whole_part_below_one(sample: NoiseSample)
    requires
        sample.exponent_field() < EXPONENT_ONE,
    ensures
        sample.whole_part() == 0,
{
    let shift = (EXPONENT_UNIT - sample.scale_field()) as nat;
    lemma2_to64_rest();
    assert(pow2(53) <= pow2(shift)) by {
        if 53 < shift {
            lemma_pow2_strictly_increases(53, shift);
        }
    }
    assert(sample.significand() / pow2(shift) == 0) by (nonlinear_arith)
        requires
            sample.significand() < pow2(shift),
    ;
}

/// A sample whose exponent field is at least that of 65536.0 has a whole part
/// of at least 65536.
proof fn lemma_whole_part_large(sample: NoiseSample)
    requires
        sample.exponent_field() >= EXPONENT_SATURATED,
    ensures
        sample.whole_part() >= 0x1_0000,
        sample.whole_part() / HEIGHT_DIVISOR as nat >= HEIGHT_MAX as nat,
{
    let m = sample.significand();
    let field = sample.scale_field();
    lemma2_to64();
    lemma2_to64_rest();
    if field >= EXPONENT_UNIT {
        let factor = pow2((field - EXPONENT_UNIT) as nat);
        lemma_pow2_pos((field - EXPONENT_UNIT) as nat);
        assert(m * factor >= m) by (nonlinear_arith)
            requires
                factor >= 1,
        ;
    } else {
        let shift = (EXPONENT_UNIT - field) as nat;
        assert(pow2(shift) <= pow2(36)) by {
            if shift < 36 {
                lemma_pow2_strictly_increases(shift, 36);
            }
        }
        lemma_pow2_pos(shift);
        lemma_div_is_ordered_by_denominator(m as int, pow2(shift) as int, pow2(36) as int);
        assert(m as int / pow2(36) as int >= 0x1_0000);
    }
    let whole = sample.whole_part();
    assert(whole / 255 >= 255) by (nonlinear_arith)
        requires
            whole >= 0x1_0000,
    ;
}

/// A bit pattern is its three fields side by side.
proof fn lemma_fields_make_bits(sample: NoiseSample)
    ensures
        sample.exponent_field() < 0x800,
        sample.fraction_field() < HIDDEN_BIT,
        !sample.sign_set() ==> sample.bits == sample.exponent_field() * HIDDEN_BIT
            + sample.fraction_field(),
{
    let bits = sample.bits;
    assert(bits < 0x8000_0000_0000_0000 ==> (bits / 0x10_0000_0000_0000) % 0x800 == bits
        / 0x10_0000_0000_0000) by (bit_vector);
    assert(bits == (bits / 0x10_0000_0000_0000) * 0x10_0000_0000_0000 + bits
        % 0x10_0000_0000_0000) by (bit_vector);
}

/// The height counts whole multiples of 255.
///
/// Take a finite sample without a sign. Where `scale_field()` is below 1075,
/// its value is the fraction `significand() / unit`, with `unit` two to the
/// power `1075 - scale_field()`; its height `h` then satisfies
/// `255 * h <= value`, and `value < 255 * (h + 1)` unless `h` is 255. Where
/// `scale_field()` is 1075 or more, the value is a whole number of at least two
/// to the power 52, and the height is 255.
pub proof fn lemma_height_counts_multiples(sample: NoiseSample)
    requires
        sample.is_finite(),
        !sample.sign_set(),
    ensures
        sample.scale_field() >= EXPONENT_UNIT ==> sample.height() == HEIGHT_MAX,
        sample.scale_field() < EXPONENT_UNIT ==> ({
            let unit = pow2((EXPONENT_UNIT - sample.scale_field()) as nat);
            &&& HEIGHT_DIVISOR * sample.height() * unit <= sample.significand()
            &&& sample.height() < HEIGHT_MAX ==> sample.significand() < HEIGHT_DIVISOR * (
            sample.height() + 1) * unit
        }),
{
    lemma_fields_make_bits(sample);
    if sample.scale_field() >= EXPONENT_UNIT {
        lemma_whole_part_large(sample);
    } else {
        let unit = pow2((EXPONENT_UNIT - sample.scale_field()) as nat);
        lemma_pow2_pos((EXPONENT_UNIT - sample.scale_field()) as nat);
        let m = sample.significand();
        let whole = sample.whole_part();
        let count = whole / 255;
        lemma_fundamental_div_mod(m as int, unit as int);
        lemma_fundamental_div_mod(whole as int, 255);
        let low = m % unit;
        let rest = whole % 255;
        assert(255 * count * unit <= m && m < 255 * (count + 1) * unit) by (nonlinear_arith)
            requires
                m == unit * whole + low,
                whole == 255 * count + rest,
                0 <= low < unit,
                0 <= rest < 255,
        ;
        let h = sample.height();
        if count >= 255 {
            assert(255 * h * unit <= 255 * count * unit) by (nonlinear_arith)
                requires
                    h <= count,
                    0 <= unit,
            ;
        }
    }
}

/// The flat samples: the height is 0 for NaN, for every value with the sign
/// bit set, and for the values below 255.0, and for no other sample. Among
/// the samples without a sign, the values below 255.0 are those whose bit
/// pattern is below that of 255.0.
pub proof fn lemma_height_zero_iff(sample: NoiseSample)
    ensures
        sample.height() == 0 <==> sample.is_nan() || sample.sign_set() || sample.bits
            < DIVISOR_BITS,
{
    lemma_fields_make_bits(sample);
    lemma2_to64_rest();
    if !sample.is_nan() && !sample.sign_set() && !sample.is_infinite() {
        let field = sample.exponent_field();
        let m = sample.significand();
        if field < 1030 {
            let shift = (EXPONENT_UNIT - sample.scale_field()) as nat;
            assert(pow2(46) <= pow2(shift)) by {
                if 46 < shift {
                    lemma_pow2_strictly_increases(46, shift);
                }
            }
            lemma_div_is_ordered_by_denominator(m as int, pow2(46) as int, pow2(shift) as int);
            assert(m as int / pow2(46) as int <= 0x80);
        } else if field == 1030 {
            assert(sample.whole_part() == m / 0x2000_0000_0000);
            assert(sample.bits < DIVISOR_BITS <==> m < 0x1F_E000_0000_0000);
            assert(sample.whole_part() / 255 == 0 <==> sample.whole_part() < 255);
        } else {
            if field < EXPONENT_UNIT {
                let shift = (EXPONENT_UNIT - field) as nat;
                assert(pow2(shift) <= pow2(44)) by {
                    if shift < 44 {
                        lemma_pow2_strictly_increases(shift, 44);
                    }
                }
                lemma_pow2_pos(shift);
                lemma_div_is_ordered_by_denominator(m as int, pow2(shift) as int, pow2(44) as int);
                assert(m as int / pow2(44) as int >= 0x100);
            } else {
                let factor = pow2((field - EXPONENT_UNIT) as nat);
                lemma_pow2_pos((field - EXPONENT_UNIT) as nat);
                assert(m * factor >= m) by (nonlinear_arith)
                    requires
                        factor >= 1,
                ;
            }
            assert(sample.whole_part() >= 255);
        }
    }
}

} // verus!
