//! IEEE-754 binary32 numbers, held by their encoding.
//!
//! Order, sign and classification of such a number are functions of the 32
//! bits alone, and they are computed here on the bits. Sums, products and
//! roots are not: whoever needs one computes it and hands in the encoding of
//! the result.

use vstd::prelude::*;
use vstd::arithmetic::power2::pow2;

verus! {

/// The bit that holds the sign.
pub const SIGN_BIT: u32 = 0x8000_0000;

/// The encoding of positive infinity; every larger magnitude is a NaN.
pub const INFINITY_BITS: u32 = 0x7f80_0000;

/// A binary32 number.
#[derive(Debug, Clone, Copy)]
pub struct Scalar {
    pub bits: u32,
}

impl Scalar {
    /// The sign bit is set.
    pub open spec fn negative(self) -> bool {
        self.bits >= SIGN_BIT
    }

    /// The encoding without its sign bit: exponent and fraction.
    pub open spec fn magnitude(self) -> nat {
        if self.bits >= SIGN_BIT {
            (self.bits - SIGN_BIT) as nat
        } else {
            self.bits as nat
        }
    }

    /// The encoding is not a number.
    pub open spec fn nan(self) -> bool {
        self.magnitude() > INFINITY_BITS
    }

    /// The place of a number on the line of all numbers, both infinities
    /// included: numbers compare as their ranks do. The two zeros share
    /// rank 0.
    pub open spec fn rank(self) -> int {
        if self.negative() {
            -(self.magnitude() as int)
        } else {
            self.magnitude() as int
        }
    }

    /// The biased exponent: the eight bits below the sign.
    pub open spec fn exponent(self) -> nat {
        self.magnitude() / 0x80_0000
    }

    /// The fraction: the lowest 23 bits.
    pub open spec fn fraction(self) -> nat {
        self.magnitude() % 0x80_0000
    }

    /// The significand as a whole number: the fraction, and in front of it
    /// the one that a normal number implies.
    pub open spec fn significand(self) -> nat {
        if self.exponent() == 0 {
            self.fraction()
        } else {
            0x80_0000 + self.fraction()
        }
    }

    /// The absolute value of a finite number, counted in units of
    /// 2^-149, the smallest positive number of the format. Infinity
    /// counts as the power of two that follows the largest finite number.
    pub open spec fn scaled(self) -> nat {
        if self.exponent() == 0 {
            self.significand()
        } else {
            self.significand() * pow2((self.exponent() - 1) as nat)
        }
    }

    /// The value of a number, in units of 2^-149.
    pub open spec fn value(self) -> int {
        if self.negative() {
            -(self.scaled() as int)
        } else {
            self.scaled() as int
        }
    }

    /// The whole part of a number that is not negative, and zero for a
    /// negative number and for a NaN.
    pub open spec fn truncated(self) -> nat {
        if self.nan() || self.negative() {
            0
        } else {
            self.scaled() / pow2(149)
        }
    }

    /// The number with the sign bit flipped and every other bit kept.
    pub open spec fn flipped(self) -> Scalar {
        if self.bits >= SIGN_BIT {
            Scalar { bits: (self.bits - SIGN_BIT) as u32 }
        } else {
            Scalar { bits: (self.bits + SIGN_BIT) as u32 }
        }
    }

    /// `self < other` as IEEE-754 defines it: false when either is a NaN.
    pub open spec fn less(self, other: Scalar) -> bool {
        !self.nan() && !other.nan() && self.rank() < other.rank()
    }

    /// `self <= other` as IEEE-754 defines it: false when either is a NaN.
    pub open spec fn at_most(self, other: Scalar) -> bool {
        !self.nan() && !other.nan() && self.rank() <= other.rank()
    }

    /// The number with the given encoding.
    pub fn from_bits(bits: u32) -> (r: Scalar)
        ensures
            r.bits == bits,
    {
        Scalar { bits }
    }

    /// The encoding of the number.
    pub fn to_bits(&self) -> (r: u32)
        ensures
            r == self.bits,
    {
        self.bits
    }

    /// Positive zero.
    pub fn zero() -> (r: Scalar)
        ensures
            r.bits == 0,
    {
        Scalar { bits: 0 }
    }

    /// The number one.
    pub fn one() -> (r: Scalar)
        ensures
            r.bits == 0x3f80_0000,
    {
        Scalar { bits: 0x3f80_0000 }
    }

    /// Positive infinity.
    pub fn infinity() -> (r: Scalar)
        ensures
            r.bits == INFINITY_BITS,
    {
        Scalar { bits: INFINITY_BITS }
    }

    /// Negative infinity.
    pub fn neg_infinity() -> (r: Scalar)
        ensures
            r.bits == INFINITY_BITS + SIGN_BIT,
    {
        Scalar { bits: 0xff80_0000 }
    }

    fn magnitude_bits(&self) -> (r: u32)
        ensures
            r == self.magnitude(),
            r < SIGN_BIT,
    {
        if self.bits >= SIGN_BIT {
            self.bits - SIGN_BIT
        } else {
            self.bits
        }
    }

    fn rank_of(&self) -> (r: i64)
        ensures
            r == self.rank(),
    {
        let m: i64 = self.magnitude_bits() as i64;
        if self.bits >= SIGN_BIT {
            -m
        } else {
            m
        }
    }

    /// Whether the encoding is not a number.
    pub fn is_nan(&self) -> (r: bool)
        ensures
            r == self.nan(),
    {
        self.magnitude_bits() > INFINITY_BITS
    }

    /// `self < other`.
    pub fn lt(&self, other: &Scalar) -> (r: bool)
        ensures
            r == self.less(*other),
    {
        !self.is_nan() && !other.is_nan() && self.rank_of() < other.rank_of()
    }

    /// `self <= other`.
    pub fn le(&self, other: &Scalar) -> (r: bool)
        ensures
            r == self.at_most(*other),
    {
        !self.is_nan() && !other.is_nan() && self.rank_of() <= other.rank_of()
    }

    /// `self > other`.
    pub fn gt(&self, other: &Scalar) -> (r: bool)
        ensures
            r == other.less(*self),
    {
        other.lt(self)
    }

    /// The number with the opposite sign: only the sign bit changes, so a
    /// NaN stays a NaN and a zero becomes the other zero.
    pub fn negated(&self) -> (r: Scalar)
        ensures
            r == self.flipped(),
            r.magnitude() == self.magnitude(),
            r.negative() == !self.negative(),
            r.rank() == -self.rank(),
    {
        if self.bits >= SIGN_BIT {
            Scalar { bits: self.bits - SIGN_BIT }
        } else {
            Scalar { bits: self.bits + SIGN_BIT }
        }
    }

    /// The absolute value: the sign bit is cleared.
    pub fn abs(&self) -> (r: Scalar)
        ensures
            r.bits == self.magnitude(),
            !r.negative(),
    {
        Scalar { bits: self.magnitude_bits() }
    }

    /// The larger of two numbers. A NaN gives way to the other argument;
    /// of two numbers of one rank the receiver is returned.
    pub fn max(&self, other: &Scalar) -> (r: Scalar)
        ensures
            r == (if self.nan() {
                *other
            } else if other.nan() {
                *self
            } else if self.less(*other) {
                *other
            } else {
                *self
            }),
    {
        if self.is_nan() {
            *other
        } else if other.is_nan() {
            *self
        } else if self.lt(other) {
            *other
        } else {
            *self
        }
    }

    /// The smaller of two numbers. A NaN gives way to the other argument;
    /// of two numbers of one rank the receiver is returned.
    pub fn min(&self, other: &Scalar) -> (r: Scalar)
        ensures
            r == (if self.nan() {
                *other
            } else if other.nan() {
                *self
            } else if other.less(*self) {
                *other
            } else {
                *self
            }),
    {
        if self.is_nan() {
            *other
        } else if other.is_nan() {
            *self
        } else if other.lt(self) {
            *other
        } else {
            *self
        }
    }

    /// The number brought into `[low, high]`: `low` below it, `high` above
    /// it, the number itself in between and when it is a NaN.
    pub fn clamp(&self, low: &Scalar, high: &Scalar) -> (r: Scalar)
        requires
            low.at_most(*high),
        ensures
            r == (if self.less(*low) {
                *low
            } else if high.less(*self) {
                *high
            } else {
                *self
            }),
            !self.nan() ==> low.at_most(r) && r.at_most(*high),
    {
        if self.lt(low) {
            *low
        } else if self.gt(high) {
            *high
        } else {
            *self
        }
    }

    /// The whole part of the number as an unsigned integer: what lies
    /// beyond the integer's range becomes its largest value, and a negative
    /// number or a NaN becomes zero.
    pub fn to_u32(&self) -> (r: u32)
        ensures
            r == (if self.truncated() <= u32::MAX {
                self.truncated()
            } else {
                u32::MAX as nat
            }),
    {
        let m = self.magnitude_bits();
        if self.bits >= SIGN_BIT || m > INFINITY_BITS {
            return 0;
        }
        let e: u32 = m / 0x80_0000;
        let f: u32 = m % 0x80_0000;
        proof {
            lemma_truncated(*self);
        }
        if e < 127 {
            0
        } else if e >= 159 {
            u32::MAX
        } else {
            let sig: u32 = 0x80_0000 + f;
            if e >= 150 {
                let up: u32 = e - 150;
                proof {
                    vstd::arithmetic::power2::lemma2_to64();
                    vstd::bits::lemma_u32_shl_is_mul(sig, up);
                }
                sig << up
            } else {
                let down: u32 = 150 - e;
                proof {
                    vstd::bits::lemma_u32_shr_is_div(sig, down);
                }
                sig >> down
            }
        }
    }

    /// The whole part of the number as a byte: at most 255, and zero for a
    /// negative number or a NaN.
    pub fn to_u8(&self) -> (r: u8)
        ensures
            r == (if self.truncated() <= u8::MAX {
                self.truncated()
            } else {
                u8::MAX as nat
            }),
    {
        let whole = self.to_u32();
        if whole > 255 {
            255
        } else {
            whole as u8
        }
    }
}

/// The whole part of a number that is neither negative nor a NaN, by the
/// size of its exponent.
pub proof fn lemma_truncated(s: Scalar)
    requires
        !s.nan(),
        !s.negative(),
    ensures
        s.exponent() <= 255,
        s.fraction() < 0x80_0000,
        s.magnitude() == s.exponent() * 0x80_0000 + s.fraction(),
        s.exponent() < 127 ==> s.truncated() == 0,
        127 <= s.exponent() < 150 ==> s.truncated() == s.significand() / pow2(
            (150 - s.exponent()) as nat,
        ),
        150 <= s.exponent() ==> s.truncated() == s.significand() * pow2(
            (s.exponent() - 150) as nat,
        ),
        159 <= s.exponent() ==> s.truncated() > u32::MAX,
        150 <= s.exponent() < 159 ==> s.significand() * pow2((s.exponent() - 150) as nat)
            <= u32::MAX,
{
    let e = s.exponent();
    let sig = s.significand() as int;
    vstd::arithmetic::power2::lemma2_to64();
    vstd::arithmetic::power2::lemma_pow2_pos(149);
    if e == 0 {
        vstd::arithmetic::power2::lemma_pow2_strictly_increases(23, 149);
        vstd::arithmetic::div_mod::lemma_basic_div(sig, pow2(149) as int);
    } else if e < 150 {
        let low = (e - 1) as nat;
        let high = (150 - e) as nat;
        vstd::arithmetic::power2::lemma_pow2_adds(low, high);
        vstd::arithmetic::power2::lemma_pow2_pos(low);
        vstd::arithmetic::power2::lemma_pow2_pos(high);
        vstd::arithmetic::div_mod::lemma_div_multiples_vanish_quotient(
            pow2(low) as int,
            sig,
            pow2(high) as int,
        );
        assert(sig * pow2(low) == pow2(low) * sig) by (nonlinear_arith);
        assert(s.truncated() == sig / (pow2(high) as int));
        if e < 127 {
            if high > 24 {
                vstd::arithmetic::power2::lemma_pow2_strictly_increases(24, high);
            }
            vstd::arithmetic::div_mod::lemma_basic_div(sig, pow2(high) as int);
        }
    } else {
        let up = (e - 150) as nat;
        vstd::arithmetic::power2::lemma_pow2_adds(149, up);
        vstd::arithmetic::power2::lemma_pow2_pos(up);
        assert(sig * (pow2(149) * pow2(up)) == (sig * pow2(up)) * pow2(149)) by (nonlinear_arith);
        vstd::arithmetic::div_mod::lemma_div_by_multiple(sig * pow2(up), pow2(149) as int);
        if e >= 159 {
            if up > 9 {
                vstd::arithmetic::power2::lemma_pow2_strictly_increases(9, up);
            }
            assert(sig * pow2(up) >= 0x80_0000 * 512) by (nonlinear_arith)
                requires
                    sig >= 0x80_0000,
                    pow2(up) >= 512,
            ;
        } else {
            if up < 8 {
                vstd::arithmetic::power2::lemma_pow2_strictly_increases(up, 8);
            }
            assert(sig * pow2(up) <= 0xff_ffff * 256) by (nonlinear_arith)
                requires
                    0 <= sig <= 0xff_ffff,
                    0 < pow2(up) <= 256,
            ;
        }
    }
}

/// A larger magnitude of the encoding is a larger absolute value.
pub proof fn lemma_scaled_increases(a: Scalar, b: Scalar)
    requires
        a.magnitude() < b.magnitude(),
    ensures
        a.scaled() < b.scaled(),
{
    let ea = a.exponent();
    let eb = b.exponent();
    let sa = a.significand() as int;
    let sb = b.significand() as int;
    vstd::arithmetic::power2::lemma2_to64();
    if ea == eb {
        if ea > 0 {
            vstd::arithmetic::power2::lemma_pow2_pos((ea - 1) as nat);
            vstd::arithmetic::mul::lemma_mul_strict_inequality(
                sa,
                sb,
                pow2((ea - 1) as nat) as int,
            );
        }
    } else {
        assert(ea < eb);
        let pb = pow2((eb - 1) as nat) as int;
        vstd::arithmetic::power2::lemma_pow2_pos((eb - 1) as nat);
        assert(sb * pb >= 0x80_0000) by (nonlinear_arith)
            requires
                sb >= 0x80_0000,
                pb >= 1,
        ;
        if ea > 0 {
            let pa = pow2((ea - 1) as nat) as int;
            vstd::arithmetic::power2::lemma_pow2_pos((ea - 1) as nat);
            vstd::arithmetic::power2::lemma_pow2_unfold(ea);
            if ea < eb - 1 {
                vstd::arithmetic::power2::lemma_pow2_strictly_increases(ea, (eb - 1) as nat);
            }
            assert(sa * pa < sb * pb) by (nonlinear_arith)
                requires
                    0 <= sa < 0x100_0000,
                    sb >= 0x80_0000,
                    pa >= 1,
                    2 * pa <= pb,
            ;
        }
    }
}

/// Numbers compare as their values do: the order that `less` and
/// `at_most` compute on the encodings is the order of the numbers that the
/// encodings stand for, and the two zeros are one number.
pub proof fn lemma_rank_orders_values(a: Scalar, b: Scalar)
    ensures
        a.rank() < b.rank() <==> a.value() < b.value(),
        a.rank() == b.rank() <==> a.value() == b.value(),
{
    if a.magnitude() < b.magnitude() {
        lemma_scaled_increases(a, b);
    }
    if b.magnitude() < a.magnitude() {
        lemma_scaled_increases(b, a);
    }
    let zero = Scalar { bits: 0 };
    if a.magnitude() > 0 {
        lemma_scaled_increases(zero, a);
    }
    if b.magnitude() > 0 {
        lemma_scaled_increases(zero, b);
    }
    assert(zero.scaled() == 0);
}

} // verus!
