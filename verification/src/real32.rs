//! Single-precision numbers as bit patterns, with the operations that need no
//! floating-point unit: comparison, range tests and conversion to integers.

use vstd::arithmetic::power2;
use vstd::prelude::*;

verus! {

/// A single-precision number, held as its 32-bit pattern. Two values are `==` if
/// the patterns are the same.
#[derive(Clone, Copy, Debug, PartialEq, Eq, Structural)]
pub struct Real32 {
    pub bits: u32,
}

/// The pattern of `0.0`.
pub const ZERO_BITS: u32 = 0;

/// The pattern of `0.1`.
pub const TENTH_BITS: u32 = 0x3DCC_CCCD;

/// The pattern of `0.5`.
pub const HALF_BITS: u32 = 0x3F00_0000;

/// The pattern of `0.8`.
pub const FOUR_FIFTHS_BITS: u32 = 0x3F4C_CCCD;

/// The pattern of `1.0`.
pub const ONE_BITS: u32 = 0x3F80_0000;

/// The pattern of `5.0`.
pub const FIVE_BITS: u32 = 0x40A0_0000;

impl Real32 {
    /// The biased exponent.
    pub open spec fn exponent(self) -> int {
        (self.bits as int / 0x80_0000) % 0x100
    }

    /// The stored part of the significand.
    pub open spec fn fraction(self) -> int {
        self.bits as int % 0x80_0000
    }

    /// The sign bit.
    pub open spec fn sign(self) -> bool {
        self.bits >= 0x8000_0000
    }

    /// Not a number.
    pub open spec fn is_nan(self) -> bool {
        self.exponent() == 255 && self.fraction() != 0
    }

    /// The distance from zero in multiples of the smallest positive number,
    /// `2^-149`. Infinity counts as the next value above the largest number.
    pub open spec fn magnitude(self) -> int {
        if self.exponent() == 0 {
            self.fraction()
        } else {
            (0x80_0000 + self.fraction()) * power2::pow2((self.exponent() - 1) as nat)
        }
    }

    /// The value in multiples of `2^-149`.
    pub open spec fn units(self) -> int {
        if self.sign() {
            -self.magnitude()
        } else {
            self.magnitude()
        }
    }

    /// `self < other` as numbers; false where either is not a number.
    pub open spec fn less(self, other: Real32) -> bool {
        !self.is_nan() && !other.is_nan() && self.units() < other.units()
    }

    /// `lo <= self <= hi` as numbers; false where one of them is not a number.
    pub open spec fn within(self, lo: Real32, hi: Real32) -> bool {
        &&& !self.is_nan() && !lo.is_nan() && !hi.is_nan()
        &&& lo.units() <= self.units() <= hi.units()
    }

    /// The value with its fraction cut off, brought into the range of a 16-bit
    /// number; `0` where it is not a number.
    pub open spec fn as_u16(self) -> u16 {
        let whole = self.magnitude() / (power2::pow2(149) as int);
        if self.is_nan() || self.sign() {
            0
        } else if whole > 0xFFFF {
            0xFFFF
        } else {
            whole as u16
        }
    }

    /// The number with the other sign.
    pub open spec fn negated(self) -> Real32 {
        Real32 {
            bits: if self.bits < 0x8000_0000 {
                (self.bits + 0x8000_0000) as u32
            } else {
                (self.bits - 0x8000_0000) as u32
            },
        }
    }

    /// The number with this bit pattern.
    pub fn from_bits(bits: u32) -> (r: Real32)
        ensures
            r.bits == bits,
    {
        Real32 { bits }
    }

    /// The bit pattern.
    pub fn to_bits(self) -> (bits: u32)
        ensures
            bits == self.bits,
    {
        self.bits
    }

    /// Where the bits without the sign are larger, the number is farther from zero.
    proof fn lemma_magnitude_ordered(x: Real32, y: Real32)
        requires
            x.bits < y.bits < 0x8000_0000,
        ensures
            0 <= x.magnitude() < y.magnitude(),
    {
        let ex = x.exponent();
        let ey = y.exponent();
        assert(ex == x.bits as int / 0x80_0000);
        assert(ey == y.bits as int / 0x80_0000);
        assert(x.bits as int == ex * 0x80_0000 + x.fraction());
        assert(y.bits as int == ey * 0x80_0000 + y.fraction());
        if ex >= 1 {
            power2::lemma_pow2_pos((ex - 1) as nat);
            let p = power2::pow2((ex - 1) as nat) as int;
            let sx = 0x80_0000 + x.fraction();
            let sy = 0x80_0000 + y.fraction();
            assert(0 <= sx * p) by (nonlinear_arith)
                requires
                    0 <= sx,
                    0 < p,
            ;
            if ex == ey {
                assert(sx * p < sy * p) by (nonlinear_arith)
                    requires
                        sx < sy,
                        0 < p,
                ;
            } else {
                power2::lemma_pow2_unfold(ex as nat);
                let q = power2::pow2((ey - 1) as nat) as int;
                if ex < ey - 1 {
                    power2::lemma_pow2_strictly_increases(ex as nat, (ey - 1) as nat);
                }
                assert(q >= 2 * p);
                assert(sx * p < 0x100_0000 * p) by (nonlinear_arith)
                    requires
                        sx < 0x100_0000,
                        0 < p,
                ;
                assert(sy * q >= 0x80_0000 * q) by (nonlinear_arith)
                    requires
                        sy >= 0x80_0000,
                        0 < q,
                ;
            }
        } else if ey >= 1 {
            power2::lemma_pow2_pos((ey - 1) as nat);
            let q = power2::pow2((ey - 1) as nat) as int;
            let sy = 0x80_0000 + y.fraction();
            assert(sy * q >= sy) by (nonlinear_arith)
                requires
                    sy >= 0,
                    q >= 1,
            ;
        }
    }

    /// Flipping the sign bit leaves the distance from zero.
    proof fn lemma_magnitude_unsigned(x: Real32)
        requires
            x.bits >= 0x8000_0000,
        ensures
            x.magnitude() == (Real32 { bits: (x.bits - 0x8000_0000) as u32 }).magnitude(),
    {
        let y = Real32 { bits: (x.bits - 0x8000_0000) as u32 };
        assert(x.exponent() == y.exponent());
        assert(x.fraction() == y.fraction());
    }

    /// An integer that orders numbers as their values do.
    pub closed spec fn key_of(self) -> int {
        if self.sign() {
            0x8000_0000 - self.bits
        } else {
            self.bits as int
        }
    }

    proof fn lemma_key(x: Real32, y: Real32)
        ensures
            x.key_of() < y.key_of() <==> x.units() < y.units(),
    {
        let ax = Real32 { bits: if x.sign() { (x.bits - 0x8000_0000) as u32 } else { x.bits } };
        let ay = Real32 { bits: if y.sign() { (y.bits - 0x8000_0000) as u32 } else { y.bits } };
        let z = Real32 { bits: 0 };
        if x.sign() {
            Self::lemma_magnitude_unsigned(x);
        }
        if y.sign() {
            Self::lemma_magnitude_unsigned(y);
        }
        assert(ax.magnitude() == x.magnitude() && ay.magnitude() == y.magnitude());
        assert(z.magnitude() == 0);
        if ax.bits > 0 {
            Self::lemma_magnitude_ordered(z, ax);
        }
        if ay.bits > 0 {
            Self::lemma_magnitude_ordered(z, ay);
        }
        if ax.bits < ay.bits {
            Self::lemma_magnitude_ordered(ax, ay);
        }
        if ay.bits < ax.bits {
            Self::lemma_magnitude_ordered(ay, ax);
        }
    }

    /// Patterns between those of two positive numbers are numbers between them.
    pub proof fn lemma_within_by_bits(self, lo: Real32, hi: Real32)
        requires
            lo.bits <= self.bits <= hi.bits < 0x7F80_0000,
        ensures
            self.within(lo, hi),
    {
        Self::lemma_key(self, lo);
        Self::lemma_key(hi, self);
    }

    fn key(self) -> (k: i64)
        ensures
            k == self.key_of(),
    {
        if self.bits >= 0x8000_0000 {
            0x8000_0000i64 - self.bits as i64
        } else {
            self.bits as i64
        }
    }

    /// Whether the value is not a number.
    pub fn nan(self) -> (b: bool)
        ensures
            b == self.is_nan(),
    {
        (self.bits / 0x80_0000) % 0x100 == 255 && self.bits % 0x80_0000 != 0
    }

    /// `self < other`; false where either is not a number.
    pub fn lt(self, other: Real32) -> (b: bool)
        ensures
            b == self.less(other),
    {
        proof {
            Self::lemma_key(self, other);
        }
        !self.nan() && !other.nan() && self.key() < other.key()
    }

    /// `lo <= self <= hi`; false where one of them is not a number.
    pub fn in_range(self, lo: Real32, hi: Real32) -> (b: bool)
        ensures
            b == self.within(lo, hi),
    {
        proof {
            Self::lemma_key(self, lo);
            Self::lemma_key(hi, self);
        }
        !self.nan() && !lo.nan() && !hi.nan() && lo.key() <= self.key() && self.key() <= hi.key()
    }

    /// The number with the other sign.
    pub fn neg(self) -> (r: Real32)
        ensures
            r == self.negated(),
            r.units() == -self.units(),
            r.is_nan() == self.is_nan(),
    {
        let r = Real32 {
            bits: if self.bits < 0x8000_0000 {
                self.bits + 0x8000_0000
            } else {
                self.bits - 0x8000_0000
            },
        };
        proof {
            if self.bits >= 0x8000_0000 {
                Self::lemma_magnitude_unsigned(self);
                assert(r.exponent() == self.exponent() && r.fraction() == self.fraction());
            } else {
                Self::lemma_magnitude_unsigned(r);
                assert(r.exponent() == self.exponent() && r.fraction() == self.fraction());
            }
        }
        r
    }

    /// Cuts the fraction off and brings the value into the range of a 16-bit number.
    pub fn to_u16(self) -> (n: u16)
        ensures
            n == self.as_u16(),
    {
        if self.nan() || self.bits >= 0x8000_0000 {
            return 0;
        }
        let e: u32 = self.bits / 0x80_0000;
        let sig: u32 = 0x80_0000 + self.bits % 0x80_0000;
        let ghost one = power2::pow2(149) as int;
        proof {
            power2::lemma_pow2_pos(149);
        }
        if e < 127 {
            proof {
                Self::lemma_small(self);
            }
            return 0;
        }
        if e > 142 {
            proof {
                Self::lemma_large(self);
            }
            return 0xFFFF;
        }
        proof {
            Self::lemma_middle(self);
            vstd::bits::lemma_u32_shr_is_div(sig, (150 - e) as u32);
        }
        (sig >> (150 - e)) as u16
    }

    /// A number below one has no whole part.
    proof fn lemma_small(x: Real32)
        requires
            x.bits < 0x8000_0000,
            x.exponent() < 127,
        ensures
            x.magnitude() / (power2::pow2(149) as int) == 0,
    {
        let one_value = Real32 { bits: 0x3F80_0000 };
        assert(one_value.exponent() == 127 && one_value.fraction() == 0);
        assert(x.bits < 0x3F80_0000);
        Self::lemma_magnitude_ordered(x, one_value);
        power2::lemma_pow2_adds(23, 126);
        power2::lemma2_to64();
        assert(one_value.magnitude() == power2::pow2(149));
        assert(x.magnitude() / (power2::pow2(149) as int) == 0) by (nonlinear_arith)
            requires
                0 <= x.magnitude() < power2::pow2(149),
        ;
    }

    /// A number from `2^16` on has a whole part that does not fit.
    proof fn lemma_large(x: Real32)
        requires
            x.bits < 0x8000_0000,
            x.exponent() > 142,
        ensures
            x.magnitude() / (power2::pow2(149) as int) > 0xFFFF,
    {
        let low = Real32 { bits: 0x4780_0000 };
        assert(low.exponent() == 143 && low.fraction() == 0);
        assert(x.bits >= 0x4780_0000);
        if x.bits > low.bits {
            Self::lemma_magnitude_ordered(low, x);
        }
        power2::lemma_pow2_adds(23, 142);
        power2::lemma_pow2_adds(16, 149);
        power2::lemma2_to64();
        power2::lemma_pow2_pos(149);
        let one = power2::pow2(149) as int;
        assert(x.magnitude() >= 0x1_0000 * one);
        assert(x.magnitude() / one >= 0x1_0000) by (nonlinear_arith)
            requires
                x.magnitude() >= 0x1_0000 * one,
                one > 0,
        ;
    }

    /// In between, the whole part is the significand without its low bits.
    proof fn lemma_middle(x: Real32)
        requires
            x.bits < 0x8000_0000,
            127 <= x.exponent() <= 142,
        ensures
            x.magnitude() / (power2::pow2(149) as int) == (0x80_0000 + x.fraction()) / (power2::pow2(
                (150 - x.exponent()) as nat,
            ) as int),
            0 <= (0x80_0000 + x.fraction()) / (power2::pow2((150 - x.exponent()) as nat) as int)
                <= 0xFFFF,
    {
        let e = x.exponent();
        let sig = 0x80_0000 + x.fraction();
        let p = power2::pow2((e - 1) as nat) as int;
        let q = power2::pow2((150 - e) as nat) as int;
        power2::lemma_pow2_pos((e - 1) as nat);
        power2::lemma_pow2_pos((150 - e) as nat);
        power2::lemma_pow2_adds((e - 1) as nat, (150 - e) as nat);
        vstd::arithmetic::div_mod::lemma_div_multiples_vanish_quotient(p, sig, q);
        assert(p * sig == sig * p) by (nonlinear_arith);
        power2::lemma2_to64();
        if 150 - e > 8 {
            power2::lemma_pow2_strictly_increases(8, (150 - e) as nat);
        }
        assert(q >= 256);
        assert(0 <= sig / q <= 0xFFFF) by (nonlinear_arith)
            requires
                0 <= sig < 0x100_0000,
                q >= 256,
        ;
    }
}

/// Numbers are ordered by their value: of two numbers one is less, or their values are
/// the same, and nothing that is not a number is less than anything or more.
pub proof fn law_numbers_are_ordered(a: Real32, b: Real32, c: Real32)
    ensures
        !a.less(a),
        a.less(b) ==> !b.less(a),
        a.less(b) && b.less(c) ==> a.less(c),
        !a.is_nan() && !b.is_nan() ==> a.less(b) || b.less(a) || a.units() == b.units(),
        a.is_nan() || b.is_nan() ==> !a.less(b),
{
}

/// A number lies in a range exactly where it is neither less than its low end nor more
/// than its high end, ends included.
pub proof fn law_range_has_its_ends(v: Real32, lo: Real32, hi: Real32)
    requires
        !lo.is_nan(),
        !hi.is_nan(),
    ensures
        v.within(lo, hi) <==> !v.is_nan() && !v.less(lo) && !hi.less(v),
{
}

/// The whole part of a number that is not negative and below `2^16` is the largest
/// integer that is not above it.
pub proof fn law_whole_part(x: Real32)
    requires
        !x.is_nan(),
        !x.sign(),
        x.units() < 0x1_0000 * power2::pow2(149),
    ensures
        x.as_u16() * power2::pow2(149) <= x.units() < (x.as_u16() + 1) * power2::pow2(149),
{
    power2::lemma_pow2_pos(149);
    let one = power2::pow2(149) as int;
    let m = x.magnitude();
    let w = m / one;
    vstd::arithmetic::div_mod::lemma_fundamental_div_mod(m, one);
    vstd::arithmetic::div_mod::lemma_mod_bound(m, one);
    assert(0 <= w <= 0xFFFF) by (nonlinear_arith)
        requires
            0 <= m < 0x1_0000 * one,
            one > 0,
            w == m / one,
    ;
    assert(one * w == w * one) by (nonlinear_arith);
    assert((w + 1) * one == w * one + one) by (nonlinear_arith);
}

/// Negative numbers and what is not a number become zero, and what is too large the
/// largest number of 16 bits.
pub proof fn law_conversion_saturates(x: Real32)
    ensures
        x.is_nan() || x.units() < 0 ==> x.as_u16() == 0,
        !x.is_nan() && x.units() >= 0x1_0000 * power2::pow2(149) ==> x.as_u16() == 0xFFFF,
{
    power2::lemma_pow2_pos(149);
    let one = power2::pow2(149) as int;
    let m = x.magnitude();
    if x.exponent() > 0 {
        power2::lemma_pow2_pos((x.exponent() - 1) as nat);
        let p = power2::pow2((x.exponent() - 1) as nat) as int;
        let s = 0x80_0000 + x.fraction();
        assert(s * p >= 0) by (nonlinear_arith)
            requires
                s >= 0,
                p >= 0,
        ;
    }
    if !x.is_nan() && x.units() >= 0x1_0000 * one {
        assert(0x1_0000 * one >= 0);
        assert(m / one >= 0x1_0000) by (nonlinear_arith)
            requires
                m >= 0x1_0000 * one,
                one > 0,
        ;
    }
}

/// Changing the sign twice gives the number back, and changing it once its negative.
pub proof fn law_negation(x: Real32)
    ensures
        x.negated().negated() == x,
        x.negated().units() == -x.units(),
        x.negated().sign() != x.sign(),
{
    let r = x.negated();
    assert(r.exponent() == x.exponent() && r.fraction() == x.fraction());
}

} // verus!
