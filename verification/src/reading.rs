//! Measured values. A value is a single-precision IEEE 754 number that the
//! library stores and orders by its bit pattern and never computes with.

use vstd::prelude::*;

verus! {

#[derive(Debug, Clone, Copy, PartialEq, Eq, Structural)]
pub struct Reading {
    pub bits: u32,
}

impl Reading {
    /// The bit pattern without the sign bit.
    pub open spec fn magnitude(self) -> int {
        if self.bits < 0x8000_0000 {
            self.bits as int
        } else {
            self.bits - 0x8000_0000
        }
    }

    /// The pattern stands for "not a number".
    pub open spec fn is_nan(self) -> bool {
        self.magnitude() > 0x7f80_0000
    }

    /// Orders all patterns that stand for numbers as the numbers are ordered.
    /// Both zeros have the same rank.
    pub open spec fn rank(self) -> int {
        if self.bits < 0x8000_0000 {
            self.magnitude()
        } else {
            -self.magnitude()
        }
    }

    pub fn rank_key(&self) -> (r: i64)
        ensures
            r == self.rank(),
    {
        if self.bits < 0x8000_0000 {
            self.bits as i64
        } else {
            0x8000_0000 - self.bits as i64
        }
    }

    /// The number is at least the other one. False where either is not a number.
    pub open spec fn reaches(self, other: Reading) -> bool {
        !self.is_nan() && !other.is_nan() && self.rank() >= other.rank()
    }

    /// The comparison `>=`.
    pub fn at_least(&self, other: &Reading) -> (r: bool)
        ensures
            r == self.reaches(*other),
    {
        let a: i64 = self.rank_key();
        let b: i64 = other.rank_key();
        let nan_a = a > 0x7f80_0000 || a < -0x7f80_0000;
        let nan_b = b > 0x7f80_0000 || b < -0x7f80_0000;
        !nan_a && !nan_b && a >= b
    }

    /// The exponent with its bias.
    pub open spec fn exponent(self) -> int {
        self.magnitude() / 0x80_0000
    }

    /// The digits of a normal number, as an integer with 24 bits.
    pub open spec fn significand(self) -> int {
        0x80_0000 + self.magnitude() % 0x80_0000
    }

    /// The number without its sign and its fraction. An exponent of 150 means
    /// that the significand is the number.
    pub open spec fn whole_magnitude(self) -> int {
        if self.exponent() < 127 {
            0
        } else if self.exponent() <= 150 {
            self.significand() / vstd::arithmetic::power2::pow2(
                (150 - self.exponent()) as nat,
            ) as int
        } else {
            self.significand() * vstd::arithmetic::power2::pow2((self.exponent() - 150) as nat)
        }
    }

    /// The number rounded toward zero, held within the range of the type. What
    /// is not a number becomes zero.
    pub open spec fn whole_value(self) -> int {
        if self.is_nan() {
            0
        } else if self.exponent() >= 158 {
            if self.bits < 0x8000_0000 {
                i32::MAX as int
            } else {
                i32::MIN as int
            }
        } else if self.bits < 0x8000_0000 {
            self.whole_magnitude()
        } else {
            -self.whole_magnitude()
        }
    }

    pub fn whole(&self) -> (n: i32)
        ensures
            n == self.whole_value(),
    {
        let negative = self.bits >= 0x8000_0000;
        let magnitude: u32 = if negative {
            self.bits - 0x8000_0000
        } else {
            self.bits
        };
        if magnitude > 0x7f80_0000 {
            return 0;
        }
        let exponent: u32 = magnitude / 0x80_0000;
        if exponent >= 158 {
            return if negative {
                i32::MIN
            } else {
                i32::MAX
            };
        }
        if exponent < 127 {
            return 0;
        }
        let significand: u32 = 0x80_0000 + magnitude % 0x80_0000;
        let n: u32 = if exponent <= 150 {
            quotient(significand, 150 - exponent)
        } else {
            product(significand, exponent - 150)
        };
        if negative {
            -(n as i32)
        } else {
            n as i32
        }
    }
}

/// Division by a power of two.
fn quotient(n: u32, bits: u32) -> (q: u32)
    ensures
        q == n as int / vstd::arithmetic::power2::pow2(bits as nat) as int,
        q <= n,
{
    let mut q: u32 = n;
    let mut i: u32 = 0;
    proof {
        vstd::arithmetic::power2::lemma2_to64();
    }
    while i < bits
        invariant
            i <= bits,
            q == n as int / vstd::arithmetic::power2::pow2(i as nat) as int,
            q <= n,
        decreases bits - i,
    {
        proof {
            vstd::arithmetic::power2::lemma_pow2_pos(i as nat);
            vstd::arithmetic::power2::lemma_pow2_unfold((i + 1) as nat);
            vstd::arithmetic::div_mod::lemma_div_denominator(
                n as int,
                vstd::arithmetic::power2::pow2(i as nat) as int,
                2,
            );
            assert(vstd::arithmetic::power2::pow2((i + 1) as nat)
                == vstd::arithmetic::power2::pow2(i as nat) * 2);
        }
        q = q / 2;
        i += 1;
    }
    q
}

/// Multiplication by a power of two, of a number with 24 bits.
fn product(n: u32, bits: u32) -> (p: u32)
    requires
        n < 0x100_0000,
        bits <= 7,
    ensures
        p == n * vstd::arithmetic::power2::pow2(bits as nat),
        p < 0x8000_0000,
{
    let mut p: u32 = n;
    let mut i: u32 = 0;
    proof {
        vstd::arithmetic::power2::lemma2_to64();
    }
    while i < bits
        invariant
            i <= bits <= 7,
            n < 0x100_0000,
            p == n * vstd::arithmetic::power2::pow2(i as nat),
        decreases bits - i,
    {
        proof {
            vstd::arithmetic::power2::lemma2_to64();
            vstd::arithmetic::power2::lemma_pow2_unfold((i + 1) as nat);
            let k = vstd::arithmetic::power2::pow2(i as nat) as int;
            assert(k <= 64) by {
                vstd::arithmetic::power2::lemma_pow2_strictly_increases(i as nat, 7);
                assert(i == 0 || i == 1 || i == 2 || i == 3 || i == 4 || i == 5 || i == 6);
            }
            assert(n * k <= 0xff_ffff * 64) by (nonlinear_arith)
                requires
                    0 <= n < 0x100_0000,
                    0 <= k <= 64,
            ;
            assert(n * (2 * k) == (n * k) * 2) by (nonlinear_arith);
        }
        p = p * 2;
        i += 1;
    }
    proof {
        vstd::arithmetic::power2::lemma2_to64();
        let k = vstd::arithmetic::power2::pow2(bits as nat) as int;
        assert(k <= 128) by {
            assert(bits == 0 || bits == 1 || bits == 2 || bits == 3 || bits == 4 || bits == 5
                || bits == 6 || bits == 7);
        }
        assert(n * k <= 0xff_ffff * 128) by (nonlinear_arith)
            requires
                0 <= n < 0x100_0000,
                0 <= k <= 128,
        ;
    }
    p
}

/// The order of readings by their bit patterns. What is not a number reaches
/// nothing and is reached by nothing; numbers are in a total order; of two
/// positive ones the larger pattern is the larger number, of two negative ones
/// the smaller; and every positive number is above every negative one, but for
/// the two zeros, which are equal.
pub proof fn readings_are_ordered_as_numbers(a: Reading, b: Reading, c: Reading)
    ensures
        a.bits % 0x8000_0000 > 0x7f80_0000 ==> !a.reaches(b) && !b.reaches(a),
        a.bits % 0x8000_0000 <= 0x7f80_0000 ==> a.reaches(a),
        a.bits % 0x8000_0000 <= 0x7f80_0000 && b.bits % 0x8000_0000 <= 0x7f80_0000 ==> a.reaches(b)
            || b.reaches(a),
        a.reaches(b) && b.reaches(c) ==> a.reaches(c),
        a.bits <= 0x7f80_0000 && b.bits <= 0x7f80_0000 ==> a.reaches(b) == (a.bits >= b.bits),
        0x8000_0000 <= a.bits <= 0xff80_0000 && 0x8000_0000 <= b.bits <= 0xff80_0000 ==> a.reaches(b)
            == (a.bits <= b.bits),
        a.bits <= 0x7f80_0000 && 0x8000_0000 <= b.bits <= 0xff80_0000 ==> a.reaches(b),
        a.bits <= 0x7f80_0000 && 0x8000_0000 <= b.bits <= 0xff80_0000 ==> b.reaches(a) == (a.bits == 0
            && b.bits == 0x8000_0000),
{
}

/// The whole part of a normal number with this exponent and these digits, which
/// is the significand times two to the exponent less 150: the largest integer
/// that is not above it. Numbers below one have none, and the sign is kept.
pub proof fn whole_part_is_not_above(exponent: u32, digits: u32)
    requires
        1 <= exponent < 158,
        digits < 0x80_0000,
    ensures
        ({
            let r = Reading { bits: (exponent * 0x80_0000 + digits) as u32 };
            let negative = Reading { bits: (0x8000_0000 + exponent * 0x80_0000 + digits) as u32 };
            let n = r.whole_value();
            &&& exponent < 127 ==> n == 0
            &&& 127 <= exponent <= 150 ==> n * vstd::arithmetic::power2::pow2(
                (150 - exponent) as nat,
            ) <= 0x80_0000 + digits < (n + 1) * vstd::arithmetic::power2::pow2(
                (150 - exponent) as nat,
            )
            &&& exponent > 150 ==> n == (0x80_0000 + digits) * vstd::arithmetic::power2::pow2(
                (exponent - 150) as nat,
            )
            &&& negative.whole_value() == -n
        }),
{
    let r = Reading { bits: (exponent * 0x80_0000 + digits) as u32 };
    assert(r.exponent() == exponent && r.significand() == 0x80_0000 + digits);
    let negative = Reading { bits: (0x8000_0000 + exponent * 0x80_0000 + digits) as u32 };
    assert(negative.magnitude() == r.magnitude());
    if 127 <= exponent <= 150 {
        let d = vstd::arithmetic::power2::pow2((150 - exponent) as nat) as int;
        vstd::arithmetic::power2::lemma_pow2_pos((150 - exponent) as nat);
        let sig = 0x80_0000 + digits;
        let n = sig / d;
        vstd::arithmetic::div_mod::lemma_fundamental_div_mod(sig, d);
        vstd::arithmetic::div_mod::lemma_mod_bound(sig, d);
        assert(n * d <= sig < (n + 1) * d) by (nonlinear_arith)
            requires
                sig == d * n + sig % d,
                0 <= sig % d < d,
        ;
    }
}

/// Numbers beyond the range, infinities among them, stop at its ends; what is
/// not a number counts as zero.
pub proof fn whole_part_stays_in_range(r: Reading)
    ensures
        i32::MIN <= r.whole_value() <= i32::MAX,
        158 * 0x80_0000 <= r.bits <= 0x7f80_0000 ==> r.whole_value() == 0x7fff_ffff,
        0x8000_0000 + 158 * 0x80_0000 <= r.bits <= 0xff80_0000 ==> r.whole_value()
            == -0x8000_0000,
        r.bits % 0x8000_0000 > 0x7f80_0000 ==> r.whole_value() == 0,
{
    let e = r.exponent();
    if !r.is_nan() && e < 158 {
        let sig = r.significand();
        assert(0 <= sig < 0x100_0000);
        if e < 127 {
        } else if e <= 150 {
            let d = vstd::arithmetic::power2::pow2((150 - e) as nat) as int;
            vstd::arithmetic::power2::lemma_pow2_pos((150 - e) as nat);
            assert(0 <= sig / d <= sig) by (nonlinear_arith)
                requires
                    d >= 1,
                    sig >= 0,
            ;
        } else {
            vstd::arithmetic::power2::lemma2_to64();
            let k = vstd::arithmetic::power2::pow2((e - 150) as nat) as int;
            assert(e == 151 || e == 152 || e == 153 || e == 154 || e == 155 || e == 156 || e == 157);
            assert(0 <= k <= 128);
            assert(0 <= sig * k <= 0xff_ffff * 128) by (nonlinear_arith)
                requires
                    0 <= sig < 0x100_0000,
                    0 <= k <= 128,
            ;
        }
    }
}

} // verus!
