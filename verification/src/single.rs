//! Single-precision numbers, carried by their bit pattern.
//!
//! Probabilities and embeddings are 32-bit floating-point numbers. Nothing in
//! this library adds or multiplies them; it stores them, compares them with
//! one half and rounds them to hundredths. All three are integer questions
//! about the IEEE 754 bit pattern, and that is how they are answered here.

use vstd::arithmetic::div_mod::lemma_basic_div;
use vstd::arithmetic::div_mod::lemma_div_multiples_vanish_quotient;
use vstd::arithmetic::div_mod::lemma_fundamental_div_mod;
use vstd::arithmetic::mul::lemma_mul_inequality;
use vstd::arithmetic::mul::lemma_mul_left_inequality;
use vstd::arithmetic::mul::lemma_mul_strict_inequality;
use vstd::arithmetic::power2::lemma2_to64;
use vstd::arithmetic::power2::lemma2_to64_rest;
use vstd::arithmetic::power2::lemma_pow2_adds;
use vstd::arithmetic::power2::lemma_pow2_pos;
use vstd::arithmetic::power2::lemma_pow2_strictly_increases;
use vstd::arithmetic::power2::lemma_pow2_unfold;
use vstd::arithmetic::power2::pow2;
use vstd::prelude::*;

verus! {

/// The bit pattern of one half.
pub const HALF_BITS: u32 = 0x3f00_0000;

/// The bit pattern of one.
pub const ONE_BITS: u32 = 0x3f80_0000;

/// The bit pattern of positive infinity.
pub const INFINITY_BITS: u32 = 0x7f80_0000;

/// A single-precision number: one sign bit, eight exponent bits and
/// twenty-three fraction bits, from the most significant bit down.
#[derive(Clone, Copy, Debug, PartialEq, Eq, Structural)]
pub struct Single {
    pub bits: u32,
}

impl Single {
    /// The sign bit is set.
    pub open spec fn negative(self) -> bool {
        self.bits >= 0x8000_0000
    }

    /// The exponent field.
    pub open spec fn exponent(self) -> int {
        (self.bits as int / 0x80_0000) % 256
    }

    /// The fraction field.
    pub open spec fn fraction(self) -> int {
        self.bits as int % 0x80_0000
    }

    /// Neither an infinity nor a NaN.
    pub open spec fn finite(self) -> bool {
        self.exponent() != 255
    }

    pub open spec fn is_nan(self) -> bool {
        self.exponent() == 255 && self.fraction() != 0
    }

    /// The fraction with the leading bit that normal numbers leave out.
    pub open spec fn significand(self) -> int {
        if self.exponent() == 0 {
            self.fraction()
        } else {
            self.fraction() + 0x80_0000
        }
    }

    /// How many times the significand is doubled, counted from the smallest
    /// positive number, 2^-149.
    pub open spec fn doublings(self) -> nat {
        if self.exponent() == 0 {
            0
        } else {
            (self.exponent() - 1) as nat
        }
    }

    /// The value of a finite number as a multiple of 2^-149: every finite
    /// number is an integer on this scale, and one is 2^149.
    pub open spec fn units(self) -> int {
        let magnitude = self.significand() * pow2(self.doublings());
        if self.negative() {
            -magnitude
        } else {
            magnitude
        }
    }

    /// The number is one half or more. A NaN is not.
    pub open spec fn reaches_half(self) -> bool {
        if self.finite() {
            self.units() >= pow2(148)
        } else {
            !self.is_nan() && !self.negative()
        }
    }

    /// A number from zero to one whose sign bit is clear.
    pub open spec fn is_probability(self) -> bool {
        self.finite() && !self.negative() && self.units() <= pow2(149)
    }

    /// A hundred times the value, rounded to the nearest integer, with halves
    /// going up.
    pub open spec fn nearest_hundredth(self) -> int {
        (200 * self.units() + pow2(149)) / (pow2(150) as int)
    }

    /// The number zero.
    pub fn zero() -> (r: Single)
        ensures
            r == (Single { bits: 0 }),
            r.units() == 0,
            r.is_probability(),
    {
        let r = Single { bits: 0 };
        proof {
            lemma_pow2_pos(149);
            assert(r.significand() == 0);
        }
        r
    }

    /// Tests whether the number is one half or more; a NaN is not.
    pub fn at_least_half(self) -> (r: bool)
        ensures
            r == self.reaches_half(),
    {
        proof {
            lemma_half(self);
        }
        HALF_BITS <= self.bits && self.bits <= INFINITY_BITS
    }

    /// A probability in hundredths, halves rounded up; `None` for anything
    /// that is not a probability.
    pub fn hundredths(self) -> (r: Option<u64>)
        ensures
            r is Some <==> self.is_probability(),
            r matches Some(k) ==> k == self.nearest_hundredth() && k <= 100,
    {
        proof {
            lemma_one(self);
        }
        if self.bits > ONE_BITS {
            return None;
        }
        let exponent: u32 = self.bits / 0x80_0000;
        let fraction: u32 = self.bits % 0x80_0000;
        let significand: u64 = if exponent == 0 {
            fraction as u64
        } else {
            fraction as u64 + 0x80_0000
        };
        let doublings: u32 = if exponent == 0 {
            0
        } else {
            exponent - 1
        };
        // The value is significand / 2^places.
        let places: u32 = 149 - doublings;
        proof {
            lemma_hundredths(self, places as nat);
        }
        if places > 40 {
            return Some(0);
        }
        let mut scale: u64 = 1;
        let mut i: u32 = 0;
        proof {
            lemma2_to64();
            lemma2_to64_rest();
        }
        while i < places
            invariant
                i <= places <= 40,
                scale == pow2(i as nat),
            decreases places - i,
        {
            proof {
                lemma2_to64_rest();
                lemma_pow2_unfold((i + 1) as nat);
                if i < 39 {
                    lemma_pow2_strictly_increases((i + 1) as nat, 40);
                }
            }
            scale = scale * 2;
            i = i + 1;
        }
        proof {
            lemma2_to64();
            lemma2_to64_rest();
            if places < 40 {
                lemma_pow2_strictly_increases(places as nat, 40);
            }
        }
        Some((significand * 200 + scale) / (scale * 2))
    }
}

/// The bit patterns of the numbers that reach one half.
proof fn lemma_half(s: Single)
    ensures
        s.reaches_half() <==> HALF_BITS <= s.bits <= INFINITY_BITS,
{
    let magnitude = s.significand() * pow2(s.doublings());
    lemma_pow2_pos(148);
    lemma_pow2_pos(s.doublings());
    lemma2_to64();
    if !s.finite() {
    } else if s.negative() {
        lemma_mul_inequality(0, s.significand(), pow2(s.doublings()) as int);
    } else if s.exponent() < 126 {
        lemma_pow2_adds(24, 124);
        if s.doublings() < 124 {
            lemma_pow2_strictly_increases(s.doublings(), 124);
        }
        lemma_mul_strict_inequality(s.significand(), pow2(24) as int, pow2(s.doublings()) as int);
        lemma_mul_left_inequality(pow2(24) as int, pow2(s.doublings()) as int, pow2(124) as int);
        assert(magnitude < pow2(148));
    } else {
        lemma_pow2_adds(23, 125);
        if s.doublings() > 125 {
            lemma_pow2_strictly_increases(125, s.doublings());
        }
        lemma_mul_inequality(pow2(23) as int, s.significand(), pow2(s.doublings()) as int);
        lemma_mul_left_inequality(pow2(23) as int, pow2(125) as int, pow2(s.doublings()) as int);
        assert(magnitude >= pow2(148));
    }
}

/// The bit patterns of the numbers from zero to one.
proof fn lemma_one(s: Single)
    ensures
        s.is_probability() <==> s.bits <= ONE_BITS,
{
    let magnitude = s.significand() * pow2(s.doublings());
    lemma_pow2_pos(s.doublings());
    lemma2_to64();
    if s.finite() && !s.negative() {
        lemma_pow2_adds(23, 126);
        if s.exponent() < 127 {
            lemma_pow2_adds(24, 125);
            if s.doublings() < 125 {
                lemma_pow2_strictly_increases(s.doublings(), 125);
            }
            lemma_mul_strict_inequality(s.significand(), pow2(24) as int, pow2(s.doublings()) as int);
            lemma_mul_left_inequality(pow2(24) as int, pow2(s.doublings()) as int, pow2(125) as int);
        } else if s.exponent() == 127 {
            lemma_pow2_pos(126);
            if s.fraction() > 0 {
                lemma_mul_strict_inequality(pow2(23) as int, s.significand(), pow2(126) as int);
            }
        } else {
            lemma_pow2_strictly_increases(126, s.doublings());
            lemma_mul_inequality(pow2(23) as int, s.significand(), pow2(s.doublings()) as int);
            lemma_mul_left_inequality(pow2(23) as int, pow2(126) as int, pow2(s.doublings()) as int);
            lemma_mul_strict_inequality(pow2(126) as int, pow2(s.doublings()) as int, pow2(23) as int);
        }
    }
}

/// The rounding to hundredths, with the common power of two taken out.
proof fn lemma_hundredths(s: Single, places: nat)
    requires
        s.bits <= ONE_BITS,
        places == 149 - s.doublings(),
    ensures
        s.exponent() == s.bits as int / 0x80_0000,
        places >= 23,
        0 <= s.significand() < 0x100_0000,
        s.nearest_hundredth() == (200 * s.significand() + pow2(places)) / (2 * pow2(places) as int),
        places > 40 ==> s.nearest_hundredth() == 0,
        0 <= s.nearest_hundredth() <= 100,
{
    let d = s.doublings();
    lemma_pow2_pos(d);
    lemma_pow2_pos(places);
    lemma_pow2_adds(places, d);
    lemma_pow2_unfold(150);
    let a = 200 * s.significand() + pow2(places);
    let b = 2 * pow2(places) as int;
    let x = pow2(d) as int;
    assert(x * a == 200 * s.units() + pow2(149)) by (nonlinear_arith)
        requires
            a == 200 * s.significand() + pow2(places),
            x == pow2(d),
            pow2(places) * pow2(d) == pow2(149),
            s.units() == s.significand() * pow2(d),
    ;
    assert(x * b == pow2(150)) by (nonlinear_arith)
        requires
            b == 2 * pow2(places),
            x == pow2(d),
            pow2(places) * pow2(d) == pow2(149),
            pow2(150) == 2 * pow2(149),
    ;
    lemma_div_multiples_vanish_quotient(x, a, b);
    lemma2_to64();
    lemma2_to64_rest();
    if places > 40 {
        lemma_pow2_strictly_increases(40, places);
        assert(a < b);
        lemma_basic_div(a, b);
    }
    lemma_one(s);
    assert(0 <= a / b <= 100) by (nonlinear_arith)
        requires
            b > 0,
            x > 0,
            a >= 0,
            x * a <= 100 * (x * b) + x * b / 2,
            x * b % 2 == 0,
            b % 2 == 0,
    {
        assert(a <= 100 * b + b / 2) by (nonlinear_arith)
            requires
                x > 0,
                x * a <= 100 * (x * b) + x * b / 2,
                b % 2 == 0,
        ;
        assert(a / b <= 100) by (nonlinear_arith)
            requires
                b > 0,
                a <= 100 * b + b / 2,
        ;
    }
}

/// What is shown in hundredths is off by half a hundredth at most.
pub proof fn law_hundredths_are_nearest(s: Single)
    requires
        s.is_probability(),
    ensures
        -pow2(149) <= 2 * (100 * s.units() - s.nearest_hundredth() * pow2(149)) <= pow2(149),
{
    lemma_pow2_unfold(150);
    lemma_pow2_pos(149);
    let a = 200 * s.units() + pow2(149);
    let b = pow2(150) as int;
    let k = s.nearest_hundredth();
    lemma_fundamental_div_mod(a, b);
    assert(b * k == 2 * (k * pow2(149))) by (nonlinear_arith)
        requires
            b == 2 * pow2(149),
    ;
}

/// The verdict can be read off the hundredths, but for fifty: more is trivial,
/// less is not.
pub proof fn law_hundredths_agree_with_the_verdict(s: Single)
    requires
        s.is_probability(),
    ensures
        s.nearest_hundredth() > 50 ==> s.reaches_half(),
        s.nearest_hundredth() < 50 ==> !s.reaches_half(),
{
    law_hundredths_are_nearest(s);
    lemma_pow2_unfold(149);
    lemma_pow2_pos(148);
    let one = pow2(149) as int;
    let k = s.nearest_hundredth();
    assert(k > 50 ==> k * one >= 51 * one) by (nonlinear_arith)
        requires
            one > 0,
    ;
    assert(k < 50 ==> k * one <= 49 * one) by (nonlinear_arith)
        requires
            one > 0,
    ;
}

/// The numbers from one half up are those with these bit patterns: in the order
/// of the patterns, from that of one half to that of infinity.
pub proof fn law_half_by_its_bits(s: Single)
    ensures
        s.reaches_half() <==> 0x3f00_0000 <= s.bits <= 0x7f80_0000,
{
    lemma_half(s);
}

/// The numbers from zero to one are those with these bit patterns: in the order
/// of the patterns, from that of zero to that of one.
pub proof fn law_probability_by_its_bits(s: Single)
    ensures
        s.is_probability() <==> s.bits <= 0x3f80_0000,
{
    lemma_one(s);
}

/// The hundredths of a probability, from its bits: with the eight bits of the
/// exponent `e` and the twenty-three of the fraction `f`, the value is
/// `f * 2^-149` for `e == 0` and `(f + 2^23) * 2^(e - 150)` otherwise. A hundred
/// times that is less than one half above the hundredths shown, and at most one
/// half below them.
pub proof fn law_hundredths_by_the_bits(s: Single, k: int)
    requires
        s.bits <= 0x3f80_0000,
    ensures
        k == s.nearest_hundredth() <==> ({
            let e = s.bits as int / 0x80_0000;
            let f = s.bits as int % 0x80_0000;
            let units = if e == 0 {
                f
            } else {
                (f + 0x80_0000) * pow2((e - 1) as nat)
            };
            -pow2(149) <= 200 * units - 2 * k * pow2(149) < pow2(149)
        }),
{
    lemma_one(s);
    let e = s.bits as int / 0x80_0000;
    let one = pow2(149) as int;
    lemma_pow2_unfold(150);
    lemma_pow2_pos(149);
    lemma2_to64();
    assert(s.exponent() == e);
    let units = if e == 0 {
        s.fraction()
    } else {
        (s.fraction() + 0x80_0000) * pow2((e - 1) as nat)
    };
    let f = s.fraction();
    assert(f * pow2(0) == f) by (nonlinear_arith)
        requires
            pow2(0) == 1,
    ;
    assert(units == s.units());
    let a = 200 * units + one;
    let n = s.nearest_hundredth();
    lemma_fundamental_div_mod(a, pow2(150) as int);
    assert(pow2(150) * n == 2 * n * one) by (nonlinear_arith)
        requires
            pow2(150) == 2 * one,
    ;
    assert(-one <= 200 * units - 2 * n * one < one);
    if -one <= 200 * units - 2 * k * one < one && k != n {
        assert(2 * k * one - 2 * n * one == 2 * ((k - n) * one)) by (nonlinear_arith);
        assert((k - n) * one >= one || (k - n) * one <= -one) by (nonlinear_arith)
            requires
                k != n,
                one > 0,
        ;
    }
}

/// The hundredths of a probability run from zero to a hundred.
pub proof fn law_hundredths_in_range(s: Single)
    requires
        s.is_probability(),
    ensures
        0 <= s.nearest_hundredth() <= 100,
{
    lemma_one(s);
    lemma_hundredths(s, (149 - s.doublings()) as nat);
}

} // verus!
