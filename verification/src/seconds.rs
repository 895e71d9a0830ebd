//! Playback positions. A position is a floating-point number of seconds that comes
//! from mpv and goes to the database unchanged; the library only carries it and
//! compares it with small whole numbers, so it holds the number's bit pattern.

use vstd::arithmetic::power2;
use vstd::prelude::*;

verus! {

/// A number of seconds, as the bit pattern of an IEEE 754 double.
#[derive(Debug, Clone, Copy, PartialEq, Eq, Structural)]
pub struct Seconds {
    pub bits: u64,
}

/// The pattern of the sign bit alone (negative zero).
pub const SIGN: u64 = 0x8000_0000_0000_0000;

/// The pattern of positive infinity, the largest that is not a NaN.
pub const INFINITE: u64 = 0x7ff0_0000_0000_0000;

/// The pattern of 1.
pub const ONE: u64 = 0x3ff0_0000_0000_0000;

/// The pattern of 2.
pub const TWO: u64 = 0x4000_0000_0000_0000;

/// The weight of the lowest exponent bit: fractions take the bits below it.
pub const FRACTIONS: u64 = 0x10_0000_0000_0000;

impl Seconds {
    /// The power of two by which the digits of a number without a sign are scaled.
    pub open spec fn exponent(self) -> int {
        self.bits / FRACTIONS - 1023
    }

    /// The digits of a number that is not smaller than one.
    pub open spec fn digits(self) -> nat {
        (FRACTIONS + self.bits % FRACTIONS) as nat
    }

    /// The number cut to whole seconds: 0 for negative numbers, numbers below one and
    /// NaN, and the largest integer for numbers beyond it.
    pub open spec fn whole(self) -> u64 {
        if self.bits > INFINITE || self.bits < ONE {
            0
        } else if self.exponent() >= 64 {
            u64::MAX
        } else if self.exponent() >= 52 {
            (self.digits() * power2::pow2((self.exponent() - 52) as nat)) as u64
        } else {
            (self.digits() / power2::pow2((52 - self.exponent()) as nat)) as u64
        }
    }

    /// The number cut to a whole number of either sign: 0 for NaN, and the nearest
    /// integer that there is for numbers beyond the range.
    pub open spec fn whole_signed(self) -> i64 {
        let magnitude = (Seconds { bits: self.bits % SIGN }).whole();
        if !self.is_number() {
            0
        } else if self.bits < SIGN {
            if magnitude > i64::MAX {
                i64::MAX
            } else {
                magnitude as i64
            }
        } else if magnitude > i64::MAX {
            i64::MIN
        } else {
            (-(magnitude as int)) as i64
        }
    }

    /// The number is not a NaN.
    pub open spec fn is_number(self) -> bool {
        self.bits <= INFINITE || (SIGN <= self.bits <= SIGN + INFINITE)
    }

    /// The number is larger than the positive number with the pattern `c`: among
    /// numbers without a sign the patterns are ordered as the numbers are.
    pub open spec fn above(self, c: u64) -> bool {
        c < self.bits <= INFINITE
    }

    /// The number is smaller than the positive number with the pattern `c`.
    pub open spec fn below(self, c: u64) -> bool {
        self.is_number() && (self.bits < c || SIGN <= self.bits)
    }

    /// No time at all.
    pub fn zero() -> (r: Self)
        ensures
            r.bits == 0,
    {
        Seconds { bits: 0 }
    }

    /// The number cut to whole seconds.
    pub fn whole_seconds(self) -> (r: u64)
        ensures
            r == self.whole(),
    {
        if self.bits > INFINITE || self.bits < ONE {
            return 0;
        }
        let exponent: u64 = self.bits / FRACTIONS - 1023;
        let digits: u64 = FRACTIONS + self.bits % FRACTIONS;
        if exponent >= 64 {
            return u64::MAX;
        }
        let mut n: u64 = digits;
        let mut e: u64 = 52;
        proof {
            power2::lemma2_to64();
            assert(power2::pow2((e - 52) as nat) == 1);
            assert(digits * power2::pow2((e - 52) as nat) == digits) by (nonlinear_arith)
                requires
                    power2::pow2((e - 52) as nat) == 1,
            ;
        }
        while e < exponent
            invariant
                52 <= e,
                exponent < 64,
                digits < 2 * FRACTIONS,
                exponent >= 52 ==> e <= exponent,
                e == 52 || e <= exponent,
                n == digits * power2::pow2((e - 52) as nat),
                n < FRACTIONS * 2 * power2::pow2((e - 52) as nat),
                power2::pow2((e - 52) as nat) <= 0x800,
            decreases exponent - e,
        {
            proof {
                power2::lemma_pow2_unfold((e + 1 - 52) as nat);
                lemma_double(digits as int, power2::pow2((e - 52) as nat) as int);
                lemma_pow2_bound((e + 1 - 52) as nat);
                lemma_scaled_bound(digits as int, power2::pow2((e + 1 - 52) as nat) as int);
            }
            n = n * 2;
            e = e + 1;
        }
        let mut down: u64 = 52;
        while down > exponent
            invariant
                down <= 52,
                exponent <= 52 ==> exponent <= down,
                exponent > 52 ==> down == 52,
                exponent <= 52 ==> n == digits as nat / power2::pow2((52 - down) as nat),
                exponent > 52 ==> n == digits * power2::pow2((exponent - 52) as nat),
            decreases down,
        {
            proof {
                power2::lemma_pow2_pos((52 - down) as nat);
                power2::lemma_pow2_unfold((52 - down + 1) as nat);
                vstd::arithmetic::div_mod::lemma_div_denominator(
                    digits as int,
                    power2::pow2((52 - down) as nat) as int,
                    2,
                );
                vstd::arithmetic::mul::lemma_mul_is_commutative(
                    power2::pow2((52 - down) as nat) as int,
                    2,
                );
            }
            n = n / 2;
            down = down - 1;
        }
        n
    }

    /// The number cut to a whole number of either sign.
    pub fn signed_seconds(self) -> (r: i64)
        ensures
            r == self.whole_signed(),
    {
        let number = self.bits <= INFINITE || (SIGN <= self.bits && self.bits <= SIGN + INFINITE);
        if !number {
            return 0;
        }
        let magnitude: u64 = Seconds { bits: self.bits % SIGN }.whole_seconds();
        if self.bits < SIGN {
            if magnitude > i64::MAX as u64 {
                i64::MAX
            } else {
                magnitude as i64
            }
        } else if magnitude > i64::MAX as u64 {
            i64::MIN
        } else {
            -(magnitude as i64)
        }
    }

    /// Whether more than a second has passed.
    pub fn above_one(self) -> (r: bool)
        ensures
            r == self.above(ONE),
    {
        ONE < self.bits && self.bits <= INFINITE
    }

    /// Whether fewer than two seconds have passed.
    pub fn below_two(self) -> (r: bool)
        ensures
            r == self.below(TWO),
    {
        self.bits < TWO || (SIGN <= self.bits && self.bits <= SIGN + INFINITE)
    }
}

/// One second is one whole second, and twice the time is twice the whole seconds, or one
/// more: a number whose pattern has the next exponent is twice as large.
pub proof fn law_whole_doubles(t: Seconds)
    requires
        0x3ff0_0000_0000_0000 <= t.bits < 0x43d0_0000_0000_0000,
    ensures
        ({
            let twice = Seconds { bits: (t.bits + 0x10_0000_0000_0000) as u64 };
            twice.whole() == 2 * t.whole() || twice.whole() == 2 * t.whole() + 1
        }),
        (Seconds { bits: 0x3ff0_0000_0000_0000 }).whole() == 1,
{
    let twice = Seconds { bits: (t.bits + FRACTIONS) as u64 };
    power2::lemma2_to64();
    power2::lemma2_to64_rest();
    assert(twice.exponent() == t.exponent() + 1);
    assert(twice.digits() == t.digits());
    let d = t.digits();
    let e = t.exponent();
    if e >= 52 {
        let k = (e - 52) as nat;
        power2::lemma_pow2_unfold(k + 1);
        lemma_pow2_bound(k);
        lemma_pow2_bound(k + 1);
        lemma_double(d as int, power2::pow2(k) as int);
        lemma_scaled_bound(d as int, power2::pow2(k) as int);
        lemma_scaled_bound(d as int, power2::pow2(k + 1) as int);
        assert(d * power2::pow2(k) >= 0) by (nonlinear_arith);
        assert(d * power2::pow2(k + 1) >= 0) by (nonlinear_arith);
    } else {
        let k = (52 - e) as nat;
        power2::lemma_pow2_unfold(k);
        power2::lemma_pow2_pos((k - 1) as nat);
        power2::lemma_pow2_pos(k);
        vstd::arithmetic::div_mod::lemma_div_denominator(
            d as int,
            power2::pow2((k - 1) as nat) as int,
            2,
        );
        vstd::arithmetic::mul::lemma_mul_is_commutative(power2::pow2((k - 1) as nat) as int, 2);
        let a = d / power2::pow2((k - 1) as nat);
        let b = d / power2::pow2(k);
        assert(b == a / 2);
        vstd::arithmetic::div_mod::lemma_div_is_ordered_by_denominator(
            d as int,
            1,
            power2::pow2((k - 1) as nat) as int,
        );
        assert(a <= d);
        if k == 1 {
            let unit = power2::pow2(0);
            assert(unit == 1);
            assert(d * unit == d) by (nonlinear_arith)
                requires
                    unit == 1,
            ;
            assert(d / unit == d) by (nonlinear_arith)
                requires
                    unit == 1,
            ;
        }
    }
    let one = Seconds { bits: ONE };
    assert(one.exponent() == 0 && one.digits() == FRACTIONS);
    let p = power2::pow2(52);
    let q = one.digits();
    assert(q / p == 1) by (nonlinear_arith)
        requires
            p == 0x10_0000_0000_0000,
            q == p,
    ;
}

/// Negative times, times below a second and what is no number are no whole seconds; a
/// negative time cut to a whole number is that of its positive counterpart, negated.
pub proof fn law_whole_signs(t: Seconds)
    ensures
        t.bits < 0x3ff0_0000_0000_0000 || t.bits > 0x7ff0_0000_0000_0000 ==> t.whole() == 0,
        t.bits < 0x7ff0_0000_0000_0000 && t.whole() <= i64::MAX ==> {
            let minus = Seconds { bits: (t.bits + 0x8000_0000_0000_0000) as u64 };
            &&& t.whole_signed() == t.whole()
            &&& minus.whole_signed() == -(t.whole() as int)
        },
{
}

/// A time is above another when its pattern is the larger one of numbers without a sign;
/// every negative time is below.
pub proof fn law_comparisons(t: Seconds)
    ensures
        t.above(ONE) <==> 0x3ff0_0000_0000_0000 < t.bits <= 0x7ff0_0000_0000_0000,
        t.below(TWO) <==> t.bits < 0x4000_0000_0000_0000 || 0x8000_0000_0000_0000 <= t.bits
            <= 0xfff0_0000_0000_0000,
{
}

proof fn lemma_pow2_bound(n: nat)
    requires
        n <= 11,
    ensures
        0 < power2::pow2(n) <= 0x800,
{
    power2::lemma2_to64();
    assert(n == 0 || n == 1 || n == 2 || n == 3 || n == 4 || n == 5 || n == 6 || n == 7 || n == 8
        || n == 9 || n == 10 || n == 11);
}

proof fn lemma_double(a: int, b: int)
    ensures
        (a * b) * 2 == a * (2 * b),
{
    assert((a * b) * 2 == a * (2 * b)) by (nonlinear_arith);
}

proof fn lemma_scaled_bound(a: int, b: int)
    requires
        0 <= a < 2 * FRACTIONS,
        0 < b <= 0x800,
    ensures
        a * b < FRACTIONS * 2 * b,
        FRACTIONS * 2 * b <= 0x1_0000_0000_0000_0000,
{
    assert(a * b < 0x20_0000_0000_0000 * b) by (nonlinear_arith)
        requires
            0 <= a < 0x20_0000_0000_0000,
            0 < b,
    ;
    assert(0x20_0000_0000_0000 * b <= 0x20_0000_0000_0000 * 0x800) by (nonlinear_arith)
        requires
            b <= 0x800,
    ;
}

} // verus!
