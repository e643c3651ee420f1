//! Double-precision numbers, held by their binary encoding.
//!
//! Telemetry carries numbers in the 64-bit IEEE 754 format. Such a number is
//! kept here as its encoding; what the counters need of it (is it finite, what
//! is its whole part, how much money is it) is worked out in integers.

use vstd::arithmetic::power2::*;
use vstd::prelude::*;

verus! {

/// An amount of money in fixed point: `units` counts 2^-64 of a US dollar.
#[derive(Clone, Copy, Debug, PartialEq, Eq, Structural)]
pub struct Usd {
    pub units: u128,
}

/// The number of units in a dollar.
pub const UNITS_PER_DOLLAR: u128 = 0x1_0000_0000_0000_0000;

/// The amount of `n` units, or the largest amount where `n` is beyond it.
pub open spec fn usd_capped(n: nat) -> Usd {
    Usd {
        units: if n <= u128::MAX {
            n as u128
        } else {
            u128::MAX
        },
    }
}

/// The amount that stands for a number of units above zero: rounded down, but one
/// unit at the least, and capped at the largest amount.
pub open spec fn usd_above_zero(n: nat) -> Usd {
    if n == 0 {
        Usd { units: 1 }
    } else {
        usd_capped(n)
    }
}

/// A number in double precision.
pub struct Double {
    /// The IEEE 754 encoding: sign, exponent, fraction.
    pub bits: u64,
    /// The number in decimal, as it is shown to a reader.
    pub text: String,
}

/// The exponent field of an encoding.
pub open spec fn biased_exponent(bits: u64) -> int {
    (bits as int / 0x10_0000_0000_0000) % 2048
}

/// Whether an encoding stands for a finite number.
pub open spec fn finite(bits: u64) -> bool {
    biased_exponent(bits) != 2047
}

/// Whether the sign of an encoding is minus.
pub open spec fn minus(bits: u64) -> bool {
    bits >= 0x8000_0000_0000_0000
}

/// The integer that, times a power of two, makes the magnitude.
pub open spec fn mantissa(bits: u64) -> nat {
    let fraction = bits as nat % 0x10_0000_0000_0000;
    if biased_exponent(bits) == 0 {
        fraction
    } else {
        fraction + 0x10_0000_0000_0000
    }
}

/// The power of two that goes with `mantissa`.
pub open spec fn exponent(bits: u64) -> int {
    (if biased_exponent(bits) == 0 {
        1
    } else {
        biased_exponent(bits)
    }) - 1075
}

/// `m` times two to the power `e`, rounded down.
pub open spec fn scaled(m: nat, e: int) -> nat {
    if e >= 0 {
        m * pow2(e as nat)
    } else {
        m / pow2((-e) as nat)
    }
}

/// The magnitude of a finite number, rounded down to a whole number.
pub open spec fn whole_magnitude(bits: u64) -> nat {
    scaled(mantissa(bits), exponent(bits))
}

/// Whether a number is less than zero.
pub open spec fn negative(bits: u64) -> bool {
    minus(bits) && mantissa(bits) != 0
}

/// What a counter takes of a number: its whole part, or nothing where the
/// number is not finite, negative, or beyond 64 bits.
pub open spec fn counter_of(bits: u64) -> nat {
    if finite(bits) && !negative(bits) && whole_magnitude(bits) <= u64::MAX {
        whole_magnitude(bits)
    } else {
        0
    }
}

/// The number as a signed 64-bit integer, rounded towards zero, where it is
/// finite and such an integer can hold it; else nothing.
pub open spec fn integer_of(bits: u64) -> Option<i64> {
    let m = whole_magnitude(bits);
    if !finite(bits) {
        None
    } else if minus(bits) {
        if m <= 0x8000_0000_0000_0000 {
            Some((-m) as i64)
        } else {
            None
        }
    } else if m < 0x8000_0000_0000_0000 {
        Some(m as i64)
    } else {
        None
    }
}

/// A number of dollars as an amount: rounded down to units, but one unit at the
/// least where it is above zero, and capped at the largest amount; nothing where
/// the number is not finite or not above zero.
pub open spec fn usd_of(bits: u64) -> Usd {
    if finite(bits) && !minus(bits) && mantissa(bits) != 0 {
        usd_above_zero(scaled(mantissa(bits), exponent(bits) + 64))
    } else {
        Usd { units: 0 }
    }
}

/// Numbers that are not finite, negative or beyond the range leave no trace: a
/// counter and an amount take nothing of them. A number above zero, however small,
/// is an amount.
pub proof fn law_bad_numbers_count_nothing(bits: u64)
    ensures
        !finite(bits) || negative(bits) || whole_magnitude(bits) > u64::MAX ==> counter_of(bits)
            == 0,
        !finite(bits) || minus(bits) ==> usd_of(bits).units == 0,
        finite(bits) && !minus(bits) && mantissa(bits) != 0 ==> usd_of(bits).units > 0,
        !finite(bits) || whole_magnitude(bits) > 0x8000_0000_0000_0000 ==> integer_of(bits)
            is None,
        !minus(bits) && whole_magnitude(bits) >= 0x8000_0000_0000_0000 ==> integer_of(bits)
            is None,
{
}

fn power_of_two(k: u32) -> (r: u128)
    requires
        k < 128,
    ensures
        r == pow2(k as nat),
{
    let mut r: u128 = 1;
    proof {
        vstd::arithmetic::power2::lemma2_to64();
    }
    for i in 0..k
        invariant
            k < 128,
            r == pow2(i as nat),
    {
        proof {
            vstd::arithmetic::power2::lemma_pow2_unfold((i + 1) as nat);
            if i + 1 < 127 {
                vstd::arithmetic::power2::lemma_pow2_strictly_increases((i + 1) as nat, 127);
            }
            vstd::arithmetic::power2::lemma_pow2_adds(64, 63);
            vstd::arithmetic::power2::lemma2_to64_rest();
        }
        r = r * 2;
    }
    r
}

/// `m` times two to the power `e`, rounded down and capped at the largest
/// 128-bit number.
fn shift(m: u64, e: i32) -> (r: u128)
    requires
        m < 0x20_0000_0000_0000,
        e > -2000,
        e >= 76 ==> m >= 0x10_0000_0000_0000,
    ensures
        scaled(m as nat, e as int) <= u128::MAX ==> r == scaled(m as nat, e as int),
        scaled(m as nat, e as int) > u128::MAX ==> r == u128::MAX,
{
    proof {
        vstd::arithmetic::power2::lemma2_to64();
        vstd::arithmetic::power2::lemma2_to64_rest();
        vstd::arithmetic::power2::lemma_pow2_adds(64, 64);
        assert(pow2(128) == 0x1_0000_0000_0000_0000 * 0x1_0000_0000_0000_0000) by {
            assert(pow2(64) == 0x1_0000_0000_0000_0000);
        }
    }
    if e >= 76 {
        proof {
            let p = pow2(e as nat);
            if e > 76 {
                vstd::arithmetic::power2::lemma_pow2_strictly_increases(76, e as nat);
            }
            vstd::arithmetic::power2::lemma_pow2_adds(76, 52);
            assert(m * p >= 0x10_0000_0000_0000 * pow2(76)) by (nonlinear_arith)
                requires
                    m >= 0x10_0000_0000_0000,
                    p >= pow2(76),
            ;
        }
        u128::MAX
    } else if e >= 0 {
        let p = power_of_two(e as u32);
        proof {
            if e < 75 {
                vstd::arithmetic::power2::lemma_pow2_strictly_increases(e as nat, 75);
            }
            vstd::arithmetic::power2::lemma_pow2_pos(e as nat);
            vstd::arithmetic::power2::lemma_pow2_adds(75, 53);
            assert(m * p < 0x20_0000_0000_0000 * pow2(75)) by (nonlinear_arith)
                requires
                    m < 0x20_0000_0000_0000,
                    p <= pow2(75),
                    p > 0,
            ;
        }
        (m as u128) * p
    } else if e > -64 {
        let p = power_of_two((-e) as u32);
        proof {
            vstd::arithmetic::power2::lemma_pow2_pos((-e) as nat);
        }
        (m as u128) / p
    } else {
        proof {
            let p = pow2((-e) as nat);
            if e < -64 {
                vstd::arithmetic::power2::lemma_pow2_strictly_increases(64, (-e) as nat);
            }
            assert(m as nat / p == 0) by (nonlinear_arith)
                requires
                    m < p,
            ;
        }
        0
    }
}

impl Double {
    /// Whether the number is finite.
    pub fn is_finite(&self) -> (r: bool)
        ensures
            r == finite(self.bits),
    {
        (self.bits / 0x10_0000_0000_0000) % 2048 != 2047
    }

    fn parts(&self) -> (r: (u64, i32))
        ensures
            r.0 == mantissa(self.bits),
            r.1 == exponent(self.bits),
            r.0 < 0x20_0000_0000_0000,
            -1074 <= r.1 <= 972,
            r.1 > -1074 ==> r.0 >= 0x10_0000_0000_0000,
    {
        let biased: u64 = (self.bits / 0x10_0000_0000_0000) % 2048;
        let fraction: u64 = self.bits % 0x10_0000_0000_0000;
        if biased == 0 {
            (fraction, -1074)
        } else {
            (fraction + 0x10_0000_0000_0000, biased as i32 - 1075)
        }
    }

    /// What a counter takes of the number.
    pub fn counter(&self) -> (r: u64)
        ensures
            r == counter_of(self.bits),
    {
        let (m, e) = self.parts();
        if !self.is_finite() || (self.bits >= 0x8000_0000_0000_0000 && m != 0) {
            return 0;
        }
        let w: u128 = shift(m, e);
        if w <= 0xffff_ffff_ffff_ffff {
            w as u64
        } else {
            0
        }
    }

    /// The number as a signed integer.
    pub fn integer(&self) -> (r: Option<i64>)
        ensures
            r == integer_of(self.bits),
    {
        let (m, e) = self.parts();
        let w: u128 = shift(m, e);
        if !self.is_finite() {
            None
        } else if self.bits >= 0x8000_0000_0000_0000 {
            if w <= 0x8000_0000_0000_0000 {
                let v: i128 = w as i128;
                Some((-v) as i64)
            } else {
                None
            }
        } else if w < 0x8000_0000_0000_0000 {
            Some(w as i64)
        } else {
            None
        }
    }

    /// The number of dollars as an amount.
    pub fn usd(&self) -> (r: Usd)
        ensures
            r == usd_of(self.bits),
    {
        if !self.is_finite() || self.bits >= 0x8000_0000_0000_0000 {
            return Usd { units: 0 };
        }
        let (m, e) = self.parts();
        if m == 0 {
            return Usd { units: 0 };
        }
        let units: u128 = shift(m, e + 64);
        Usd { units: if units == 0 { 1 } else { units } }
    }

    /// Another copy of the number.
    pub fn duplicate(&self) -> (r: Double)
        ensures
            r == *self,
    {
        Double { bits: self.bits, text: self.text.clone() }
    }
}

impl Usd {
    /// A whole number of dollars.
    pub fn dollars(n: u64) -> (r: Usd)
        ensures
            r.units == n * UNITS_PER_DOLLAR,
    {
        proof {
            assert(n * 0x1_0000_0000_0000_0000 <= u128::MAX);
        }
        Usd { units: (n as u128) * UNITS_PER_DOLLAR }
    }
}

/// What a counter takes of a double is its whole part: with the fraction field `f`
/// and the exponent field `b` of a number that is not negative, the whole part of
/// (2^52 + f) * 2^(b - 1075).
pub proof fn law_counters_take_whole_parts(bits: u64)
    requires
        bits < 0x8000_0000_0000_0000,
        1 <= (bits as int / 0x10_0000_0000_0000) % 2048 <= 1075,
    ensures
        ({
            let b = (bits as int / 0x10_0000_0000_0000) % 2048;
            let m = bits as int % 0x10_0000_0000_0000 + 0x10_0000_0000_0000;
            let p = pow2((1075 - b) as nat) as int;
            &&& counter_of(bits) * p <= m < (counter_of(bits) + 1) * p
            &&& integer_of(bits) is Some
            &&& integer_of(bits)->0 == counter_of(bits)
        }),
{
    let b = (bits as int / 0x10_0000_0000_0000) % 2048;
    let m = bits as int % 0x10_0000_0000_0000 + 0x10_0000_0000_0000;
    let p = pow2((1075 - b) as nat) as int;
    vstd::arithmetic::power2::lemma_pow2_pos((1075 - b) as nat);
    vstd::arithmetic::power2::lemma2_to64();
    let q = m / p;
    assert(q * p <= m < (q + 1) * p && 0 <= q <= m) by (nonlinear_arith)
        requires
            p >= 1,
            m >= 0,
            q == m / p,
    ;
    if b == 1075 {
        assert(m * p == m) by (nonlinear_arith)
            requires
                p == 1,
        ;
    }
    assert(exponent(bits) == b - 1075);
    assert(mantissa(bits) == m);
    if b == 1075 {
        assert(p == 1);
        assert(q == m) by (nonlinear_arith)
            requires
                p == 1,
                q == m / p,
        ;
    }
    assert(whole_magnitude(bits) == q);
}

/// A negative double is the negative integer of the same magnitude.
pub proof fn law_negative_doubles(bits: u64)
    requires
        bits < 0x8000_0000_0000_0000,
        finite(bits),
    ensures
        ({
            let other = (bits + 0x8000_0000_0000_0000) as u64;
            &&& counter_of(other) == 0
            &&& usd_of(other).units == 0
            &&& integer_of(bits) is Some ==> integer_of(other) is Some && integer_of(other)->0
                == -integer_of(bits)->0
        }),
{
    let other = (bits + 0x8000_0000_0000_0000) as u64;
    assert(other as int / 0x10_0000_0000_0000 == bits as int / 0x10_0000_0000_0000 + 2048);
    assert(biased_exponent(other) == biased_exponent(bits));
    assert(other as nat % 0x10_0000_0000_0000 == bits as nat % 0x10_0000_0000_0000);
    assert(mantissa(other) == mantissa(bits));
    if mantissa(other) == 0 {
        lemma_scaled_nothing(exponent(other));
    }
}

proof fn lemma_scaled_nothing(e: int)
    ensures
        scaled(0, e) == 0,
{
    if e < 0 {
        vstd::arithmetic::power2::lemma_pow2_pos((-e) as nat);
        let p = pow2((-e) as nat) as int;
        assert(0int / p == 0) by (nonlinear_arith)
            requires
                p > 0,
        ;
    }
}

/// A unit of money is the 2^64th part of a dollar: a number of dollars above zero is
/// the whole part of so many times 2^64 units, and one unit at the least.
pub proof fn law_units_of_a_dollar(bits: u64)
    requires
        bits < 0x8000_0000_0000_0000,
        1 <= (bits as int / 0x10_0000_0000_0000) % 2048 <= 1011,
    ensures
        ({
            let b = (bits as int / 0x10_0000_0000_0000) % 2048;
            let m = bits as int % 0x10_0000_0000_0000 + 0x10_0000_0000_0000;
            let p = pow2((1011 - b) as nat) as int;
            let n = usd_of(bits).units as int;
            &&& n >= 1
            &&& n > 1 ==> n * p <= m < (n + 1) * p
            &&& n == 1 ==> m < 2 * p
        }),
{
    let b = (bits as int / 0x10_0000_0000_0000) % 2048;
    let m = bits as int % 0x10_0000_0000_0000 + 0x10_0000_0000_0000;
    let p = pow2((1011 - b) as nat) as int;
    vstd::arithmetic::power2::lemma_pow2_pos((1011 - b) as nat);
    vstd::arithmetic::power2::lemma2_to64();
    let q = m / p;
    assert(q * p <= m < (q + 1) * p && 0 <= q <= m) by (nonlinear_arith)
        requires
            p >= 1,
            m >= 0,
            q == m / p,
    ;
    if b == 1011 {
        assert(m * p == m) by (nonlinear_arith)
            requires
                p == 1,
        ;
    }
    assert(exponent(bits) == b - 1075);
    assert(mantissa(bits) == m);
    if b == 1011 {
        assert(p == 1);
        assert(q == m) by (nonlinear_arith)
            requires
                p == 1,
                q == m / p,
        ;
    }
    assert(scaled(mantissa(bits), exponent(bits) + 64) == q);
}

/// A double of 2^53 or more is a whole number: with the fraction field `f` and the exponent
/// field `b` of a number that is not negative, (2^52 + f) * 2^(b - 1075), and counts as
/// such as long as it fits.
pub proof fn law_large_doubles_are_whole(bits: u64)
    requires
        bits < 0x8000_0000_0000_0000,
        1075 < (bits as int / 0x10_0000_0000_0000) % 2048 < 2047,
    ensures
        ({
            let b = (bits as int / 0x10_0000_0000_0000) % 2048;
            let m = bits as int % 0x10_0000_0000_0000 + 0x10_0000_0000_0000;
            let n = m * pow2((b - 1075) as nat);
            &&& n <= 0xffff_ffff_ffff_ffff ==> counter_of(bits) == n
            &&& n > 0xffff_ffff_ffff_ffff ==> counter_of(bits) == 0
            &&& n <= 0x7fff_ffff_ffff_ffff ==> integer_of(bits) == Some(n as i64)
            &&& n > 0x7fff_ffff_ffff_ffff ==> integer_of(bits) is None
        }),
{
    let b = (bits as int / 0x10_0000_0000_0000) % 2048;
    let m = bits as int % 0x10_0000_0000_0000 + 0x10_0000_0000_0000;
    assert(exponent(bits) == b - 1075);
    assert(mantissa(bits) == m);
    assert(whole_magnitude(bits) == m * pow2((b - 1075) as nat));
}

/// What is no number, or infinite, counts nothing.
pub proof fn law_no_numbers(bits: u64)
    requires
        (bits as int / 0x10_0000_0000_0000) % 2048 == 2047,
    ensures
        counter_of(bits) == 0,
        integer_of(bits) is None,
        usd_of(bits).units == 0,
{
}

} // verus!
