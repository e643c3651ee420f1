//! Durations and costs as they are shown.

use crate::double::{Usd, UNITS_PER_DOLLAR};
use crate::text::{digit, push_decimal, push_text};
use vstd::arithmetic::power2::*;
use vstd::prelude::*;

verus! {

/// The quotient rounded to the nearest whole number, halves to the even one.
pub open spec fn rounded(a: nat, b: nat) -> nat {
    let q = a / b;
    let r = a % b;
    if 2 * r < b || (2 * r == b && q % 2 == 0) {
        q
    } else {
        q + 1
    }
}

/// The largest power of two that `d` can be multiplied with without exceeding
/// `n`, as an exponent.
pub open spec fn ratio_exponent(n: nat, d: nat) -> nat
    decreases n - d,
{
    if d == 0 || n < 2 * d {
        0
    } else {
        1 + ratio_exponent(n, 2 * d)
    }
}

/// The double that is nearest to a whole number.
pub open spec fn nearest_double(n: nat) -> nat {
    if n < 0x20_0000_0000_0000 {
        n
    } else {
        let step = pow2((ratio_exponent(n, 1) - 52) as nat);
        rounded(n, step) * step
    }
}

/// `n` over `d` in double precision, times `scale`, rounded to a whole number:
/// what is printed with as many decimal places as `scale` has zeros.
pub open spec fn double_ratio(n: nat, d: nat, scale: nat) -> nat {
    let x = nearest_double(n);
    let unit = pow2((52 - ratio_exponent(x, d)) as nat);
    rounded(rounded(x * unit, d) * scale, unit)
}

/// The last `places` decimal digits of `n`.
pub open spec fn padded(n: nat, places: nat) -> Seq<char>
    decreases places,
{
    if places == 0 {
        Seq::empty()
    } else {
        padded(n / 10, (places - 1) as nat).push(crate::text::digit_char(n % 10))
    }
}

/// A number in decimal notation that counts hundredths, thousandths and so on.
pub open spec fn with_point(n: nat, scale: nat, places: nat) -> Seq<char> {
    crate::text::decimal(n / scale) + seq!['.'] + padded(n, places)
}

/// A number of nanoseconds as it is shown.
pub open spec fn duration_text(ns: nat) -> Seq<char> {
    if ns < 1_000 {
        crate::text::decimal(ns) + "ns"@
    } else if ns < 1_000_000 {
        with_point(double_ratio(ns, 1_000, 100), 100, 2) + "\u{b5}s"@
    } else if ns < 1_000_000_000 {
        with_point(double_ratio(ns, 1_000_000, 100), 100, 2) + "ms"@
    } else {
        with_point(double_ratio(ns, 1_000_000_000, 1_000), 1_000, 3) + "s"@
    }
}

/// An amount of money as it is shown, with four decimal places, or with six
/// where it is below one cent.
pub open spec fn cost_text(c: Usd) -> Seq<char> {
    if c.units == 0 {
        "$0"@
    } else if c.units < CENT {
        "$"@ + with_point(rounded(c.units as nat * 1_000_000, UNITS_PER_DOLLAR as nat), 1_000_000, 6)
    } else {
        "$"@ + with_point(rounded(c.units as nat * 10_000, UNITS_PER_DOLLAR as nat), 10_000, 4)
    }
}

/// The double nearest to one cent, in units.
pub const CENT: u128 = 184_467_440_737_095_520;

fn round_ratio(a: u128, b: u128) -> (r: u128)
    requires
        0 < b <= 0x8000_0000_0000_0000_0000_0000_0000,
        a < u128::MAX,
    ensures
        r == rounded(a as nat, b as nat),
{
    let q: u128 = a / b;
    let m: u128 = a % b;
    proof {
        assert(q <= a) by (nonlinear_arith)
            requires
                q == a / b,
                b > 0,
        ;
    }
    if 2 * m < b || (2 * m == b && q % 2 == 0) {
        q
    } else {
        q + 1
    }
}

/// The exponent of the ratio, and the power of two itself.
fn find_exponent(n: u128, d: u128) -> (r: (u32, u128))
    requires
        0 < d <= n,
        n <= 0x1_0000_0000_0000_0000,
    ensures
        r.0 == ratio_exponent(n as nat, d as nat),
        r.1 == d * pow2(r.0 as nat),
        r.1 <= n,
        n < 2 * r.1,
        r.0 <= 64,
{
    let mut x: u128 = d;
    let mut e: u32 = 0;
    proof {
        lemma2_to64();
    }
    while 2 * x <= n
        invariant
            0 < d,
            d <= x <= n,
            n <= 0x1_0000_0000_0000_0000,
            e + ratio_exponent(n as nat, x as nat) == ratio_exponent(n as nat, d as nat),
            x == d * pow2(e as nat),
            pow2(e as nat) <= x,
            e <= 64,
        decreases n - x,
    {
        proof {
            lemma_pow2_unfold((e + 1) as nat);
            let p = pow2(e as nat) as int;
            assert(d * (2 * p) == 2 * (d * p)) by (nonlinear_arith);
            if e >= 64 {
                lemma2_to64_rest();
                if e > 64 {
                    lemma_pow2_strictly_increases(64, e as nat);
                }
            }
        }
        x = 2 * x;
        e = e + 1;
    }
    (e, x)
}

fn nearest(n: u64) -> (r: u128)
    ensures
        r == nearest_double(n as nat),
        r <= 0x1_0000_0000_0000_0000,
        n > 0 ==> r > 0,
        n >= 1_000_000_000 ==> r >= 1_000_000_000,
        n < 0x20_0000_0000_0000 ==> r == n,
{
    if n < 0x20_0000_0000_0000 {
        return n as u128;
    }
    let (e, top) = find_exponent(n as u128, 1);
    proof {
        lemma2_to64();
        lemma2_to64_rest();
        if e < 53 {
            if e < 52 {
                lemma_pow2_strictly_increases(e as nat, 52);
            }
        }
        if e > 63 {
            lemma_pow2_strictly_increases(63, e as nat);
        }
    }
    let step: u128 = power(e - 52);
    proof {
        if e - 52 < 11 {
            lemma_pow2_strictly_increases((e - 52) as nat, 11);
        }
        lemma_pow2_pos((e - 52) as nat);
    }
    let q: u128 = round_ratio(n as u128, step);
    proof {
        // The step divides 2^64, so rounding cannot pass it.
        let k = (64 - (e - 52)) as nat;
        lemma_pow2_adds((e - 52) as nat, k);
        let all = pow2(k) as int;
        let s = step as int;
        lemma_pow2_pos(k);
        assert(q <= all) by (nonlinear_arith)
            requires
                s > 0,
                s * all == 0x1_0000_0000_0000_0000,
                n < 0x1_0000_0000_0000_0000,
                q <= n as int / s + 1,
        ;
        assert(q * s <= all * s) by (nonlinear_arith)
            requires
                q <= all,
                s > 0,
        ;
        assert(all * s == 0x1_0000_0000_0000_0000) by (nonlinear_arith)
            requires
                s * all == 0x1_0000_0000_0000_0000,
        ;
        assert(q * s >= n as int / s * s) by (nonlinear_arith)
            requires
                q >= n as int / s,
                s > 0,
        ;
        assert(n as int / s * s > n - s) by (nonlinear_arith)
            requires
                s > 0,
        ;
    }
    q * step
}

fn power(k: u32) -> (r: u128)
    requires
        k <= 64,
    ensures
        r == pow2(k as nat),
{
    let mut r: u128 = 1;
    proof {
        lemma2_to64();
    }
    for i in 0..k
        invariant
            k <= 64,
            r == pow2(i as nat),
    {
        proof {
            lemma_pow2_unfold((i + 1) as nat);
            lemma2_to64_rest();
            if i + 1 < 64 {
                lemma_pow2_strictly_increases((i + 1) as nat, 64);
            }
        }
        r = r * 2;
    }
    r
}

/// Nanoseconds in a larger unit, scaled.
fn ratio(n: u64, d: u128, scale: u128) -> (r: u128)
    requires
        1_000 <= d <= 1_000_000_000,
        d <= n,
        0 < scale <= 1_000,
        n >= 0x20_0000_0000_0000 ==> d == 1_000_000_000,
    ensures
        r == double_ratio(n as nat, d as nat, scale as nat),
{
    let x: u128 = nearest(n);
    let (e, top) = find_exponent(x, d);
    proof {
        lemma2_to64();
        lemma2_to64_rest();
        if e > 44 {
            lemma_pow2_strictly_increases(44, e as nat);
        }
        if e >= 44 {
            let p = pow2(e as nat) as int;
            assert(d * p >= 1_000 * 0x1000_0000_0000) by (nonlinear_arith)
                requires
                    d >= 1_000,
                    p >= 0x1000_0000_0000,
            ;
            if d == 1_000_000_000 {
                assert(d * p >= 1_000_000_000 * 0x1000_0000_0000);
            }
        }
    }
    let unit: u128 = power(52 - e);
    proof {
        lemma_pow2_pos((52 - e) as nat);
        if e > 0 {
            lemma_pow2_strictly_increases((52 - e) as nat, 52);
        }
        lemma_pow2_adds(e as nat, (52 - e) as nat);
        let p = pow2(e as nat) as int;
        // x < 2 * d * 2^e and unit * 2^e == 2^52, so x * unit < d * 2^53.
        assert(x * unit < 2 * d * 0x10_0000_0000_0000) by (nonlinear_arith)
            requires
                x < 2 * (d * p),
                p * unit == 0x10_0000_0000_0000,
                unit > 0,
        ;
        assert(x * unit < 2_000_000_000 * 0x10_0000_0000_0000) by (nonlinear_arith)
            requires
                x * unit < 2 * d * 0x10_0000_0000_0000,
                d <= 1_000_000_000,
        ;
    }
    let m: u128 = round_ratio(x * unit, d);
    proof {
        let a = x * unit;
        assert(m <= 0x20_0000_0000_0000) by (nonlinear_arith)
            requires
                a < d * 0x20_0000_0000_0000,
                m <= a / (d as int) + 1,
                d > 0,
        ;
        assert(m * scale <= 0x20_0000_0000_0000 * 1_000) by (nonlinear_arith)
            requires
                m <= 0x20_0000_0000_0000,
                scale <= 1_000,
        ;
    }
    round_ratio(m * scale, unit)
}

fn push_padded(out: &mut String, n: u128, places: u32)
    ensures
        final(out)@ == old(out)@ + padded(n as nat, places as nat),
    decreases places,
{
    if places == 0 {
        assert(out@ =~= out@ + padded(n as nat, 0));
        return ;
    }
    let ghost before = out@;
    push_padded(out, n / 10, places - 1);
    out.push(digit((n % 10) as u8));
    assert(out@ =~= before + padded(n as nat, places as nat));
}

fn push_with_point(out: &mut String, n: u128, scale: u128, places: u32)
    requires
        scale > 0,
    ensures
        final(out)@ == old(out)@ + with_point(n as nat, scale as nat, places as nat),
{
    let ghost before = out@;
    push_decimal(out, n / scale);
    out.push('.');
    push_padded(out, n, places);
    assert(out@ =~= before + with_point(n as nat, scale as nat, places as nat));
}

/// A number of nanoseconds as it is shown.
pub fn format_duration_ns(ns: u64) -> (r: String)
    ensures
        r@ == duration_text(ns as nat),
{
    let mut out = String::new();
    if ns < 1_000 {
        push_decimal(&mut out, ns as u128);
        push_text(&mut out, "ns");
    } else if ns < 1_000_000 {
        push_with_point(&mut out, ratio(ns, 1_000, 100), 100, 2);
        push_text(&mut out, "\u{b5}s");
    } else if ns < 1_000_000_000 {
        push_with_point(&mut out, ratio(ns, 1_000_000, 100), 100, 2);
        push_text(&mut out, "ms");
    } else {
        push_with_point(&mut out, ratio(ns, 1_000_000_000, 1_000), 1_000, 3);
        push_text(&mut out, "s");
    }
    assert(out@ =~= duration_text(ns as nat));
    out
}

/// Units in a decimal fraction of a dollar, rounded.
fn decimal_units(c: Usd, scale: u128) -> (r: u128)
    requires
        scale == 1_000_000 || scale == 10_000,
    ensures
        r == rounded(c.units as nat * scale as nat, UNITS_PER_DOLLAR as nat),
{
    let whole: u128 = c.units / UNITS_PER_DOLLAR;
    let part: u128 = c.units % UNITS_PER_DOLLAR;
    let low: u128 = round_ratio(part * scale, UNITS_PER_DOLLAR);
    proof {
        let d = UNITS_PER_DOLLAR as int;
        let a = c.units as int * scale as int;
        let b = part as int * scale as int;
        let w = whole as int * scale as int;
        assert(a == w * d + b) by (nonlinear_arith)
            requires
                c.units as int == whole as int * d + part as int,
                a == c.units as int * scale as int,
                b == part as int * scale as int,
                w == whole as int * scale as int,
        ;
        vstd::arithmetic::div_mod::lemma_fundamental_div_mod(b, d);
        vstd::arithmetic::div_mod::lemma_fundamental_div_mod_converse(a, d, w + b / d, b % d);
        assert(w % 2 == 0) by {
            if scale == 1_000_000 {
                assert(w == 2 * (whole as int * 500_000));
            } else {
                assert(w == 2 * (whole as int * 5_000));
            }
        }
    }
    whole * scale + low
}

/// An amount of money as it is shown.
pub fn format_cost(c: Usd) -> (r: String)
    ensures
        r@ == cost_text(c),
{
    let mut out = String::new();
    if c.units == 0 {
        push_text(&mut out, "$0");
    } else if c.units < CENT {
        push_text(&mut out, "$");
        push_with_point(&mut out, decimal_units(c, 1_000_000), 1_000_000, 6);
    } else {
        push_text(&mut out, "$");
        push_with_point(&mut out, decimal_units(c, 10_000), 10_000, 4);
    }
    assert(out@ =~= cost_text(c));
    out
}

/// Rounding goes to the nearest whole number, and to the even one of two that are equally
/// near.
pub proof fn law_rounding(a: nat, b: nat)
    requires
        b > 0,
    ensures
        -(b as int) <= 2 * (rounded(a, b) * b - a) <= b,
        2 * (rounded(a, b) * b - a) == b || 2 * (rounded(a, b) * b - a) == -(b as int)
            ==> rounded(a, b) % 2 == 0,
{
    let q = a / b;
    let r = a % b;
    assert(a == q * b + r && 0 <= r < b) by (nonlinear_arith)
        requires
            b > 0,
            q == a / b,
            r == a % b,
    ;
    assert((q + 1) * b == q * b + b) by (nonlinear_arith);
}

proof fn lemma_exact(k: nat, b: nat)
    requires
        b > 0,
    ensures
        rounded(k * b, b) == k,
{
    law_rounding(k * b, b);
    let r = rounded(k * b, b);
    assert(r == k) by (nonlinear_arith)
        requires
            b > 0,
            -(b as int) <= 2 * (r * b - k * b) <= b,
    ;
}

/// The last digits of a number stand for its remainder: as many digits as there are
/// places.
pub proof fn law_digits_behind_the_point(n: nat, places: nat)
    ensures
        padded(n, places).len() == places,
        forall|i: int| 0 <= i < places ==> '0' <= #[trigger] padded(n, places)[i] <= '9',
        crate::number::digits_value(padded(n, places)) == n % (vstd::arithmetic::power::pow(
            10,
            places,
        ) as nat),
    decreases places,
{
    let p = vstd::arithmetic::power::pow(10, places);
    vstd::arithmetic::power::lemma_pow_positive(10, places);
    if places == 0 {
        vstd::arithmetic::power::lemma_pow0(10);
        assert(n % 1 == 0);
    } else {
        let m = (places - 1) as nat;
        law_digits_behind_the_point(n / 10, m);
        let front = padded(n / 10, m);
        let d = crate::text::digit_char(n % 10);
        assert(d as int == 48 + n % 10);
        assert(padded(n, places).drop_last() =~= front);
        let q = vstd::arithmetic::power::pow(10, m);
        vstd::arithmetic::power::lemma_pow_positive(10, m);
        vstd::arithmetic::power::lemma_pow_adds(10, 1, m);
        vstd::arithmetic::power::lemma_pow1(10);
        assert(p == 10 * q);
        let x = n as int;
        assert(x % (10 * q) == 10 * ((x / 10) % q) + x % 10) by {
            let a = (x / 10) / q;
            let b = (x / 10) % q;
            assert(x / 10 == a * q + b && 0 <= b < q) by (nonlinear_arith)
                requires
                    q > 0,
                    a == (x / 10) / q,
                    b == (x / 10) % q,
            ;
            assert(x == 10 * (x / 10) + x % 10);
            assert(x == a * (10 * q) + (10 * b + x % 10)) by (nonlinear_arith)
                requires
                    x == 10 * (x / 10) + x % 10,
                    x / 10 == a * q + b,
            ;
            vstd::arithmetic::div_mod::lemma_fundamental_div_mod_converse(
                x,
                10 * q,
                a,
                10 * b + x % 10,
            );
        }
        assert forall|i: int| 0 <= i < places implies '0' <= #[trigger] padded(n, places)[i]
            <= '9' by {
            if i < front.len() {
                assert(padded(n, places)[i] == front[i]);
            }
        }
    }
}

proof fn lemma_exponent_bound(n: nat, d: nat, k: nat)
    requires
        d > 0,
        k > 0,
        n < d * pow2(k),
    ensures
        ratio_exponent(n, d) < k,
    decreases k,
{
    vstd::arithmetic::power2::lemma_pow2_unfold(k);
    if n >= 2 * d {
        let h = pow2((k - 1) as nat);
        assert(d * (2 * h) == (2 * d) * h) by (nonlinear_arith);
        if k == 1 {
            vstd::arithmetic::power2::lemma2_to64();
            assert(n < 2 * d);
        } else {
            lemma_exponent_bound(n, 2 * d, (k - 1) as nat);
        }
    }
}

proof fn lemma_ratio(n: nat, d: nat, scale: nat, k: nat)
    requires
        0 < d,
        0 < scale <= 1000,
        n < 0x20_0000_0000_0000,
        0 < k <= 42,
        n < d * pow2(k),
    ensures
        -(d as int) <= double_ratio(n, d, scale) * d - n * scale <= d,
{
    lemma_exponent_bound(n, d, k);
    let e = ratio_exponent(n, d);
    let unit = pow2((52 - e) as nat);
    vstd::arithmetic::power2::lemma2_to64();
    assert(unit >= 1024) by {
        if 52 - e > 10 {
            vstd::arithmetic::power2::lemma_pow2_strictly_increases(10, (52 - e) as nat);
        }
    }
    let r1 = rounded(n * unit, d);
    let r2 = rounded(r1 * scale, unit);
    law_rounding(n * unit, d);
    law_rounding(r1 * scale, unit);
    assert(double_ratio(n, d, scale) == r2);
    let (x, u, s, c, a, b) = (n as int, unit as int, scale as int, d as int, r1 as int, r2 as int);
    assert(-c <= 2 * (a * c - x * u) <= c);
    assert(-u <= 2 * (b * u - a * s) <= u);
    assert(-c <= b * c - x * s <= c) by (nonlinear_arith)
        requires
            -c <= 2 * (a * c - x * u) <= c,
            -u <= 2 * (b * u - a * s) <= u,
            0 < s <= u,
            c > 0,
            u > 0,
    {
        let t = b * c - x * s;
        let y = a * c - x * u;
        let z = b * u - a * s;
        assert(u * t == c * z + s * y) by (nonlinear_arith)
            requires
                t == b * c - x * s,
                y == a * c - x * u,
                z == b * u - a * s,
        ;
        assert(2 * (c * z) <= c * u && 2 * (c * z) >= -(c * u)) by (nonlinear_arith)
            requires
                -u <= 2 * z <= u,
                c > 0,
        ;
        assert(2 * (s * y) <= s * c && 2 * (s * y) >= -(s * c)) by (nonlinear_arith)
            requires
                -c <= 2 * y <= c,
                s > 0,
        ;
        assert(s * c <= u * c) by (nonlinear_arith)
            requires
                0 < s <= u,
                c > 0,
        ;
        assert(u * t <= u * c && u * t >= -(u * c));
        assert(t <= c && t >= -c) by (nonlinear_arith)
            requires
                u * t <= u * c,
                u * t >= -(u * c),
                u > 0,
        ;
    }
}

/// Durations are shown in nanoseconds below a microsecond, in microseconds below a
/// millisecond, in milliseconds below a second, and else in seconds. What is shown is off
/// by no more than one in the last place: hundredths, but thousandths of seconds.
pub proof fn law_durations_are_shown_closely(ns: nat)
    requires
        ns < 0x20_0000_0000_0000,
    ensures
        ns < 1_000 ==> duration_text(ns) == crate::text::decimal(ns) + "ns"@,
        1_000 <= ns < 1_000_000 ==> exists|n: nat|
            -10 <= n * 10 - ns <= 10 && duration_text(ns) == #[trigger] with_point(n, 100, 2)
                + "\u{b5}s"@,
        1_000_000 <= ns < 1_000_000_000 ==> exists|n: nat|
            -10_000 <= n * 10_000 - ns <= 10_000 && duration_text(ns) == #[trigger] with_point(
                n,
                100,
                2,
            ) + "ms"@,
        1_000_000_000 <= ns ==> exists|n: nat|
            -1_000_000 <= n * 1_000_000 - ns <= 1_000_000 && duration_text(ns)
                == #[trigger] with_point(n, 1_000, 3) + "s"@,
{
    vstd::arithmetic::power2::lemma2_to64();
    if 1_000 <= ns < 1_000_000 {
        lemma_ratio(ns, 1_000, 100, 10);
        let n = double_ratio(ns, 1_000, 100);
        assert(duration_text(ns) == with_point(n, 100, 2) + "\u{b5}s"@);
    } else if 1_000_000 <= ns < 1_000_000_000 {
        lemma_ratio(ns, 1_000_000, 100, 10);
        let n = double_ratio(ns, 1_000_000, 100);
        assert(duration_text(ns) == with_point(n, 100, 2) + "ms"@);
    } else if 1_000_000_000 <= ns {
        assert(pow2(24) == 0x100_0000);
        lemma_ratio(ns, 1_000_000_000, 1_000, 24);
        let n = double_ratio(ns, 1_000_000_000, 1_000);
        assert(duration_text(ns) == with_point(n, 1_000, 3) + "s"@);
    }
}

/// A number in decimal notation is its whole part, a point, and its fraction.
pub proof fn law_points(n: nat, scale: nat, places: nat)
    ensures
        with_point(n, scale, places) == crate::text::decimal(n / scale) + "."@ + padded(n, places),
{
    reveal_strlit(".");
    assert("."@ =~= seq!['.']);
}

/// Money is shown in dollars with four places, below a cent with six, rounded to the
/// nearest; nothing at all is shown as `$0`.
pub proof fn law_costs_are_shown_closely(c: Usd)
    ensures
        c.units == 0 ==> cost_text(c) == "$0"@,
        0 < c.units < 184_467_440_737_095_520 ==> exists|n: nat|
            cost_text(c) == "$"@ + #[trigger] with_point(n, 1_000_000, 6)
                && -0x1_0000_0000_0000_0000 <= 2 * (n * 0x1_0000_0000_0000_0000 - c.units
                * 1_000_000) <= 0x1_0000_0000_0000_0000,
        c.units >= 184_467_440_737_095_520 ==> exists|n: nat|
            cost_text(c) == "$"@ + #[trigger] with_point(n, 10_000, 4) && -0x1_0000_0000_0000_0000
                <= 2 * (n * 0x1_0000_0000_0000_0000 - c.units * 10_000) <= 0x1_0000_0000_0000_0000,
{
    let u = 0x1_0000_0000_0000_0000nat;
    if 0 < c.units < 184_467_440_737_095_520 {
        let n = rounded(c.units as nat * 1_000_000, u);
        law_rounding(c.units as nat * 1_000_000, u);
        assert(cost_text(c) == "$"@ + with_point(n, 1_000_000, 6));
    } else if c.units > 0 {
        let n = rounded(c.units as nat * 10_000, u);
        law_rounding(c.units as nat * 10_000, u);
        assert(cost_text(c) == "$"@ + with_point(n, 10_000, 4));
    }
}

/// Whole numbers of a unit are shown exactly.
pub proof fn law_whole_durations(k: nat)
    requires
        0 < k,
    ensures
        k < 1_000 ==> duration_text(k * 1_000) == with_point(k * 100, 100, 2) + "\u{b5}s"@,
        k < 1_000 ==> duration_text(k * 1_000_000) == with_point(k * 100, 100, 2) + "ms"@,
        k < 9_000_000 ==> duration_text(k * 1_000_000_000) == with_point(k * 1_000, 1_000, 3)
            + "s"@,
{
    if k < 1_000 {
        lemma_whole_ratio(k, 1_000, 100);
        lemma_whole_ratio(k, 1_000_000, 100);
    }
    if k < 9_000_000 {
        lemma_whole_ratio(k, 1_000_000_000, 1_000);
    }
}

proof fn lemma_whole_ratio(k: nat, d: nat, scale: nat)
    requires
        d > 0,
        k * d < 0x20_0000_0000_0000,
    ensures
        double_ratio(k * d, d, scale) == k * scale,
{
    let unit = pow2((52 - ratio_exponent(k * d, d)) as nat);
    vstd::arithmetic::power2::lemma_pow2_pos((52 - ratio_exponent(k * d, d)) as nat);
    assert((k * d) * unit == (k * unit) * d) by (nonlinear_arith);
    lemma_exact(k * unit, d);
    assert((k * unit) * scale == (k * scale) * unit) by (nonlinear_arith);
    lemma_exact(k * scale, unit);
}

} // verus!
