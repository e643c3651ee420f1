//! Numbers written as text.

use crate::double::{Usd, UNITS_PER_DOLLAR};
use vstd::arithmetic::power::*;
use vstd::arithmetic::power2::*;
use vstd::prelude::*;

verus! {

/// Whether a character is an ASCII digit.
pub open spec fn is_digit(c: char) -> bool {
    '0' <= c && c <= '9'
}

/// The value of a digit.
pub open spec fn digit_value(c: char) -> nat {
    (c as nat - '0' as nat) as nat
}

/// Whether all characters are digits.
pub open spec fn all_digits(s: Seq<char>) -> bool {
    forall|i: int| 0 <= i < s.len() ==> is_digit(#[trigger] s[i])
}

/// The value of a sequence of digits.
pub open spec fn digits_value(s: Seq<char>) -> nat
    decreases s.len(),
{
    if s.len() == 0 {
        0
    } else {
        10 * digits_value(s.drop_last()) + digit_value(s.last())
    }
}

/// A text without its sign.
pub open spec fn unsigned_part(s: Seq<char>) -> Seq<char> {
    if s.len() > 0 && (s[0] == '-' || s[0] == '+') {
        s.skip(1)
    } else {
        s
    }
}

/// Whether a text begins with a minus sign.
pub open spec fn has_minus(s: Seq<char>) -> bool {
    s.len() > 0 && s[0] == '-'
}

/// The signed 64-bit integer that a text spells: an optional sign and at least
/// one digit, within range.
pub open spec fn integer_in(s: Seq<char>) -> Option<i64> {
    let digits = unsigned_part(s);
    let v = digits_value(digits);
    if digits.len() == 0 || !all_digits(digits) {
        None
    } else if has_minus(s) {
        if v <= 0x8000_0000_0000_0000 {
            Some((-v) as i64)
        } else {
            None
        }
    } else if v <= i64::MAX {
        Some(v as i64)
    } else {
        None
    }
}

/// The digit that a character stands for.
fn value_of_digit(c: char) -> (r: u8)
    requires
        is_digit(c),
    ensures
        r == digit_value(c),
        r <= 9,
{
    (c as u32 - '0' as u32) as u8
}

/// Digit sequences beyond this value (2^100) are not told apart.
const CAP: u128 = 0x10_0000_0000_0000_0000_0000_0000;

/// The value of the digits from `from` on, capped above 2^100; nothing where
/// one of them is no digit.
fn value_from(s: &Vec<char>, from: usize) -> (r: Option<u128>)
    requires
        from <= s@.len(),
    ensures
        r is Some <==> all_digits(s@.skip(from as int)),
        r matches Some(v) ==> {
            let n = digits_value(s@.skip(from as int));
            if n <= CAP {
                v == n
            } else {
                v > CAP
            }
        },
{
    let ghost digits = s@.skip(from as int);
    let mut acc: u128 = 0;
    let mut over = false;
    for i in from..s.len()
        invariant
            from <= s@.len(),
            digits == s@.skip(from as int),
            forall|j: int| 0 <= j < i - from ==> is_digit(#[trigger] digits[j]),
            acc <= CAP,
            !over ==> acc == digits_value(digits.take(i - from)),
            over ==> digits_value(digits.take(i - from)) > CAP,
    {
        let c = s[i];
        assert(digits[i - from] == c);
        if c < '0' || c > '9' {
            return None;
        }
        let d: u8 = value_of_digit(c);
        assert(digits.take(i + 1 - from).drop_last() =~= digits.take(i - from));
        let next: u128 = acc * 10 + d as u128;
        if next > CAP {
            over = true;
        } else {
            acc = next;
        }
    }
    assert(digits.take(digits.len() as int) =~= digits);
    if over {
        Some(u128::MAX)
    } else {
        Some(acc)
    }
}

/// Reads a signed 64-bit integer.
pub fn parse_integer(s: &Vec<char>) -> (r: Option<i64>)
    ensures
        r == integer_in(s@),
{
    let signed = s.len() > 0 && (s[0] == '-' || s[0] == '+');
    let from: usize = if signed {
        1
    } else {
        0
    };
    let negative = s.len() > 0 && s[0] == '-';
    proof {
        assert(s@.skip(0) =~= s@);
    }
    if from == s.len() {
        return None;
    }
    match value_from(s, from) {
        None => None,
        Some(v) => {
            if negative {
                if v <= 0x8000_0000_0000_0000 {
                    let m: i128 = v as i128;
                    Some((-m) as i64)
                } else {
                    None
                }
            } else if v <= 0x7fff_ffff_ffff_ffff {
                Some(v as i64)
            } else {
                None
            }
        },
    }
}

/// A numeral in decimal notation: 0.`digits` times ten to the power `point`.
pub struct Numeral {
    pub negative: bool,
    pub digits: Seq<char>,
    pub point: int,
}

/// Where the exponent of a numeral begins: the first `e` or `E`, or the end.
pub open spec fn exponent_mark(s: Seq<char>) -> int {
    let lower = crate::text::position(s, 'e');
    let upper = crate::text::position(s, 'E');
    if lower <= upper {
        lower
    } else {
        upper
    }
}

/// The number that the exponent part spells: an optional sign and at least one
/// digit.
pub open spec fn exponent_in(s: Seq<char>) -> Option<int> {
    let digits = unsigned_part(s);
    if digits.len() == 0 || !all_digits(digits) {
        None
    } else if has_minus(s) {
        Some(-(digits_value(digits) as int))
    } else {
        Some(digits_value(digits) as int)
    }
}

/// The text after position `i`; nothing where `i` is the end.
pub open spec fn after(s: Seq<char>, i: int) -> Seq<char> {
    if i < s.len() {
        s.skip(i + 1)
    } else {
        Seq::empty()
    }
}

/// The decimal numeral that a text spells: an optional sign, digits with at
/// most one point among them and at least one digit, and an optional exponent.
pub open spec fn numeral_in(s: Seq<char>) -> Option<Numeral> {
    let u = unsigned_part(s);
    let mark = exponent_mark(u);
    let body = u.take(mark);
    let exponent = if mark < u.len() {
        exponent_in(u.skip(mark + 1))
    } else {
        Some(0int)
    };
    let dot = crate::text::position(body, '.');
    let whole = body.take(dot);
    let fraction = after(body, dot);
    if exponent is None || !all_digits(whole) || !all_digits(fraction) || whole.len()
        + fraction.len() == 0 {
        None
    } else {
        Some(
            Numeral {
                negative: has_minus(s),
                digits: whole + fraction,
                point: whole.len() + exponent->0,
            },
        )
    }
}

/// The number of zeros that a digit sequence begins with.
pub open spec fn leading_zeros(s: Seq<char>) -> nat
    decreases s.len(),
{
    if s.len() == 0 || s[0] != '0' {
        0
    } else {
        1 + leading_zeros(s.skip(1))
    }
}

/// The digit at a place, where a sequence is continued with zeros.
pub open spec fn digit_at(s: Seq<char>, i: int) -> char {
    if 0 <= i < s.len() {
        s[i]
    } else {
        '0'
    }
}

/// Whether `a`, continued with zeros to the length of `b`, is not below `b`
/// from place `i` on.
pub open spec fn not_below(a: Seq<char>, b: Seq<char>, i: int) -> bool
    decreases b.len() - i,
{
    if i >= b.len() {
        true
    } else if digit_at(a, i) != b[i] {
        digit_at(a, i) > b[i]
    } else {
        not_below(a, b, i + 1)
    }
}

/// The smallest whole number that rounds to no finite double, in decimal:
/// 2^1024 - 2^970.
pub open spec fn double_limit() -> Seq<char> {
    "179769313486231580793728971405303415079934132710037826936173778980444968292764750946649017977587207096330286416692887910946555547851940402630657488671505820681908902000708383676273854845817711531764475730270069855571366959622842914819860834936475292719074168444365510704342711559699508093042880177904174497792"@
}

/// Whether a number, given by digits that do not begin with a zero, is beyond
/// what a double can hold.
pub open spec fn beyond_double(digits: Seq<char>, point: int) -> bool {
    point > double_limit().len() || (point == double_limit().len() && not_below(
        digits,
        double_limit(),
        0,
    ))
}

/// Whether `a` is above `b` from place `i` on, where the shorter is continued with
/// zeros.
pub open spec fn is_above(a: Seq<char>, b: Seq<char>, i: int) -> bool
    decreases a.len() + b.len() - i,
{
    if i >= a.len() && i >= b.len() {
        false
    } else if digit_at(a, i) != digit_at(b, i) {
        digit_at(a, i) > digit_at(b, i)
    } else {
        is_above(a, b, i + 1)
    }
}

/// The digits of the largest number that rounds to zero as a double: 2^-1075. Its
/// first digit stands 324 places behind the decimal point.
pub open spec fn double_floor() -> Seq<char> {
    "24703282292062327208828439643411068618252990130716238221279284125033775363510437593264991818081799618989828234772285886546332835517796989819938739800539093906315035659515570226392290858392449105184435931802849936536152500319370457678249219365623669863658480757001585769269903706311928279558551332927834338409351978015531246597263579574622766465272827220056374006485499977096599470454020828166226237857393450736339007967761930577506740176324673600968951340535537458516661134223766678604162159680461914467291840300530057530849048765391711386591646239524912623653881879636239373280423891018672348497668235089863388587925628302755995657524455507255189313690836254779186948667994968324049705821028513185451396213837722826145437693412532098591327667236328125"@
}

/// Whether a number, given by digits that do not begin with a zero, is too small
/// for a double to tell it from zero.
pub open spec fn vanishes(digits: Seq<char>, point: int) -> bool {
    point < -323 || (point == -323 && !is_above(digits, double_floor(), 0))
}

/// The digits in front of the decimal point.
pub open spec fn whole_digits(digits: Seq<char>, point: int) -> Seq<char> {
    if point <= 0 {
        Seq::empty()
    } else {
        Seq::new(point as nat, |i: int| digit_at(digits, i))
    }
}

/// The digits behind the decimal point.
pub open spec fn fraction_digits(digits: Seq<char>, point: int) -> Seq<char> {
    if point <= 0 {
        Seq::new((-point) as nat, |i: int| '0') + digits
    } else if point <= digits.len() {
        digits.skip(point)
    } else {
        Seq::empty()
    }
}

/// The amount of money with the given digits before and behind the decimal
/// point, in units, rounded down.
pub open spec fn units_of(whole: Seq<char>, fraction: Seq<char>) -> nat {
    (digits_value(whole) * UNITS_PER_DOLLAR + digits_value(fraction) * UNITS_PER_DOLLAR / pow(
        10,
        fraction.len(),
    )) as nat
}

/// The amount of dollars that a text spells, one unit at the least; nothing where
/// it is no decimal number, is negative, or as a double is zero or beyond what it
/// can hold.
pub open spec fn usd_in(s: Seq<char>) -> Usd {
    match numeral_in(s) {
        None => Usd { units: 0 },
        Some(n) => {
            let zeros = leading_zeros(n.digits);
            let digits = n.digits.skip(zeros as int);
            let point = n.point - zeros;
            if n.negative || digits.len() == 0 || beyond_double(digits, point) || vanishes(
                digits,
                point,
            ) {
                Usd { units: 0 }
            } else {
                crate::double::usd_above_zero(
                    units_of(whole_digits(digits, point), fraction_digits(digits, point)),
                )
            }
        },
    }
}

proof fn lemma_head(s: Seq<char>)
    requires
        s.len() > 0,
    ensures
        digits_value(s) == digit_value(s[0]) * pow(10, (s.len() - 1) as nat) + digits_value(
            s.skip(1),
        ),
    decreases s.len(),
{
    if s.len() == 1 {
        assert(s.drop_last() =~= Seq::<char>::empty());
        assert(s.skip(1) =~= Seq::<char>::empty());
        lemma_pow0(10);
    } else {
        lemma_head(s.drop_last());
        assert(s.drop_last().skip(1) =~= s.skip(1).drop_last());
        let n = (s.len() - 2) as nat;
        lemma_pow_adds(10, 1, n);
        lemma_pow1(10);
        let d = digit_value(s[0]) as int;
        let p = pow(10, n);
        assert(10 * (d * p) == d * (10 * p)) by (nonlinear_arith);
    }
}

proof fn lemma_value_bound(s: Seq<char>)
    requires
        all_digits(s),
    ensures
        digits_value(s) < pow(10, s.len()),
    decreases s.len(),
{
    if s.len() == 0 {
        lemma_pow0(10);
    } else {
        assert forall|i: int| 0 <= i < s.drop_last().len() implies is_digit(
            #[trigger] s.drop_last()[i],
        ) by {
            assert(is_digit(s[i]));
        }
        lemma_value_bound(s.drop_last());
        lemma_pow_adds(10, 1, (s.len() - 1) as nat);
        lemma_pow1(10);
        assert(is_digit(s.last()));
    }
}

/// Doubles a digit sequence in place; what runs over at the front is returned.
fn double_up(s: &mut Vec<char>) -> (carry: u8)
    requires
        all_digits(old(s)@),
    ensures
        all_digits(final(s)@),
        final(s)@.len() == old(s)@.len(),
        carry <= 1,
        2 * digits_value(old(s)@) == carry * pow(10, old(s)@.len()) + digits_value(final(s)@),
{
    let ghost before = s@;
    let mut carry: u8 = 0;
    let mut i: usize = s.len();
    proof {
        assert(before.skip(before.len() as int) =~= Seq::<char>::empty());
    }
    while i > 0
        invariant
            i <= before.len(),
            s@.len() == before.len(),
            carry <= 1,
            all_digits(before),
            forall|j: int| 0 <= j < i ==> s@[j] == before[j],
            forall|j: int| i <= j < s@.len() ==> is_digit(#[trigger] s@[j]),
            2 * digits_value(before.skip(i as int)) == carry * pow(10, (before.len() - i) as nat)
                + digits_value(s@.skip(i as int)),
        decreases i,
    {
        i = i - 1;
        assert(is_digit(before[i as int]));
        let d: u8 = value_of_digit(s[i]);
        let sum: u8 = 2 * d + carry;
        let ghost tail = s@.skip(i + 1);
        let ghost old_carry = carry;
        let fresh: u8 = if sum >= 10 {
            sum - 10
        } else {
            sum
        };
        carry = if sum >= 10 {
            1
        } else {
            0
        };
        s[i] = crate::text::digit(fresh);
        proof {
            assert(s@.skip(i + 1) =~= tail);
            assert(before.skip(i as int).skip(1) =~= before.skip(i + 1));
            assert(s@.skip(i as int).skip(1) =~= s@.skip(i + 1));
            lemma_head(before.skip(i as int));
            lemma_head(s@.skip(i as int));
            let n = (before.len() - i - 1) as nat;
            let p = pow(10, n);
            lemma_pow_adds(10, 1, n);
            lemma_pow1(10);
            assert(2 * (d * p) + old_carry * p == carry * (10 * p) + fresh * p)
                by (nonlinear_arith)
                requires
                    2 * d + old_carry == 10 * carry + fresh,
            ;
        }
    }
    proof {
        assert(before.skip(0) =~= before);
        assert(s@.skip(0) =~= s@);
    }
    carry
}

/// The fraction with the given digits, in units, rounded down.
fn fraction_units(digits: Vec<char>) -> (r: u128)
    requires
        all_digits(digits@),
    ensures
        r == digits_value(digits@) * UNITS_PER_DOLLAR / pow(10, digits@.len()),
        r < UNITS_PER_DOLLAR,
{
    let mut rest = digits;
    let mut acc: u128 = 0;
    let ghost v = digits_value(digits@) as int;
    let ghost p = pow(10, digits@.len());
    proof {
        lemma2_to64();
        lemma_pow_positive(10, digits@.len());
    }
    for i in 0..64u32
        invariant
            all_digits(rest@),
            rest@.len() == digits@.len(),
            p == pow(10, digits@.len()),
            acc < pow2(i as nat),
            v * pow2(i as nat) == acc * p + digits_value(rest@),
    {
        let ghost r0 = digits_value(rest@) as int;
        let carry: u8 = double_up(&mut rest);
        proof {
            lemma_pow2_unfold((i + 1) as nat);
            lemma_value_bound(rest@);
            if i + 1 < 64 {
                lemma_pow2_strictly_increases((i + 1) as nat, 64);
            }
            lemma2_to64_rest();
            let q = pow2(i as nat) as int;
            let r1 = digits_value(rest@) as int;
            assert(v * (2 * q) == (acc * 2 + carry) * p + r1) by (nonlinear_arith)
                requires
                    v * q == acc * p + r0,
                    2 * r0 == carry * p + r1,
            ;
        }
        acc = acc * 2 + carry as u128;
    }
    proof {
        lemma_value_bound(rest@);
        lemma2_to64_rest();
        let r = digits_value(rest@) as int;
        vstd::arithmetic::div_mod::lemma_fundamental_div_mod_converse(
            v * UNITS_PER_DOLLAR,
            p,
            acc as int,
            r,
        );
    }
    acc
}

/// Reads the number after an exponent mark; beyond 2^100 it is not told apart.
fn parse_exponent(s: &Vec<char>) -> (r: Option<i128>)
    ensures
        r is Some <==> exponent_in(s@) is Some,
        r matches Some(e) ==> {
            let n = exponent_in(s@)->0;
            if n > CAP {
                e > CAP
            } else if n < -CAP {
                e < -CAP
            } else {
                e == n
            }
        },
        r matches Some(e) ==> -0x20_0000_0000_0000_0000_0000_0000 <= e
            <= 0x20_0000_0000_0000_0000_0000_0000,
{
    let signed = s.len() > 0 && (s[0] == '-' || s[0] == '+');
    let from: usize = if signed {
        1
    } else {
        0
    };
    let negative = s.len() > 0 && s[0] == '-';
    proof {
        assert(s@.skip(0) =~= s@);
    }
    if from == s.len() {
        return None;
    }
    match value_from(s, from) {
        None => None,
        Some(v) => {
            let m: i128 = if v <= CAP {
                v as i128
            } else {
                0x20_0000_0000_0000_0000_0000_0000
            };
            if negative {
                Some(-m)
            } else {
                Some(m)
            }
        },
    }
}

/// Counts the zeros that a digit sequence begins with.
fn count_zeros(s: &Vec<char>) -> (r: usize)
    ensures
        r == leading_zeros(s@),
        r <= s@.len(),
{
    let mut i: usize = 0;
    assert(s@.skip(0) =~= s@);
    while i < s.len() && s[i] == '0'
        invariant
            i <= s@.len(),
            leading_zeros(s@) == i + leading_zeros(s@.skip(i as int)),
        decreases s@.len() - i,
    {
        assert(s@.skip(i as int).skip(1) =~= s@.skip(i + 1));
        i = i + 1;
    }
    i
}

/// Whether a number is beyond what a double can hold.
fn is_beyond_double(digits: &Vec<char>, point: i128) -> (r: bool)
    ensures
        r == beyond_double(digits@, point as int),
{
    let limit = crate::text::chars_of(
        "179769313486231580793728971405303415079934132710037826936173778980444968292764750946649017977587207096330286416692887910946555547851940402630657488671505820681908902000708383676273854845817711531764475730270069855571366959622842914819860834936475292719074168444365510704342711559699508093042880177904174497792",
    );
    if point != limit.len() as i128 {
        return point > limit.len() as i128;
    }
    for i in 0..limit.len()
        invariant
            limit@ == double_limit(),
            point == double_limit().len(),
            not_below(digits@, double_limit(), 0) == not_below(digits@, double_limit(), i as int),
    {
        let d: char = if i < digits.len() {
            digits[i]
        } else {
            '0'
        };
        assert(d == digit_at(digits@, i as int));
        if d != limit[i] {
            return d > limit[i];
        }
    }
    true
}

/// Whether a number is too small for a double.
fn has_vanished(digits: &Vec<char>, point: i128) -> (r: bool)
    ensures
        r == vanishes(digits@, point as int),
{
    if point != -323 {
        return point < -323;
    }
    let floor = crate::text::chars_of(
        "24703282292062327208828439643411068618252990130716238221279284125033775363510437593264991818081799618989828234772285886546332835517796989819938739800539093906315035659515570226392290858392449105184435931802849936536152500319370457678249219365623669863658480757001585769269903706311928279558551332927834338409351978015531246597263579574622766465272827220056374006485499977096599470454020828166226237857393450736339007967761930577506740176324673600968951340535537458516661134223766678604162159680461914467291840300530057530849048765391711386591646239524912623653881879636239373280423891018672348497668235089863388587925628302755995657524455507255189313690836254779186948667994968324049705821028513185451396213837722826145437693412532098591327667236328125",
    );
    let end: usize = if digits.len() > floor.len() {
        digits.len()
    } else {
        floor.len()
    };
    for i in 0..end
        invariant
            floor@ == double_floor(),
            point == -323,
            end >= digits@.len() && end >= floor@.len(),
            end == digits@.len() || end == floor@.len(),
            is_above(digits@, double_floor(), 0) == is_above(digits@, double_floor(), i as int),
    {
        let d: char = if i < digits.len() {
            digits[i]
        } else {
            '0'
        };
        let f: char = if i < floor.len() {
            floor[i]
        } else {
            '0'
        };
        assert(d == digit_at(digits@, i as int));
        assert(f == digit_at(double_floor(), i as int));
        if d != f {
            return d < f;
        }
    }
    true
}

proof fn lemma_limit_length()
    ensures
        double_limit().len() == 309,
{
    reveal_strlit("179769313486231580793728971405303415079934132710037826936173778980444968292764750946649017977587207096330286416692887910946555547851940402630657488671505820681908902000708383676273854845817711531764475730270069855571366959622842914819860834936475292719074168444365510704342711559699508093042880177904174497792");
}

proof fn lemma_zeros_in_front(digits: Seq<char>, n: nat)
    ensures
        digits_value(Seq::new(n, |i: int| '0') + digits) == digits_value(digits),
    decreases digits.len() + n,
{
    let zeros = Seq::new(n, |i: int| '0');
    let all = zeros + digits;
    if digits.len() > 0 {
        assert(all.drop_last() =~= zeros + digits.drop_last());
        lemma_zeros_in_front(digits.drop_last(), n);
    } else if n > 0 {
        assert(all.drop_last() =~= Seq::new((n - 1) as nat, |i: int| '0') + digits);
        lemma_zeros_in_front(digits, (n - 1) as nat);
    } else {
        assert(all =~= digits);
    }
}

/// A number below 10^-20 is less than one unit.
proof fn lemma_tiny(digits: Seq<char>, point: int)
    requires
        all_digits(digits),
        point < -20,
    ensures
        units_of(whole_digits(digits, point), fraction_digits(digits, point)) == 0,
{
    let n = (-point) as nat;
    let f = fraction_digits(digits, point);
    lemma_zeros_in_front(digits, n);
    lemma_value_bound(digits);
    let v = digits_value(digits) as int;
    lemma_pow_adds(10, n, digits.len());
    lemma_pow_increases(10, 20, n);
    assert(pow(10, 20) == 100_000_000_000_000_000_000) by {
        reveal_with_fuel(pow, 21);
    }
    let a = pow(10, n);
    let b = pow(10, digits.len());
    lemma_pow_positive(10, digits.len());
    assert(v * UNITS_PER_DOLLAR < a * b) by (nonlinear_arith)
        requires
            0 <= v < b,
            0 < UNITS_PER_DOLLAR < a,
    ;
    assert(f.len() == n + digits.len());
    vstd::arithmetic::div_mod::lemma_basic_div(v * UNITS_PER_DOLLAR, a * b);
}

/// The amount with the given digits, which do not begin with a zero.
fn usd_of_digits(digits: &Vec<char>, point: i128) -> (r: Usd)
    requires
        all_digits(digits@),
    ensures
        r == (if beyond_double(digits@, point as int) || vanishes(digits@, point as int) {
            Usd { units: 0 }
        } else {
            crate::double::usd_above_zero(
                units_of(
                    whole_digits(digits@, point as int),
                    fraction_digits(digits@, point as int),
                ),
            )
        }),
{
    if is_beyond_double(digits, point) || has_vanished(digits, point) {
        return Usd { units: 0 };
    }
    proof {
        lemma_limit_length();
    }
    if point < -20 {
        proof {
            lemma_tiny(digits@, point as int);
        }
        return Usd { units: 1 };
    }
    let ghost w = whole_digits(digits@, point as int);
    let ghost f = fraction_digits(digits@, point as int);
    let mut whole: Vec<char> = Vec::new();
    let mut fraction: Vec<char> = Vec::new();
    let lead: usize = if point > 0 {
        point as usize
    } else {
        0
    };
    let gap: usize = if point < 0 {
        (-point) as usize
    } else {
        0
    };
    for i in 0..lead
        invariant
            lead == 0 || lead == point,
            w == whole_digits(digits@, point as int),
            whole@ == w.take(i as int),
            lead == w.len(),
    {
        let c: char = if i < digits.len() {
            digits[i]
        } else {
            '0'
        };
        whole.push(c);
        assert(whole@ =~= w.take(i + 1));
    }
    assert(whole@ =~= w);
    assert(all_digits(w));
    for i in 0..gap
        invariant
            fraction@ == Seq::new(i as nat, |j: int| '0'),
    {
        fraction.push('0');
        assert(fraction@ =~= Seq::new((i + 1) as nat, |j: int| '0'));
    }
    if lead < digits.len() {
        let mut tail = crate::text::copy_range(digits, lead, digits.len());
        fraction.append(&mut tail);
    }
    assert(fraction@ =~= f);
    assert(all_digits(f)) by {
        assert forall|i: int| 0 <= i < f.len() implies is_digit(#[trigger] f[i]) by {
            if point <= 0 {
                if i >= -point {
                    assert(is_digit(digits@[i + point]));
                }
            } else {
                assert(is_digit(digits@[i + point]));
            }
        }
    }
    assert(w.skip(0) =~= w);
    let fraction_part: u128 = fraction_units(fraction);
    match value_from(&whole, 0) {
        Some(v) => {
            if v < UNITS_PER_DOLLAR {
                proof {
                    assert(v * UNITS_PER_DOLLAR + fraction_part <= u128::MAX) by (nonlinear_arith)
                        requires
                            v <= 0xffff_ffff_ffff_ffff,
                            fraction_part <= 0xffff_ffff_ffff_ffff,
                            UNITS_PER_DOLLAR == 0x1_0000_0000_0000_0000,
                    ;
                }
                let units: u128 = v * UNITS_PER_DOLLAR + fraction_part;
                Usd { units: if units == 0 { 1 } else { units } }
            } else {
                proof {
                    let n = digits_value(w);
                    assert(n * UNITS_PER_DOLLAR > u128::MAX) by (nonlinear_arith)
                        requires
                            n >= 0x1_0000_0000_0000_0000,
                            UNITS_PER_DOLLAR == 0x1_0000_0000_0000_0000,
                    ;
                }
                Usd { units: u128::MAX }
            }
        },
        None => Usd { units: 0 },
    }
}

/// The digits of a numeral, the number of them before the point as written,
/// and the exponent.
fn split_numeral(s: &Vec<char>) -> (r: Option<(Vec<char>, usize, i128)>)
    ensures
        r is Some <==> numeral_in(s@) is Some,
        r matches Some((digits, lead, e)) ==> {
            let n = numeral_in(s@)->0;
            &&& digits@ == n.digits
            &&& all_digits(digits@)
            &&& if e > CAP {
                n.point - lead > CAP
            } else if e < -CAP {
                n.point - lead < -CAP
            } else {
                n.point == lead + e
            }
            &&& -0x20_0000_0000_0000_0000_0000_0000 <= e <= 0x20_0000_0000_0000_0000_0000_0000
        },
{
    let from: usize = if s.len() > 0 && (s[0] == '-' || s[0] == '+') {
        1
    } else {
        0
    };
    let u = crate::text::copy_range(s, from, s.len());
    assert(u@ =~= unsigned_part(s@));
    let lower: usize = crate::text::find_char(&u, 'e');
    let upper: usize = crate::text::find_char(&u, 'E');
    let mark: usize = if lower <= upper {
        lower
    } else {
        upper
    };
    let body = crate::text::copy_range(&u, 0, mark);
    assert(body@ =~= u@.take(mark as int));
    let mut exponent: i128 = 0;
    if mark < u.len() {
        let x = crate::text::copy_range(&u, mark + 1, u.len());
        assert(x@ =~= u@.skip(mark + 1));
        match parse_exponent(&x) {
            None => {
                return None;
            },
            Some(e) => {
                exponent = e;
            },
        }
    }
    let dot: usize = crate::text::find_char(&body, '.');
    let whole = crate::text::copy_range(&body, 0, dot);
    assert(whole@ =~= body@.take(dot as int));
    let fraction = if dot < body.len() {
        crate::text::copy_range(&body, dot + 1, body.len())
    } else {
        Vec::new()
    };
    assert(fraction@ =~= after(body@, dot as int));
    assert(whole@.skip(0) =~= whole@);
    assert(fraction@.skip(0) =~= fraction@);
    if value_from(&whole, 0).is_none() || value_from(&fraction, 0).is_none() || (whole.len() == 0
        && fraction.len() == 0) {
        return None;
    }
    let lead: usize = whole.len();
    let mut digits = whole;
    let mut rest = fraction;
    digits.append(&mut rest);
    assert(digits@ =~= whole@ + fraction@);
    assert(all_digits(digits@)) by {
        assert forall|i: int| 0 <= i < digits@.len() implies is_digit(#[trigger] digits@[i]) by {
            if i < lead {
                assert(is_digit(whole@[i]));
            } else {
                assert(is_digit(fraction@[i - lead]));
            }
        }
    }
    Some((digits, lead, exponent))
}

/// Reads an amount of dollars.
pub fn parse_usd(s: &Vec<char>) -> (r: Usd)
    ensures
        r == usd_in(s@),
{
    let negative = s.len() > 0 && s[0] == '-';
    let (digits, lead, exponent) = match split_numeral(s) {
        None => {
            return Usd { units: 0 };
        },
        Some(parts) => parts,
    };
    let zeros: usize = count_zeros(&digits);
    let kept = crate::text::copy_range(&digits, zeros, digits.len());
    assert(kept@ =~= digits@.skip(zeros as int));
    if negative || kept.len() == 0 {
        return Usd { units: 0 };
    }
    assert(all_digits(kept@)) by {
        assert forall|i: int| 0 <= i < kept@.len() implies is_digit(#[trigger] kept@[i]) by {
            assert(is_digit(digits@[i + zeros]));
        }
    }
    let cap: i128 = CAP as i128;
    if exponent > cap || exponent < -cap {
        proof {
            lemma_limit_length();
        }
        return Usd { units: 0 };
    }
    usd_of_digits(&kept, lead as i128 + exponent - zeros as i128)
}

/// An integer is read from its notation, with or without a sign, as long as it fits;
/// a text that holds anything but a sign in front and digits is no integer.
pub proof fn law_integers_are_read(i: i64, s: Seq<char>)
    ensures
        integer_in(crate::text::signed_decimal(i as int)) == Some(i),
        i >= 0 ==> integer_in(seq!['+'] + crate::text::decimal(i as nat)) == Some(i),
        s.len() == 0 ==> integer_in(s) is None,
        (exists|k: int|
            0 <= k < s.len() && !('0' <= #[trigger] s[k] <= '9') && !(k == 0 && (s[k] == '-' || s[k]
                == '+'))) ==> integer_in(s) is None,
{
    let n = if i < 0 {
        (-i) as nat
    } else {
        i as nat
    };
    crate::text::law_decimal_stands_for_its_number(n);
    let d = crate::text::decimal(n);
    assert(is_digit(d[0]));
    assert((seq!['-'] + d).skip(1) =~= d);
    assert((seq!['+'] + d).skip(1) =~= d);
    assert(all_digits(d));
    if exists|k: int|
        0 <= k < s.len() && !('0' <= #[trigger] s[k] <= '9') && !(k == 0 && (s[k] == '-' || s[k]
            == '+')) {
        let k = choose|k: int|
            0 <= k < s.len() && !('0' <= #[trigger] s[k] <= '9') && !(k == 0 && (s[k] == '-' || s[k]
                == '+'));
        let u = unsigned_part(s);
        if u == s {
            assert(!is_digit(u[k]));
        } else {
            assert(k > 0);
            assert(u[k - 1] == s[k]);
            assert(!is_digit(u[k - 1]));
        }
    }
}

/// Integers beyond 64 bits are not read.
pub proof fn law_large_integers_are_not_read(n: nat)
    requires
        n > 0x7fff_ffff_ffff_ffff,
    ensures
        integer_in(crate::text::decimal(n)) is None,
{
    crate::text::law_decimal_stands_for_its_number(n);
    let d = crate::text::decimal(n);
    assert(is_digit(d[0]));
}

proof fn lemma_no_such_char(s: Seq<char>, c: char)
    requires
        forall|i: int| 0 <= i < s.len() ==> is_digit(#[trigger] s[i]) || s[i] == '.',
        !is_digit(c),
        c != '.',
    ensures
        !s.contains(c),
{
    if s.contains(c) {
        let i = choose|i: int| 0 <= i < s.len() && s[i] == c;
        assert(is_digit(s[i]) || s[i] == '.');
    }
}

/// Dollars are read from decimal notation: the digits in front of the point count
/// dollars, and those behind it, if there are any, the decimal fraction of one.
pub proof fn law_dollars_are_read(dollars: nat, fraction: Seq<char>)
    requires
        0 < dollars <= 0xffff_ffff_ffff_fffe,
        all_digits(fraction),
    ensures
        usd_in(crate::text::decimal(dollars)).units == dollars * 0x1_0000_0000_0000_0000,
        usd_in(crate::text::decimal(dollars).push('.') + fraction).units == dollars
            * 0x1_0000_0000_0000_0000 + (digits_value(fraction) as int * 0x1_0000_0000_0000_0000)
            / pow(10, fraction.len()),
{
    crate::text::law_decimal_stands_for_its_number(dollars);
    let d = crate::text::decimal(dollars);
    lemma_short(dollars);
    lemma_limit_length();
    assert(d.len() <= 20);
    assert(all_digits(d)) by {
        assert forall|i: int| 0 <= i < d.len() implies is_digit(#[trigger] d[i]) by {}
    }
    lemma_value_bound(fraction);
    lemma_pow_positive(10, fraction.len());
    let p = pow(10, fraction.len());
    let v = digits_value(fraction) as int;
    assert(0 <= v * 0x1_0000_0000_0000_0000 / p < 0x1_0000_0000_0000_0000) by (nonlinear_arith)
        requires
            0 <= v < p,
            p > 0,
    ;
    assert(dollars * 0x1_0000_0000_0000_0000 <= 0xffff_ffff_ffff_fffe * 0x1_0000_0000_0000_0000);
    // Whole dollars.
    lemma_no_such_char(d, 'e');
    lemma_no_such_char(d, 'E');
    crate::text::law_before_a_character(d, 'e', Seq::empty());
    crate::text::law_before_a_character(d, 'E', Seq::empty());
    assert(!d.contains('.')) by {
        if d.contains('.') {
            let i = choose|i: int| 0 <= i < d.len() && d[i] == '.';
            assert(is_digit(d[i]));
        }
    }
    crate::text::law_before_a_character(d, '.', Seq::empty());
    assert(is_digit(d[0]));
    assert(unsigned_part(d) == d);
    assert(d.take(d.len() as int) =~= d);
    assert(d + Seq::<char>::empty() =~= d);
    assert(leading_zeros(d) == 0);
    assert(d.skip(0) =~= d);
    assert(whole_digits(d, d.len() as int) =~= d);
    assert(fraction_digits(d, d.len() as int) =~= Seq::<char>::empty());
    lemma_pow0(10);
    assert(digits_value(Seq::<char>::empty()) == 0);
    assert(usd_in(d).units == dollars * 0x1_0000_0000_0000_0000);
    // Dollars and a fraction.
    let s = d.push('.') + fraction;
    assert forall|i: int| 0 <= i < s.len() implies is_digit(#[trigger] s[i]) || s[i] == '.' by {
        if i < d.len() {
            assert(s[i] == d[i]);
            assert(is_digit(d[i]));
        } else if i > d.len() {
            assert(s[i] == fraction[i - d.len() - 1]);
            assert(is_digit(fraction[i - d.len() - 1]));
        }
    }
    lemma_no_such_char(s, 'e');
    lemma_no_such_char(s, 'E');
    crate::text::law_before_a_character(s, 'e', Seq::empty());
    crate::text::law_before_a_character(s, 'E', Seq::empty());
    crate::text::law_before_a_character(d, '.', fraction);
    assert(s[0] == d[0]);
    assert(unsigned_part(s) == s);
    assert(s.take(s.len() as int) =~= s);
    assert(s.take(d.len() as int) =~= d);
    assert(after(s, d.len() as int) =~= fraction);
    let both = d + fraction;
    assert(both[0] == d[0]);
    assert(leading_zeros(both) == 0);
    assert(both.skip(0) =~= both);
    assert(whole_digits(both, d.len() as int) =~= d);
    assert(fraction_digits(both, d.len() as int) =~= fraction);
}

proof fn lemma_short(n: nat)
    requires
        n <= 0xffff_ffff_ffff_ffff,
    ensures
        crate::text::decimal(n).len() <= 20,
{
    reveal_with_fuel(crate::text::decimal, 21);
}

/// A negative amount, or a text that is no decimal number, is no cost.
pub proof fn law_what_is_no_cost(s: Seq<char>)
    ensures
        s.len() > 0 && s[0] == '-' ==> usd_in(s).units == 0,
        s.len() == 0 ==> usd_in(s).units == 0,
        numeral_in(s) is None ==> usd_in(s).units == 0,
{
    if s.len() == 0 {
        assert(numeral_in(s) is None) by {
            assert(unsigned_part(s) =~= s);
            assert(s.take(0) =~= s);
        }
    }
}

/// An exponent moves the decimal point: a numeral without sign and exponent, an `e` or `E`
/// and an integer spell the same digits with the point moved that far.
pub proof fn law_exponents_move_the_point(body: Seq<char>, exponent: Seq<char>, mark: char)
    requires
        body.len() > 0,
        body[0] != '-' && body[0] != '+',
        !body.contains('e'),
        !body.contains('E'),
        mark == 'e' || mark == 'E',
        numeral_in(body) is Some,
        exponent_in(exponent) is Some,
    ensures
        numeral_in(body.push(mark) + exponent) == Some(
            Numeral {
                negative: false,
                digits: numeral_in(body)->0.digits,
                point: numeral_in(body)->0.point + exponent_in(exponent)->0,
            },
        ),
{
    let s = body.push(mark) + exponent;
    assert(s[0] == body[0]);
    assert(unsigned_part(s) == s);
    assert(unsigned_part(body) == body);
    crate::text::law_before_a_character(body, 'e', exponent);
    crate::text::law_before_a_character(body, 'E', exponent);
    let other = if mark == 'e' {
        'E'
    } else {
        'e'
    };
    lemma_no_earlier(body.push(mark), other, exponent);
    assert(exponent_mark(s) == body.len());
    assert(exponent_mark(body) == body.len());
    assert(s.take(body.len() as int) =~= body);
    assert(body.take(body.len() as int) =~= body);
    assert(s.skip(body.len() as int + 1) =~= exponent);
}

proof fn lemma_no_earlier(front: Seq<char>, c: char, back: Seq<char>)
    requires
        !front.contains(c),
    ensures
        crate::text::position(front + back, c) >= front.len(),
{
    let s = front + back;
    crate::text::lemma_position(s, c, 0);
    let i = crate::text::position(s, c);
    if i < front.len() {
        assert(s[i] == front[i]);
        assert(front.contains(front[i]));
    }
}

/// The integer of an exponent is read with its sign.
pub proof fn law_exponents_are_read(n: nat)
    ensures
        exponent_in(crate::text::decimal(n)) == Some(n as int),
        exponent_in(seq!['+'] + crate::text::decimal(n)) == Some(n as int),
        exponent_in(seq!['-'] + crate::text::decimal(n)) == Some(-(n as int)),
        exponent_in(Seq::empty()) is None,
{
    crate::text::law_decimal_stands_for_its_number(n);
    let d = crate::text::decimal(n);
    assert(is_digit(d[0]));
    assert((seq!['-'] + d).skip(1) =~= d);
    assert((seq!['+'] + d).skip(1) =~= d);
    assert(all_digits(d));
}

/// An amount beyond what a double can hold, or too small for one, is no cost.
pub proof fn law_amounts_beyond_a_double(s: Seq<char>)
    requires
        numeral_in(s) is Some,
        numeral_in(s)->0.digits.len() > 0,
        numeral_in(s)->0.digits[0] != '0',
        numeral_in(s)->0.point > 309 || numeral_in(s)->0.point < -323,
    ensures
        usd_in(s).units == 0,
{
    lemma_limit_length();
    let d = numeral_in(s)->0.digits;
    assert(leading_zeros(d) == 0);
    assert(d.skip(0) =~= d);
}

} // verus!
