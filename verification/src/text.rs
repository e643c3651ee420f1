//! Text helpers: strings seen as sequences of characters.

use vstd::prelude::*;

verus! {

/// `String::push` appends one character to the end of the string.
pub assume_specification[ String::push ](s: &mut String, c: char)
    ensures
        final(s)@ == old(s)@.push(c),
;

/// The characters of `s`, in order.
pub fn chars_of(s: &str) -> (r: Vec<char>)
    ensures
        r@ == s@,
{
    let mut out: Vec<char> = Vec::new();
    for c in it: s.chars()
        invariant
            it.seq() == s@,
            out@ == it.seq().take(it.index()),
    {
        out.push(c);
    }
    proof {
        assert(s@.take(s@.len() as int) =~= s@);
    }
    out
}

/// The string that consists of the given characters.
pub fn text_of(chars: &Vec<char>) -> (r: String)
    ensures
        r@ == chars@,
{
    let mut out = String::new();
    for i in 0..chars.len()
        invariant
            out@ == chars@.take(i as int),
    {
        out.push(chars[i]);
    }
    proof {
        assert(chars@.take(chars@.len() as int) =~= chars@);
    }
    out
}

/// Whether two strings hold the same characters.
pub fn same_text(a: &str, b: &str) -> (r: bool)
    ensures
        r == (a@ == b@),
{
    let left = chars_of(a);
    let right = chars_of(b);
    if left.len() != right.len() {
        return false;
    }
    for i in 0..left.len()
        invariant
            left@ == a@,
            right@ == b@,
            left@.len() == right@.len(),
            forall|j: int| 0 <= j < i ==> left@[j] == right@[j],
    {
        if left[i] != right[i] {
            return false;
        }
    }
    assert(left@ =~= right@);
    true
}

/// Appends a text.
pub fn push_text(out: &mut String, s: &str)
    ensures
        final(out)@ == old(out)@ + s@,
{
    let ghost start = out@;
    for c in it: s.chars()
        invariant
            it.seq() == s@,
            out@ == start + it.seq().take(it.index()),
    {
        out.push(c);
    }
    assert(s@.take(s@.len() as int) =~= s@);
}

/// Whether a string holds no characters.
pub fn is_empty(s: &str) -> (r: bool)
    ensures
        r == (s@.len() == 0),
{
    s.is_empty()
}

/// The decimal digit for a value below ten.
pub open spec fn digit_char(d: nat) -> char {
    (48 + d) as char
}

/// The decimal notation of a natural number, without leading zeros.
pub open spec fn decimal(n: nat) -> Seq<char>
    decreases n,
{
    if n < 10 {
        seq![digit_char(n)]
    } else {
        decimal(n / 10).push(digit_char(n % 10))
    }
}

/// The decimal notation of an integer, with a minus sign where it is negative.
pub open spec fn signed_decimal(n: int) -> Seq<char> {
    if n < 0 {
        seq!['-'] + decimal((-n) as nat)
    } else {
        decimal(n as nat)
    }
}

/// The decimal digit of a value below ten.
pub fn digit(d: u8) -> (c: char)
    requires
        d < 10,
    ensures
        c == digit_char(d as nat),
{
    (48u8 + d) as char
}

/// Appends the decimal notation of `n`.
pub fn push_decimal(out: &mut String, n: u128)
    ensures
        final(out)@ == old(out)@ + decimal(n as nat),
    decreases n,
{
    if n >= 10 {
        push_decimal(out, n / 10);
    }
    out.push(digit((n % 10) as u8));
    proof {
        if n < 10 {
            assert(old(out)@.push(digit_char(n as nat)) =~= old(out)@ + decimal(n as nat));
        } else {
            assert((old(out)@ + decimal((n / 10) as nat)).push(digit_char((n % 10) as nat))
                =~= old(out)@ + decimal(n as nat));
        }
    }
}

/// The decimal notation of an unsigned number.
pub fn decimal_text(n: u128) -> (r: String)
    ensures
        r@ == decimal(n as nat),
{
    let mut out = String::new();
    push_decimal(&mut out, n);
    assert(Seq::<char>::empty() + decimal(n as nat) =~= decimal(n as nat));
    out
}

/// The decimal notation of a signed number.
pub fn signed_decimal_text(n: i64) -> (r: String)
    ensures
        r@ == signed_decimal(n as int),
{
    if n < 0 {
        let mut out = String::new();
        out.push('-');
        let magnitude: u128 = (-(n as i128)) as u128;
        push_decimal(&mut out, magnitude);
        assert(out@ =~= signed_decimal(n as int));
        out
    } else {
        decimal_text(n as u128)
    }
}

/// The hexadecimal digit, in lower case, for a value below sixteen.
pub open spec fn hex_char(d: int) -> char {
    if d < 10 {
        (48 + d) as char
    } else {
        (87 + d) as char
    }
}

/// The bytes in order, two lower-case hexadecimal digits each.
pub open spec fn hex_of(bytes: Seq<u8>) -> Seq<char>
    decreases bytes.len(),
{
    if bytes.len() == 0 {
        seq![]
    } else {
        hex_of(bytes.drop_last()).push(hex_char(bytes.last() as int / 16)).push(
            hex_char(bytes.last() as int % 16),
        )
    }
}

fn hex_digit(d: u8) -> (c: char)
    requires
        d < 16,
    ensures
        c == hex_char(d as int),
{
    if d < 10 {
        (48u8 + d) as char
    } else {
        (87u8 + d) as char
    }
}

/// Two lower-case hexadecimal digits for each byte.
pub fn hex(bytes: &Vec<u8>) -> (r: String)
    ensures
        r@ == hex_of(bytes@),
{
    let mut out = String::new();
    for i in 0..bytes.len()
        invariant
            out@ == hex_of(bytes@.take(i as int)),
    {
        let b = bytes[i];
        out.push(hex_digit(b / 16));
        out.push(hex_digit(b % 16));
        assert(bytes@.take(i + 1).drop_last() =~= bytes@.take(i as int));
    }
    assert(bytes@.take(bytes@.len() as int) =~= bytes@);
    out
}

/// The control characters: C0, DEL and C1.
pub open spec fn control_char(c: char) -> bool {
    (c as int) < 32 || 127 <= (c as int) <= 159
}

/// Whether `c` is a control character.
pub fn is_control(c: char) -> (r: bool)
    ensures
        r == control_char(c),
{
    let code: u32 = c as u32;
    code < 32 || (127 <= code && code <= 159)
}

/// The characters that Unicode lists as white space.
pub open spec fn white_space(c: char) -> bool {
    let n = c as int;
    ||| 9 <= n <= 13
    ||| n == 32
    ||| n == 0x85
    ||| n == 0xa0
    ||| n == 0x1680
    ||| 0x2000 <= n <= 0x200a
    ||| n == 0x2028
    ||| n == 0x2029
    ||| n == 0x202f
    ||| n == 0x205f
    ||| n == 0x3000
}

fn is_white_space(c: char) -> (r: bool)
    ensures
        r == white_space(c),
{
    let n: u32 = c as u32;
    (9 <= n && n <= 13) || n == 32 || n == 0x85 || n == 0xa0 || n == 0x1680 || (0x2000 <= n && n
        <= 0x200a) || n == 0x2028 || n == 0x2029 || n == 0x202f || n == 0x205f || n == 0x3000
}

/// `s` without the white space at its two ends.
pub open spec fn trimmed(s: Seq<char>) -> Seq<char>
    decreases s.len(),
{
    if s.len() > 0 && white_space(s.last()) {
        trimmed(s.drop_last())
    } else if s.len() > 0 && white_space(s[0]) {
        trimmed(s.drop_first())
    } else {
        s
    }
}

/// The characters without the white space at their two ends.
pub fn trim(s: &Vec<char>) -> (r: Vec<char>)
    ensures
        r@ == trimmed(s@),
{
    let mut from: usize = 0;
    let mut to: usize = s.len();
    assert(s@.subrange(0, s@.len() as int) =~= s@);
    while from < to && is_white_space(s[to - 1])
        invariant
            from == 0,
            to <= s@.len(),
            trimmed(s@) == trimmed(s@.subrange(0, to as int)),
        decreases to,
    {
        assert(s@.subrange(0, to as int).drop_last() =~= s@.subrange(0, to - 1));
        to = to - 1;
    }
    while from < to && is_white_space(s[from])
        invariant
            from <= to <= s@.len(),
            from < to ==> !white_space(s@[to - 1]),
            trimmed(s@) == trimmed(s@.subrange(from as int, to as int)),
        decreases to - from,
    {
        assert(s@.subrange(from as int, to as int).drop_first() =~= s@.subrange(from + 1, to as int));
        from = from + 1;
    }
    copy_range(s, from, to)
}

/// The characters at the positions from `from` up to `to`.
pub fn copy_range(s: &Vec<char>, from: usize, to: usize) -> (r: Vec<char>)
    requires
        from <= to <= s@.len(),
    ensures
        r@ == s@.subrange(from as int, to as int),
{
    let mut out: Vec<char> = Vec::new();
    let mut i: usize = from;
    while i < to
        invariant
            from <= i <= to <= s@.len(),
            out@ == s@.subrange(from as int, i as int),
        decreases to - i,
    {
        out.push(s[i]);
        i = i + 1;
    }
    out
}

/// The position of the first `c` at or after `from`, or the length of `s` where there is none.
pub open spec fn position_from(s: Seq<char>, c: char, from: int) -> int
    decreases s.len() - from,
{
    if from >= s.len() {
        s.len() as int
    } else if s[from] == c {
        from
    } else {
        position_from(s, c, from + 1)
    }
}

/// The position of the first `c` in `s`, or the length of `s` where there is none.
pub open spec fn position(s: Seq<char>, c: char) -> int {
    position_from(s, c, 0)
}

/// What `s` holds before its first `c`: all of it where there is no `c`.
pub open spec fn before(s: Seq<char>, c: char) -> Seq<char> {
    s.take(position(s, c))
}

/// Where the first `c` stands; without one, the length.
pub fn find_char(s: &Vec<char>, c: char) -> (r: usize)
    ensures
        r == position(s@, c),
        r <= s@.len(),
        forall|j: int| 0 <= j < r ==> s@[j] != c,
        r < s@.len() ==> s@[r as int] == c,
{
    let mut i: usize = 0;
    while i < s.len() && s[i] != c
        invariant
            i <= s@.len(),
            position(s@, c) == position_from(s@, c, i as int),
            forall|j: int| 0 <= j < i ==> s@[j] != c,
        decreases s@.len() - i,
    {
        i = i + 1;
    }
    i
}

/// The ASCII letter in lower case; any other character as it is.
pub open spec fn ascii_lower_char(c: char) -> char {
    if 'A' as int <= c as int <= 'Z' as int {
        (c as int + 32) as char
    } else {
        c
    }
}

/// `s` with its ASCII letters in lower case.
pub open spec fn ascii_lower(s: Seq<char>) -> Seq<char> {
    s.map_values(|c: char| ascii_lower_char(c))
}

fn lower_char(c: char) -> (r: char)
    ensures
        r == ascii_lower_char(c),
{
    let n: u32 = c as u32;
    if 65 <= n && n <= 90 {
        (n as u8 + 32u8) as char
    } else {
        c
    }
}

/// The characters with ASCII letters in lower case.
pub fn to_ascii_lower(s: &Vec<char>) -> (r: Vec<char>)
    ensures
        r@ == ascii_lower(s@),
{
    let mut out: Vec<char> = Vec::new();
    for i in 0..s.len()
        invariant
            out@ == ascii_lower(s@.take(i as int)),
    {
        out.push(lower_char(s[i]));
        assert(out@ =~= ascii_lower(s@.take(i + 1)));
    }
    assert(s@.take(s@.len() as int) =~= s@);
    out
}

/// Texts put together, one after the other.
pub open spec fn glued(parts: Seq<Seq<char>>) -> Seq<char>
    decreases parts.len(),
{
    if parts.len() == 0 {
        Seq::empty()
    } else {
        glued(parts.drop_last()) + parts.last()
    }
}

/// Texts put together with a separator between them.
pub open spec fn joined(parts: Seq<Seq<char>>, separator: Seq<char>) -> Seq<char>
    decreases parts.len(),
{
    if parts.len() == 0 {
        Seq::empty()
    } else if parts.len() == 1 {
        parts[0]
    } else {
        joined(parts.drop_last(), separator) + separator + parts.last()
    }
}

/// The texts of strings.
pub open spec fn texts(s: Seq<String>) -> Seq<Seq<char>> {
    Seq::new(s.len(), |i: int| s[i]@)
}

/// Puts texts together.
pub fn glue(parts: &Vec<String>) -> (r: String)
    ensures
        r@ == glued(texts(parts@)),
{
    let mut out = String::new();
    let ghost all = texts(parts@);
    assert(out@ =~= glued(all.take(0)));
    for i in 0..parts.len()
        invariant
            all == texts(parts@),
            out@ == glued(all.take(i as int)),
    {
        assert(all.take(i + 1).drop_last() =~= all.take(i as int));
        assert(all[i as int] == parts@[i as int]@);
        push_text(&mut out, parts[i].as_str());
    }
    assert(all.take(all.len() as int) =~= all);
    out
}

/// Puts texts together with a separator between them.
pub fn join(parts: &Vec<String>, separator: &str) -> (r: String)
    ensures
        r@ == joined(texts(parts@), separator@),
{
    let mut out = String::new();
    let ghost all = texts(parts@);
    assert(out@ =~= joined(all.take(0), separator@));
    for i in 0..parts.len()
        invariant
            all == texts(parts@),
            out@ == joined(all.take(i as int), separator@),
    {
        assert(all.take(i + 1).drop_last() =~= all.take(i as int));
        assert(all[i as int] == parts@[i as int]@);
        if i > 0 {
            push_text(&mut out, separator);
        }
        push_text(&mut out, parts[i].as_str());
        assert(i == 0 ==> out@ =~= all[0]);
    }
    assert(all.take(all.len() as int) =~= all);
    out
}

/// A character as it is shown: a control character by its number.
pub open spec fn clean_char(c: char) -> Seq<char> {
    if control_char(c) {
        let n = c as int;
        if n < 16 {
            seq!['\\', 'u', '{', hex_char(n), '}']
        } else {
            seq!['\\', 'u', '{', hex_char(n / 16), hex_char(n % 16), '}']
        }
    } else {
        seq![c]
    }
}

/// A text as it is shown: control characters stand as `\u{..}`.
pub open spec fn cleaned(s: Seq<char>) -> Seq<char>
    decreases s.len(),
{
    if s.len() == 0 {
        Seq::empty()
    } else {
        cleaned(s.drop_last()) + clean_char(s.last())
    }
}

/// Appends a character as it is shown.
fn push_clean(out: &mut String, c: char)
    ensures
        final(out)@ == old(out)@ + clean_char(c),
{
    let ghost before = out@;
    if is_control(c) {
        let code: u32 = c as u32;
        let n: u8 = code as u8;
        out.push('\\');
        out.push('u');
        out.push('{');
        if n >= 16 {
            out.push(hex_digit(n / 16));
            out.push(hex_digit(n % 16));
        } else {
            out.push(hex_digit(n));
        }
        out.push('}');
    } else {
        out.push(c);
    }
    assert(out@ =~= before + clean_char(c));
}

/// A text as it is shown.
pub fn clean(s: &str) -> (r: String)
    ensures
        r@ == cleaned(s@),
{
    let chars = chars_of(s);
    let mut out = String::new();
    assert(out@ =~= cleaned(chars@.take(0)));
    for i in 0..chars.len()
        invariant
            chars@ == s@,
            out@ == cleaned(chars@.take(i as int)),
    {
        assert(chars@.take(i + 1).drop_last() =~= chars@.take(i as int));
        push_clean(&mut out, chars[i]);
    }
    assert(chars@.take(chars@.len() as int) =~= chars@);
    out
}

/// Whether a text holds no control character.
pub open spec fn printable(s: Seq<char>) -> bool {
    forall|i: int| 0 <= i < s.len() ==> !control_char(#[trigger] s[i])
}

proof fn lemma_clean_char(c: char)
    ensures
        printable(clean_char(c)),
{
    let shown = clean_char(c);
    let n = c as int;
    assert forall|i: int| 0 <= i < shown.len() implies !control_char(#[trigger] shown[i]) by {
        if control_char(c) {
            assert(0 <= n / 16 < 10);
            assert(0 <= n % 16 < 16);
        }
    }
}

/// A cleaned text holds no control character.
pub proof fn law_cleaned_is_printable(s: Seq<char>)
    ensures
        printable(cleaned(s)),
    decreases s.len(),
{
    if s.len() > 0 {
        law_cleaned_is_printable(s.drop_last());
        let front = cleaned(s.drop_last());
        let last = clean_char(s.last());
        lemma_clean_char(s.last());
        assert forall|i: int| 0 <= i < cleaned(s).len() implies !control_char(
            #[trigger] cleaned(s)[i],
        ) by {
            if i < front.len() {
                assert(!control_char(front[i]));
            } else {
                assert(!control_char(last[i - front.len()]));
            }
        }
    }
}

/// What `str::to_uppercase` makes of a text.
pub uninterp spec fn uppercase_of(s: Seq<char>) -> Seq<char>;

/// The text in upper case, from `str::to_uppercase`. The result is named, not
/// described: it follows the Unicode tables.
#[verifier::external_body]
pub(crate) fn to_uppercase(s: &str) -> (r: String)
    ensures
        r@ == uppercase_of(s@),
{
    s.to_uppercase()
}

/// Decimal notation stands for its number: it is made of digits, begins with no zero
/// but for zero itself, and read digit by digit it gives the number back.
pub proof fn law_decimal_stands_for_its_number(n: nat)
    ensures
        decimal(n).len() > 0,
        forall|i: int| 0 <= i < decimal(n).len() ==> '0' <= #[trigger] decimal(n)[i] <= '9',
        n > 0 ==> decimal(n)[0] != '0',
        n == 0 ==> decimal(n) == seq!['0'],
        crate::number::digits_value(decimal(n)) == n,
    decreases n,
{
    if n < 10 {
        let d = digit_char(n);
        assert(decimal(n) =~= seq![d]);
        assert(decimal(n).drop_last() =~= Seq::<char>::empty());
        assert(crate::number::digits_value(decimal(n).drop_last()) == 0);
        assert(d as int == 48 + n);
    } else {
        law_decimal_stands_for_its_number(n / 10);
        let d = digit_char(n % 10);
        assert(d as int == 48 + n % 10);
        assert(decimal(n).drop_last() =~= decimal(n / 10));
        assert(decimal(n)[0] == decimal(n / 10)[0]);
        assert forall|i: int| 0 <= i < decimal(n).len() implies '0' <= #[trigger] decimal(n)[i]
            <= '9' by {
            if i < decimal(n / 10).len() {
                assert(decimal(n)[i] == decimal(n / 10)[i]);
            }
        }
    }
}

/// A negative number is shown with a minus sign before its magnitude, any other
/// without a sign.
pub proof fn law_signs(n: int)
    ensures
        n >= 0 ==> signed_decimal(n) == decimal(n as nat),
        n < 0 ==> signed_decimal(n) == seq!['-'] + decimal((-n) as nat),
{
}

/// Each byte is shown by two hexadecimal digits in lower case, the higher one first,
/// in the order of the bytes.
pub proof fn law_bytes_in_hexadecimal(bytes: Seq<u8>)
    ensures
        hex_of(bytes).len() == 2 * bytes.len(),
        forall|i: int|
            0 <= i < bytes.len() ==> hex_of(bytes)[2 * i]
                == "0123456789abcdef"@[#[trigger] bytes[i] as int / 16] && hex_of(bytes)[2 * i + 1]
                == "0123456789abcdef"@[bytes[i] as int % 16],
    decreases bytes.len(),
{
    reveal_strlit("0123456789abcdef");
    if bytes.len() > 0 {
        let front = bytes.drop_last();
        law_bytes_in_hexadecimal(front);
        let b = bytes.last() as int;
        lemma_hex_digit(b / 16);
        lemma_hex_digit(b % 16);
        assert forall|i: int| 0 <= i < bytes.len() implies hex_of(bytes)[2 * i]
            == "0123456789abcdef"@[#[trigger] bytes[i] as int / 16] && hex_of(bytes)[2 * i + 1]
            == "0123456789abcdef"@[bytes[i] as int % 16] by {
            if i < front.len() {
                assert(front[i] == bytes[i]);
                assert(hex_of(bytes)[2 * i] == hex_of(front)[2 * i]);
                assert(hex_of(bytes)[2 * i + 1] == hex_of(front)[2 * i + 1]);
            }
        }
    }
}

proof fn lemma_hex_digit(d: int)
    requires
        0 <= d < 16,
    ensures
        hex_char(d) == "0123456789abcdef"@[d],
{
    reveal_strlit("0123456789abcdef");
    assert(hex_char(0) == '0' && hex_char(1) == '1' && hex_char(2) == '2' && hex_char(3) == '3');
    assert(hex_char(4) == '4' && hex_char(5) == '5' && hex_char(6) == '6' && hex_char(7) == '7');
    assert(hex_char(8) == '8' && hex_char(9) == '9' && hex_char(10) == 'a' && hex_char(11) == 'b');
    assert(hex_char(12) == 'c' && hex_char(13) == 'd' && hex_char(14) == 'e' && hex_char(15) == 'f');
    assert(d == 0 || d == 1 || d == 2 || d == 3 || d == 4 || d == 5 || d == 6 || d == 7 || d == 8 || d
        == 9 || d == 10 || d == 11 || d == 12 || d == 13 || d == 14 || d == 15);
}

/// Trimming removes the white space around a text and nothing else.
pub proof fn law_trimming(front: Seq<char>, s: Seq<char>, back: Seq<char>)
    requires
        forall|i: int| 0 <= i < front.len() ==> white_space(#[trigger] front[i]),
        forall|i: int| 0 <= i < back.len() ==> white_space(#[trigger] back[i]),
        s.len() > 0 ==> !white_space(s[0]) && !white_space(s.last()),
    ensures
        trimmed(front + s + back) == s,
        white_space(' ') && white_space('\t') && white_space('\n') && white_space('\r'),
        forall|c: char| '!' <= c <= '~' ==> !#[trigger] white_space(c),
    decreases front.len() + back.len(),
{
    let t = front + s + back;
    if back.len() > 0 {
        assert(white_space(back[back.len() - 1]));
        assert(t.last() == back.last());
        assert(t.drop_last() =~= front + s + back.drop_last());
        law_trimming(front, s, back.drop_last());
    } else {
        assert(t =~= front + s);
        if s.len() > 0 {
            assert(t.last() == s.last());
            if front.len() > 0 {
                assert(white_space(front[0]));
                assert(t[0] == front[0]);
                assert(t.drop_first() =~= front.drop_first() + s + back);
                law_trimming(front.drop_first(), s, back);
            } else {
                assert(t =~= s);
            }
        } else if front.len() > 0 {
            assert(white_space(front[front.len() - 1]));
            assert(t.last() == front.last());
            assert(t.drop_last() =~= front.drop_last() + s + back);
            law_trimming(front.drop_last(), s, back);
        } else {
            assert(t =~= s);
        }
    }
}

pub proof fn lemma_position(s: Seq<char>, c: char, from: int)
    requires
        0 <= from <= s.len(),
    ensures
        from <= position_from(s, c, from) <= s.len(),
        forall|j: int| from <= j < position_from(s, c, from) ==> s[j] != c,
        position_from(s, c, from) < s.len() ==> s[position_from(s, c, from)] == c,
    decreases s.len() - from,
{
    if from < s.len() && s[from] != c {
        lemma_position(s, c, from + 1);
    }
}

/// What stands before the first `c` holds no `c`; it is all of the text where there
/// is none, and else a `c` stands behind it.
pub proof fn law_before_a_character(front: Seq<char>, c: char, back: Seq<char>)
    requires
        !front.contains(c),
    ensures
        before(front, c) == front,
        position(front, c) == front.len(),
        before(front.push(c) + back, c) == front,
        position(front.push(c) + back, c) == front.len(),
{
    lemma_position(front, c, 0);
    let s = front.push(c) + back;
    lemma_position(s, c, 0);
    if position(front, c) < front.len() {
        assert(front.contains(front[position(front, c)]));
    }
    assert(s[front.len() as int] == c);
    if position(s, c) < front.len() {
        assert(s[position(s, c)] == front[position(s, c)]);
        assert(front.contains(front[position(s, c)]));
    }
    assert(before(front, c) =~= front);
    assert(before(s, c) =~= front);
}

/// Texts are joined in order, with the separator between each two of them.
pub proof fn law_joining(parts: Seq<Seq<char>>, last: Seq<char>, separator: Seq<char>)
    ensures
        joined(Seq::empty(), separator).len() == 0,
        joined(seq![last], separator) == last,
        parts.len() > 0 ==> joined(parts.push(last), separator) == joined(parts, separator)
            + separator + last,
{
    assert(parts.push(last).drop_last() =~= parts);
}

/// Texts are put together in order, with nothing between them.
pub proof fn law_gluing(parts: Seq<Seq<char>>, last: Seq<char>)
    ensures
        glued(Seq::empty()).len() == 0,
        glued(parts.push(last)) == glued(parts) + last,
{
    assert(parts.push(last).drop_last() =~= parts);
}

/// Cleaning goes character by character: one that is no control character stays as
/// it is, and a control character is shown by its number in hexadecimal.
pub proof fn law_cleaning_goes_by_characters(a: Seq<char>, b: Seq<char>, c: char)
    ensures
        cleaned(Seq::empty()).len() == 0,
        cleaned(a + b) == cleaned(a) + cleaned(b),
        (' ' <= c <= '~') || c as int >= 160 ==> cleaned(seq![c]) == seq![c],
        (c as int) < 16 ==> cleaned(seq![c]) == seq![
            '\\',
            'u',
            '{',
            "0123456789abcdef"@[c as int],
            '}',
        ],
        16 <= (c as int) < 32 || 127 <= (c as int) <= 159 ==> cleaned(seq![c]) == seq![
            '\\',
            'u',
            '{',
            "0123456789abcdef"@[c as int / 16],
            "0123456789abcdef"@[c as int % 16],
            '}',
        ],
    decreases b.len(),
{
    let one = seq![c];
    assert(one.drop_last() =~= Seq::<char>::empty());
    assert(cleaned(one.drop_last()) =~= Seq::<char>::empty());
    assert(one.last() == c);
    assert(cleaned(one) =~= clean_char(c));
    if (c as int) < 160 {
        lemma_hex_digit(c as int / 16);
        lemma_hex_digit(c as int % 16);
    }
    if b.len() == 0 {
        assert(a + b =~= a);
        assert(cleaned(a) + cleaned(b) =~= cleaned(a));
    } else {
        law_cleaning_goes_by_characters(a, b.drop_last(), c);
        assert((a + b).drop_last() =~= a + b.drop_last());
        assert(cleaned(a + b) =~= cleaned(a) + cleaned(b));
    }
}

/// In lower case an ASCII capital is the small letter of the same place in the
/// alphabet, and any other character is itself.
pub proof fn law_lower_case(s: Seq<char>)
    ensures
        ascii_lower(s).len() == s.len(),
        forall|i: int|
            0 <= i < s.len() && 'A' <= #[trigger] s[i] <= 'Z' ==> ascii_lower(s)[i] as int - 'a' as int
                == s[i] as int - 'A' as int,
        forall|i: int|
            0 <= i < s.len() && !('A' <= #[trigger] s[i] <= 'Z') ==> ascii_lower(s)[i] == s[i],
{
}

} // verus!
