//! Which of the daily files are removed.

use crate::text::chars_of;
use vstd::prelude::*;

verus! {

/// The nanoseconds of a day.
pub const DAY_NANOS: i128 = 86_400_000_000_000;

/// How the names of daily files begin.
pub open spec fn rotation_prefix() -> Seq<char> {
    "otel-logger."@
}

/// A file in the directory of daily files.
pub struct LogEntry {
    /// Its name, where that is text.
    pub name: Option<String>,
    /// Whether it is a regular file; a symbolic link is none.
    pub is_file: bool,
    /// When it was written last, in nanoseconds since the Unix epoch, where that
    /// is known.
    pub modified: Option<i128>,
}

/// Whether a year of the Gregorian calendar has a 29th of February.
pub open spec fn leap_year(year: int) -> bool {
    year % 4 == 0 && (year % 100 != 0 || year % 400 == 0)
}

/// The number of days of a month.
pub open spec fn days_in_month(year: int, month: int) -> int {
    if month == 2 {
        if leap_year(year) {
            29
        } else {
            28
        }
    } else if month == 4 || month == 6 || month == 9 || month == 11 {
        30
    } else {
        31
    }
}

/// Whether the calendar has a day.
pub open spec fn calendar_day(year: int, month: int, day: int) -> bool {
    1 <= month <= 12 && 1 <= day <= days_in_month(year, month)
}

/// Whether the calendar has a day, from `time::Month::try_from` and
/// `time::Date::from_calendar_date`: for the years from 0 to 9999 they accept
/// the days of the Gregorian calendar, and no other.
#[verifier::external_body]
fn is_calendar_day(year: i32, month: u8, day: u8) -> (r: bool)
    requires
        0 <= year <= 9999,
    ensures
        r == calendar_day(year as int, month as int, day as int),
{
    match time::Month::try_from(month) {
        Ok(m) => time::Date::from_calendar_date(year, m, day).is_ok(),
        Err(_) => false,
    }
}

/// Whether a character is a decimal digit.
pub open spec fn decimal_digit(c: char) -> bool {
    48 <= c as int <= 57
}

/// The value of a decimal digit.
pub open spec fn digit_value(c: char) -> int {
    c as int - 48
}

/// The number that two digits write.
pub open spec fn two_digits(s: Seq<char>, at: int) -> int {
    10 * digit_value(s[at]) + digit_value(s[at + 1])
}

/// Whether a text is a day as YYYY-MM-DD.
pub open spec fn day_text(s: Seq<char>) -> bool {
    &&& s.len() == 10
    &&& s[4] == '-'
    &&& s[7] == '-'
    &&& decimal_digit(s[0]) && decimal_digit(s[1]) && decimal_digit(s[2]) && decimal_digit(s[3])
    &&& decimal_digit(s[5]) && decimal_digit(s[6])
    &&& decimal_digit(s[8]) && decimal_digit(s[9])
    &&& calendar_day(100 * two_digits(s, 0) + two_digits(s, 2), two_digits(s, 5), two_digits(s, 8))
}

/// Whether a name is that of a daily file.
pub open spec fn rotated_name(s: Seq<char>) -> bool {
    &&& s.len() >= rotation_prefix().len()
    &&& s.take(rotation_prefix().len() as int) == rotation_prefix()
    &&& day_text(s.skip(rotation_prefix().len() as int))
}

fn read_digit(c: char) -> (r: Option<u8>)
    ensures
        r is Some <==> decimal_digit(c),
        r matches Some(d) ==> d < 10 && d == digit_value(c),
{
    let n: u32 = c as u32;
    if 48 <= n && n <= 57 {
        Some((n - 48) as u8)
    } else {
        None
    }
}

fn read_two_digits(s: &Vec<char>, at: usize) -> (r: Option<u8>)
    requires
        at + 1 < s.len(),
    ensures
        r is Some <==> decimal_digit(s@[at as int]) && decimal_digit(s@[at + 1]),
        r matches Some(n) ==> n < 100 && n == two_digits(s@, at as int),
{
    match (read_digit(s[at]), read_digit(s[at + 1])) {
        (Some(a), Some(b)) => Some(10 * a + b),
        _ => None,
    }
}

fn is_day_text(s: &Vec<char>) -> (r: bool)
    ensures
        r == day_text(s@),
{
    if s.len() != 10 || s[4] != '-' || s[7] != '-' {
        return false;
    }
    match (read_two_digits(s, 0), read_two_digits(s, 2), read_two_digits(s, 5), read_two_digits(
        s,
        8,
    )) {
        (Some(century), Some(year), Some(month), Some(day)) => is_calendar_day(
            100 * (century as i32) + (year as i32),
            month,
            day,
        ),
        _ => false,
    }
}

/// Whether a name is that of a daily file: `otel-logger.YYYY-MM-DD` with a day
/// that the calendar has.
pub fn is_rotated_log_filename(filename: &str) -> (r: bool)
    ensures
        r == rotated_name(filename@),
{
    let name = chars_of(filename);
    let prefix = chars_of("otel-logger.");
    if name.len() < prefix.len() {
        return false;
    }
    for i in 0..prefix.len()
        invariant
            name@ == filename@,
            prefix@ == rotation_prefix(),
            prefix@.len() <= name@.len(),
            forall|j: int| 0 <= j < i ==> name@[j] == prefix@[j],
    {
        if name[i] != prefix[i] {
            assert(filename@.take(prefix@.len() as int)[i as int] != prefix@[i as int]);
            return false;
        }
    }
    assert(filename@.take(prefix@.len() as int) =~= prefix@);
    let day = crate::text::copy_range(&name, prefix.len(), name.len());
    assert(day@ =~= filename@.skip(prefix@.len() as int));
    is_day_text(&day)
}

/// Files that were written last before this time have had their days.
pub open spec fn cutoff_of(now: int, keep_days: nat) -> int {
    if now - keep_days * DAY_NANOS >= i128::MIN {
        now - keep_days * DAY_NANOS
    } else {
        0
    }
}

/// Whether a file is to be removed.
pub open spec fn expired(e: LogEntry, cutoff: int) -> bool {
    &&& e.is_file
    &&& e.name matches Some(name) && rotated_name(name@)
    &&& e.modified matches Some(t) && t < cutoff
}

/// The positions of the files that are to be removed, in order.
pub open spec fn expired_in(entries: Seq<LogEntry>, cutoff: int) -> Seq<usize>
    decreases entries.len(),
{
    if entries.len() == 0 {
        Seq::empty()
    } else {
        let front = expired_in(entries.drop_last(), cutoff);
        if expired(entries.last(), cutoff) {
            front.push((entries.len() - 1) as usize)
        } else {
            front
        }
    }
}

fn is_expired(e: &LogEntry, cutoff: i128) -> (r: bool)
    ensures
        r == expired(*e, cutoff as int),
{
    if !e.is_file {
        return false;
    }
    match &e.name {
        Some(name) => {
            if !is_rotated_log_filename(name.as_str()) {
                return false;
            }
        },
        None => {
            return false;
        },
    }
    match e.modified {
        Some(t) => t < cutoff,
        None => false,
    }
}

/// The positions of the daily files that were written last more than a number
/// of days ago, among the files of a directory.
pub fn cleanup_old_rotated_logs(entries: &Vec<LogEntry>, keep_days: u32, now: i128) -> (r: Vec<
    usize,
>)
    ensures
        r@ == expired_in(entries@, cutoff_of(now as int, keep_days as nat)),
{
    let span: i128 = (keep_days as i128) * DAY_NANOS;
    let cutoff: i128 = if now >= i128::MIN + span {
        now - span
    } else {
        0
    };
    let mut out: Vec<usize> = Vec::new();
    assert(out@ =~= expired_in(entries@.take(0), cutoff as int));
    for i in 0..entries.len()
        invariant
            out@ == expired_in(entries@.take(i as int), cutoff as int),
    {
        assert(entries@.take(i + 1).drop_last() =~= entries@.take(i as int));
        if is_expired(&entries[i], cutoff) {
            out.push(i);
        }
    }
    assert(entries@.take(entries@.len() as int) =~= entries@);
    out
}

/// How many days are kept: one at least.
pub open spec fn retained(keep_days: u32) -> u32 {
    if keep_days == 0 {
        1
    } else {
        keep_days
    }
}

/// How many days are kept.
pub fn retained_days(keep_days: u32) -> (r: u32)
    ensures
        r == retained(keep_days),
{
    if keep_days == 0 {
        1
    } else {
        keep_days
    }
}

/// What is removed is the expired files: each of them, nothing else, nothing
/// twice.
pub proof fn law_exactly_expired_files_go(entries: Seq<LogEntry>, cutoff: int)
    requires
        entries.len() <= usize::MAX,
    ensures
        forall|i: int, j: int|
            0 <= i < j < expired_in(entries, cutoff).len() ==> #[trigger] expired_in(
                entries,
                cutoff,
            )[i] < #[trigger] expired_in(entries, cutoff)[j],
        forall|i: int|
            0 <= i < expired_in(entries, cutoff).len() ==> (#[trigger] expired_in(
                entries,
                cutoff,
            )[i]) < entries.len() && expired(
                entries[expired_in(entries, cutoff)[i] as int],
                cutoff,
            ),
        forall|k: int|
            0 <= k < entries.len() && expired(#[trigger] entries[k], cutoff) ==> expired_in(
                entries,
                cutoff,
            ).contains(k as usize),
    decreases entries.len(),
{
    if entries.len() > 0 {
        let front = entries.drop_last();
        law_exactly_expired_files_go(front, cutoff);
        let before = expired_in(front, cutoff);
        let all = expired_in(entries, cutoff);
        assert forall|i: int, j: int| 0 <= i < j < all.len() implies #[trigger] all[i]
            < #[trigger] all[j] by {
            if j < before.len() {
                assert(before[i] < before[j]);
            } else {
                assert(before[i] < front.len());
            }
        }
        assert forall|i: int| 0 <= i < all.len() implies (#[trigger] all[i]) < entries.len()
            && expired(entries[all[i] as int], cutoff) by {
            if i < before.len() {
                assert(before[i] < front.len());
                assert(front[before[i] as int] == entries[before[i] as int]);
            }
        }
        assert forall|k: int|
            0 <= k < entries.len() && expired(#[trigger] entries[k], cutoff) implies all.contains(
            k as usize,
        ) by {
            if k < front.len() {
                assert(front[k] == entries[k]);
                assert(before.contains(k as usize));
                let i = choose|i: int| 0 <= i < before.len() && before[i] == k as usize;
                assert(all[i] == k as usize);
            } else {
                assert(all[before.len() as int] == k as usize);
            }
        }
    }
}

/// What was written within the last day stays, however few days are to be
/// kept.
pub proof fn law_the_last_day_stays(e: LogEntry, now: i128, keep_days: u32)
    requires
        now >= 0,
        e.modified matches Some(t) && t >= now - DAY_NANOS,
    ensures
        !expired(e, cutoff_of(now as int, retained(keep_days) as nat)),
{
    assert(retained(keep_days) * DAY_NANOS >= DAY_NANOS) by (nonlinear_arith)
        requires
            retained(keep_days) >= 1,
            DAY_NANOS > 0,
    ;
    assert(retained(keep_days) * DAY_NANOS <= 4_294_967_295 * DAY_NANOS) by (nonlinear_arith)
        requires
            retained(keep_days) <= 4_294_967_295,
            DAY_NANOS > 0,
    ;
}

/// Of the daily files, exactly those go that were written last more than the
/// given number of days ago: one that was written last within these days stays,
/// however many they are, and one that was written last before them goes.
pub proof fn law_days_are_kept(entries: Seq<LogEntry>, keep_days: u32, now: i128, k: int)
    requires
        0 <= k < entries.len() <= usize::MAX,
        now - keep_days * 86_400_000_000_000 >= i128::MIN,
        entries[k].modified is Some,
    ensures
        entries[k].modified->0 >= now - keep_days * 86_400_000_000_000 ==> !expired_in(
            entries,
            cutoff_of(now as int, keep_days as nat),
        ).contains(k as usize),
        entries[k].modified->0 < now - keep_days * 86_400_000_000_000 && entries[k].is_file && (
        entries[k].name matches Some(name) && rotated_name(name@)) ==> expired_in(
            entries,
            cutoff_of(now as int, keep_days as nat),
        ).contains(k as usize),
{
    let cutoff = cutoff_of(now as int, keep_days as nat);
    law_exactly_expired_files_go(entries, cutoff);
    let gone = expired_in(entries, cutoff);
    if gone.contains(k as usize) {
        let i = choose|i: int| 0 <= i < gone.len() && gone[i] == k as usize;
        assert(expired(entries[gone[i] as int], cutoff));
    }
}

/// A file that has no name, is no regular file or has no known time stays.
pub proof fn law_unknown_files_stay(entries: Seq<LogEntry>, cutoff: int, k: int)
    requires
        0 <= k < entries.len() <= usize::MAX,
        entries[k].name is None || !entries[k].is_file || entries[k].modified is None,
    ensures
        !expired_in(entries, cutoff).contains(k as usize),
{
    law_exactly_expired_files_go(entries, cutoff);
    let gone = expired_in(entries, cutoff);
    if gone.contains(k as usize) {
        let i = choose|i: int| 0 <= i < gone.len() && gone[i] == k as usize;
        assert(expired(entries[gone[i] as int], cutoff));
    }
}

/// A name is that of a daily file if and only if it is `otel-logger.`, four
/// digits, a hyphen, two digits, a hyphen and two digits, and these are the year,
/// the month and the day of a day that the calendar has.
pub proof fn law_names_of_daily_files(name: Seq<char>)
    ensures
        rotated_name(name) <==> {
            &&& name.len() == 22
            &&& name.take(12) == "otel-logger."@
            &&& name[16] == '-' && name[19] == '-'
            &&& forall|i: int|
                12 <= i < 22 && i != 16 && i != 19 ==> '0' <= #[trigger] name[i] <= '9'
            &&& ({
                let year = 1000 * (name[12] as int - 48) + 100 * (name[13] as int - 48) + 10 * (name[14] as int - 48)
                    + (name[15] as int - 48);
                let month = 10 * (name[17] as int - 48) + (name[18] as int - 48);
                let day = 10 * (name[20] as int - 48) + (name[21] as int - 48);
                &&& 1 <= month <= 12
                &&& 1 <= day <= 31
                &&& month == 4 || month == 6 || month == 9 || month == 11 ==> day <= 30
                &&& month == 2 ==> day <= 29
                &&& month == 2 && day == 29 ==> year % 4 == 0 && (year % 100 != 0 || year % 400
                    == 0)
            })
        },
{
    reveal_strlit("otel-logger.");
    let rest = name.skip(12);
    if name.len() == 22 {
        assert forall|i: int| 0 <= i < 10 implies #[trigger] rest[i] == name[i + 12] by {}
        assert(rest[0] == name[12] && rest[1] == name[13] && rest[2] == name[14]);
        assert(rest[3] == name[15] && rest[4] == name[16] && rest[5] == name[17]);
        assert(rest[6] == name[18] && rest[7] == name[19] && rest[8] == name[20]);
        assert(rest[9] == name[21]);
    }
    if rotated_name(name) {
        assert forall|i: int| 12 <= i < 22 && i != 16 && i != 19 implies '0' <= #[trigger] name[i]
            <= '9' by {
            assert(rest[i - 12] == name[i]);
        }
    }
}

/// At least one day is kept, and otherwise as many as were asked for.
pub proof fn law_one_day_at_least(keep_days: u32)
    ensures
        retained(keep_days) >= 1,
        keep_days >= 1 ==> retained(keep_days) == keep_days,
{
}

/// Links, and files that are not named like daily files, stay.
pub proof fn law_other_files_stay(e: LogEntry, cutoff: int)
    requires
        !e.is_file || !(e.name matches Some(name) && rotated_name(name@)),
    ensures
        !expired(e, cutoff),
{
}

/// What `cleanup_old_rotated_logs` returns is the positions of those daily files that were
/// written last more than the given number of days ago.
pub proof fn law_cleaning_up(entries: Vec<LogEntry>, keep_days: u32, now: i128, r: Vec<usize>, k: int)
    requires
        call_ensures(cleanup_old_rotated_logs, (&entries, keep_days, now), r),
        0 <= k < entries@.len(),
        entries@.len() <= usize::MAX,
        now - keep_days * 86_400_000_000_000 >= i128::MIN,
    ensures
        r@.contains(k as usize) <==> {
            &&& entries@[k].is_file
            &&& entries@[k].name matches Some(name) && rotated_name(name@)
            &&& entries@[k].modified matches Some(t) && t < now - keep_days * 86_400_000_000_000
        },
{
    if entries@[k].modified is Some {
        law_days_are_kept(entries@, keep_days, now, k);
        law_exactly_expired_files_go(entries@, cutoff_of(now as int, keep_days as nat));
        let gone = r@;
        if gone.contains(k as usize) {
            let i = choose|i: int| 0 <= i < gone.len() && gone[i] == k as usize;
            assert(expired(entries@[gone[i] as int], cutoff_of(now as int, keep_days as nat)));
        }
    } else {
        law_unknown_files_stay(entries@, cutoff_of(now as int, keep_days as nat), k);
    }
}

} // verus!
