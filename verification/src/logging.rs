//! The log file: its entries, and when it is set aside for a new one.

use vstd::prelude::*;
use vstd::string::*;

use crate::calendar;
use crate::calendar::Date;
use crate::digits;
use crate::order;

verus! {

/// A log file with more bytes than this is renamed before the next entry is written.
pub const MAX_LOG_BYTES: u64 = 1_000_000;

/// The log keeps the time of the zone UTC+8: this many seconds ahead.
pub const OFFSET_SECS: u64 = 28_800;

/// The milliseconds from the start of 1970 to the start of the year 10000 in UTC+8.
pub const STAMPS_END_MS: u64 = 253_402_272_000_000;

/// A date and a second of that day, as `YYYY-MM-DD HH:MM:SS`.
pub open spec fn timestamp(date: Date, second: nat) -> Seq<char> {
    digits::padded(date.year as nat, 4) + "-"@ + digits::padded(date.month as nat, 2) + "-"@ + digits::padded(
        date.day as nat,
        2,
    ) + " "@ + digits::padded(second / 3600, 2) + ":"@ + digits::padded(second % 3600 / 60, 2) + ":"@ + digits::padded(
        second % 60,
        2,
    )
}

/// The seconds that `ms` milliseconds after the start of 1970 count in UTC+8. The count of
/// whole seconds is kept in 64 bits.
pub open spec fn local_seconds(ms: nat) -> nat {
    (ms / 1000) % 0x1_0000_0000_0000_0000 + OFFSET_SECS as nat
}

/// The time stamp of an entry written `ms` milliseconds after the start of 1970.
pub open spec fn stamp_at(ms: nat) -> Seq<char> {
    timestamp(calendar::date_on((local_seconds(ms) / 86400) as int), local_seconds(ms) % 86400)
}

/// The time `ms` milliseconds after the start of 1970, as `YYYY-MM-DD HH:MM:SS` in UTC+8.
pub fn format_ts(ms: u128) -> (out: String)
    requires
        local_seconds(ms as nat) <= u64::MAX,
    ensures
        out@ == stamp_at(ms as nat),
{
    let secs: u64 = ((ms / 1000) % 0x1_0000_0000_0000_0000) as u64 + OFFSET_SECS;
    let date = calendar::civil_date(secs / 86400);
    let rem: u64 = secs % 86400;
    let mut out: String = digits::write_padded(date.year, 4);
    out.append("-");
    out.append(digits::write_padded(date.month, 2).as_str());
    out.append("-");
    out.append(digits::write_padded(date.day, 2).as_str());
    out.append(" ");
    out.append(digits::write_padded(rem / 3600, 2).as_str());
    out.append(":");
    out.append(digits::write_padded(rem % 3600 / 60, 2).as_str());
    out.append(":");
    out.append(digits::write_padded(rem % 60, 2).as_str());
    out
}

/// The number in a field of a time stamp.
pub open spec fn field(stamp: Seq<char>, from: int, to: int) -> nat {
    digits::value_of(stamp.subrange(from, to))
}

/// The date that a time stamp names.
pub open spec fn stamp_date(stamp: Seq<char>) -> Date {
    Date {
        year: field(stamp, 0, 4) as u64,
        month: field(stamp, 5, 7) as u64,
        day: field(stamp, 8, 10) as u64,
    }
}

/// `stamp` is `YYYY-MM-DD HH:MM:SS` in ASCII, with a date that exists and a time of day.
pub open spec fn is_stamp(stamp: Seq<char>) -> bool {
    &&& stamp.len() == 19
    &&& forall|i: int|
        0 <= i < 19 && i != 4 && i != 7 && i != 10 && i != 13 && i != 16 ==> digits::is_digit(
            #[trigger] stamp[i],
        )
    &&& stamp[4] == '-' && stamp[7] == '-' && stamp[10] == ' ' && stamp[13] == ':' && stamp[16]
        == ':'
    &&& stamp_date(stamp).valid()
    &&& field(stamp, 11, 13) < 24
    &&& field(stamp, 14, 16) < 60
    &&& field(stamp, 17, 19) < 60
}

/// The seconds from the start of 1970 to the time that `stamp` names in UTC+8.
pub open spec fn seconds_named(stamp: Seq<char>) -> int {
    stamp_date(stamp).day_number() * 86400 + field(stamp, 11, 13) * 3600 + field(stamp, 14, 16) * 60
        + field(stamp, 17, 19) - OFFSET_SECS
}

proof fn lemma_fields(date: Date, second: nat)
    requires
        date.valid(),
        date.year < 10_000,
        second < 86400,
    ensures
        is_stamp(timestamp(date, second)),
        stamp_date(timestamp(date, second)) == date,
        field(timestamp(date, second), 11, 13) == second / 3600,
        field(timestamp(date, second), 14, 16) == second % 3600 / 60,
        field(timestamp(date, second), 17, 19) == second % 60,
{
    let stamp = timestamp(date, second);
    let year = digits::padded(date.year as nat, 4);
    let month = digits::padded(date.month as nat, 2);
    let day = digits::padded(date.day as nat, 2);
    let hour = digits::padded(second / 3600, 2);
    let minute = digits::padded(second % 3600 / 60, 2);
    let last = digits::padded(second % 60, 2);
    digits::padded_is_digits(date.year as nat, 4);
    digits::padded_is_digits(date.month as nat, 2);
    digits::padded_is_digits(date.day as nat, 2);
    digits::padded_is_digits(second / 3600, 2);
    digits::padded_is_digits(second % 3600 / 60, 2);
    digits::padded_is_digits(second % 60, 2);
    digits::padded_is_as_wide(date.year as nat);
    digits::padded_is_as_wide(date.month as nat);
    digits::padded_is_as_wide(date.day as nat);
    digits::padded_is_as_wide(second / 3600);
    digits::padded_is_as_wide(second % 3600 / 60);
    digits::padded_is_as_wide(second % 60);
    reveal_strlit("-");
    reveal_strlit(" ");
    reveal_strlit(":");
    assert(stamp.subrange(0, 4) =~= year);
    assert(stamp.subrange(5, 7) =~= month);
    assert(stamp.subrange(8, 10) =~= day);
    assert(stamp.subrange(11, 13) =~= hour);
    assert(stamp.subrange(14, 16) =~= minute);
    assert(stamp.subrange(17, 19) =~= last);
    assert forall|i: int|
        0 <= i < 19 && i != 4 && i != 7 && i != 10 && i != 13 && i != 16 implies digits::is_digit(
        #[trigger] stamp[i],
    ) by {
        if i < 4 {
            assert(stamp[i] == year[i]);
        } else if i < 7 {
            assert(stamp[i] == month[i - 5]);
        } else if i < 10 {
            assert(stamp[i] == day[i - 8]);
        } else if i < 13 {
            assert(stamp[i] == hour[i - 11]);
        } else if i < 16 {
            assert(stamp[i] == minute[i - 14]);
        } else {
            assert(stamp[i] == last[i - 17]);
        }
    }
}

proof fn lemma_parts_of_a_time(ms: nat)
    requires
        ms < STAMPS_END_MS,
    ensures
        ({
            let days = local_seconds(ms) / 86400;
            let second = local_seconds(ms) % 86400;
            &&& days < 2_932_897
            &&& second < 86400
            &&& days * 86400 + second / 3600 * 3600 + second % 3600 / 60 * 60 + second % 60
                - OFFSET_SECS == ms / 1000
        }),
{
    assert(ms / 1000 < 253_402_272_000);
    assert(local_seconds(ms) == ms / 1000 + 28_800);
}

/// Up to the year 9999 a time stamp has its nineteen characters, names a time that exists, and
/// read as UTC+8 gives back the second it was made of.
pub proof fn stamp_reads_back(ms: nat)
    requires
        ms < STAMPS_END_MS,
    ensures
        is_stamp(stamp_at(ms)),
        seconds_named(stamp_at(ms)) == ms / 1000,
{
    let local = local_seconds(ms);
    let days = (local / 86400) as int;
    let second = local % 86400;
    lemma_parts_of_a_time(ms);
    calendar::day_has_a_date(days);
    calendar::day_is_before_year_10000(calendar::date_on(days));
    lemma_fields(calendar::date_on(days), second);
    assert(seconds_named(stamp_at(ms)) == days * 86400 + second / 3600 * 3600 + second % 3600 / 60
        * 60 + second % 60 - OFFSET_SECS);
}

proof fn lemma_field_alike(x: Seq<char>, y: Seq<char>, from: int, to: int)
    requires
        is_stamp(x),
        is_stamp(y),
        0 <= from < to <= 19,
        to - from <= 4,
        forall|i: int|
            from <= i < to ==> #[trigger] digits::is_digit(x[i]) && digits::is_digit(y[i]),
        x.take(from) == y.take(from),
    ensures
        field(x, from, to) < 10_000,
        field(y, from, to) < 10_000,
        field(x, from, to) < field(y, from, to) ==> order::text_before(x, y),
        field(x, from, to) == field(y, from, to) ==> x.take(to) == y.take(to),
{
    let (a, b) = (x.subrange(from, to), y.subrange(from, to));
    assert forall|i: int| 0 <= i < a.len() implies digits::is_digit(#[trigger] a[i])
        && digits::is_digit(b[i]) by {
        assert(digits::is_digit(x[from + i]));
    }
    assert forall|i: int| 0 <= i < b.len() implies digits::is_digit(#[trigger] b[i]) by {
        assert(digits::is_digit(a[i]));
    }
    digits::four_digits_are_below_10000(a);
    digits::four_digits_are_below_10000(b);
    order::digits_are_ordered(a, b);
    if order::text_before(a, b) {
        order::lemma_piece_decides(x, y, from, to);
    }
    if a == b {
        assert(x.take(to) =~= x.take(from) + a);
        assert(y.take(to) =~= y.take(from) + b);
    }
}

/// In alphabetical order time stamps stand in the order of the times that they name.
pub proof fn stamps_sort_by_time(x: Seq<char>, y: Seq<char>)
    requires
        is_stamp(x),
        is_stamp(y),
        seconds_named(x) < seconds_named(y),
    ensures
        order::text_before(x, y),
{
    let (a, b) = (stamp_date(x), stamp_date(y));
    if a.day_number() < b.day_number() {
        calendar::dates_are_ordered(a, b);
    } else {
        calendar::date_is_unique(a, b);
    }
    assert(x.take(0) =~= y.take(0));
    lemma_field_alike(x, y, 0, 4);
    if a.year == b.year {
        assert(x.take(5) =~= x.take(4).push('-'));
        assert(y.take(5) =~= y.take(4).push('-'));
        lemma_field_alike(x, y, 5, 7);
        if a.month == b.month {
            assert(x.take(8) =~= x.take(7).push('-'));
            assert(y.take(8) =~= y.take(7).push('-'));
            lemma_field_alike(x, y, 8, 10);
            if a.day == b.day {
                assert(x.take(11) =~= x.take(10).push(' '));
                assert(y.take(11) =~= y.take(10).push(' '));
                lemma_field_alike(x, y, 11, 13);
                if field(x, 11, 13) == field(y, 11, 13) {
                    assert(x.take(14) =~= x.take(13).push(':'));
                    assert(y.take(14) =~= y.take(13).push(':'));
                    lemma_field_alike(x, y, 14, 16);
                    if field(x, 14, 16) == field(y, 14, 16) {
                        assert(x.take(17) =~= x.take(16).push(':'));
                        assert(y.take(17) =~= y.take(16).push(':'));
                        lemma_field_alike(x, y, 17, 19);
                    }
                }
            }
        }
    }
}

/// Up to the year 9999 the stamps of the log stand in alphabetical order as their entries do in
/// time: of two entries the later one never has the stamp that comes first, and both have the
/// same one exactly where they fall into the same second.
pub proof fn log_stamps_are_ordered(a: nat, b: nat)
    requires
        a < STAMPS_END_MS,
        b < STAMPS_END_MS,
    ensures
        order::text_before(stamp_at(a), stamp_at(b)) == (a / 1000 < b / 1000),
        (stamp_at(a) == stamp_at(b)) == (a / 1000 == b / 1000),
        a <= b ==> !order::text_before(stamp_at(b), stamp_at(a)),
{
    stamp_reads_back(a);
    stamp_reads_back(b);
    order::text_order_is_total(stamp_at(a), stamp_at(b));
    if a / 1000 < b / 1000 {
        stamps_sort_by_time(stamp_at(a), stamp_at(b));
    } else if b / 1000 < a / 1000 {
        stamps_sort_by_time(stamp_at(b), stamp_at(a));
    }
}

/// The text of one log entry: the time in brackets, a blank, the line, a line feed.
pub fn log_entry(ms: u128, line: &str) -> (out: String)
    requires
        local_seconds(ms as nat) <= u64::MAX,
    ensures
        out@ == "["@ + stamp_at(ms as nat) + "] "@ + line@ + "\n"@,
{
    let mut out: String = "[".to_string();
    out.append(format_ts(ms).as_str());
    out.append("] ");
    out.append(line);
    out.append("\n");
    out
}

/// Whether a log file of `bytes` bytes is set aside before the next entry.
pub fn needs_rotation(bytes: u64) -> (out: bool)
    ensures
        out == (bytes > MAX_LOG_BYTES),
{
    bytes > MAX_LOG_BYTES
}

/// The entry that a crash leaves in the log: what it said and where it happened.
pub fn panic_entry(message: &str, place: &str) -> (out: String)
    ensures
        out@ == "[PANIC] "@ + message@ + " @ "@ + place@ + "\n"@,
{
    let mut out: String = "[PANIC] ".to_string();
    out.append(message);
    out.append(" @ ");
    out.append(place);
    out.append("\n");
    out
}

/// An entry is its time stamp in brackets and the line behind it, on a line of its own. Up to
/// the year 9999 the stamp has nineteen characters and names the second in which the entry was
/// written.
pub proof fn entry_tells_time_and_line(ms: u128, line: &str, out: String)
    requires
        call_ensures(log_entry, (ms, line), out),
        ms < STAMPS_END_MS,
    ensures
        out@.len() == 19 + 4 + line@.len(),
        out@[0] == '[' && out@[20] == ']' && out@[21] == ' ' && out@.last() == '\n',
        is_stamp(out@.subrange(1, 20)),
        seconds_named(out@.subrange(1, 20)) == ms / 1000,
        out@.subrange(22, 22 + line@.len() as int) == line@,
{
    stamp_reads_back(ms as nat);
    reveal_strlit("[");
    reveal_strlit("] ");
    reveal_strlit("\n");
    let stamp = stamp_at(ms as nat);
    assert(out@.subrange(1, 20) =~= stamp);
    assert(out@.subrange(22, 22 + line@.len() as int) =~= line@);
}

/// The stamp of an entry is the time that is shown elsewhere.
pub proof fn shown_time_is_the_stamp(ms: u128, line: &str, shown: String, entry: String)
    requires
        call_ensures(format_ts, (ms,), shown),
        call_ensures(log_entry, (ms, line), entry),
        ms < STAMPS_END_MS,
    ensures
        is_stamp(shown@),
        seconds_named(shown@) == ms / 1000,
        entry@.subrange(1, 20) == shown@,
{
    stamp_reads_back(ms as nat);
    reveal_strlit("[");
    reveal_strlit("] ");
    reveal_strlit("\n");
    assert(entry@.subrange(1, 20) =~= shown@);
}

/// The log is set aside once it holds more than a million bytes.
pub proof fn long_log_is_set_aside(bytes: u64, out: bool)
    requires
        call_ensures(needs_rotation, (bytes,), out),
    ensures
        bytes <= 1_000_000 ==> !out,
        bytes > 1_000_000 ==> out,
{
}

/// The time stamps are eight hours ahead of UTC.
pub proof fn stamps_are_eight_hours_ahead(stamp: Seq<char>)
    ensures
        seconds_named(stamp) + 8 * 3600 == stamp_date(stamp).day_number() * 86400
            + field(stamp, 11, 13) * 3600 + field(stamp, 14, 16) * 60 + field(stamp, 17, 19),
{
}

/// What a crash leaves in the log begins with its mark, holds what was said before where it
/// happened, and ends its line.
pub proof fn crash_is_noted(message: &str, place: &str, out: String)
    requires
        call_ensures(panic_entry, (message, place), out),
    ensures
        out@.take(8) == seq!['[', 'P', 'A', 'N', 'I', 'C', ']', ' '],
        out@.subrange(8, 8 + message@.len() as int) == message@,
        out@.subrange(8 + message@.len() as int, 11 + message@.len() as int) == seq![' ', '@', ' '],
        out@.subrange(
            11 + message@.len() as int,
            11 + message@.len() as int + place@.len() as int,
        ) == place@,
        out@.len() == 12 + message@.len() + place@.len(),
        out@.last() == '\n',
{
    reveal_strlit("[PANIC] ");
    reveal_strlit(" @ ");
    reveal_strlit("\n");
}

} // verus!
