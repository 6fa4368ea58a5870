//! Numbers in text, and text measured in bytes.

use vstd::prelude::*;
use vstd::string::*;
use vstd::utf8::*;

use crate::text;

verus! {

/// A decimal digit.
pub open spec fn is_digit(c: char) -> bool {
    '0' <= c && c <= '9'
}

/// What the decimal digit `c` counts.
pub open spec fn digit_value(c: char) -> nat {
    (c as int - '0' as int) as nat
}

/// Nothing but decimal digits, and at least one.
pub open spec fn all_digits(text: Seq<char>) -> bool {
    &&& text.len() > 0
    &&& forall|i: int| 0 <= i < text.len() ==> is_digit(#[trigger] text[i])
}

/// The number that the decimal digits of `text` write.
pub open spec fn value_of(text: Seq<char>) -> nat
    decreases text.len(),
{
    if text.len() == 0 {
        0
    } else {
        10 * value_of(text.drop_last()) + digit_value(text.last())
    }
}

/// `text` without one plus sign at its beginning.
pub open spec fn without_plus(text: Seq<char>) -> Seq<char> {
    if text.len() > 0 && text[0] == '+' {
        text.skip(1)
    } else {
        text
    }
}

/// The number up to `max` that `text` writes: decimal digits after at most one plus sign.
pub open spec fn number_in(text: Seq<char>, max: nat) -> Option<nat> {
    let digits = without_plus(text);
    if all_digits(digits) && value_of(digits) <= max {
        Some(value_of(digits))
    } else {
        None
    }
}

/// The digit that counts `d`, in a base of at most sixteen.
pub open spec fn digit_char(d: nat) -> char {
    if d < 10 {
        ('0' as u32 + d) as char
    } else {
        ('a' as u32 + (d - 10)) as char
    }
}

/// `n` written in `base`, most significant digit first, without leading zeros.
pub open spec fn written(n: nat, base: nat) -> Seq<char>
    decreases n,
{
    if n < base || base < 2 {
        seq![digit_char(n)]
    } else {
        proof {
            assert(n / base < n) by (nonlinear_arith)
                requires
                    2 <= base <= n,
            ;
        }
        written(n / base, base).push(digit_char(n % base))
    }
}

/// `n` in decimal digits.
pub open spec fn decimal(n: nat) -> Seq<char> {
    written(n, 10)
}

/// `n` in hexadecimal digits, small letters.
pub open spec fn hexadecimal(n: nat) -> Seq<char> {
    written(n, 16)
}

/// `n` in decimal digits, with a minus sign where it is negative.
pub open spec fn signed_decimal(n: int) -> Seq<char> {
    if n < 0 {
        seq!['-'] + decimal((-n) as nat)
    } else {
        decimal(n as nat)
    }
}

/// `n` in decimal digits, filled up with zeros on the left to at least `width` characters.
pub open spec fn padded(n: nat, width: nat) -> Seq<char> {
    let digits = decimal(n);
    if digits.len() < width {
        Seq::new((width - digits.len()) as nat, |i: int| '0') + digits
    } else {
        digits
    }
}

/// How many bytes `text` takes in UTF-8.
pub open spec fn byte_count(text: Seq<char>) -> nat {
    encode_utf8(text).len()
}

/// The longest end of `text` that takes at most `limit` bytes.
pub open spec fn byte_tail(text: Seq<char>, limit: nat) -> Seq<char>
    decreases text.len(),
{
    if text.len() == 0 || byte_count(text) <= limit {
        text
    } else {
        byte_tail(text.skip(1), limit)
    }
}

proof fn lemma_value_grows(text: Seq<char>, at: int)
    requires
        0 <= at <= text.len(),
    ensures
        value_of(text.take(at)) <= value_of(text),
    decreases text.len() - at,
{
    if at == text.len() {
        assert(text.take(at) =~= text);
    } else {
        let next = text.take(at + 1);
        assert(next.drop_last() =~= text.take(at));
        lemma_value_grows(text, at + 1);
    }
}

/// The number up to `max` that `text` writes.
pub fn parse_number(text: &str, max: u32) -> (out: Option<u32>)
    ensures
        match out {
            Some(n) => number_in(text@, max as nat) == Some(n as nat),
            None => number_in(text@, max as nat) is None,
        },
{
    let all: Vec<char> = text::chars_of(text);
    let start: usize = if all.len() > 0 && all[0] == '+' { 1 } else { 0 };
    let ghost digits = without_plus(text@);
    assert(digits =~= text@.skip(start as int));
    if start == all.len() {
        return None;
    }
    let mut i: usize = start;
    let mut n: u64 = 0;
    while i < all.len()
        invariant
            all@ == text@,
            digits == text@.skip(start as int),
            digits == without_plus(text@),
            start <= i <= all@.len(),
            forall|j: int| 0 <= j < i - start ==> is_digit(#[trigger] digits[j]),
            n == value_of(digits.take(i - start)),
            n <= max,
        decreases all@.len() - i,
    {
        let c: char = all[i];
        assert(c == digits[i - start]);
        if !('0' <= c && c <= '9') {
            assert(!is_digit(digits[i - start]));
            return None;
        }
        let ghost next = digits.take(i - start + 1);
        assert(next.drop_last() =~= digits.take(i - start));
        n = n * 10 + ((c as u32) - ('0' as u32)) as u64;
        assert(n == value_of(next));
        if n > max as u64 {
            proof {
                lemma_value_grows(digits, i - start + 1);
            }
            return None;
        }
        i = i + 1;
    }
    assert(digits.take(i - start) =~= digits);
    Some(n as u32)
}

/// The digit that counts `d`.
fn digit_text(d: usize) -> (out: &'static str)
    requires
        d < 16,
    ensures
        out@ == seq![digit_char(d as nat)],
{
    let digits = "0123456789abcdef";
    proof {
        reveal_strlit("0123456789abcdef");
    }
    let out = digits.substring_char(d, d + 1);
    assert(out@ =~= seq![digit_char(d as nat)]);
    out
}

fn write_in(n: u64, base: u64) -> (out: String)
    requires
        2 <= base <= 16,
    ensures
        out@ == written(n as nat, base as nat),
    decreases n,
{
    if n < base {
        digit_text(n as usize).to_string()
    } else {
        assert(n / base < n) by (nonlinear_arith)
            requires
                2 <= base <= n,
        ;
        let mut out: String = write_in(n / base, base);
        out.append(digit_text((n % base) as usize));
        assert(out@ =~= written((n / base) as nat, base as nat).push(
            digit_char((n % base) as nat),
        ));
        out
    }
}

/// `n` in decimal digits.
pub fn write_decimal(n: u64) -> (out: String)
    ensures
        out@ == decimal(n as nat),
{
    write_in(n, 10)
}

/// `n` in hexadecimal digits.
pub fn write_hexadecimal(n: u64) -> (out: String)
    ensures
        out@ == hexadecimal(n as nat),
{
    write_in(n, 16)
}

/// `n` in decimal digits, with a minus sign where it is negative.
pub fn write_signed(n: i32) -> (out: String)
    ensures
        out@ == signed_decimal(n as int),
{
    if n < 0 {
        let mut out: String = "-".to_string();
        proof {
            reveal_strlit("-");
            assert("-"@ =~= seq!['-']);
        }
        let size: u64 = (-(n as i64)) as u64;
        out.append(write_decimal(size).as_str());
        out
    } else {
        write_decimal(n as u64)
    }
}

/// `n` in decimal digits, filled up with zeros to `width` characters.
pub fn write_padded(n: u64, width: usize) -> (out: String)
    ensures
        out@ == padded(n as nat, width as nat),
{
    let digits: String = write_decimal(n);
    let count: usize = digits.as_str().unicode_len();
    let mut out: String = String::new();
    let mut filled: usize = count;
    proof {
        reveal_strlit("0");
        assert("0"@ =~= seq!['0']);
    }
    while filled < width
        invariant
            count <= filled,
            filled <= width || filled == count,
            "0"@ == seq!['0'],
            out@ == Seq::new((filled - count) as nat, |i: int| '0'),
        decreases width - filled,
    {
        out.append("0");
        filled = filled + 1;
        assert(out@ =~= Seq::new((filled - count) as nat, |i: int| '0'));
    }
    out.append(digits.as_str());
    assert(out@ =~= padded(n as nat, width as nat));
    out
}

/// How many bytes `c` takes in UTF-8.
fn char_bytes(c: char) -> (count: usize)
    ensures
        count == encode_scalar(c as u32).len(),
        1 <= count <= 4,
{
    let code: u32 = c as u32;
    if code <= 0x7f {
        1
    } else if code <= 0x7ff {
        2
    } else if code <= 0xffff {
        3
    } else {
        4
    }
}

proof fn lemma_bytes_shrink(text: Seq<char>, from: int, to: int)
    requires
        0 <= from <= to <= text.len(),
    ensures
        byte_count(text.skip(to)) <= byte_count(text.skip(from)),
    decreases to - from,
{
    if from < to {
        assert(text.skip(from).drop_first() =~= text.skip(from + 1));
        lemma_bytes_shrink(text, from + 1, to);
    }
}

proof fn lemma_byte_tail_is(text: Seq<char>, limit: nat, at: int)
    requires
        0 <= at <= text.len(),
        byte_count(text.skip(at)) <= limit,
        0 < at ==> byte_count(text.skip(at - 1)) > limit,
    ensures
        byte_tail(text, limit) == text.skip(at),
    decreases at,
{
    assert(text.skip(0) =~= text);
    if at > 0 {
        lemma_bytes_shrink(text, 0, at - 1);
        let rest = text.skip(1);
        assert(rest.skip(at - 1) =~= text.skip(at));
        if at > 1 {
            assert(rest.skip(at - 2) =~= text.skip(at - 1));
        }
        lemma_byte_tail_is(rest, limit, at - 1);
    }
}

/// The longest end of `text` that takes at most `limit` bytes.
pub fn last_bytes(text: &str, limit: usize) -> (rest: &str)
    ensures
        rest@ == byte_tail(text@, limit as nat),
{
    let all: Vec<char> = text::chars_of(text);
    let mut at: usize = all.len();
    let mut count: usize = 0;
    assert(text@.skip(at as int) =~= seq![]);
    while at > 0
        invariant
            all@ == text@,
            at <= all@.len(),
            count <= limit,
            count == byte_count(text@.skip(at as int)),
        decreases at,
    {
        let width: usize = char_bytes(all[at - 1]);
        assert(text@.skip(at - 1).drop_first() =~= text@.skip(at as int));
        assert(byte_count(text@.skip(at - 1)) == width + count);
        if width > limit - count {
            proof {
                lemma_byte_tail_is(text@, limit as nat, at as int);
            }
            return text::after(text, at);
        }
        count = count + width;
        at = at - 1;
    }
    proof {
        lemma_byte_tail_is(text@, limit as nat, 0);
    }
    text::after(text, 0)
}

/// A number is written in decimal digits that count it.
pub proof fn decimal_is_digits(n: nat)
    ensures
        all_digits(decimal(n)),
        value_of(decimal(n)) == n,
    decreases n,
{
    if n < 10 {
        assert(decimal(n) =~= seq![digit_char(n)]);
        assert(value_of(decimal(n).drop_last()) == 0);
        assert(decimal(n).last() == digit_char(n));
    } else {
        let d = n / 10;
        decimal_is_digits(d);
        let whole = decimal(d).push(digit_char(n % 10));
        assert(decimal(n) == whole);
        assert(whole.drop_last() =~= decimal(d));
        assert(whole.last() == digit_char(n % 10));
        assert(digit_value(digit_char(n % 10)) == n % 10);
    }
}

proof fn lemma_zeros_count_nothing(zeros: Seq<char>, rest: Seq<char>)
    requires
        forall|i: int| 0 <= i < zeros.len() ==> #[trigger] zeros[i] == '0',
    ensures
        value_of(zeros + rest) == value_of(rest),
    decreases zeros.len() + rest.len(),
{
    let whole = zeros + rest;
    if rest.len() > 0 {
        assert(whole.drop_last() =~= zeros + rest.drop_last());
        lemma_zeros_count_nothing(zeros, rest.drop_last());
    } else if zeros.len() > 0 {
        assert(whole.drop_last() =~= zeros.drop_last() + rest);
        assert(whole.last() == zeros[zeros.len() - 1]);
        lemma_zeros_count_nothing(zeros.drop_last(), rest);
    }
}

/// Zeros in front do not change what the digits of a number count.
pub proof fn padded_is_digits(n: nat, width: nat)
    ensures
        all_digits(padded(n, width)),
        value_of(padded(n, width)) == n,
{
    decimal_is_digits(n);
    let digits = decimal(n);
    if digits.len() < width {
        let zeros = Seq::new((width - digits.len()) as nat, |i: int| '0');
        lemma_zeros_count_nothing(zeros, digits);
        assert forall|i: int| 0 <= i < padded(n, width).len() implies is_digit(
            #[trigger] padded(n, width)[i],
        ) by {
            if i >= zeros.len() {
                assert(padded(n, width)[i] == digits[i - zeros.len()]);
            }
        }
    }
}

/// Four digits count less than ten thousand.
pub proof fn four_digits_are_below_10000(text: Seq<char>)
    requires
        text.len() <= 4,
        forall|i: int| 0 <= i < text.len() ==> is_digit(#[trigger] text[i]),
    ensures
        value_of(text) < 10_000,
        text.len() <= 3 ==> value_of(text) < 1_000,
        text.len() <= 2 ==> value_of(text) < 100,
        text.len() <= 1 ==> value_of(text) < 10,
    decreases text.len(),
{
    if text.len() > 0 {
        assert(is_digit(text[text.len() - 1]));
        four_digits_are_below_10000(text.drop_last());
    }
}

/// A number below a hundred fills two places, one below ten thousand four.
pub proof fn padded_is_as_wide(n: nat)
    ensures
        n < 100 ==> padded(n, 2).len() == 2,
        n < 10_000 ==> padded(n, 4).len() == 4,
{
    reveal_with_fuel(written, 4);
    if n < 10_000 {
        assert(n / 10 / 10 / 10 < 10);
        assert(decimal(n).len() <= 4);
    }
}

/// A number written in decimal digits reads back as that number.
pub proof fn decimal_reads_back(n: nat, max: nat)
    requires
        n <= max,
    ensures
        number_in(decimal(n), max) == Some(n),
{
    decimal_is_digits(n);
    assert(is_digit(decimal(n)[0]));
    assert(without_plus(decimal(n)) == decimal(n));
}

/// A number is written in hexadecimal digits: 0 to 9, and a to f.
pub proof fn hexadecimal_is_digits(n: nat)
    ensures
        hexadecimal(n).len() > 0,
        forall|i: int|
            0 <= i < hexadecimal(n).len() ==> ('0' <= #[trigger] hexadecimal(n)[i] <= '9' || 'a'
                <= hexadecimal(n)[i] <= 'f'),
    decreases n,
{
    if n >= 16 {
        hexadecimal_is_digits(n / 16);
        let rest = hexadecimal(n / 16);
        assert(hexadecimal(n) == rest.push(digit_char(n % 16)));
        assert forall|i: int| 0 <= i < hexadecimal(n).len() implies ('0' <= #[trigger] hexadecimal(
            n,
        )[i] <= '9' || 'a' <= hexadecimal(n)[i] <= 'f') by {
            if i < rest.len() {
                assert(hexadecimal(n)[i] == rest[i]);
            }
        }
    }
}

/// A number is written without leading zeros.
pub proof fn decimal_has_no_leading_zero(n: nat)
    ensures
        n < 10 ==> decimal(n).len() == 1,
        n >= 10 ==> decimal(n).len() > 1 && decimal(n)[0] != '0',
    decreases n,
{
    if n >= 10 {
        let d = n / 10;
        decimal_is_digits(d);
        decimal_has_no_leading_zero(d);
        assert(decimal(n) == decimal(d).push(digit_char(n % 10)));
        assert(decimal(n)[0] == decimal(d)[0]);
    }
}

/// A number is read from its digits, with a plus sign before them or without one, up to the
/// largest that is taken.
pub proof fn numbers_are_read(
    text: &str,
    max: u32,
    out: Option<u32>,
    plus: bool,
    n: nat,
    width: nat,
)
    requires
        call_ensures(parse_number, (text, max), out),
        text@ == (if plus {
            seq!['+']
        } else {
            seq![]
        }) + padded(n, width),
    ensures
        n <= max ==> (out matches Some(read) && read == n),
        n > max ==> out is None,
{
    padded_is_digits(n, width);
    let digits = padded(n, width);
    assert(is_digit(digits[0]));
    if plus {
        assert(text@[0] == '+');
        assert(text@.skip(1) =~= digits);
    } else {
        assert(text@ =~= digits);
    }
}

/// No number is read from an empty text, from a sign alone, or from a text with anything else
/// than digits behind its first character; the first is a digit or a plus sign.
pub proof fn nothing_else_is_a_number(text: &str, max: u32, out: Option<u32>, i: int)
    requires
        call_ensures(parse_number, (text, max), out),
    ensures
        text@.len() == 0 ==> out is None,
        text@ == seq!['+'] ==> out is None,
        0 < i < text@.len() && !('0' <= text@[i] <= '9') ==> out is None,
        text@.len() > 0 && text@[0] != '+' && !('0' <= text@[0] <= '9') ==> out is None,
{
    let digits = without_plus(text@);
    if 0 < i < text@.len() && !is_digit(text@[i]) {
        if text@[0] == '+' {
            assert(digits[i - 1] == text@[i]);
        } else {
            assert(digits[i] == text@[i]);
        }
    }
    if text@.len() > 0 && text@[0] != '+' && !is_digit(text@[0]) {
        assert(digits[0] == text@[0]);
    }
}

/// In hexadecimal each digit counts sixteen times as much as the one behind it, and the digits
/// are 0 to 9 and a to f.
pub proof fn hexadecimal_counts_by_sixteens(n: u64, d: u64, small: String, all: String)
    requires
        d < 16,
        0 < n,
        16 * n + d <= u64::MAX,
        call_ensures(write_hexadecimal, (n,), small),
        call_ensures(write_hexadecimal, ((16 * n + d) as u64,), all),
    ensures
        all@ == small@.push("0123456789abcdef"@[d as int]),
        n < 16 ==> small@ == seq!["0123456789abcdef"@[n as int]],
{
    reveal_strlit("0123456789abcdef");
    assert((16 * n + d) / 16 == n && (16 * n + d) % 16 == d);
    assert(digit_char(d as nat) == "0123456789abcdef"@[d as int]);
    if n < 16 {
        assert(digit_char(n as nat) == "0123456789abcdef"@[n as int]);
    }
}

/// A negative number has a minus sign before its digits, and no other has one.
pub proof fn negative_numbers_have_a_sign(n: i32, out: String)
    requires
        call_ensures(write_signed, (n,), out),
    ensures
        n >= 0 ==> all_digits(out@) && value_of(out@) == n,
        n < 0 ==> out@.len() > 1 && out@[0] == '-' && all_digits(out@.skip(1)) && value_of(
            out@.skip(1),
        ) == -n,
{
    if n < 0 {
        decimal_is_digits((-n) as nat);
        assert(out@.skip(1) =~= decimal((-n) as nat));
    } else {
        decimal_is_digits(n as nat);
    }
}

/// A number is filled up with zeros to the width that is asked for, and is never cut.
pub proof fn numbers_are_filled_up(n: u64, width: usize, out: String, plain: String)
    requires
        call_ensures(write_padded, (n, width), out),
        call_ensures(write_decimal, (n,), plain),
    ensures
        all_digits(plain@) && value_of(plain@) == n,
        plain@.len() == 1 || plain@[0] != '0',
        plain@.len() >= width ==> out@ == plain@,
        plain@.len() < width ==> out@.len() == width && out@.skip(width - plain@.len()) == plain@,
        all_digits(out@) && value_of(out@) == n,
{
    decimal_is_digits(n as nat);
    decimal_has_no_leading_zero(n as nat);
    padded_is_digits(n as nat, width as nat);
    if plain@.len() < width {
        assert(out@.skip(width - plain@.len()) =~= plain@);
    }
}

proof fn lemma_byte_tail_is_an_end(text: Seq<char>, limit: nat)
    ensures
        byte_tail(text, limit).len() <= text.len(),
        byte_tail(text, limit) == text.skip(text.len() - byte_tail(text, limit).len()),
        byte_tail(text, limit).len() == 0 || byte_count(byte_tail(text, limit)) <= limit,
        byte_tail(text, limit).len() < text.len() ==> byte_count(
            text.skip(text.len() - byte_tail(text, limit).len() - 1),
        ) > limit,
    decreases text.len(),
{
    let tail = byte_tail(text, limit);
    if text.len() == 0 || byte_count(text) <= limit {
        assert(text.skip(0) =~= text);
    } else {
        lemma_byte_tail_is_an_end(text.skip(1), limit);
        assert(text.skip(1).skip(text.len() - 1 - tail.len()) =~= text.skip(
            text.len() - tail.len(),
        ));
        if tail.len() < text.len() - 1 {
            assert(text.skip(1).skip(text.len() - 1 - tail.len() - 1) =~= text.skip(
                text.len() - tail.len() - 1,
            ));
        } else {
            assert(text.skip(0) =~= text);
        }
    }
}

/// What is kept of a long text is its end: as many whole characters as fit into the bytes, and
/// with one more they would not fit.
pub proof fn end_that_fits_is_kept(text: &str, limit: usize, rest: &str)
    requires
        call_ensures(last_bytes, (text, limit), rest),
    ensures
        rest@.len() <= text@.len(),
        rest@ == text@.skip(text@.len() - rest@.len()),
        rest@.len() == 0 || byte_count(rest@) <= limit,
        rest@.len() < text@.len() ==> byte_count(text@.skip(text@.len() - rest@.len() - 1)) > limit,
{
    lemma_byte_tail_is_an_end(text@, limit as nat);
}

} // verus!
