//! Text as a sequence of characters: searching, cutting and comparing.

use vstd::prelude::*;
use vstd::string::*;

verus! {

/// `part` stands in `text` at position `at`.
pub open spec fn occurs_at(text: Seq<char>, part: Seq<char>, at: int) -> bool {
    &&& 0 <= at
    &&& at + part.len() <= text.len()
    &&& text.subrange(at, at + part.len()) == part
}

/// `part` stands somewhere in `text`.
pub open spec fn has_text(text: Seq<char>, part: Seq<char>) -> bool {
    exists|at: int| occurs_at(text, part, at)
}

/// `text` begins with `part`.
pub open spec fn begins_with(text: Seq<char>, part: Seq<char>) -> bool {
    occurs_at(text, part, 0)
}

/// What follows `part` at the beginning of `text`, where `text` begins with it.
pub open spec fn without_prefix(text: Seq<char>, part: Seq<char>) -> Option<Seq<char>> {
    if begins_with(text, part) {
        Some(text.skip(part.len() as int))
    } else {
        None
    }
}

/// The position of the first occurrence of `part` in `text`.
pub open spec fn first_occurrence(text: Seq<char>, part: Seq<char>) -> Option<int>
    decreases text.len(),
{
    if begins_with(text, part) {
        Some(0)
    } else if text.len() == 0 {
        None
    } else {
        match first_occurrence(text.skip(1), part) {
            Some(at) => Some(at + 1),
            None => None,
        }
    }
}

/// The position of the first character of `text` that is in `set`; the length where none is.
pub open spec fn stop_at(text: Seq<char>, set: Seq<char>) -> int
    decreases text.len(),
{
    if text.len() == 0 || set.contains(text[0]) {
        0
    } else {
        1 + stop_at(text.skip(1), set)
    }
}

/// What stands before the first character of `set`.
pub open spec fn head(text: Seq<char>, set: Seq<char>) -> Seq<char> {
    text.take(stop_at(text, set))
}

/// The pieces of `text` between the characters of `set`.
pub open spec fn pieces(text: Seq<char>, set: Seq<char>) -> Seq<Seq<char>>
    decreases text.len(),
{
    let at = stop_at(text, set);
    if 0 <= at < text.len() {
        seq![text.take(at)] + pieces(text.skip(at + 1), set)
    } else {
        seq![text]
    }
}

/// The pieces of `text` between the occurrences of `separator`, taken from the left.
pub open spec fn fields(text: Seq<char>, separator: Seq<char>) -> Seq<Seq<char>>
    decreases text.len(),
{
    match first_occurrence(text, separator) {
        Some(at) => if 0 <= at && 0 < separator.len() && at + separator.len() <= text.len() {
            seq![text.take(at)] + fields(text.skip(at + separator.len()), separator)
        } else {
            seq![text]
        },
        None => seq![text],
    }
}

/// `text` without one carriage return at its end.
pub open spec fn without_return(text: Seq<char>) -> Seq<char> {
    if text.len() > 0 && text.last() == '\r' {
        text.drop_last()
    } else {
        text
    }
}

/// The lines of `text`: each ends at a line feed, or at a carriage return and a line feed;
/// the last one needs no ending.
pub open spec fn lines_of(text: Seq<char>) -> Seq<Seq<char>>
    decreases text.len(),
{
    let at = stop_at(text, seq!['\n']);
    if text.len() == 0 {
        seq![]
    } else if 0 <= at < text.len() {
        seq![without_return(text.take(at))] + lines_of(text.skip(at + 1))
    } else {
        seq![text]
    }
}

/// `text` without the characters of `set` at its beginning.
pub open spec fn trimmed_start(text: Seq<char>, set: Seq<char>) -> Seq<char>
    decreases text.len(),
{
    if text.len() > 0 && set.contains(text[0]) {
        trimmed_start(text.skip(1), set)
    } else {
        text
    }
}

/// `text` without the characters of `set` at its end.
pub open spec fn trimmed_end(text: Seq<char>, set: Seq<char>) -> Seq<char>
    decreases text.len(),
{
    if text.len() > 0 && set.contains(text.last()) {
        trimmed_end(text.drop_last(), set)
    } else {
        text
    }
}

/// `text` without the characters of `set` at both ends.
pub open spec fn trimmed(text: Seq<char>, set: Seq<char>) -> Seq<char> {
    trimmed_end(trimmed_start(text, set), set)
}

/// The characters with the Unicode property `White_Space`.
pub open spec fn white_space() -> Seq<char> {
    seq![
        '\u{9}', '\u{a}', '\u{b}', '\u{c}', '\u{d}', '\u{20}', '\u{85}', '\u{a0}', '\u{1680}',
        '\u{2000}', '\u{2001}', '\u{2002}', '\u{2003}', '\u{2004}', '\u{2005}', '\u{2006}',
        '\u{2007}', '\u{2008}', '\u{2009}', '\u{200a}', '\u{2028}', '\u{2029}', '\u{202f}',
        '\u{205f}', '\u{3000}',
    ]
}

/// `text` without white space at both ends.
pub open spec fn stripped(text: Seq<char>) -> Seq<char> {
    trimmed(text, white_space())
}

/// The words of `text`: its longest parts without white space.
pub open spec fn words_of(text: Seq<char>) -> Seq<Seq<char>>
    decreases text.len(),
{
    let rest = trimmed_start(text, white_space());
    let at = stop_at(rest, white_space());
    if 0 < at && rest.len() <= text.len() && at <= rest.len() {
        seq![rest.take(at)] + words_of(rest.skip(at))
    } else {
        seq![]
    }
}

/// The position of the last `c` in `text`; `-1` where there is none.
pub open spec fn last_position(text: Seq<char>, c: char) -> int
    decreases text.len(),
{
    if text.len() == 0 {
        -1
    } else if text.last() == c {
        text.len() - 1
    } else {
        last_position(text.drop_last(), c)
    }
}

/// An ASCII capital letter as the small letter; any other character as it is.
pub open spec fn lower(c: char) -> char {
    if 'A' <= c && c <= 'Z' {
        ((c as u32) + 32) as char
    } else {
        c
    }
}

/// `text` with every ASCII capital letter made small.
pub open spec fn lowered(text: Seq<char>) -> Seq<char> {
    text.map_values(|c: char| lower(c))
}

/// The strings of `list`, each as its characters.
pub open spec fn texts(list: Seq<String>) -> Seq<Seq<char>> {
    list.map_values(|s: String| s@)
}

/// The parts one after the other, with `glue` between two of them.
pub open spec fn joined(parts: Seq<Seq<char>>, glue: Seq<char>) -> Seq<char>
    decreases parts.len(),
{
    if parts.len() == 0 {
        seq![]
    } else if parts.len() == 1 {
        parts[0]
    } else {
        joined(parts.drop_last(), glue) + glue + parts.last()
    }
}

/// No character before the first one of `set` is in it.
pub proof fn lemma_stop_at_bounds(text: Seq<char>, set: Seq<char>)
    ensures
        0 <= stop_at(text, set) <= text.len(),
        forall|i: int| 0 <= i < stop_at(text, set) ==> !set.contains(#[trigger] text[i]),
        stop_at(text, set) < text.len() ==> set.contains(text[stop_at(text, set)]),
    decreases text.len(),
{
    if text.len() > 0 && !set.contains(text[0]) {
        lemma_stop_at_bounds(text.skip(1), set);
        assert forall|i: int| 0 <= i < stop_at(text, set) implies !set.contains(
            #[trigger] text[i],
        ) by {
            if i > 0 {
                assert(text.skip(1)[i - 1] == text[i]);
            }
        }
    }
}

/// The first character of `set` is where none stands before.
pub proof fn lemma_stop_at_is(text: Seq<char>, set: Seq<char>, at: int)
    requires
        0 <= at <= text.len(),
        forall|i: int| 0 <= i < at ==> !set.contains(#[trigger] text[i]),
        at < text.len() ==> set.contains(text[at]),
    ensures
        stop_at(text, set) == at,
{
    lemma_stop_at_bounds(text, set);
    let found = stop_at(text, set);
    if found < at {
        assert(!set.contains(text[found]));
    } else if at < found {
        assert(!set.contains(text[at]));
    }
}

/// The first occurrence is one, and there is none before it.
pub proof fn lemma_first_occurrence(text: Seq<char>, part: Seq<char>)
    ensures
        match first_occurrence(text, part) {
            Some(at) => {
                &&& occurs_at(text, part, at)
                &&& forall|i: int| i < at ==> !occurs_at(text, part, i)
            },
            None => !has_text(text, part),
        },
    decreases text.len(),
{
    if begins_with(text, part) {
    } else if text.len() == 0 {
        assert forall|i: int| !occurs_at(text, part, i) by {}
    } else {
        let rest = text.skip(1);
        lemma_first_occurrence(rest, part);
        assert forall|i: int| 1 <= i implies occurs_at(text, part, i) == occurs_at(
            rest,
            part,
            i - 1,
        ) by {
            if i + part.len() <= text.len() {
                assert(text.subrange(i, i + part.len()) =~= rest.subrange(
                    i - 1,
                    i - 1 + part.len(),
                ));
            }
        }
        match first_occurrence(rest, part) {
            Some(at) => {
                assert(occurs_at(text, part, at + 1));
                assert forall|i: int| i < at + 1 implies !occurs_at(text, part, i) by {
                    if i >= 1 {
                        assert(!occurs_at(rest, part, i - 1));
                    }
                }
            },
            None => {
                assert forall|i: int| !occurs_at(text, part, i) by {
                    if i >= 1 {
                        assert(!occurs_at(rest, part, i - 1));
                    }
                }
            },
        }
    }
}

/// An occurrence with none before it is the first.
pub proof fn lemma_first_occurrence_is(text: Seq<char>, part: Seq<char>, at: int)
    requires
        occurs_at(text, part, at),
        forall|i: int| 0 <= i < at ==> !occurs_at(text, part, i),
    ensures
        first_occurrence(text, part) == Some(at),
{
    lemma_first_occurrence(text, part);
    assert(has_text(text, part));
    let found = first_occurrence(text, part)->0;
    if found < at {
        assert(!occurs_at(text, part, found));
    }
}

/// The beginning that is cut off goes up to the first character that is not in `set`.
pub proof fn lemma_trimmed_start_is(text: Seq<char>, set: Seq<char>, at: int)
    requires
        0 <= at <= text.len(),
        forall|i: int| 0 <= i < at ==> set.contains(#[trigger] text[i]),
        at < text.len() ==> !set.contains(text[at]),
    ensures
        trimmed_start(text, set) == text.skip(at),
    decreases text.len(),
{
    if at == 0 {
        assert(text.skip(0) =~= text);
    } else {
        let rest = text.skip(1);
        assert forall|i: int| 0 <= i < at - 1 implies set.contains(#[trigger] rest[i]) by {
            assert(rest[i] == text[i + 1]);
        }
        assert(set.contains(text[0]));
        lemma_trimmed_start_is(rest, set, at - 1);
        assert(rest.skip(at - 1) =~= text.skip(at));
    }
}

/// The end that is cut off goes back to the last character that is not in `set`.
pub proof fn lemma_trimmed_end_is(text: Seq<char>, set: Seq<char>, end: int)
    requires
        0 <= end <= text.len(),
        forall|i: int| end <= i < text.len() ==> set.contains(#[trigger] text[i]),
        0 < end ==> !set.contains(text[end - 1]),
    ensures
        trimmed_end(text, set) == text.take(end),
    decreases text.len(),
{
    if end == text.len() {
        assert(text.take(end) =~= text);
    } else {
        let rest = text.drop_last();
        assert forall|i: int| end <= i < rest.len() implies set.contains(#[trigger] rest[i]) by {
            assert(rest[i] == text[i]);
        }
        assert(set.contains(text.last()));
        lemma_trimmed_end_is(rest, set, end);
        assert(rest.take(end) =~= text.take(end));
    }
}

/// The last position holds the character, and no later one does.
pub proof fn lemma_last_position(text: Seq<char>, c: char)
    ensures
        -1 <= last_position(text, c) < text.len(),
        last_position(text, c) >= 0 ==> text[last_position(text, c)] == c,
        forall|i: int| last_position(text, c) < i < text.len() ==> text[i] != c,
    decreases text.len(),
{
    if text.len() > 0 && text.last() != c {
        lemma_last_position(text.drop_last(), c);
        assert forall|i: int| last_position(text, c) < i < text.len() implies text[i] != c by {
            if i < text.len() - 1 {
                assert(text.drop_last()[i] == text[i]);
            }
        }
    }
}

/// The characters of `text`, one by one.
pub fn chars_of(text: &str) -> (out: Vec<char>)
    ensures
        out@ == text@,
{
    let mut out: Vec<char> = Vec::new();
    for c in it: text.chars()
        invariant
            it.seq() == text@,
            out@ == text@.take(it.index() as int),
    {
        out.push(c);
    }
    out
}

/// The white space characters, as a list.
pub fn white_space_list() -> (out: Vec<char>)
    ensures
        out@ == white_space(),
{
    vec![
        '\u{9}', '\u{a}', '\u{b}', '\u{c}', '\u{d}', '\u{20}', '\u{85}', '\u{a0}', '\u{1680}',
        '\u{2000}', '\u{2001}', '\u{2002}', '\u{2003}', '\u{2004}', '\u{2005}', '\u{2006}',
        '\u{2007}', '\u{2008}', '\u{2009}', '\u{200a}', '\u{2028}', '\u{2029}', '\u{202f}',
        '\u{205f}', '\u{3000}',
    ]
}

/// Whether `set` holds `c`.
pub fn is_in(set: &Vec<char>, c: char) -> (found: bool)
    ensures
        found == set@.contains(c),
{
    let mut i: usize = 0;
    while i < set.len()
        invariant
            i <= set@.len(),
            forall|j: int| 0 <= j < i ==> set@[j] != c,
        decreases set@.len() - i,
    {
        if set[i] == c {
            assert(set@.contains(set@[i as int]));
            return true;
        }
        i = i + 1;
    }
    false
}

/// Whether the two texts are the same.
pub fn same(a: &str, b: &str) -> (eq: bool)
    ensures
        eq == (a@ == b@),
{
    let left: String = a.to_string();
    let right: String = b.to_string();
    left == right
}

/// Whether `part` stands in `text` at position `at`.
fn stands_at(text: &Vec<char>, part: &Vec<char>, at: usize) -> (found: bool)
    ensures
        found == occurs_at(text@, part@, at as int),
{
    if text.len() < part.len() || text.len() - part.len() < at {
        return false;
    }
    let count: usize = text.len();
    let mut i: usize = 0;
    while i < part.len()
        invariant
            count == text@.len(),
            at + part@.len() <= count,
            i <= part@.len(),
            forall|j: int| 0 <= j < i ==> text@[at + j] == part@[j],
        decreases part@.len() - i,
    {
        if text[at + i] != part[i] {
            assert(text@.subrange(at as int, at + part@.len())[i as int] != part@[i as int]);
            return false;
        }
        i = i + 1;
    }
    assert(text@.subrange(at as int, at + part@.len()) =~= part@);
    true
}

/// The first position from `from` on at which `part` stands in `text`.
fn search(text: &Vec<char>, part: &Vec<char>, from: usize) -> (found: Option<usize>)
    requires
        from <= text@.len(),
    ensures
        match found {
            Some(at) => {
                &&& from <= at
                &&& occurs_at(text@, part@, at as int)
                &&& forall|i: int| from <= i < at ==> !occurs_at(text@, part@, i)
            },
            None => forall|i: int| from <= i ==> !occurs_at(text@, part@, i),
        },
{
    let mut at: usize = from;
    while at < text.len()
        invariant
            from <= at <= text@.len(),
            forall|i: int| from <= i < at ==> !occurs_at(text@, part@, i),
        decreases text@.len() - at,
    {
        if stands_at(text, part, at) {
            return Some(at);
        }
        at = at + 1;
    }
    if stands_at(text, part, at) {
        return Some(at);
    }
    None
}

/// Whether `part` stands somewhere in `text`.
pub fn contains(text: &str, part: &str) -> (found: bool)
    ensures
        found == has_text(text@, part@),
{
    let at = search(&chars_of(text), &chars_of(part), 0);
    proof {
        if at is None {
            assert forall|i: int| !occurs_at(text@, part@, i) by {}
        } else {
            assert(occurs_at(text@, part@, at->0 as int));
        }
    }
    at.is_some()
}

/// Where `part` first stands in `text`, counted in characters.
pub fn find(text: &str, part: &str) -> (at: Option<usize>)
    ensures
        match at {
            Some(i) => first_occurrence(text@, part@) == Some(i as int) && i + part@.len()
                <= text@.len(),
            None => first_occurrence(text@, part@) is None,
        },
{
    let at = search(&chars_of(text), &chars_of(part), 0);
    proof {
        match at {
            Some(i) => lemma_first_occurrence_is(text@, part@, i as int),
            None => {
                lemma_first_occurrence(text@, part@);
            },
        }
    }
    at
}

/// Whether `text` begins with `part`.
pub fn starts_with(text: &str, part: &str) -> (found: bool)
    ensures
        found == begins_with(text@, part@),
{
    stands_at(&chars_of(text), &chars_of(part), 0)
}

/// What follows `part` at the beginning of `text`.
pub fn strip_prefix<'a>(text: &'a str, part: &str) -> (rest: Option<&'a str>)
    ensures
        match rest {
            Some(r) => without_prefix(text@, part@) == Some(r@),
            None => without_prefix(text@, part@) is None,
        },
{
    if starts_with(text, part) {
        let from: usize = part.unicode_len();
        let rest = text.substring_char(from, text.unicode_len());
        assert(rest@ =~= text@.skip(part@.len() as int));
        Some(rest)
    } else {
        None
    }
}

/// The part of `text` from position `from` on.
pub fn after(text: &str, from: usize) -> (rest: &str)
    requires
        from <= text@.len(),
    ensures
        rest@ == text@.skip(from as int),
{
    let rest = text.substring_char(from, text.unicode_len());
    assert(rest@ =~= text@.skip(from as int));
    rest
}

/// The part of `text` before position `to`.
pub fn before(text: &str, to: usize) -> (rest: &str)
    requires
        to <= text@.len(),
    ensures
        rest@ == text@.take(to as int),
{
    let rest = text.substring_char(0, to);
    assert(rest@ =~= text@.take(to as int));
    rest
}

/// The position of the first character of `text` that is in `set`.
pub fn stop(text: &str, set: &Vec<char>) -> (at: usize)
    ensures
        at == stop_at(text@, set@),
        at <= text@.len(),
{
    let all: Vec<char> = chars_of(text);
    let mut at: usize = 0;
    while at < all.len() && !is_in(set, all[at])
        invariant
            all@ == text@,
            at <= all@.len(),
            forall|i: int| 0 <= i < at ==> !set@.contains(#[trigger] all@[i]),
        decreases all@.len() - at,
    {
        at = at + 1;
    }
    proof {
        lemma_stop_at_is(text@, set@, at as int);
    }
    at
}

/// What stands before the first character of `set`.
pub fn first_piece<'a>(text: &'a str, set: &Vec<char>) -> (piece: &'a str)
    ensures
        piece@ == head(text@, set@),
{
    let at: usize = stop(text, set);
    before(text, at)
}

/// The pieces of `text` between the characters of `set`.
pub fn split(text: &str, set: &Vec<char>) -> (out: Vec<String>)
    ensures
        texts(out@) == pieces(text@, set@),
{
    let mut out: Vec<String> = Vec::new();
    let mut rest: &str = text;
    let mut at: usize = stop(rest, set);
    assert(texts(out@) + pieces(rest@, set@) =~= pieces(text@, set@));
    while at < rest.unicode_len()
        invariant
            at == stop_at(rest@, set@),
            at <= rest@.len(),
            texts(out@) + pieces(rest@, set@) == pieces(text@, set@),
        decreases rest@.len(),
    {
        let ghost done = texts(out@);
        let piece: String = before(rest, at).to_string();
        out.push(piece);
        assert(texts(out@) =~= done.push(rest@.take(at as int)));
        assert(done + (seq![rest@.take(at as int)] + pieces(rest@.skip(at + 1), set@)) =~= done.push(
            rest@.take(at as int),
        ) + pieces(rest@.skip(at + 1), set@));
        rest = after(rest, at + 1);
        at = stop(rest, set);
    }
    let ghost done = texts(out@);
    out.push(rest.to_string());
    assert(texts(out@) =~= done + seq![rest@]);
    out
}

/// The pieces of `text` between the occurrences of `separator`.
pub fn split_text(text: &str, separator: &str) -> (out: Vec<String>)
    requires
        separator@.len() > 0,
    ensures
        texts(out@) == fields(text@, separator@),
{
    let mut out: Vec<String> = Vec::new();
    let mut rest: &str = text;
    let width: usize = separator.unicode_len();
    assert(texts(out@) + fields(rest@, separator@) =~= fields(text@, separator@));
    loop
        invariant_except_break
            texts(out@) + fields(rest@, separator@) == fields(text@, separator@),
        invariant
            separator@.len() > 0,
            width == separator@.len(),
        ensures
            texts(out@) == fields(text@, separator@),
        decreases rest@.len(),
    {
        let ghost done = texts(out@);
        let count: usize = rest.unicode_len();
        match find(rest, separator) {
            Some(at) => {
                assert(at + width <= count);
                let piece: String = before(rest, at).to_string();
                out.push(piece);
                assert(texts(out@) =~= done.push(rest@.take(at as int)));
                assert(done + (seq![rest@.take(at as int)] + fields(
                    rest@.skip(at + width),
                    separator@,
                )) =~= done.push(rest@.take(at as int)) + fields(rest@.skip(at + width), separator@));
                rest = after(rest, at + width);
            },
            None => {
                out.push(rest.to_string());
                assert(texts(out@) =~= done + seq![rest@]);
                break;
            },
        }
    }
    out
}

/// The lines of `text`.
pub fn lines(text: &str) -> (out: Vec<String>)
    ensures
        texts(out@) == lines_of(text@),
{
    let feed: Vec<char> = vec!['\n'];
    assert(feed@ =~= seq!['\n']);
    let mut out: Vec<String> = Vec::new();
    let mut rest: &str = text;
    let mut at: usize = stop(rest, &feed);
    assert(texts(out@) + lines_of(rest@) =~= lines_of(text@));
    while at < rest.unicode_len()
        invariant
            feed@ == seq!['\n'],
            at == stop_at(rest@, feed@),
            at <= rest@.len(),
            texts(out@) + lines_of(rest@) == lines_of(text@),
        decreases rest@.len(),
    {
        let ghost done = texts(out@);
        let ghost line = without_return(rest@.take(at as int));
        let whole = before(rest, at);
        if at > 0 && whole.get_char(at - 1) == '\r' {
            let cut = before(whole, at - 1);
            assert(cut@ =~= whole@.drop_last());
            out.push(cut.to_string());
        } else {
            out.push(whole.to_string());
        }
        assert(texts(out@) =~= done.push(line));
        assert(done + (seq![line] + lines_of(rest@.skip(at + 1))) =~= done.push(line) + lines_of(
            rest@.skip(at + 1),
        ));
        rest = after(rest, at + 1);
        at = stop(rest, &feed);
    }
    if !rest.is_empty() {
        let ghost done = texts(out@);
        out.push(rest.to_string());
        assert(texts(out@) =~= done + seq![rest@]);
    } else {
        assert(texts(out@) =~= texts(out@) + lines_of(rest@));
    }
    out
}

/// `text` without the characters of `set` at its beginning.
pub fn trim_start<'a>(text: &'a str, set: &Vec<char>) -> (rest: &'a str)
    ensures
        rest@ == trimmed_start(text@, set@),
{
    let all: Vec<char> = chars_of(text);
    let mut at: usize = 0;
    while at < all.len() && is_in(set, all[at])
        invariant
            all@ == text@,
            at <= all@.len(),
            forall|i: int| 0 <= i < at ==> set@.contains(#[trigger] all@[i]),
        decreases all@.len() - at,
    {
        at = at + 1;
    }
    proof {
        lemma_trimmed_start_is(text@, set@, at as int);
    }
    after(text, at)
}

/// `text` without the characters of `set` at its end.
pub fn trim_end<'a>(text: &'a str, set: &Vec<char>) -> (rest: &'a str)
    ensures
        rest@ == trimmed_end(text@, set@),
{
    let all: Vec<char> = chars_of(text);
    let mut end: usize = all.len();
    while end > 0 && is_in(set, all[end - 1])
        invariant
            all@ == text@,
            end <= all@.len(),
            forall|i: int| end <= i < all@.len() ==> set@.contains(#[trigger] all@[i]),
        decreases end,
    {
        end = end - 1;
    }
    proof {
        lemma_trimmed_end_is(text@, set@, end as int);
    }
    before(text, end)
}

/// `text` without the characters of `set` at both ends.
pub fn trim_set<'a>(text: &'a str, set: &Vec<char>) -> (rest: &'a str)
    ensures
        rest@ == trimmed(text@, set@),
{
    trim_end(trim_start(text, set), set)
}

/// `text` without white space at both ends.
pub fn trim(text: &str) -> (rest: &str)
    ensures
        rest@ == stripped(text@),
{
    let white: Vec<char> = white_space_list();
    trim_set(text, &white)
}

/// The words of `text`.
pub fn words(text: &str) -> (out: Vec<String>)
    ensures
        texts(out@) == words_of(text@),
{
    let white: Vec<char> = white_space_list();
    let mut out: Vec<String> = Vec::new();
    let mut rest: &str = trim_start(text, &white);
    let mut at: usize = stop(rest, &white);
    let ghost mut left = text@;
    assert(texts(out@) + words_of(left) =~= words_of(text@));
    proof {
        lemma_trimmed_start_len(left, white_space());
    }
    while at > 0
        invariant
            white@ == white_space(),
            rest@ == trimmed_start(left, white_space()),
            rest@.len() <= left.len(),
            at == stop_at(rest@, white@),
            at <= rest@.len(),
            texts(out@) + words_of(left) == words_of(text@),
        decreases rest@.len(),
    {
        let ghost done = texts(out@);
        let word = before(rest, at);
        out.push(word.to_string());
        assert(texts(out@) =~= done.push(rest@.take(at as int)));
        assert(done + (seq![rest@.take(at as int)] + words_of(rest@.skip(at as int))) =~= done.push(
            rest@.take(at as int),
        ) + words_of(rest@.skip(at as int)));
        let tail = after(rest, at);
        proof {
            left = tail@;
            lemma_trimmed_start_len(left, white_space());
        }
        rest = trim_start(tail, &white);
        at = stop(rest, &white);
    }
    assert(texts(out@) =~= texts(out@) + words_of(left));
    out
}

/// Cutting off the beginning makes a text no longer.
pub proof fn lemma_trimmed_start_len(text: Seq<char>, set: Seq<char>)
    ensures
        trimmed_start(text, set).len() <= text.len(),
    decreases text.len(),
{
    if text.len() > 0 && set.contains(text[0]) {
        lemma_trimmed_start_len(text.skip(1), set);
    }
}

/// The position of the last `c` in `text`.
pub fn rfind(text: &str, c: char) -> (at: Option<usize>)
    ensures
        match at {
            Some(i) => i < text@.len() && last_position(text@, c) == i,
            None => last_position(text@, c) == -1,
        },
{
    let all: Vec<char> = chars_of(text);
    let mut end: usize = all.len();
    while end > 0
        invariant
            all@ == text@,
            end <= all@.len(),
            forall|i: int| end <= i < all@.len() ==> all@[i] != c,
        decreases end,
    {
        if all[end - 1] == c {
            proof {
                lemma_last_position(text@, c);
            }
            return Some(end - 1);
        }
        end = end - 1;
    }
    proof {
        lemma_last_position(text@, c);
    }
    None
}

/// An ASCII capital letter as the small letter.
pub fn lower_char(c: char) -> (out: char)
    ensures
        out == lower(c),
{
    if 'A' <= c && c <= 'Z' {
        ((c as u8) + 32) as char
    } else {
        c
    }
}

fn lower_chars(text: &str) -> (out: Vec<char>)
    ensures
        out@ == lowered(text@),
{
    let all: Vec<char> = chars_of(text);
    let mut out: Vec<char> = Vec::new();
    while out.len() < all.len()
        invariant
            all@ == text@,
            out@.len() <= all@.len(),
            forall|i: int| 0 <= i < out@.len() ==> out@[i] == lower(all@[i]),
        decreases all@.len() - out@.len(),
    {
        let c: char = lower_char(all[out.len()]);
        out.push(c);
    }
    assert(out@ =~= lowered(text@));
    out
}

/// Whether `part` stands in `text` once its ASCII capital letters are made small.
pub fn lower_contains(text: &str, part: &str) -> (found: bool)
    ensures
        found == has_text(lowered(text@), part@),
{
    let low: Vec<char> = lower_chars(text);
    let at = search(&low, &chars_of(part), 0);
    proof {
        if at is None {
            assert forall|i: int| !occurs_at(low@, part@, i) by {}
        } else {
            assert(occurs_at(low@, part@, at->0 as int));
        }
    }
    at.is_some()
}

/// Whether `text` begins with `part` once its ASCII capital letters are made small.
pub fn lower_starts_with(text: &str, part: &str) -> (found: bool)
    ensures
        found == begins_with(lowered(text@), part@),
{
    stands_at(&lower_chars(text), &chars_of(part), 0)
}

/// Whether the two texts are the same but for the size of ASCII letters.
pub fn same_but_case(a: &str, b: &str) -> (eq: bool)
    ensures
        eq == (lowered(a@) == lowered(b@)),
{
    let left: Vec<char> = lower_chars(a);
    let right: Vec<char> = lower_chars(b);
    let eq: bool = left.len() == right.len() && stands_at(&left, &right, 0);
    assert(left@.len() == right@.len() ==> left@.subrange(0, right@.len() as int) =~= left@);
    eq
}

/// Whether `list` holds `text`.
pub fn list_has(list: &Vec<String>, text: &str) -> (found: bool)
    ensures
        found == texts(list@).contains(text@),
{
    let mut i: usize = 0;
    while i < list.len()
        invariant
            i <= list@.len(),
            forall|j: int| 0 <= j < i ==> texts(list@)[j] != text@,
        decreases list@.len() - i,
    {
        if same(list[i].as_str(), text) {
            assert(texts(list@)[i as int] == text@);
            return true;
        }
        i = i + 1;
    }
    false
}

/// The parts one after the other, with `glue` between two of them.
pub fn join(parts: &Vec<String>, glue: &str) -> (out: String)
    ensures
        out@ == joined(texts(parts@), glue@),
{
    let mut out: String = String::new();
    let mut i: usize = 0;
    assert(texts(parts@).take(0) =~= seq![]);
    while i < parts.len()
        invariant
            i <= parts@.len(),
            out@ == joined(texts(parts@).take(i as int), glue@),
        decreases parts@.len() - i,
    {
        let ghost next = texts(parts@).take(i + 1);
        assert(next.drop_last() =~= texts(parts@).take(i as int));
        if i > 0 {
            out.append(glue);
        }
        out.append(parts[i].as_str());
        assert(out@ =~= joined(next, glue@));
        i = i + 1;
    }
    assert(texts(parts@).take(parts@.len() as int) =~= texts(parts@));
    out
}

/// A list with the same texts.
pub fn copy_list(list: &Vec<String>) -> (out: Vec<String>)
    ensures
        texts(out@) == texts(list@),
{
    let mut out: Vec<String> = Vec::new();
    let mut i: usize = 0;
    while i < list.len()
        invariant
            i <= list@.len(),
            texts(out@) =~= texts(list@).take(i as int),
        decreases list@.len() - i,
    {
        let ghost before = texts(out@);
        out.push(list[i].clone());
        assert(texts(out@) =~= before.push(list@[i as int]@));
        assert(texts(list@).take(i + 1) =~= texts(list@).take(i as int).push(list@[i as int]@));
        i = i + 1;
    }
    assert(texts(list@).take(list@.len() as int) =~= texts(list@));
    out
}

/// The texts of `list` followed by the given ones.
pub fn extended(list: &Vec<String>, first: &str, second: &str) -> (out: Vec<String>)
    ensures
        texts(out@) == texts(list@) + seq![first@, second@],
{
    let mut out: Vec<String> = copy_list(list);
    out.push(first.to_string());
    out.push(second.to_string());
    assert(texts(out@) =~= texts(list@) + seq![first@, second@]);
    out
}

/// The last `count` characters of `text`; all of it where it has no more.
pub open spec fn last_chars(text: Seq<char>, count: nat) -> Seq<char> {
    if text.len() <= count {
        text
    } else {
        text.skip(text.len() - count)
    }
}

/// The last `n` characters of `s`; all of it where it has no more.
pub fn tail_chars(s: &str, n: usize) -> (out: String)
    ensures
        out@ == last_chars(s@, n as nat),
{
    let len: usize = s.unicode_len();
    if len <= n {
        s.to_string()
    } else {
        after(s, len - n).to_string()
    }
}

/// An optional text as its characters.
pub open spec fn content(text: Option<String>) -> Option<Seq<char>> {
    match text {
        Some(t) => Some(t@),
        None => None,
    }
}

/// An equal optional text.
pub fn copy_option(text: &Option<String>) -> (out: Option<String>)
    ensures
        content(out) == content(*text),
{
    match text {
        Some(t) => Some(t.clone()),
        None => None,
    }
}

/// The list with one more text at its end.
pub fn pushed(list: Vec<String>, new: &str) -> (out: Vec<String>)
    ensures
        texts(out@) == texts(list@).push(new@),
{
    let mut out: Vec<String> = list;
    out.push(new.to_string());
    assert(texts(out@) =~= texts(list@).push(new@));
    out
}

/// A list of two texts.
pub fn two(a: &str, b: &str) -> (out: Vec<String>)
    ensures
        texts(out@) == seq![a@, b@],
{
    let empty: Vec<String> = Vec::new();
    assert(texts(empty@) =~= seq![]);
    let out: Vec<String> = pushed(pushed(empty, a), b);
    assert(texts(out@) =~= seq![a@, b@]);
    out
}

/// A list of three texts.
pub fn three(a: &str, b: &str, c: &str) -> (out: Vec<String>)
    ensures
        texts(out@) == seq![a@, b@, c@],
{
    let out: Vec<String> = pushed(two(a, b), c);
    assert(texts(out@) =~= seq![a@, b@, c@]);
    out
}

/// A list of four texts.
pub fn four(a: &str, b: &str, c: &str, d: &str) -> (out: Vec<String>)
    ensures
        texts(out@) == seq![a@, b@, c@, d@],
{
    let out: Vec<String> = pushed(three(a, b, c), d);
    assert(texts(out@) =~= seq![a@, b@, c@, d@]);
    out
}

/// White space at both ends goes, and nothing else: what stands between stays as it is.
pub proof fn white_space_around_is_removed(before: Seq<char>, inner: Seq<char>, after: Seq<char>)
    requires
        forall|i: int| 0 <= i < before.len() ==> white_space().contains(#[trigger] before[i]),
        forall|i: int| 0 <= i < after.len() ==> white_space().contains(#[trigger] after[i]),
        inner.len() > 0 ==> !white_space().contains(inner[0]) && !white_space().contains(
            inner.last(),
        ),
    ensures
        stripped(before + inner + after) == inner,
{
    let all = before + inner + after;
    let set = white_space();
    if inner.len() == 0 {
        assert forall|i: int| 0 <= i < all.len() implies set.contains(#[trigger] all[i]) by {
            if i < before.len() {
                assert(all[i] == before[i]);
            } else {
                assert(all[i] == after[i - before.len()]);
            }
        }
        lemma_trimmed_start_is(all, set, all.len() as int);
        assert(all.skip(all.len() as int) =~= inner);
    } else {
        let rest = inner + after;
        assert forall|i: int| 0 <= i < before.len() implies set.contains(#[trigger] all[i]) by {
            assert(all[i] == before[i]);
        }
        assert(all[before.len() as int] == inner[0]);
        lemma_trimmed_start_is(all, set, before.len() as int);
        assert(all.skip(before.len() as int) =~= rest);
        assert forall|i: int| inner.len() <= i < rest.len() implies set.contains(
            #[trigger] rest[i],
        ) by {
            assert(rest[i] == after[i - inner.len()]);
        }
        assert(rest[inner.len() - 1] == inner.last());
        lemma_trimmed_end_is(rest, set, inner.len() as int);
        assert(rest.take(inner.len() as int) =~= inner);
    }
}

/// Blanks, tabs, line ends and the wide blank are white space; no visible ASCII character is.
pub proof fn visible_characters_are_no_white_space(c: char)
    ensures
        '!' <= c <= '~' ==> !white_space().contains(c),
        white_space().contains(' '),
        white_space().contains('\t'),
        white_space().contains('\n'),
        white_space().contains('\r'),
        white_space().contains('\u{3000}'),
        white_space().contains('\u{a0}'),
{
    assert(white_space()[0] == '\t');
    assert(white_space()[1] == '\n');
    assert(white_space()[4] == '\r');
    assert(white_space()[5] == ' ');
    assert(white_space()[7] == '\u{a0}');
    assert(white_space()[24] == '\u{3000}');
}

/// A text without white space at its ends is left as it is.
pub proof fn bare_text_stays(inner: Seq<char>)
    requires
        inner.len() > 0 ==> !white_space().contains(inner[0]) && !white_space().contains(
            inner.last(),
        ),
    ensures
        stripped(inner) == inner,
{
    let none: Seq<char> = seq![];
    white_space_around_is_removed(none, inner, none);
    assert(none + inner + none =~= inner);
}

/// A part stands in a text exactly where the text is made of something, the part, and
/// something.
pub proof fn part_stands_between(before: Seq<char>, part: Seq<char>, after: Seq<char>)
    ensures
        has_text(before + part + after, part),
        begins_with(part + after, part),
        without_prefix(part + after, part) == Some(after),
{
    let all = before + part + after;
    assert(all.subrange(before.len() as int, (before.len() + part.len()) as int) =~= part);
    assert(occurs_at(all, part, before.len() as int));
    assert((part + after).subrange(0, part.len() as int) =~= part);
    assert((part + after).skip(part.len() as int) =~= after);
}

/// The first piece goes up to the first separator, and the others are those of what follows.
pub proof fn first_piece_is_cut_off(first: Seq<char>, c: char, rest: Seq<char>, set: Seq<char>)
    requires
        forall|i: int| 0 <= i < first.len() ==> !set.contains(#[trigger] first[i]),
        set.contains(c),
    ensures
        pieces(first + seq![c] + rest, set) == seq![first] + pieces(rest, set),
        head(first + seq![c] + rest, set) == first,
{
    let all = first + seq![c] + rest;
    assert forall|i: int| 0 <= i < first.len() implies !set.contains(#[trigger] all[i]) by {
        assert(all[i] == first[i]);
    }
    assert(all[first.len() as int] == c);
    lemma_stop_at_is(all, set, first.len() as int);
    assert(all.take(first.len() as int) =~= first);
    assert(all.skip((first.len() + 1) as int) =~= rest);
}

/// A text without a separator is its only piece.
pub proof fn only_piece_is_the_text(text: Seq<char>, set: Seq<char>)
    requires
        forall|i: int| 0 <= i < text.len() ==> !set.contains(#[trigger] text[i]),
    ensures
        pieces(text, set) == seq![text],
        head(text, set) == text,
{
    lemma_stop_at_is(text, set, text.len() as int);
    assert(text.take(text.len() as int) =~= text);
}

/// A line ends at a line feed, with or without a carriage return before it.
pub proof fn first_line_is_cut_off(line: Seq<char>, rest: Seq<char>)
    requires
        forall|i: int| 0 <= i < line.len() ==> #[trigger] line[i] != '\n',
        line.len() > 0 ==> line.last() != '\r',
    ensures
        lines_of(line + seq!['\n'] + rest) == seq![line] + lines_of(rest),
        lines_of(line + seq!['\r', '\n'] + rest) == seq![line] + lines_of(rest),
        line.len() > 0 ==> lines_of(line) == seq![line],
{
    let set = seq!['\n'];
    assert(set[0] == '\n');
    assert forall|c: char| set.contains(c) == (c == '\n') by {}
    let plain = line + seq!['\n'] + rest;
    assert forall|i: int| 0 <= i < line.len() implies !set.contains(#[trigger] plain[i]) by {
        assert(plain[i] == line[i]);
    }
    assert(plain[line.len() as int] == '\n');
    lemma_stop_at_is(plain, set, line.len() as int);
    assert(plain.take(line.len() as int) =~= line);
    assert(plain.skip((line.len() + 1) as int) =~= rest);
    let dos = line + seq!['\r', '\n'] + rest;
    let end = (line.len() + 1) as int;
    assert forall|i: int| 0 <= i < end implies !set.contains(#[trigger] dos[i]) by {
        if i < line.len() {
            assert(dos[i] == line[i]);
        } else {
            assert(dos[i] == '\r');
        }
    }
    assert(dos[end] == '\n');
    lemma_stop_at_is(dos, set, end);
    assert(dos.take(end) =~= line.push('\r'));
    assert(line.push('\r').drop_last() =~= line);
    assert(dos.skip(end + 1) =~= rest);
    assert forall|i: int| 0 <= i < line.len() implies !set.contains(#[trigger] line[i]) by {}
    lemma_stop_at_is(line, set, line.len() as int);
}

/// Lower case changes the letters A to Z and nothing else, character by character.
pub proof fn lower_case_keeps_the_rest(text: Seq<char>, i: int)
    requires
        0 <= i < text.len(),
    ensures
        lowered(text).len() == text.len(),
        'A' <= text[i] <= 'Z' ==> lowered(text)[i] as int == text[i] as int + 32,
        !('A' <= text[i] <= 'Z') ==> lowered(text)[i] == text[i],
{
}

/// The last characters of a text are its end, as many as are asked for or all.
pub proof fn last_chars_are_the_end(text: Seq<char>, count: nat)
    ensures
        last_chars(text, count).len() == (if text.len() < count {
            text.len()
        } else {
            count
        }),
        last_chars(text, count) == text.skip(text.len() - last_chars(text, count).len()),
{
    assert(text.skip(0) =~= text);
}

/// The first field goes up to the first separator, and the others are those of what follows.
pub proof fn first_field_is_cut_off(first: Seq<char>, separator: Seq<char>, rest: Seq<char>)
    requires
        separator.len() > 0,
        forall|i: int| 0 <= i < first.len() ==> !occurs_at(first + separator + rest, separator, i),
    ensures
        fields(first + separator + rest, separator) == seq![first] + fields(rest, separator),
{
    let all = first + separator + rest;
    let at = first.len() as int;
    let end = (first.len() + separator.len()) as int;
    assert(all.subrange(at, end) =~= separator);
    lemma_first_occurrence_is(all, separator, at);
    assert(all.take(at) =~= first);
    assert(all.skip(end) =~= rest);
}

/// What stands in a part of a text stands in the text.
pub proof fn parts_of_parts_stand_in_the_text(text: Seq<char>, middle: Seq<char>, part: Seq<char>)
    requires
        has_text(text, middle),
        has_text(middle, part),
    ensures
        has_text(text, part),
{
    let at = choose|at: int| occurs_at(text, middle, at);
    let inner = choose|at: int| occurs_at(middle, part, at);
    let whole = text.subrange(at, at + middle.len());
    assert(text.subrange(at + inner, at + inner + part.len()) =~= whole.subrange(
        inner,
        inner + part.len(),
    ));
    assert(occurs_at(text, part, at + inner));
}

/// Texts that are joined stand in the whole, each as it is.
pub proof fn joined_texts_stand_in_the_whole(parts: Seq<Seq<char>>, glue: Seq<char>, i: int)
    requires
        0 <= i < parts.len(),
    ensures
        has_text(joined(parts, glue), parts[i]),
    decreases parts.len(),
{
    let none: Seq<char> = seq![];
    let whole = joined(parts, glue);
    if parts.len() == 1 {
        part_stands_between(none, parts[0], none);
        assert(none + parts[0] + none =~= whole);
    } else if i == parts.len() - 1 {
        let before = joined(parts.drop_last(), glue) + glue;
        part_stands_between(before, parts[i], none);
        assert(before + parts[i] + none =~= whole);
    } else {
        let before = joined(parts.drop_last(), glue);
        joined_texts_stand_in_the_whole(parts.drop_last(), glue, i);
        part_stands_between(none, before, glue + parts.last());
        assert(none + before + (glue + parts.last()) =~= whole);
        parts_of_parts_stand_in_the_text(whole, before, parts[i]);
    }
}

/// A text that stands in another stands in it in lower case too, where both are made small.
pub proof fn lower_case_keeps_parts(text: Seq<char>, part: Seq<char>)
    requires
        has_text(text, part),
    ensures
        has_text(lowered(text), lowered(part)),
{
    let at = choose|at: int| occurs_at(text, part, at);
    assert(lowered(text).subrange(at, at + part.len()) =~= lowered(part)) by {
        let piece = text.subrange(at, at + part.len());
        assert forall|i: int| 0 <= i < part.len() implies lowered(text).subrange(
            at,
            at + part.len(),
        )[i] == lowered(part)[i] by {
            assert(piece[i] == part[i]);
            assert(piece[i] == text[at + i]);
        }
    }
    assert(occurs_at(lowered(text), lowered(part), at));
}

/// A text with something visible in it is not blank.
pub proof fn visible_text_is_left(text: Seq<char>, i: int)
    requires
        0 <= i < text.len(),
        !white_space().contains(text[i]),
    ensures
        stripped(text).len() > 0,
    decreases text.len(),
{
    let set = white_space();
    if set.contains(text[0]) {
        assert(text.skip(1)[i - 1] == text[i]);
        visible_text_is_left(text.skip(1), i - 1);
    } else {
        lemma_visible_end(text, set);
    }
}

proof fn lemma_visible_end(text: Seq<char>, set: Seq<char>)
    requires
        text.len() > 0,
        !set.contains(text[0]),
    ensures
        trimmed_end(text, set).len() > 0,
    decreases text.len(),
{
    if set.contains(text.last()) {
        assert(text.len() > 1);
        assert(text.drop_last()[0] == text[0]);
        lemma_visible_end(text.drop_last(), set);
    }
}

/// White space is what Unicode calls so: the tab and the line ends, the blank, and the blanks
/// beyond ASCII.
pub proof fn white_space_is_what_unicode_says(c: char)
    ensures
        white_space().contains(c) <==> {
            ||| '\u{9}' <= c <= '\u{d}'
            ||| c == ' '
            ||| c == '\u{85}'
            ||| c == '\u{a0}'
            ||| c == '\u{1680}'
            ||| '\u{2000}' <= c <= '\u{200a}'
            ||| c == '\u{2028}'
            ||| c == '\u{2029}'
            ||| c == '\u{202f}'
            ||| c == '\u{205f}'
            ||| c == '\u{3000}'
        },
{
    let all = white_space();
    assert(all[0] == '\u{9}' && all[1] == '\u{a}' && all[2] == '\u{b}' && all[3] == '\u{c}' && all[4]
        == '\u{d}' && all[5] == ' ' && all[6] == '\u{85}' && all[7] == '\u{a0}' && all[8]
        == '\u{1680}');
    assert(all[9] == '\u{2000}' && all[10] == '\u{2001}' && all[11] == '\u{2002}' && all[12]
        == '\u{2003}' && all[13] == '\u{2004}' && all[14] == '\u{2005}' && all[15] == '\u{2006}');
    assert(all[16] == '\u{2007}' && all[17] == '\u{2008}' && all[18] == '\u{2009}' && all[19]
        == '\u{200a}' && all[20] == '\u{2028}' && all[21] == '\u{2029}' && all[22] == '\u{202f}');
    assert(all[23] == '\u{205f}' && all[24] == '\u{3000}');
}

/// Words stand between white space: the first one is what stands before the first white space,
/// and a blank text has none.
pub proof fn first_word_is_cut_off(blank: Seq<char>, word: Seq<char>, space: char, rest: Seq<char>)
    requires
        forall|i: int| 0 <= i < blank.len() ==> white_space().contains(#[trigger] blank[i]),
        forall|i: int| 0 <= i < word.len() ==> !white_space().contains(#[trigger] word[i]),
        word.len() > 0,
        white_space().contains(space),
    ensures
        words_of(blank) == Seq::<Seq<char>>::empty(),
        words_of(blank + word) == seq![word],
        words_of(blank + word + seq![space] + rest) == seq![word] + words_of(seq![space] + rest),
        words_of(seq![space] + rest) == words_of(rest),
{
    let set = white_space();
    let none: Seq<char> = seq![];
    lemma_trimmed_start_is(blank, set, blank.len() as int);
    assert(blank.skip(blank.len() as int) =~= none);
    assert(stop_at(none, set) == 0);
    let only = blank + word;
    assert(only[blank.len() as int] == word[0]);
    lemma_trimmed_start_is(only, set, blank.len() as int);
    assert(only.skip(blank.len() as int) =~= word);
    lemma_stop_at_is(word, set, word.len() as int);
    assert(word.take(word.len() as int) =~= word);
    assert(word.skip(word.len() as int) =~= none);
    assert(words_of(none) =~= seq![]) by {
        assert(trimmed_start(none, set) =~= none);
    }
    let all = blank + word + seq![space] + rest;
    let tail = word + seq![space] + rest;
    assert(all[blank.len() as int] == word[0]);
    assert forall|i: int| 0 <= i < blank.len() implies set.contains(#[trigger] all[i]) by {
        assert(all[i] == blank[i]);
    }
    lemma_trimmed_start_is(all, set, blank.len() as int);
    assert(all.skip(blank.len() as int) =~= tail);
    assert(tail[word.len() as int] == space);
    assert forall|i: int| 0 <= i < word.len() implies !set.contains(#[trigger] tail[i]) by {
        assert(tail[i] == word[i]);
    }
    lemma_stop_at_is(tail, set, word.len() as int);
    assert(tail.take(word.len() as int) =~= word);
    assert(tail.skip(word.len() as int) =~= seq![space] + rest);
    let spaced = seq![space] + rest;
    assert(spaced.skip(1) =~= rest);
    assert(spaced[0] == space);
    assert(trimmed_start(spaced, set) == trimmed_start(rest, set));
    lemma_trimmed_start_len(rest, set);
}

proof fn lemma_first_joined(first: Seq<char>, rest: Seq<Seq<char>>, glue: Seq<char>)
    requires
        rest.len() > 0,
    ensures
        joined(seq![first] + rest, glue) == first + glue + joined(rest, glue),
    decreases rest.len(),
{
    let all = seq![first] + rest;
    assert(all.last() == rest.last());
    if rest.len() == 1 {
        assert(all.drop_last() =~= seq![first]);
        assert(joined(seq![first], glue) == first);
    } else {
        assert(all.drop_last() =~= seq![first] + rest.drop_last());
        lemma_first_joined(first, rest.drop_last(), glue);
    }
    assert(joined(all, glue) =~= first + glue + joined(rest, glue));
}

/// Texts that were joined by a character that none of them holds come apart again at that
/// character.
pub proof fn joined_texts_come_apart(parts: Seq<Seq<char>>, c: char)
    requires
        parts.len() > 0,
        forall|i: int, k: int|
            0 <= i < parts.len() && 0 <= k < parts[i].len() ==> #[trigger] parts[i][k] != c,
    ensures
        pieces(joined(parts, seq![c]), seq![c]) == parts,
    decreases parts.len(),
{
    let set = seq![c];
    let first = parts[0];
    assert(set[0] == c);
    assert forall|k: int| 0 <= k < first.len() implies !set.contains(#[trigger] first[k]) by {
        assert(parts[0][k] != c);
    }
    if parts.len() == 1 {
        only_piece_is_the_text(first, set);
        assert(parts =~= seq![first]);
    } else {
        let rest = parts.skip(1);
        assert(parts =~= seq![first] + rest);
        lemma_first_joined(first, rest, set);
        assert forall|i: int, k: int|
            0 <= i < rest.len() && 0 <= k < rest[i].len() implies #[trigger] rest[i][k] != c by {
            assert(parts[i + 1][k] != c);
        }
        joined_texts_come_apart(rest, c);
        first_piece_is_cut_off(first, c, joined(rest, set), set);
    }
}

} // verus!
