//! Durations as a user writes them: numbers, each followed by a unit, such as
//! `10s`, `1 hour 30min` or `2h 5 m`.

use std::time::Duration;
use vstd::prelude::*;
use crate::text::{
    all_digits, chars_of, decimal_value, is_ascii_digit, is_digit, lemma_decimal_value_grows,
    same_text, string_of, strs,
};

verus! {

/// A test that is put to the characters of a text one after the other and says
/// at which of them a new section starts. It may remember what it has seen.
pub trait Boundary: Sized {
    /// Whether a new section starts at `c`.
    spec fn cuts(&self, c: char) -> bool;

    /// The test as it is after it has seen `c`.
    spec fn after(&self, c: char) -> Self;

    /// Puts `c` to the test.
    fn test(&mut self, c: char) -> (cut: bool)
        ensures
            cut == old(self).cuts(c),
            *final(self) == old(self).after(c),
    ;
}

/// `current`, if it holds anything, as one section.
pub open spec fn section(current: Seq<char>) -> Seq<Seq<char>> {
    if current.len() == 0 {
        Seq::empty()
    } else {
        seq![current]
    }
}

/// The sections that `rest` falls into after `current`, the section begun so
/// far: a section ends before each character at which `pred` cuts, and empty
/// sections are left out.
pub open spec fn sections<P: Boundary>(pred: P, rest: Seq<char>, current: Seq<char>) -> Seq<
    Seq<char>,
>
    decreases rest.len(),
{
    if rest.len() == 0 {
        section(current)
    } else if pred.cuts(rest[0]) {
        section(current) + sections(pred.after(rest[0]), rest.skip(1), seq![rest[0]])
    } else {
        sections(pred.after(rest[0]), rest.skip(1), current.push(rest[0]))
    }
}

/// Splits `input` before each character at which `pred` cuts, and leaves out
/// empty sections.
pub fn split_with<P: Boundary>(pred: P, input: &str) -> (out: Vec<String>)
    ensures
        strs(out@) == sections(pred, input@, Seq::empty()),
{
    let mut pred = pred;
    let ghost first = pred;
    let chars = chars_of(input);
    let mut out: Vec<String> = Vec::new();
    let mut start: usize = 0;
    let mut i: usize = 0;
    assert(chars@.skip(0) =~= chars@);
    assert(chars@.subrange(0, 0) =~= Seq::<char>::empty());
    assert(strs(out@) =~= Seq::<Seq<char>>::empty());
    assert(strs(out@) + sections(pred, chars@, Seq::empty()) =~= sections(
        pred,
        chars@,
        Seq::empty(),
    ));
    while i < chars.len()
        invariant
            start <= i <= chars@.len(),
            chars@ == input@,
            sections(first, input@, Seq::empty()) == strs(out@) + sections(
                pred,
                chars@.skip(i as int),
                chars@.subrange(start as int, i as int),
            ),
        decreases chars@.len() - i,
    {
        let ghost before = pred;
        let ghost had = strs(out@);
        let ghost current = chars@.subrange(start as int, i as int);
        let c = chars[i];
        assert(chars@.skip(i as int)[0] == c);
        assert(chars@.skip(i as int).skip(1) =~= chars@.skip(i + 1));
        if pred.test(c) {
            if start < i {
                out.push(string_of(chars.as_slice(), start, i));
                assert(strs(out@) =~= had + section(current));
            }
            start = i;
            assert(chars@.subrange(i as int, i + 1) =~= seq![c]);
            assert(had + (section(current) + sections(
                before.after(c),
                chars@.skip(i + 1),
                seq![c],
            )) =~= (had + section(current)) + sections(
                before.after(c),
                chars@.skip(i + 1),
                seq![c],
            ));
        } else {
            assert(chars@.subrange(start as int, i + 1) =~= current.push(c));
        }
        i += 1;
    }
    let ghost had = strs(out@);
    if start < chars.len() {
        out.push(string_of(chars.as_slice(), start, chars.len()));
        assert(strs(out@) =~= had + section(chars@.subrange(start as int, chars@.len() as int)));
    }
    out
}

/// The test that cuts wherever digits begin or end.
pub struct DigitEdge {
    pub in_number: bool,
}

impl Boundary for DigitEdge {
    open spec fn cuts(&self, c: char) -> bool {
        is_digit(c) != self.in_number
    }

    open spec fn after(&self, c: char) -> DigitEdge {
        DigitEdge { in_number: is_digit(c) }
    }

    fn test(&mut self, c: char) -> (cut: bool) {
        let digit = is_ascii_digit(c);
        let cut = digit != self.in_number;
        self.in_number = digit;
        cut
    }
}

/// The runs of digits and of other characters that `text` is made of, in order.
pub open spec fn number_sections(text: Seq<char>) -> Seq<Seq<char>> {
    sections(DigitEdge { in_number: false }, text, Seq::empty())
}

/// `parts` one after the other, as one text.
pub open spec fn concat(parts: Seq<Seq<char>>) -> Seq<char>
    decreases parts.len(),
{
    if parts.len() == 0 {
        Seq::empty()
    } else {
        parts[0] + concat(parts.drop_first())
    }
}

/// Whether `run` is made of digits only or holds none.
pub open spec fn same_kind(run: Seq<char>) -> bool {
    forall|i: int| 0 <= i < run.len() ==> is_digit(#[trigger] run[i]) == is_digit(run[0])
}

/// Whether `parts` are runs: none is empty, each is made of digits only or
/// holds none, and of two neighbours one is digits and the other is not.
pub open spec fn is_runs(parts: Seq<Seq<char>>) -> bool {
    &&& forall|i: int| 0 <= i < parts.len() ==> (#[trigger] parts[i]).len() > 0 && same_kind(parts[i])
    &&& forall|i: int|
        0 <= i < parts.len() - 1 ==> is_digit((#[trigger] parts[i])[0]) != is_digit(
            parts[i + 1][0],
        )
}

/// The sections after a section begun are runs, as long as the section begun
/// is one so far and the test remembers its kind.
proof fn lemma_sections_runs(in_number: bool, rest: Seq<char>, current: Seq<char>)
    requires
        current.len() > 0 ==> same_kind(current) && is_digit(current[0]) == in_number,
        current.len() == 0 ==> !in_number,
    ensures
        concat(sections(DigitEdge { in_number }, rest, current)) == current + rest,
        is_runs(sections(DigitEdge { in_number }, rest, current)),
        current.len() > 0 ==> {
            let r = sections(DigitEdge { in_number }, rest, current);
            r.len() > 0 && r[0].len() > 0 && r[0][0] == current[0]
        },
    decreases rest.len(),
{
    let pred = DigitEdge { in_number };
    let r = sections(pred, rest, current);
    if rest.len() == 0 {
        assert(current + rest =~= current);
        if current.len() > 0 {
            assert(r.drop_first() =~= Seq::<Seq<char>>::empty());
            assert(concat(r.drop_first()) =~= Seq::<char>::empty());
            assert(concat(r) =~= current);
        }
    } else {
        let c = rest[0];
        let tail = rest.skip(1);
        if pred.cuts(c) {
            let after = sections(DigitEdge { in_number: is_digit(c) }, tail, seq![c]);
            lemma_sections_runs(is_digit(c), tail, seq![c]);
            assert(seq![c] + tail =~= rest);
            if current.len() == 0 {
                assert(r =~= after);
                assert(current + rest =~= rest);
            } else {
                assert(r =~= seq![current] + after);
                assert(r.drop_first() =~= after);
                assert(current + (seq![c] + tail) =~= current + rest);
                assert forall|i: int| 0 <= i < r.len() implies (#[trigger] r[i]).len() > 0
                    && same_kind(r[i]) by {
                    if i > 0 {
                        assert(r[i] == after[i - 1]);
                    }
                }
                assert forall|i: int| 0 <= i < r.len() - 1 implies is_digit((#[trigger] r[i])[0])
                    != is_digit(r[i + 1][0]) by {
                    if i > 0 {
                        assert(r[i] == after[i - 1]);
                        assert(r[i + 1] == after[i]);
                    } else {
                        assert(r[1] == after[0]);
                    }
                }
            }
        } else {
            let grown = current.push(c);
            lemma_sections_runs(is_digit(c), tail, grown);
            assert(grown + tail =~= current + rest);
            assert(same_kind(grown)) by {
                assert forall|i: int| 0 <= i < grown.len() implies is_digit(#[trigger] grown[i])
                    == is_digit(grown[0]) by {
                    if i < current.len() {
                        assert(grown[i] == current[i]);
                    }
                }
            }
        }
    }
}

/// The parts that a text is split into where digits begin or end are its
/// runs of digits and of other characters: put together they give the text,
/// none is empty, each is digits only or holds none, and no two of a kind
/// stand side by side.
pub proof fn lemma_number_sections(text: Seq<char>)
    ensures
        concat(number_sections(text)) == text,
        is_runs(number_sections(text)),
{
    lemma_sections_runs(false, text, Seq::empty());
    assert(Seq::<char>::empty() + text =~= text);
}

/// Splits `input` wherever digits begin or end: `10aa20` gives `10`, `aa`, `20`.
pub fn separate_numbers(input: &str) -> (out: Vec<String>)
    ensures
        strs(out@) == number_sections(input@),
{
    split_with(DigitEdge { in_number: false }, input)
}


/// Whether `char::is_whitespace` of the standard library holds of a
/// character beyond ASCII: whether it has the Unicode property White_Space.
pub uninterp spec fn unicode_white_space(c: char) -> bool;

/// Whether `c` is white space: of the ASCII characters the blank and the
/// five from the tabulator to the carriage return, and beyond ASCII the
/// characters that Unicode counts as white space.
pub open spec fn whitespace(c: char) -> bool {
    if c <= '\u{7f}' {
        c == ' ' || '\t' <= c <= '\r'
    } else {
        unicode_white_space(c)
    }
}

/// `char::is_whitespace` depends on the character alone. Of the ASCII
/// characters it holds of the blank and of U+0009 to U+000D, and of no other.
pub assume_specification[ char::is_whitespace ](c: char) -> (r: bool)
    ensures
        r == whitespace(c),
        c > '\u{7f}' ==> r == unicode_white_space(c),
;

/// The test that cuts at each white space character and after it.
pub struct WordEdge {
    pub after_space: bool,
}

impl Boundary for WordEdge {
    open spec fn cuts(&self, c: char) -> bool {
        whitespace(c) || self.after_space
    }

    open spec fn after(&self, c: char) -> WordEdge {
        WordEdge { after_space: whitespace(c) }
    }

    fn test(&mut self, c: char) -> (cut: bool) {
        let space = c.is_whitespace();
        let cut = space || self.after_space;
        self.after_space = space;
        cut
    }
}

/// Whether `section` is white space: sections cut by `WordEdge` are either one
/// white space character or a word without any.
pub open spec fn is_space(section: Seq<char>) -> bool {
    section.len() > 0 && whitespace(section[0])
}

/// The pieces of a duration text: its words, taken apart wherever digits begin
/// or end. White space separates and is no piece.
pub open spec fn pieces_in(parts: Seq<Seq<char>>) -> Seq<Seq<char>>
    decreases parts.len(),
{
    if parts.len() == 0 {
        Seq::empty()
    } else if is_space(parts.last()) {
        pieces_in(parts.drop_last())
    } else {
        pieces_in(parts.drop_last()) + number_sections(parts.last())
    }
}

/// The pieces of `text`.
pub open spec fn pieces_of(text: Seq<char>) -> Seq<Seq<char>> {
    pieces_in(sections(WordEdge { after_space: false }, text, Seq::empty()))
}

/// Why a text is no duration.
#[derive(Debug, PartialEq, Eq, Structural)]
pub enum DurationError {
    /// Where a number was due, something else stands.
    InvalidNumber,
    /// A number does not fit in 64 bits.
    NumberTooLarge,
    /// A number is not followed by a unit.
    UnitExpected,
    /// The duration does not fit in 64 bits of seconds.
    TooLong,
}

/// The number that `piece` stands for.
pub open spec fn number_of(piece: Seq<char>) -> Result<u64, DurationError> {
    if piece.len() == 0 || !all_digits(piece) {
        Err(DurationError::InvalidNumber)
    } else if decimal_value(piece) > u64::MAX {
        Err(DurationError::NumberTooLarge)
    } else {
        Ok(decimal_value(piece) as u64)
    }
}

/// The seconds in the unit that `piece` names, if it names one.
pub open spec fn unit_seconds(piece: Seq<char>) -> Option<u64> {
    if piece == "s"@ || piece == "sec"@ || piece == "secs"@ || piece == "second"@ || piece
        == "seconds"@ {
        Some(1u64)
    } else if piece == "m"@ || piece == "min"@ || piece == "mins"@ || piece == "minute"@ || piece
        == "minutes"@ {
        Some(60u64)
    } else if piece == "h"@ || piece == "hour"@ || piece == "hours"@ {
        Some(3600u64)
    } else {
        None
    }
}

/// The seconds that `pieces` add to `sum`: each number counts in the unit that
/// follows it. The first piece that is out of place decides the error.
pub open spec fn total_seconds(pieces: Seq<Seq<char>>, sum: nat) -> Result<u64, DurationError>
    decreases pieces.len(),
{
    if pieces.len() == 0 {
        Ok(sum as u64)
    } else {
        match number_of(pieces[0]) {
            Err(e) => Err(e),
            Ok(n) => if pieces.len() == 1 {
                Err(DurationError::UnitExpected)
            } else {
                match unit_seconds(pieces[1]) {
                    None => Err(DurationError::UnitExpected),
                    Some(unit) => if sum + n * unit > u64::MAX {
                        Err(DurationError::TooLong)
                    } else {
                        total_seconds(pieces.skip(2), (sum + n * unit) as nat)
                    },
                }
            },
        }
    }
}

/// The seconds of the duration that `text` states.
pub open spec fn duration_spec(text: Seq<char>) -> Result<u64, DurationError> {
    total_seconds(pieces_of(text), 0)
}

/// Reads a number: digits only, and no more than 64 bits hold.
pub fn parse_number(piece: &str) -> (r: Result<u64, DurationError>)
    ensures
        r == number_of(piece@),
{
    let chars = chars_of(piece);
    if chars.len() == 0 {
        return Err(DurationError::InvalidNumber);
    }
    let mut i: usize = 0;
    while i < chars.len()
        invariant
            i <= chars@.len(),
            chars@ == piece@,
            all_digits(chars@.take(i as int)),
        decreases chars@.len() - i,
    {
        if !is_ascii_digit(chars[i]) {
            return Err(DurationError::InvalidNumber);
        }
        i += 1;
    }
    assert(chars@.take(chars@.len() as int) =~= chars@);
    let mut value: u64 = 0;
    let mut k: usize = 0;
    assert(chars@.take(0).len() == 0);
    while k < chars.len()
        invariant
            k <= chars@.len(),
            chars@ == piece@,
            all_digits(chars@),
            value == decimal_value(chars@.take(k as int)),
        decreases chars@.len() - k,
    {
        let c = chars[k];
        assert(is_digit(c));
        let digit: u64 = (c as u32 - '0' as u32) as u64;
        proof {
            assert(chars@.take(k + 1).drop_last() =~= chars@.take(k as int));
            assert(decimal_value(chars@.take(k + 1)) == value * 10 + digit);
            lemma_decimal_value_grows(chars@, k + 1);
        }
        if value > (u64::MAX - digit) / 10 {
            return Err(DurationError::NumberTooLarge);
        }
        value = value * 10 + digit;
        k += 1;
    }
    assert(chars@.take(chars@.len() as int) =~= chars@);
    Ok(value)
}

/// Reads a unit: seconds, minutes or hours, as a letter, short or in full.
pub fn parse_unit(piece: &str) -> (r: Option<u64>)
    ensures
        r == unit_seconds(piece@),
{
    if same_text(piece, "s") || same_text(piece, "sec") || same_text(piece, "secs") || same_text(
        piece,
        "second",
    ) || same_text(piece, "seconds") {
        Some(1)
    } else if same_text(piece, "m") || same_text(piece, "min") || same_text(piece, "mins")
        || same_text(piece, "minute") || same_text(piece, "minutes") {
        Some(60)
    } else if same_text(piece, "h") || same_text(piece, "hour") || same_text(piece, "hours") {
        Some(3600)
    } else {
        None
    }
}


/// The views of two vectors of strings, one after the other.
proof fn lemma_strs_add(a: Seq<String>, b: Seq<String>)
    ensures
        strs(a + b) == strs(a) + strs(b),
{
    assert(strs(a + b) =~= strs(a) + strs(b));
}

/// Takes `input` apart into the pieces of a duration: white space separates,
/// and digits part from what is next to them.
pub fn pieces(input: &str) -> (out: Vec<String>)
    ensures
        strs(out@) == pieces_of(input@),
{
    let parts = split_with(WordEdge { after_space: false }, input);
    let ghost all = strs(parts@);
    let mut out: Vec<String> = Vec::new();
    let mut i: usize = 0;
    assert(all.take(0).len() == 0);
    assert(strs(out@) =~= Seq::<Seq<char>>::empty());
    while i < parts.len()
        invariant
            i <= parts@.len(),
            all == strs(parts@),
            strs(out@) == pieces_in(all.take(i as int)),
        decreases parts@.len() - i,
    {
        let part = parts[i].as_str();
        let first = chars_of(part);
        proof {
            assert(all.take(i + 1).drop_last() =~= all.take(i as int));
            assert(all.take(i + 1).last() == part@);
        }
        if !(first.len() > 0 && first[0].is_whitespace()) {
            let mut more = separate_numbers(part);
            proof {
                lemma_strs_add(out@, more@);
            }
            out.append(&mut more);
        }
        i += 1;
    }
    assert(all.take(parts@.len() as int) =~= all);
    out
}

/// What the reading of a duration waits for.
enum State {
    NumberNeeded,
    UnitNeeded(u64),
}

/// The seconds that `pieces` state: numbers and units in turn, summed up.
pub fn seconds_of_pieces(pieces: &Vec<String>) -> (r: Result<u64, DurationError>)
    ensures
        r == total_seconds(strs(pieces@), 0),
{
    let ghost all = strs(pieces@);
    let mut sum: u64 = 0;
    let mut state = State::NumberNeeded;
    let mut i: usize = 0;
    assert(all.skip(0) =~= all);
    while i < pieces.len()
        invariant
            i <= pieces@.len(),
            all == strs(pieces@),
            match state {
                State::NumberNeeded => total_seconds(all, 0) == total_seconds(
                    all.skip(i as int),
                    sum as nat,
                ),
                State::UnitNeeded(n) => {
                    &&& i >= 1
                    &&& number_of(all[i - 1]) == Ok::<u64, DurationError>(n)
                    &&& total_seconds(all, 0) == total_seconds(all.skip(i - 1), sum as nat)
                },
            },
        decreases pieces@.len() - i,
    {
        let piece = pieces[i].as_str();
        match state {
            State::NumberNeeded => {
                assert(all.skip(i as int)[0] == piece@);
                match parse_number(piece) {
                    Err(e) => {
                        return Err(e);
                    },
                    Ok(n) => {
                        state = State::UnitNeeded(n);
                    },
                }
            },
            State::UnitNeeded(n) => {
                let ghost rest = all.skip(i - 1);
                assert(rest[0] == all[i - 1]);
                assert(rest[1] == piece@);
                assert(rest.skip(2) =~= all.skip(i + 1));
                let unit = match parse_unit(piece) {
                    None => {
                        return Err(DurationError::UnitExpected);
                    },
                    Some(unit) => unit,
                };
                let more = match n.checked_mul(unit) {
                    None => {
                        return Err(DurationError::TooLong);
                    },
                    Some(more) => more,
                };
                sum = match sum.checked_add(more) {
                    None => {
                        return Err(DurationError::TooLong);
                    },
                    Some(sum) => sum,
                };
                state = State::NumberNeeded;
            },
        }
        i += 1;
    }
    match state {
        State::UnitNeeded(_) => {
            assert(all.skip(i - 1).len() == 1);
            Err(DurationError::UnitExpected)
        },
        State::NumberNeeded => Ok(sum),
    }
}

/// The seconds of the duration that `input` states.
pub fn parse_seconds(input: &str) -> (r: Result<u64, DurationError>)
    ensures
        r == duration_spec(input@),
{
    let pieces = pieces(input);
    seconds_of_pieces(&pieces)
}

/// The `Duration` that `Duration::from_secs` makes of a number of whole seconds.
pub uninterp spec fn whole_seconds(secs: u64) -> Duration;

/// `Duration::from_secs` depends on the number of seconds alone.
pub assume_specification[ std::time::Duration::from_secs ](secs: u64) -> (d: Duration)
    ensures
        d == whole_seconds(secs),
;

/// Reads a duration: numbers, each followed by a unit (`s`, `sec`, `secs`,
/// `second`, `seconds`; `m`, `min`, `mins`, `minute`, `minutes`; `h`, `hour`,
/// `hours`), with or without white space between them, summed up. A number
/// without a unit is an error.
pub fn parse_duration(input: &str) -> (r: Result<Duration, DurationError>)
    ensures
        match duration_spec(input@) {
            Ok(secs) => r is Ok && r->Ok_0 == whole_seconds(secs),
            Err(e) => r is Err && r->Err_0 == e,
        },
{
    match parse_seconds(input) {
        Ok(secs) => Ok(Duration::from_secs(secs)),
        Err(e) => Err(e),
    }
}

impl DurationError {
    /// The error in words.
    pub fn message(&self) -> (text: String)
        ensures
            text@ == match self {
                DurationError::InvalidNumber => "invalid digit found in string"@,
                DurationError::NumberTooLarge => "number too large to fit in target type"@,
                DurationError::UnitExpected => "unit expected"@,
                DurationError::TooLong => "duration too long"@,
            },
    {
        match self {
            DurationError::InvalidNumber => "invalid digit found in string".to_owned(),
            DurationError::NumberTooLarge => "number too large to fit in target type".to_owned(),
            DurationError::UnitExpected => "unit expected".to_owned(),
            DurationError::TooLong => "duration too long".to_owned(),
        }
    }
}

} // verus!
