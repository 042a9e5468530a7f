//! The duration codec: durations written as `PT1H2M3S` or as `01:02:03`,
//! read into whole seconds, and whole seconds written as a clock text.

use crate::decimal::{
    append_two_digits, is_digit, is_unsigned, lemma_two_digits, parse_unsigned, two_digits,
    unsigned_digits, unsigned_value,
};
use crate::text::{
    chars_of, find_from, has, lemma_position, lemma_split_cons, lemma_split_one, position, split,
    split_ranges,
};
use vstd::prelude::*;
use vstd::string::*;

verus! {

/// Why a text is not a duration.
#[derive(Clone, Copy, Debug, PartialEq, Eq, Structural)]
pub enum ParseError {
    /// A clock text has neither two fields nor three.
    InvalidFormat,
    /// A field is not an unsigned numeral of 64 bits.
    InvalidNumber,
    /// The fields are numerals, and the seconds they add up to exceed 64
    /// bits.
    OutOfRange,
}

pub const SECONDS_PER_MINUTE: u64 = 60;

pub const SECONDS_PER_HOUR: u64 = 3600;

/// `s` without the `PT` that it starts with, however often that is repeated.
pub open spec fn strip_pt(s: Seq<char>) -> Seq<char>
    decreases s.len(),
{
    if s.len() >= 2 && s[0] == 'P' && s[1] == 'T' {
        strip_pt(s.subrange(2, s.len() as int))
    } else {
        s
    }
}

/// The seconds in the given hours, minutes and seconds, each a field that
/// was read as a numeral or could not be.
pub open spec fn total_seconds(hours: Option<u64>, minutes: Option<u64>, seconds: Option<u64>)
    -> Result<u64, ParseError> {
    match (hours, minutes, seconds) {
        (Some(h), Some(m), Some(s)) => {
            if h * SECONDS_PER_HOUR + m * SECONDS_PER_MINUTE + s <= u64::MAX {
                Ok((h * SECONDS_PER_HOUR + m * SECONDS_PER_MINUTE + s) as u64)
            } else {
                Err(ParseError::OutOfRange)
            }
        },
        _ => Err(ParseError::InvalidNumber),
    }
}

/// The seconds that a text of the form `PT[nH][nM][nS]` stands for.
///
/// The markers `H`, `M` and `S` are each looked up where they first stand
/// in what follows the prefix. The hours are what stands before `H`; the
/// minutes what stands between `H` (or the start) and `M`; the seconds
/// what stands between `M` (or `H`, or the start) and `S`. A marker that is
/// missing gives 0, and so do seconds with nothing written; hours and
/// minutes with nothing written are no numerals. What follows the last
/// marker is not read.
pub open spec fn iso_seconds(text: Seq<char>) -> Result<u64, ParseError> {
    let body = strip_pt(text);
    let h = position(body, 'H') as int;
    let m = position(body, 'M') as int;
    let s = position(body, 'S') as int;
    let after_h = if has(body, 'H') { h + 1 } else { 0 };
    let after_m = if has(body, 'M') { m + 1 } else { after_h };
    total_seconds(
        if has(body, 'H') { unsigned_value(body.subrange(0, h)) } else { Some(0u64) },
        if has(body, 'M') { unsigned_value(body.subrange(after_h, m)) } else { Some(0u64) },
        if has(body, 'S') && after_m < s { unsigned_value(body.subrange(after_m, s)) } else { Some(0u64) },
    )
}

/// The seconds that a clock text stands for: `MM:SS` or `HH:MM:SS`, each
/// field an unsigned numeral of any length.
pub open spec fn clock_seconds(text: Seq<char>) -> Result<u64, ParseError> {
    let fields = split(text, ':');
    if fields.len() == 3 {
        total_seconds(unsigned_value(fields[0]), unsigned_value(fields[1]), unsigned_value(fields[2]))
    } else if fields.len() == 2 {
        total_seconds(Some(0u64), unsigned_value(fields[0]), unsigned_value(fields[1]))
    } else {
        Err(ParseError::InvalidFormat)
    }
}

/// The clock text of a number of seconds: hours, minutes and seconds, each
/// of two digits at least, with colons between. The hours are not taken
/// modulo 24.
pub open spec fn clock_text(seconds: nat) -> Seq<char> {
    two_digits(seconds / 3600).push(':') + two_digits((seconds % 3600) / 60).push(':') + two_digits(seconds % 60)
}

/// A numeral holds no character but digits and a sign.
proof fn lemma_numeral_chars(field: Seq<char>, c: char)
    requires
        is_unsigned(field),
        !is_digit(c),
        c != '+',
    ensures
        forall|j: int| 0 <= j < field.len() ==> #[trigger] field[j] != c,
{
    let digits = unsigned_digits(field);
    assert forall|j: int| 0 <= j < field.len() implies #[trigger] field[j] != c by {
        if field[0] == '+' {
            if j > 0 {
                assert(field[j] == digits[j - 1]);
            }
        } else {
            assert(field[j] == digits[j]);
        }
    }
}

/// Where `body[from..to]` is a numeral and a marker stands at `to`, another
/// marker that does not stand before `from` stands after `to`.
proof fn lemma_marker_after(body: Seq<char>, from: int, to: int, c: char)
    requires
        0 <= from <= to < body.len(),
        is_unsigned(body.subrange(from, to)),
        !is_digit(c),
        c != '+',
        body[to] != c,
        position(body, c) >= from,
    ensures
        position(body, c) > to,
{
    lemma_position(body, c);
    lemma_numeral_chars(body.subrange(from, to), c);
    let p = position(body, c) as int;
    if p < to {
        assert(body.subrange(from, to)[p - from] == body[p]);
    }
}

/// How many characters of `chars` the repeated prefix `PT` takes.
fn skip_pt(chars: &Vec<char>) -> (start: usize)
    ensures
        start <= chars.len(),
        chars@.subrange(start as int, chars.len() as int) == strip_pt(chars@),
{
    let n: usize = chars.len();
    let mut start: usize = 0;
    assert(chars@.subrange(0, n as int) =~= chars@);
    while n - start >= 2 && chars[start] == 'P' && chars[start + 1] == 'T'
        invariant
            n == chars.len(),
            start <= n,
            strip_pt(chars@.subrange(start as int, n as int)) == strip_pt(chars@),
        decreases n - start,
    {
        assert(chars@.subrange(start as int, n as int).subrange(2, n - start) =~= chars@.subrange(
            start + 2,
            n as int,
        ));
        start = start + 2;
    }
    start
}

/// Adds up hours, minutes and seconds.
fn sum_seconds(hours: u64, minutes: u64, seconds: u64) -> (total: Result<u64, ParseError>)
    ensures
        total == total_seconds(Some(hours), Some(minutes), Some(seconds)),
{
    let total: u128 = hours as u128 * SECONDS_PER_HOUR as u128 + minutes as u128
        * SECONDS_PER_MINUTE as u128 + seconds as u128;
    if total <= u64::MAX as u128 {
        Ok(total as u64)
    } else {
        Err(ParseError::OutOfRange)
    }
}

/// Reads a duration of the form `PT[nH][nM][nS]` into seconds.
pub fn parse_iso_duration(duration: &str) -> (seconds: Result<u64, ParseError>)
    ensures
        seconds == iso_seconds(duration@),
{
    let chars = chars_of(duration);
    let n: usize = chars.len();
    let start = skip_pt(&chars);
    let ghost body = chars@.subrange(start as int, n as int);
    let h_at = find_from(&chars, start, 'H');
    let m_at = find_from(&chars, start, 'M');
    let s_at = find_from(&chars, start, 'S');
    proof {
        lemma_position(body, 'H');
        lemma_position(body, 'M');
        lemma_position(body, 'S');
    }
    let mut from: usize = start;
    let mut hours: u64 = 0;
    if h_at < n {
        assert(chars@.subrange(start as int, h_at as int) =~= body.subrange(0, h_at - start));
        match parse_unsigned(&chars, start, h_at) {
            Some(v) => {
                hours = v;
            },
            None => {
                return Err(ParseError::InvalidNumber);
            },
        }
        proof {
            if m_at < n {
                lemma_marker_after(body, 0, h_at - start, 'M');
            }
            if s_at < n {
                lemma_marker_after(body, 0, h_at - start, 'S');
            }
        }
        from = h_at + 1;
    }
    let mut minutes: u64 = 0;
    if m_at < n {
        assert(chars@.subrange(from as int, m_at as int) =~= body.subrange(from - start, m_at - start));
        match parse_unsigned(&chars, from, m_at) {
            Some(v) => {
                minutes = v;
            },
            None => {
                return Err(ParseError::InvalidNumber);
            },
        }
        proof {
            if s_at < n {
                lemma_marker_after(body, from - start, m_at - start, 'S');
            }
        }
        from = m_at + 1;
    }
    let mut seconds: u64 = 0;
    if s_at < n && from < s_at {
        assert(chars@.subrange(from as int, s_at as int) =~= body.subrange(from - start, s_at - start));
        match parse_unsigned(&chars, from, s_at) {
            Some(v) => {
                seconds = v;
            },
            None => {
                return Err(ParseError::InvalidNumber);
            },
        }
    }
    sum_seconds(hours, minutes, seconds)
}

/// Reads one field of a clock text.
fn parse_field(chars: &Vec<char>, range: (usize, usize)) -> (value: Option<u64>)
    requires
        range.0 <= range.1 <= chars.len(),
    ensures
        value == unsigned_value(chars@.subrange(range.0 as int, range.1 as int)),
{
    parse_unsigned(chars, range.0, range.1)
}

/// Reads a clock text, `MM:SS` or `HH:MM:SS`, into seconds.
pub fn parse_duration(duration_str: &str) -> (seconds: Result<u64, ParseError>)
    ensures
        seconds == clock_seconds(duration_str@),
{
    let chars = chars_of(duration_str);
    let ranges = split_ranges(&chars, ':');
    if ranges.len() == 3 {
        match (parse_field(&chars, ranges[0]), parse_field(&chars, ranges[1]), parse_field(&chars, ranges[2])) {
            (Some(h), Some(m), Some(s)) => sum_seconds(h, m, s),
            _ => Err(ParseError::InvalidNumber),
        }
    } else if ranges.len() == 2 {
        match (parse_field(&chars, ranges[0]), parse_field(&chars, ranges[1])) {
            (Some(m), Some(s)) => sum_seconds(0, m, s),
            _ => Err(ParseError::InvalidNumber),
        }
    } else {
        Err(ParseError::InvalidFormat)
    }
}

/// Writes a number of seconds as a clock text, `HH:MM:SS`.
pub fn format_duration(seconds: u64) -> (text: String)
    ensures
        text@ == clock_text(seconds as nat),
{
    proof {
        reveal_strlit(":");
    }
    let mut text = String::new();
    append_two_digits(&mut text, seconds / SECONDS_PER_HOUR);
    text.append(":");
    append_two_digits(&mut text, (seconds % SECONDS_PER_HOUR) / SECONDS_PER_MINUTE);
    text.append(":");
    append_two_digits(&mut text, seconds % SECONDS_PER_MINUTE);
    assert(text@ =~= clock_text(seconds as nat));
    text
}

/// Reading the clock text of a number of seconds gives that number back.
pub proof fn lemma_clock_round_trip(seconds: u64)
    ensures
        clock_seconds(clock_text(seconds as nat)) == Ok::<u64, ParseError>(seconds),
{
    let n = seconds as nat;
    let h = two_digits(n / 3600);
    let m = two_digits((n % 3600) / 60);
    let s = two_digits(n % 60);
    lemma_two_digits(n / 3600);
    lemma_two_digits((n % 3600) / 60);
    lemma_two_digits(n % 60);
    assert(!is_digit(':'));
    assert(clock_text(n) =~= h.push(':') + (m.push(':') + s));
    lemma_split_cons(h, m.push(':') + s, ':');
    lemma_split_cons(m, s, ':');
    lemma_split_one(s, ':');
    assert(split(clock_text(n), ':') =~= seq![h, m, s]);
}

} // verus!
