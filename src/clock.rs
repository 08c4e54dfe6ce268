//! Times of day, held as seconds after midnight, and their `HH:MM[:SS]` text.

use chrono::NaiveTime;
use chrono::Timelike;
use vstd::prelude::*;

verus! {

/// Seconds in one day: every time of day lies below this.
pub const SECONDS_PER_DAY: u32 = 86400;

/// The value of a decimal digit character, or -1 for any other character.
pub open spec fn digit_value(c: char) -> int {
    if '0' <= c && c <= '9' {
        (c as int) - ('0' as int)
    } else {
        -1
    }
}

/// The decimal digit character of `d`, for `0 <= d < 10`.
pub open spec fn digit_char(d: int) -> char {
    if d == 0 { '0' } else if d == 1 { '1' } else if d == 2 { '2' } else if d == 3 { '3' }
    else if d == 4 { '4' } else if d == 5 { '5' } else if d == 6 { '6' } else if d == 7 { '7' }
    else if d == 8 { '8' } else { '9' }
}

/// The number written by two decimal digits, or -1 if either is no digit.
pub open spec fn two_digits(a: char, b: char) -> int {
    if digit_value(a) >= 0 && digit_value(b) >= 0 {
        10 * digit_value(a) + digit_value(b)
    } else {
        -1
    }
}

/// The time of day written exactly as `HH:MM` (24-hour clock), in seconds.
pub open spec fn hh_mm_seconds(s: Seq<char>) -> Option<int> {
    if s.len() == 5 && s[2] == ':' && 0 <= two_digits(s[0], s[1]) < 24 && 0 <= two_digits(s[3], s[4]) < 60 {
        Some(3600 * two_digits(s[0], s[1]) + 60 * two_digits(s[3], s[4]))
    } else {
        None
    }
}

/// The time of day written exactly as `HH:MM:SS` (24-hour clock), in seconds.
pub open spec fn hh_mm_ss_seconds(s: Seq<char>) -> Option<int> {
    if s.len() == 8 && s[2] == ':' && s[5] == ':' && 0 <= two_digits(s[0], s[1]) < 24
        && 0 <= two_digits(s[3], s[4]) < 60 && 0 <= two_digits(s[6], s[7]) < 60 {
        Some(3600 * two_digits(s[0], s[1]) + 60 * two_digits(s[3], s[4]) + two_digits(s[6], s[7]))
    } else {
        None
    }
}

/// `HH:MM:SS` text of the time of day `t` (seconds after midnight).
pub open spec fn clock_text(t: int) -> Seq<char> {
    let h = t / 3600;
    let m = (t / 60) % 60;
    let s = t % 60;
    seq![
        digit_char(h / 10), digit_char(h % 10), ':',
        digit_char(m / 10), digit_char(m % 10), ':',
        digit_char(s / 10), digit_char(s % 10),
    ]
}

/// What chrono's `NaiveTime::parse_from_str` makes of text `s` under format
/// `fmt`, as seconds after midnight, or `None` where it rejects the text.
pub uninterp spec fn parsed_time(s: Seq<char>, fmt: Seq<char>) -> Option<int>;

/// Text that has the shape `DD:DD`, with the number before the colon above 23 or
/// the one after it above 59.
pub open spec fn out_of_range_hh_mm(s: Seq<char>) -> bool {
    &&& s.len() >= 5
    &&& s[2] == ':'
    &&& two_digits(s[0], s[1]) >= 0
    &&& two_digits(s[3], s[4]) >= 0
    &&& (two_digits(s[0], s[1]) > 23 || two_digits(s[3], s[4]) > 59)
}

/// Relies on chrono's `NaiveTime::parse_from_str` (and `Timelike::num_seconds_from_midnight`):
/// the result depends on the text and format alone and lies within one day; text
/// that is exactly `HH:MM` (format `%H:%M`) or `HH:MM:SS` (format `%H:%M:%S`) with
/// fields in range parses to the time it writes; empty text, and an hour above 23
/// or a minute above 59 (`Parsed::set_hour`, `Parsed::set_minute`), are rejected.
#[verifier::external_body]
pub(crate) fn parse_time_of_day(s: &str, fmt: &str) -> (r: Option<u32>)
    ensures
        match r {
            Some(t) => parsed_time(s@, fmt@) == Some(t as int) && t < SECONDS_PER_DAY,
            None => parsed_time(s@, fmt@) is None,
        },
        fmt@ == "%H:%M"@ ==> (hh_mm_seconds(s@) matches Some(v) ==> r == Some(v as u32)),
        fmt@ == "%H:%M:%S"@ ==> (hh_mm_ss_seconds(s@) matches Some(v) ==> r == Some(v as u32)),
        (fmt@ == "%H:%M"@ || fmt@ == "%H:%M:%S"@) && (s@.len() == 0 || out_of_range_hh_mm(s@)) ==> r is None,
{
    NaiveTime::parse_from_str(s, fmt).ok().map(|t| t.num_seconds_from_midnight())
}

/// Relies on chrono's `NaiveTime::format` with `%H:%M:%S`: two zero-padded digits
/// each for hour, minute and second.
#[verifier::external_body]
pub(crate) fn format_time_of_day(t: u32) -> (r: String)
    requires
        t < SECONDS_PER_DAY,
    ensures
        r@ == clock_text(t as int),
{
    NaiveTime::from_num_seconds_from_midnight_opt(t, 0)
        .map(|time| time.format("%H:%M:%S").to_string())
        .unwrap_or_default()
}

proof fn lemma_digit_round_trip(d: int)
    requires
        0 <= d < 10,
    ensures
        digit_value(digit_char(d)) == d,
{
}

/// Reading back the text of a time of day gives that time.
pub proof fn lemma_clock_text_round_trip(t: int)
    requires
        0 <= t < SECONDS_PER_DAY,
    ensures
        hh_mm_ss_seconds(clock_text(t)) == Some(t),
{
    let h = t / 3600;
    let m = (t / 60) % 60;
    let s = t % 60;
    assert(0 <= h < 24);
    assert(0 <= m < 60);
    assert(0 <= s < 60);
    assert(3600 * h + 60 * m + s == t) by {
        vstd::arithmetic::div_mod::lemma_fundamental_div_mod(t, 60);
        vstd::arithmetic::div_mod::lemma_fundamental_div_mod(t / 60, 60);
        vstd::arithmetic::div_mod::lemma_div_denominator(t, 60, 60);
    }
    lemma_digit_round_trip(h / 10);
    lemma_digit_round_trip(h % 10);
    lemma_digit_round_trip(m / 10);
    lemma_digit_round_trip(m % 10);
    lemma_digit_round_trip(s / 10);
    lemma_digit_round_trip(s % 10);
    let text = clock_text(t);
    assert(two_digits(text[0], text[1]) == h);
    assert(two_digits(text[3], text[4]) == m);
    assert(two_digits(text[6], text[7]) == s);
}

} // verus!
