//! Times of day and elapsed durations, and the three text formats they come in.
//!
//! All three formats are read by one 24-hour clock parser, `chrono`'s, after the
//! fields that a format leaves out have been put in front as zeros.

use crate::numeral::{decimal, render_decimal, render_zero_padded, zero_padded};
use chrono::Timelike;
use vstd::prelude::*;
use vstd::string::*;
use vstd::utf8::encode_utf8;

verus! {

/// A time of day on a 24-hour clock, as `chrono::NaiveTime` reports it.
///
/// A leap second is the second 59 with a nanosecond part of a billion or more.
#[derive(Clone, Copy, Debug, PartialEq, Eq, Structural)]
pub struct WallTime {
    pub hour: u32,
    pub minute: u32,
    pub second: u32,
    pub nanosecond: u32,
}

/// A span of time in whole milliseconds.
#[derive(Clone, Copy, Debug, PartialEq, Eq, Structural)]
pub struct Elapsed {
    pub millis: u32,
}

/// A text that is not in the format asked for. `text` is what the clock parser
/// was given: the input behind the zero fields put in front of it.
#[derive(Debug, PartialEq, Eq)]
pub struct ParseError {
    pub text: String,
}

impl View for ParseError {
    type V = Seq<char>;

    open spec fn view(&self) -> Seq<char> {
        self.text@
    }
}

impl WallTime {
    /// The fields name a time of day.
    pub open spec fn wf(self) -> bool {
        &&& self.hour < 24
        &&& self.minute < 60
        &&& self.second < 60
        &&& self.nanosecond < 2_000_000_000
        &&& (self.nanosecond >= 1_000_000_000 ==> self.second == 59)
    }

    /// Whole milliseconds from midnight to this time; a leap second counts in full.
    pub open spec fn spec_millis_since_midnight(self) -> int {
        (self.hour * 3600 + self.minute * 60 + self.second) * 1000 + self.nanosecond / 1_000_000
    }

    /// The second as a clock shows it: 60 within a leap second.
    pub open spec fn spec_display_second(self) -> int {
        if self.nanosecond >= 1_000_000_000 {
            self.second + 1
        } else {
            self.second as int
        }
    }

    /// The time as `HH:MM:SS`.
    pub open spec fn spec_text(self) -> Seq<char> {
        zero_padded(self.hour as nat, 2) + seq![':'] + zero_padded(self.minute as nat, 2) + seq![
            ':',
        ] + zero_padded(self.spec_display_second() as nat, 2)
    }

    pub fn millis_since_midnight(&self) -> (ms: u64)
        ensures
            ms == self.spec_millis_since_midnight(),
            self.wf() ==> ms < 86_401_000,
    {
        let h: u64 = self.hour as u64;
        let m: u64 = self.minute as u64;
        let s: u64 = self.second as u64;
        let frac: u64 = (self.nanosecond / 1_000_000) as u64;
        (h * 3600 + m * 60 + s) * 1000 + frac
    }

    pub fn display_second(&self) -> (s: u64)
        ensures
            s == self.spec_display_second(),
    {
        if self.nanosecond >= 1_000_000_000 {
            self.second as u64 + 1
        } else {
            self.second as u64
        }
    }

    /// The time as `HH:MM:SS`, each field two digits wide; a leap second shows as 60.
    pub fn text(&self) -> (s: String)
        ensures
            s@ == self.spec_text(),
    {
        let mut s = render_zero_padded(self.hour as u64, 2);
        s.append(":");
        s.append(render_zero_padded(self.minute as u64, 2).as_str());
        s.append(":");
        s.append(render_zero_padded(self.display_second(), 2).as_str());
        proof {
            reveal_strlit(":");
            assert(":"@ =~= seq![':']);
        }
        s
    }
}

impl Elapsed {
    /// The span as `M:SS.mmm`: whole minutes, then seconds and milliseconds at
    /// their full width.
    pub open spec fn spec_lap_text(self) -> Seq<char> {
        decimal((self.millis / 60_000) as nat) + seq![':'] + zero_padded(
            ((self.millis / 1000) % 60) as nat,
            2,
        ) + seq!['.'] + zero_padded((self.millis % 1000) as nat, 3)
    }

    /// The span as `S.mmm`: whole seconds, then milliseconds at their full width.
    pub open spec fn spec_stop_text(self) -> Seq<char> {
        decimal((self.millis / 1000) as nat) + seq!['.'] + zero_padded(
            (self.millis % 1000) as nat,
            3,
        )
    }

    /// The span in the form that `parse_lap_duration` reads.
    pub fn lap_text(&self) -> (s: String)
        ensures
            s@ == self.spec_lap_text(),
    {
        let mut s = render_decimal((self.millis / 60_000) as u64);
        s.append(":");
        s.append(render_zero_padded(((self.millis / 1000) % 60) as u64, 2).as_str());
        s.append(".");
        s.append(render_zero_padded((self.millis % 1000) as u64, 3).as_str());
        proof {
            reveal_strlit(":");
            reveal_strlit(".");
            assert(":"@ =~= seq![':']);
            assert("."@ =~= seq!['.']);
        }
        s
    }

    /// The span in the form that `parse_pit_stop_duration` reads.
    pub fn stop_text(&self) -> (s: String)
        ensures
            s@ == self.spec_stop_text(),
    {
        let mut s = render_decimal((self.millis / 1000) as u64);
        s.append(".");
        s.append(render_zero_padded((self.millis % 1000) as u64, 3).as_str());
        proof {
            reveal_strlit(".");
            assert("."@ =~= seq!['.']);
        }
        s
    }
}

/// What `chrono::NaiveTime::parse_from_str` makes of `text` under `format`:
/// the time, or `None` where it reports an error.
pub uninterp spec fn naive_time_from_str(text: Seq<char>, format: Seq<char>) -> Option<WallTime>;

/// Calls `chrono::NaiveTime::parse_from_str` and reads hour, minute, second and
/// nanosecond off the time it returns. The contract names the result and claims
/// of it only what `chrono` documents of every `NaiveTime`: the ranges of those
/// four, and that the nanosecond reaches a billion only within second 59.
#[verifier::external_body]
fn parse_naive_time(text: &str, format: &str) -> (parsed: Option<WallTime>)
    ensures
        parsed == naive_time_from_str(text@, format@),
        parsed matches Some(t) ==> t.wf(),
{
    chrono::NaiveTime::parse_from_str(text, format).ok().map(
        |t| WallTime { hour: t.hour(), minute: t.minute(), second: t.second(), nanosecond: t.nanosecond() },
    )
}

/// The clock format with a fraction of exactly three digits.
pub open spec fn clock_format_millis() -> Seq<char> {
    "%H:%M:%S%.3f"@
}

/// The clock format of whole seconds.
pub open spec fn clock_format_seconds() -> Seq<char> {
    "%H:%M:%S"@
}

/// A lap duration behind its zero hours.
pub open spec fn lap_clock_text(text: Seq<char>) -> Seq<char> {
    "00:"@ + text
}

/// A pit stop duration behind its zero hours and minutes.
pub open spec fn stop_clock_text(text: Seq<char>) -> Seq<char> {
    "00:00:"@ + text
}

/// The time from midnight to `time`, if `time` is a time of day.
pub open spec fn spec_elapsed(time: WallTime) -> Elapsed {
    Elapsed { millis: time.spec_millis_since_midnight() as u32 }
}

/// The bytes from `from` on are `count` decimal digits.
pub open spec fn digits_at(s: Seq<u8>, from: int, count: int) -> bool {
    &&& 0 <= from
    &&& from + count <= s.len()
    &&& forall|i: int| from <= i < from + count ==> 0x30 <= #[trigger] s[i] <= 0x39
}

/// The shape `SS.mmm`: two digits of seconds, a point, three digits of milliseconds.
pub open spec fn stop_shape(s: Seq<u8>) -> bool {
    &&& s.len() == 6
    &&& digits_at(s, 0, 2)
    &&& s[2] == 0x2e
    &&& digits_at(s, 3, 3)
}

/// The shape `M:SS.mmm`: one or two digits of minutes, a colon, and seconds
/// and milliseconds as in `SS.mmm`.
pub open spec fn lap_shape(s: Seq<u8>) -> bool {
    &&& s.len() == 8 || s.len() == 9
    &&& digits_at(s, 0, s.len() - 7)
    &&& s[s.len() - 7] == 0x3a
    &&& stop_shape(s.skip(s.len() - 6))
}

/// The text is hours of `h` digits, a colon, minutes of `m` digits, a colon,
/// and seconds of two digits.
pub open spec fn wall_fields(s: Seq<u8>, h: int, m: int) -> bool {
    &&& 1 <= h <= 2
    &&& 1 <= m <= 2
    &&& s.len() == h + m + 4
    &&& digits_at(s, 0, h)
    &&& s[h] == 0x3a
    &&& digits_at(s, h + 1, m)
    &&& s[h + 1 + m] == 0x3a
    &&& digits_at(s, h + m + 2, 2)
}

/// The shape `HH:MM:SS`: hours and minutes of one or two digits, seconds of
/// two, colons between them.
pub open spec fn wall_shape(s: Seq<u8>) -> bool {
    exists|h: int, m: int| wall_fields(s, h, m)
}

/// The lap duration that `text` writes, if it writes one: the text has the
/// shape `M:SS.mmm`, and behind zero hours the clock parser reads it.
pub open spec fn spec_lap_duration(text: Seq<char>) -> Option<Elapsed> {
    if lap_shape(encode_utf8(text)) {
        match naive_time_from_str(lap_clock_text(text), clock_format_millis()) {
            Some(time) => Some(spec_elapsed(time)),
            None => None,
        }
    } else {
        None
    }
}

/// The time of day that `text` writes, if it writes one: the text has the
/// shape `HH:MM:SS`, and the clock parser reads it.
pub open spec fn spec_wall_time(text: Seq<char>) -> Option<WallTime> {
    if wall_shape(encode_utf8(text)) {
        naive_time_from_str(text, clock_format_seconds())
    } else {
        None
    }
}

/// The pit stop duration that `text` writes, if it writes one: the text has
/// the shape `SS.mmm`, and behind zero hours and minutes the clock parser
/// reads it.
pub open spec fn spec_pit_stop_duration(text: Seq<char>) -> Option<Elapsed> {
    if stop_shape(encode_utf8(text)) {
        match naive_time_from_str(stop_clock_text(text), clock_format_millis()) {
            Some(time) => Some(spec_elapsed(time)),
            None => None,
        }
    } else {
        None
    }
}

fn check_digits(s: &[u8], from: usize, count: usize) -> (ok: bool)
    requires
        from + count <= usize::MAX,
    ensures
        ok == digits_at(s@, from as int, count as int),
{
    if from + count > s.len() {
        return false;
    }
    let mut i: usize = from;
    while i < from + count
        invariant
            from <= i <= from + count <= s.len(),
            forall|k: int| from <= k < i ==> 0x30 <= #[trigger] s@[k] <= 0x39,
        decreases from + count - i,
    {
        if !(0x30 <= s[i] && s[i] <= 0x39) {
            return false;
        }
        i = i + 1;
    }
    true
}

/// Digits stand in a text where they stand in what is left of it behind a
/// beginning.
proof fn lemma_digits_at_skip(s: Seq<u8>, from: int, at: int, count: int)
    requires
        0 <= from <= s.len(),
        0 <= at,
        0 <= count,
    ensures
        digits_at(s.skip(from), at, count) == digits_at(s, from + at, count),
{
    let tail = s.skip(from);
    if digits_at(s, from + at, count) {
        assert forall|i: int| at <= i < at + count implies 0x30 <= #[trigger] tail[i] <= 0x39 by {
            assert(tail[i] == s[from + i]);
        }
    }
    if digits_at(tail, at, count) {
        assert forall|i: int| from + at <= i < from + at + count implies 0x30 <= #[trigger] s[i]
            <= 0x39 by {
            assert(s[i] == tail[i - from]);
        }
    }
}

fn check_stop_shape(s: &[u8], from: usize) -> (ok: bool)
    requires
        from <= s.len(),
    ensures
        ok == stop_shape(s@.skip(from as int)),
{
    if s.len() - from != 6 {
        return false;
    }
    proof {
        lemma_digits_at_skip(s@, from as int, 0, 2);
        lemma_digits_at_skip(s@, from as int, 3, 3);
    }
    check_digits(s, from, 2) && s[from + 2] == 0x2e && check_digits(s, from + 3, 3)
}

fn check_lap_shape(s: &[u8]) -> (ok: bool)
    ensures
        ok == lap_shape(s@),
{
    if s.len() != 8 && s.len() != 9 {
        return false;
    }
    let minutes = s.len() - 7;
    check_digits(s, 0, minutes) && s[minutes] == 0x3a && check_stop_shape(s, minutes + 1)
}

fn check_wall_shape(s: &[u8]) -> (ok: bool)
    ensures
        ok == wall_shape(s@),
{
    if s.len() < 6 || s.len() > 8 {
        return false;
    }
    let h: usize = if s[1] == 0x3a {
        1
    } else {
        2
    };
    let m: usize = if s[h + 2] == 0x3a {
        1
    } else {
        2
    };
    proof {
        assert forall|h2: int, m2: int| wall_fields(s@, h2, m2) implies h2 == h && m2 == m by {
            if h2 == 2 {
                assert(0x30 <= s@[1] <= 0x39);
            }
            if m2 == 2 {
                assert(0x30 <= s@[h2 + 2] <= 0x39);
            }
        }
    }
    if s.len() != h + m + 4 {
        return false;
    }
    let ok = check_digits(s, 0, h) && s[h] == 0x3a && check_digits(s, h + 1, m) && s[h + 1 + m]
        == 0x3a && check_digits(s, h + m + 2, 2);
    proof {
        if ok {
            assert(wall_fields(s@, h as int, m as int));
        }
    }
    ok
}

/// Measures the time from midnight to what the clock parser read, or reports
/// `text` where it read nothing.
pub fn elapsed_since_midnight(parsed: Option<WallTime>, text: String) -> (result: Result<
    Elapsed,
    ParseError,
>)
    requires
        parsed matches Some(t) ==> t.wf(),
    ensures
        match parsed {
            Some(time) => result == Ok::<Elapsed, ParseError>(spec_elapsed(time)),
            None => result matches Err(e) && e@ == text@,
        },
{
    match parsed {
        Some(time) => Ok(Elapsed { millis: time.millis_since_midnight() as u32 }),
        None => Err(ParseError { text }),
    }
}

/// Reads a lap duration `M:SS.mmm`: minutes, two digits of seconds, three of
/// milliseconds. The error carries the text behind its zero hours.
pub fn parse_lap_duration(text: &str) -> (result: Result<Elapsed, ParseError>)
    ensures
        match result {
            Ok(elapsed) => spec_lap_duration(text@) == Some(elapsed),
            Err(e) => spec_lap_duration(text@) is None && e@ == lap_clock_text(text@),
        },
{
    let padded = String::from_str("00:").concat(text);
    if !check_lap_shape(text.as_bytes()) {
        return Err(ParseError { text: padded });
    }
    let parsed = parse_naive_time(padded.as_str(), "%H:%M:%S%.3f");
    elapsed_since_midnight(parsed, padded)
}

/// Reads a time of day `HH:MM:SS` on a 24-hour clock, without a fraction.
pub fn parse_wall_time(text: &str) -> (result: Result<WallTime, ParseError>)
    ensures
        match result {
            Ok(time) => spec_wall_time(text@) == Some(time) && time.wf(),
            Err(e) => spec_wall_time(text@) is None && e@ == text@,
        },
{
    if !check_wall_shape(text.as_bytes()) {
        return Err(ParseError { text: String::from_str(text) });
    }
    match parse_naive_time(text, "%H:%M:%S") {
        Some(time) => Ok(time),
        None => Err(ParseError { text: String::from_str(text) }),
    }
}

/// Reads a pit stop duration `SS.mmm`: two digits of seconds and three of
/// milliseconds. The error carries the text behind its zero hours and minutes.
pub fn parse_pit_stop_duration(text: &str) -> (result: Result<Elapsed, ParseError>)
    ensures
        match result {
            Ok(elapsed) => spec_pit_stop_duration(text@) == Some(elapsed),
            Err(e) => spec_pit_stop_duration(text@) is None && e@ == stop_clock_text(text@),
        },
{
    let padded = String::from_str("00:00:").concat(text);
    let bytes = text.as_bytes();
    proof {
        assert(bytes@.skip(0) =~= bytes@);
    }
    if !check_stop_shape(bytes, 0) {
        return Err(ParseError { text: padded });
    }
    let parsed = parse_naive_time(padded.as_str(), "%H:%M:%S%.3f");
    elapsed_since_midnight(parsed, padded)
}

} // verus!
