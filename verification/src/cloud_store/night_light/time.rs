//! Clock times of the day, as the Night Light schedule uses them.

use vstd::prelude::*;
use vstd::std_specs::cmp::PartialEqSpecImpl;
use vstd::string::StringExecFns;

use crate::data_conversion::byte_seq::{has_prefix_at, spec_int, ByteSeq, ParseError, Parsed};
use crate::data_conversion::format::{push_char, str_chars};

verus! {

// ---------------------------------------------------------------------------------------------
// Clock times.
// ---------------------------------------------------------------------------------------------

/// A clock time of the day, exact to the minute.
#[derive(Clone, Copy, Debug)]
pub struct ClockTime {
    hour: u8,
    minute: u8,
}

impl ClockTime {
    #[verifier::type_invariant]
    spec fn inv(self) -> bool {
        self.hour <= 23 && self.minute <= 59
    }

    /// The clock time with the given hour and minute.
    pub closed spec fn spec_new(hour: u8, minute: u8) -> Self {
        ClockTime { hour, minute }
    }

    pub closed spec fn spec_hour(self) -> u8 {
        self.hour
    }

    pub closed spec fn spec_minute(self) -> u8 {
        self.minute
    }

    /// A valid clock time: hour 0 to 23, minute 0 to 59.
    pub open spec fn wf(self) -> bool {
        self.spec_hour() <= 23 && self.spec_minute() <= 59
    }

    /// 00:00.
    pub fn midnight() -> (r: Self)
        ensures
            r == Self::spec_new(0, 0),
    {
        Self { hour: 0, minute: 0 }
    }

    pub fn from_h_min(hour: u8, minute: u8) -> (r: Option<Self>)
        ensures
            r == if hour <= 23 && minute <= 59 {
                Some(Self::spec_new(hour, minute))
            } else {
                None::<Self>
            },
    {
        if hour <= 23 && minute <= 59 {
            Some(Self { hour, minute })
        } else {
            None
        }
    }

    pub fn from_h_min_with_meridiem(hour: u8, minute: u8, meridiem: Meridiem) -> (r: Option<Self>)
        ensures
            r == spec_from_h_min_with_meridiem(hour, minute, meridiem),
    {
        if hour > 12 {
            return None;
        }
        let hour = match meridiem {
            Meridiem::Am => if hour == 12 {
                0
            } else {
                hour
            },
            Meridiem::Pm => if hour < 12 {
                hour + 12
            } else {
                hour
            },
        };
        Self::from_h_min(hour, minute)
    }

    pub fn hour(&self) -> (r: u8)
        ensures
            r == self.spec_hour(),
            r <= 23,
    {
        proof {
            use_type_invariant(self);
        }
        self.hour
    }

    /// The hour on a 12-hour clock, with the half of the day.
    pub fn hour_meridiem(&self) -> (r: (u8, Meridiem))
        ensures
            r == spec_hour_meridiem(self.spec_hour()),
    {
        if self.hour == 0 {
            (12, Meridiem::Am)
        } else if self.hour == 12 {
            (12, Meridiem::Pm)
        } else if self.hour > 12 {
            (self.hour - 12, Meridiem::Pm)
        } else {
            (self.hour, Meridiem::Am)
        }
    }

    pub fn minute(&self) -> (r: u8)
        ensures
            r == self.spec_minute(),
            r <= 59,
    {
        proof {
            use_type_invariant(self);
        }
        self.minute
    }

    pub fn is_midnight(&self) -> (r: bool)
        ensures
            r == (self.spec_hour() == 0 && self.spec_minute() == 0),
    {
        self.hour == 0 && self.minute == 0
    }

    /// The clock time as `HH:MM` with 24 hours, or as `hh:MMam`/`hh:MMpm` with 12 hours.
    pub fn format(&self, use_12_hour_clock: bool) -> (r: String)
        ensures
            r@ == spec_format_clock_time(*self, use_12_hour_clock),
    {
        proof {
            use_type_invariant(self);
        }
        let (hour, meridiem) = if use_12_hour_clock {
            let (hour, meridiem) = self.hour_meridiem();
            (hour, Some(meridiem))
        } else {
            (self.hour, None)
        };

        let mut string = String::new();
        push_two_digits(&mut string, hour);
        push_char(&mut string, ':');
        push_two_digits(&mut string, self.minute);

        if let Some(meridiem) = meridiem {
            string.append(meridiem.as_str());
        }

        string
    }

    /// Parses a clock time like `20:21`, `8:21pm` or `08:21PM`.
    pub fn parse_str(s: &str) -> (r: Result<Self, ClockTimeOrFrameFromStrError>)
        ensures
            r == match spec_parse_clock_time(s@) {
                Some(t) => Ok(t),
                None => Err(ClockTimeOrFrameFromStrError),
            },
    {
        let chars = str_chars(s);
        Self::parse_chars(chars.as_slice())
    }

    /// Parses a clock time like `20:21`, `8:21pm` or `08:21PM`, given as characters.
    pub fn parse_chars(s: &[char]) -> (r: Result<Self, ClockTimeOrFrameFromStrError>)
        ensures
            r == match spec_parse_clock_time(s@) {
                Some(t) => Ok(t),
                None => Err(ClockTimeOrFrameFromStrError),
            },
    {
        let lowercase = ascii_lowercase(s);
        let ghost l = lowercase@;
        let colon = match find_char(lowercase.as_slice(), ':') {
            Some(colon) => colon,
            None => return Err(ClockTimeOrFrameFromStrError),
        };
        let hour_chars = vstd::slice::slice_subrange(lowercase.as_slice(), 0, colon);
        let hour = match parse_u8(hour_chars) {
            Some(hour) => hour,
            None => return Err(ClockTimeOrFrameFromStrError),
        };
        let rest = vstd::slice::slice_subrange(lowercase.as_slice(), colon + 1, lowercase.len());
        assert(rest@ == l.skip(colon + 1));
        let n = rest.len();
        let (minute_chars, meridiem) = if n >= 2 && rest[n - 2] == 'a' && rest[n - 1] == 'm' {
            (vstd::slice::slice_subrange(rest, 0, n - 2), Some(Meridiem::Am))
        } else if n >= 2 && rest[n - 2] == 'p' && rest[n - 1] == 'm' {
            (vstd::slice::slice_subrange(rest, 0, n - 2), Some(Meridiem::Pm))
        } else {
            (rest, None)
        };
        proof {
            if n >= 2 {
                assert(rest@.skip(n - 2) =~= seq![rest@[n - 2], rest@[n - 1]]);
            }
        }
        let minute = match parse_u8(minute_chars) {
            Some(minute) => minute,
            None => return Err(ClockTimeOrFrameFromStrError),
        };
        let time = if let Some(meridiem) = meridiem {
            Self::from_h_min_with_meridiem(hour, minute, meridiem)
        } else {
            Self::from_h_min(hour, minute)
        };
        match time {
            Some(time) => Ok(time),
            None => Err(ClockTimeOrFrameFromStrError),
        }
    }
}

impl PartialEq for ClockTime {
    fn eq(&self, other: &Self) -> (r: bool) {
        self.hour == other.hour && self.minute == other.minute
    }
}

impl PartialEqSpecImpl for ClockTime {
    open spec fn obeys_eq_spec() -> bool {
        true
    }

    open spec fn eq_spec(&self, other: &Self) -> bool {
        *self == *other
    }
}

impl std::str::FromStr for ClockTime {
    type Err = ClockTimeOrFrameFromStrError;

    fn from_str(s: &str) -> (r: Result<Self, Self::Err>)
        ensures
            r == match spec_parse_clock_time(s@) {
                Some(t) => Ok(t),
                None => Err(ClockTimeOrFrameFromStrError),
            },
    {
        Self::parse_str(s)
    }
}

/// The accessors give back what a clock time was made of, and a clock time is made of what its
/// accessors give.
pub broadcast proof fn lemma_clock_time_parts(hour: u8, minute: u8)
    ensures
        #[trigger] ClockTime::spec_new(hour, minute).spec_hour() == hour,
        ClockTime::spec_new(hour, minute).spec_minute() == minute,
{
}

pub broadcast proof fn lemma_clock_time_ext(t: ClockTime)
    ensures
        ClockTime::spec_new(#[trigger] t.spec_hour(), t.spec_minute()) == t,
{
}

/// The half of the day.
#[derive(Clone, Copy, PartialEq, Eq, Structural, Debug)]
pub enum Meridiem {
    Am,
    Pm,
}

impl Meridiem {
    pub fn as_str(&self) -> (r: &'static str)
        ensures
            r@ == spec_meridiem_chars(*self),
    {
        match self {
            Meridiem::Am => {
                proof {
                    reveal_strlit("am");
                }
                "am"
            },
            Meridiem::Pm => {
                proof {
                    reveal_strlit("pm");
                }
                "pm"
            },
        }
    }
}

pub open spec fn spec_meridiem_chars(meridiem: Meridiem) -> Seq<char> {
    match meridiem {
        Meridiem::Am => seq!['a', 'm'],
        Meridiem::Pm => seq!['p', 'm'],
    }
}

/// The 24-hour clock hour of a 12-hour clock hour and the half of the day, if valid.
pub open spec fn spec_from_h_min_with_meridiem(hour: u8, minute: u8, meridiem: Meridiem) -> Option<
    ClockTime,
> {
    if hour > 12 {
        None
    } else {
        let hour24: u8 = match meridiem {
            Meridiem::Am => if hour == 12 {
                0
            } else {
                hour
            },
            Meridiem::Pm => if hour < 12 {
                (hour + 12) as u8
            } else {
                hour
            },
        };
        if hour24 <= 23 && minute <= 59 {
            Some(ClockTime::spec_new(hour24, minute))
        } else {
            None
        }
    }
}

/// The 12-hour clock hour and the half of the day of a 24-hour clock hour.
pub open spec fn spec_hour_meridiem(hour: u8) -> (u8, Meridiem) {
    if hour == 0 {
        (12, Meridiem::Am)
    } else if hour == 12 {
        (12, Meridiem::Pm)
    } else if hour > 12 {
        ((hour - 12) as u8, Meridiem::Pm)
    } else {
        (hour, Meridiem::Am)
    }
}

/// Law: a valid clock time, taken apart into a 12-hour clock hour, the half of the day and the
/// minute, is made again from them.
pub proof fn lemma_meridiem_roundtrip(t: ClockTime)
    requires
        t.wf(),
    ensures
        ({
            let (hour, meridiem) = spec_hour_meridiem(t.spec_hour());
            spec_from_h_min_with_meridiem(hour, t.spec_minute(), meridiem) == Some(t)
        }),
{
    lemma_clock_time_ext(t);
}

/// Law: a 12-hour clock hour from 1 to 12 with the half of the day gives the clock time of that
/// hour in that half: the morning from midnight (12 a.m.) to 11 a.m., the afternoon from noon
/// (12 p.m.) to 11 p.m., so that the 24-hour clock hour is the 12-hour one modulo 12, plus 12 in
/// the afternoon. A 12-hour clock hour beyond 12 gives none.
pub proof fn lemma_twelve_hour_clock_time(hour: u8, minute: u8)
    requires
        minute <= 59,
    ensures
        1 <= hour <= 12 ==> (spec_from_h_min_with_meridiem(hour, minute, Meridiem::Am) matches Some(
            t,
        ) && t.spec_hour() == hour % 12 && t.spec_minute() == minute),
        1 <= hour <= 12 ==> (spec_from_h_min_with_meridiem(hour, minute, Meridiem::Pm) matches Some(
            t,
        ) && t.spec_hour() == hour % 12 + 12 && t.spec_minute() == minute),
        hour > 12 ==> spec_from_h_min_with_meridiem(hour, minute, Meridiem::Am) is None
            && spec_from_h_min_with_meridiem(hour, minute, Meridiem::Pm) is None,
{
}

/// Law: a 24-hour clock hour is shown on a 12-hour clock as an hour from 1 to 12 that agrees
/// with it modulo 12, in the morning (a.m.) exactly for the hours before noon.
pub proof fn lemma_hour_meridiem_of(hour: u8)
    requires
        hour <= 23,
    ensures
        ({
            let (hour12, meridiem) = spec_hour_meridiem(hour);
            &&& 1 <= hour12 <= 12
            &&& hour12 % 12 == hour % 12
            &&& (meridiem == Meridiem::Am) == (hour < 12)
        }),
{
}

/// A clock time frame, e.g., the night of a schedule.
#[derive(Clone, Copy, Debug)]
pub struct ClockTimeFrame {
    pub start: ClockTime,
    pub end: ClockTime,
}

impl ClockTimeFrame {
    /// The frame from 00:00 to 00:00.
    pub fn midnight_to_midnight() -> (r: Self)
        ensures
            r == (ClockTimeFrame { start: ClockTime::spec_new(0, 0), end: ClockTime::spec_new(0, 0) }),
    {
        Self { start: ClockTime::midnight(), end: ClockTime::midnight() }
    }

    pub open spec fn wf(self) -> bool {
        self.start.wf() && self.end.wf()
    }

    /// The frame as `start-end`, each formatted like [`ClockTime::format()`].
    pub fn format(&self, use_12_hour_clock: bool) -> (r: String)
        ensures
            r@ == spec_format_clock_time(self.start, use_12_hour_clock) + seq!['-']
                + spec_format_clock_time(self.end, use_12_hour_clock),
    {
        let mut string = self.start.format(use_12_hour_clock);
        push_char(&mut string, '-');
        let end = self.end.format(use_12_hour_clock);
        string.append(end.as_str());
        string
    }

    /// Parses a frame like `20:21-6:00` or `08:00pm-05:45AM`.
    pub fn parse_str(s: &str) -> (r: Result<Self, ClockTimeOrFrameFromStrError>)
        ensures
            r == match spec_parse_clock_time_frame(s@) {
                Some(f) => Ok(f),
                None => Err(ClockTimeOrFrameFromStrError),
            },
    {
        let chars = str_chars(s);
        let chars = chars.as_slice();
        let n = chars.len();
        let dash = match find_char(chars, '-') {
            Some(dash) => dash,
            None => return Err(ClockTimeOrFrameFromStrError),
        };
        let start = ClockTime::parse_chars(vstd::slice::slice_subrange(chars, 0, dash))?;
        let end = ClockTime::parse_chars(vstd::slice::slice_subrange(chars, dash + 1, n))?;
        Ok(Self { start, end })
    }
}

impl PartialEq for ClockTimeFrame {
    fn eq(&self, other: &Self) -> (r: bool) {
        self.start.eq(&other.start) && self.end.eq(&other.end)
    }
}

impl PartialEqSpecImpl for ClockTimeFrame {
    open spec fn obeys_eq_spec() -> bool {
        true
    }

    open spec fn eq_spec(&self, other: &Self) -> bool {
        *self == *other
    }
}

impl std::str::FromStr for ClockTimeFrame {
    type Err = ClockTimeOrFrameFromStrError;

    fn from_str(s: &str) -> (r: Result<Self, Self::Err>)
        ensures
            r == match spec_parse_clock_time_frame(s@) {
                Some(f) => Ok(f),
                None => Err(ClockTimeOrFrameFromStrError),
            },
    {
        Self::parse_str(s)
    }
}

/// The error of parsing a [`ClockTime`] or [`ClockTimeFrame`]: couldn't parse `ClockTime` or
/// `ClockTimeFrame`.
#[derive(PartialEq, Eq, Structural, Clone, Copy, Debug)]
pub struct ClockTimeOrFrameFromStrError;

// ---------------------------------------------------------------------------------------------
// Text.
// ---------------------------------------------------------------------------------------------

/// The decimal digit `d` as a character.
pub open spec fn digit_char(d: nat) -> char {
    ((48 + d) as u8) as char
}

/// A number below 100 as two decimal digits.
pub open spec fn two_digits(v: nat) -> Seq<char> {
    seq![digit_char(v / 10), digit_char(v % 10)]
}

/// A clock time as text: `HH:MM` on a 24-hour clock, `hh:MMam`/`hh:MMpm` on a 12-hour clock.
pub open spec fn spec_format_clock_time(t: ClockTime, use_12_hour_clock: bool) -> Seq<char> {
    if use_12_hour_clock {
        let (hour, meridiem) = spec_hour_meridiem(t.spec_hour());
        two_digits(hour as nat) + seq![':'] + two_digits(t.spec_minute() as nat)
            + spec_meridiem_chars(meridiem)
    } else {
        two_digits(t.spec_hour() as nat) + seq![':'] + two_digits(t.spec_minute() as nat)
    }
}

fn push_two_digits(s: &mut String, v: u8)
    requires
        v < 100,
    ensures
        final(s)@ == old(s)@ + two_digits(v as nat),
{
    push_char(s, (48 + v / 10) as char);
    push_char(s, (48 + v % 10) as char);
    assert(old(s)@.push(digit_char(v as nat / 10)).push(digit_char(v as nat % 10)) =~= old(s)@
        + two_digits(v as nat));
}

/// The character lowered if it's an ASCII capital letter.
pub open spec fn ascii_lower(c: char) -> char {
    if 'A' <= c <= 'Z' {
        ((c as u8) + 32) as char
    } else {
        c
    }
}

pub open spec fn spec_ascii_lowercase(s: Seq<char>) -> Seq<char> {
    Seq::new(s.len(), |i: int| ascii_lower(s[i]))
}

/// The position of the first `c` in `s` from position `i` on.
pub open spec fn find_from(s: Seq<char>, c: char, i: int) -> Option<int>
    decreases s.len() - i,
{
    if i < 0 || i >= s.len() {
        None
    } else if s[i] == c {
        Some(i)
    } else {
        find_from(s, c, i + 1)
    }
}

pub open spec fn is_digit(c: char) -> bool {
    '0' <= c <= '9'
}

/// The value of a sequence of decimal digits.
pub open spec fn decimal_value(s: Seq<char>) -> nat
    decreases s.len(),
{
    if s.len() == 0 {
        0
    } else {
        decimal_value(s.drop_last()) * 10 + ((s.last() as u32) - 48) as nat
    }
}

/// The characters after an optional `+` sign.
pub open spec fn unsigned_digits(s: Seq<char>) -> Seq<char> {
    if s.len() > 0 && s[0] == '+' {
        s.drop_first()
    } else {
        s
    }
}

pub open spec fn all_digits(s: Seq<char>) -> bool {
    forall|i: int| 0 <= i < s.len() ==> is_digit(#[trigger] s[i])
}

/// What `u8::from_str` accepts: an optional `+` sign followed by at least one decimal digit and
/// nothing else, with a value up to 255.
pub open spec fn spec_parse_u8(s: Seq<char>) -> Option<u8> {
    let digits = unsigned_digits(s);
    if digits.len() > 0 && all_digits(digits) && decimal_value(digits) <= 255 {
        Some(decimal_value(digits) as u8)
    } else {
        None
    }
}

/// Parsing a clock time: the hour and the minute are separated by the first colon, and the
/// minute may be followed by `am` or `pm` in any case.
pub open spec fn spec_parse_clock_time(s: Seq<char>) -> Option<ClockTime> {
    let l = spec_ascii_lowercase(s);
    match find_from(l, ':', 0) {
        None => None,
        Some(colon) => match spec_parse_u8(l.take(colon)) {
            None => None,
            Some(hour) => {
                let rest = l.skip(colon + 1);
                let n = rest.len();
                let (minute_chars, meridiem) = if n >= 2 && rest.skip(n - 2) == seq!['a', 'm'] {
                    (rest.take(n - 2), Some(Meridiem::Am))
                } else if n >= 2 && rest.skip(n - 2) == seq!['p', 'm'] {
                    (rest.take(n - 2), Some(Meridiem::Pm))
                } else {
                    (rest, None)
                };
                match spec_parse_u8(minute_chars) {
                    None => None,
                    Some(minute) => match meridiem {
                        Some(meridiem) => spec_from_h_min_with_meridiem(hour, minute, meridiem),
                        None => if hour <= 23 && minute <= 59 {
                            Some(ClockTime::spec_new(hour, minute))
                        } else {
                            None
                        },
                    },
                }
            },
        },
    }
}

/// Parsing a clock time frame: the start and the end are separated by the first dash.
pub open spec fn spec_parse_clock_time_frame(s: Seq<char>) -> Option<ClockTimeFrame> {
    match find_from(s, '-', 0) {
        None => None,
        Some(dash) => match (
            spec_parse_clock_time(s.take(dash)),
            spec_parse_clock_time(s.skip(dash + 1)),
        ) {
            (Some(start), Some(end)) => Some(ClockTimeFrame { start, end }),
            _ => None,
        },
    }
}

/// What a digit character of a formatted clock time is.
proof fn lemma_digit_char(d: nat)
    requires
        d < 10,
    ensures
        is_digit(digit_char(d)),
        (digit_char(d) as u32) - 48 == d,
        digit_char(d) != ':',
        digit_char(d) != '+',
        digit_char(d) != '-',
        digit_char(d) != 'a',
        digit_char(d) != 'p',
        ascii_lower(digit_char(d)) == digit_char(d),
{
}

/// Two digits parse back to their value.
proof fn lemma_two_digits_parse(v: nat)
    requires
        v < 100,
    ensures
        spec_parse_u8(two_digits(v)) == Some(v as u8),
{
    lemma_digit_char(v / 10);
    lemma_digit_char(v % 10);
    let t = two_digits(v);
    assert(unsigned_digits(t) == t);
    let one = seq![digit_char(v / 10)];
    assert(t.drop_last() =~= one);
    assert(one.drop_last() =~= Seq::<char>::empty());
    assert(decimal_value(one.drop_last()) == 0);
    assert(one.last() == digit_char(v / 10));
    assert(decimal_value(one) == v / 10);
    assert(t.last() == digit_char(v % 10));
    assert(decimal_value(t) == v);
}

/// The characters of a formatted clock time: nothing in them is lowered, and none is a colon
/// or a dash, except the colon at index 2.
proof fn lemma_format_chars(t: ClockTime, use_12_hour_clock: bool)
    requires
        t.wf(),
    ensures
        ({
            let s = spec_format_clock_time(t, use_12_hour_clock);
            &&& spec_ascii_lowercase(s) == s
            &&& s.len() == if use_12_hour_clock { 7nat } else { 5nat }
            &&& s[2] == ':'
            &&& forall|i: int| 0 <= i < s.len() && i != 2 ==> s[i] != ':' && s[i] != '-'
        }),
{
    let s = spec_format_clock_time(t, use_12_hour_clock);
    let (hour12, meridiem) = spec_hour_meridiem(t.spec_hour());
    let hour = if use_12_hour_clock {
        hour12
    } else {
        t.spec_hour()
    };
    lemma_digit_char(hour as nat / 10);
    lemma_digit_char(hour as nat % 10);
    lemma_digit_char(t.spec_minute() as nat / 10);
    lemma_digit_char(t.spec_minute() as nat % 10);
    assert(spec_ascii_lowercase(s) =~= s);
}

/// Whether a character is a decimal digit, and its value.
pub open spec fn decimal_digit_value(c: char) -> int {
    if 48 <= c as int <= 57 {
        c as int - 48
    } else {
        -1
    }
}

/// Law: a valid clock time on a 12-hour clock is shown as `hh:mm` followed by `am` before noon
/// and `pm` from noon on, where `hh` is the hour from 1 to 12 that agrees with the 24-hour clock
/// hour modulo 12, and `mm` is the minute, each as two decimal digits.
pub proof fn lemma_twelve_hour_format(t: ClockTime)
    requires
        t.wf(),
    ensures
        ({
            let s = spec_format_clock_time(t, true);
            let hour12 = decimal_digit_value(s[0]) * 10 + decimal_digit_value(s[1]);
            &&& s.len() == 7
            &&& 0 <= decimal_digit_value(s[0]) && 0 <= decimal_digit_value(s[1])
            &&& 1 <= hour12 <= 12
            &&& hour12 % 12 == t.spec_hour() % 12
            &&& s[2] == ':'
            &&& 0 <= decimal_digit_value(s[3]) && 0 <= decimal_digit_value(s[4])
            &&& decimal_digit_value(s[3]) * 10 + decimal_digit_value(s[4]) == t.spec_minute()
            &&& s[5] == (if t.spec_hour() < 12 {
                'a'
            } else {
                'p'
            })
            &&& s[6] == 'm'
        }),
{
    let (hour12, meridiem) = spec_hour_meridiem(t.spec_hour());
    lemma_hour_meridiem_of(t.spec_hour());
    let s = spec_format_clock_time(t, true);
    assert(s == two_digits(hour12 as nat) + seq![':'] + two_digits(t.spec_minute() as nat)
        + spec_meridiem_chars(meridiem));
    assert(s[0] == digit_char(hour12 as nat / 10));
    assert(s[1] == digit_char(hour12 as nat % 10));
    assert(s[3] == digit_char(t.spec_minute() as nat / 10));
    assert(s[4] == digit_char(t.spec_minute() as nat % 10));
    assert(decimal_digit_value(s[0]) == hour12 / 10);
    assert(decimal_digit_value(s[1]) == hour12 % 10);
    assert(decimal_digit_value(s[3]) == t.spec_minute() / 10);
    assert(decimal_digit_value(s[4]) == t.spec_minute() % 10);
}

/// Law: a valid clock time, formatted on either clock, parses back to itself.
pub proof fn lemma_format_parse_clock_time(t: ClockTime, use_12_hour_clock: bool)
    requires
        t.wf(),
    ensures
        spec_parse_clock_time(spec_format_clock_time(t, use_12_hour_clock)) == Some(t),
{
    let s = spec_format_clock_time(t, use_12_hour_clock);
    lemma_format_chars(t, use_12_hour_clock);
    let l = spec_ascii_lowercase(s);
    assert(find_from(l, ':', 0) == Some(2int)) by {
        assert(s[0] != ':' && s[1] != ':');
        lemma_find_from_skips(s, ':', 0, 2);
    }
    let (hour12, meridiem) = spec_hour_meridiem(t.spec_hour());
    let hour = if use_12_hour_clock {
        hour12
    } else {
        t.spec_hour()
    };
    assert(l.take(2) =~= two_digits(hour as nat));
    lemma_two_digits_parse(hour as nat);
    lemma_two_digits_parse(t.spec_minute() as nat);
    lemma_digit_char(t.spec_minute() as nat / 10);
    let rest = l.skip(3);
    lemma_clock_time_ext(t);
    if use_12_hour_clock {
        assert(rest.skip(2) =~= spec_meridiem_chars(meridiem));
        assert(rest.take(2) =~= two_digits(t.spec_minute() as nat));
        lemma_meridiem_roundtrip(t);
        if meridiem == Meridiem::Pm {
            assert(rest.skip(2) != seq!['a', 'm']) by {
                assert(rest.skip(2)[0] == 'p');
            }
        }
    } else {
        assert(rest =~= two_digits(t.spec_minute() as nat));
        assert(rest.skip(0) =~= rest);
        assert(rest.skip(0)[0] != 'a' && rest.skip(0)[0] != 'p');
    }
}

/// Law: a valid clock time frame, formatted on either clock, parses back to itself.
pub proof fn lemma_format_parse_clock_time_frame(frame: ClockTimeFrame, use_12_hour_clock: bool)
    requires
        frame.wf(),
    ensures
        spec_parse_clock_time_frame(
            spec_format_clock_time(frame.start, use_12_hour_clock) + seq!['-']
                + spec_format_clock_time(frame.end, use_12_hour_clock),
        ) == Some(frame),
{
    let a = spec_format_clock_time(frame.start, use_12_hour_clock);
    let b = spec_format_clock_time(frame.end, use_12_hour_clock);
    let s = a + seq!['-'] + b;
    lemma_format_chars(frame.start, use_12_hour_clock);
    lemma_format_chars(frame.end, use_12_hour_clock);
    assert forall|i: int| 0 <= i < a.len() implies find_from(s, '-', i) == Some(a.len() as int) by {
        lemma_find_from_skips(s, '-', i, a.len() as int);
    }
    assert(find_from(s, '-', 0) == Some(a.len() as int));
    assert(s.take(a.len() as int) =~= a);
    assert(s.skip((a.len() + 1) as int) =~= b);
    lemma_format_parse_clock_time(frame.start, use_12_hour_clock);
    lemma_format_parse_clock_time(frame.end, use_12_hour_clock);
}

/// Searching from `i` finds `c` at `j` if `c` stands at `j` and not between `i` and `j`.
proof fn lemma_find_from_skips(s: Seq<char>, c: char, i: int, j: int)
    requires
        0 <= i <= j < s.len(),
        s[j] == c,
        forall|k: int| i <= k < j ==> s[k] != c,
    ensures
        find_from(s, c, i) == Some(j),
    decreases j - i,
{
    if i < j {
        lemma_find_from_skips(s, c, i + 1, j);
    }
}

fn ascii_lowercase(s: &[char]) -> (r: Vec<char>)
    ensures
        r@ == spec_ascii_lowercase(s@),
{
    let mut lowered: Vec<char> = Vec::new();
    let mut i: usize = 0;
    while i < s.len()
        invariant
            i <= s@.len(),
            lowered@ == spec_ascii_lowercase(s@.take(i as int)),
        decreases s@.len() - i,
    {
        let c = s[i];
        let l = if 'A' <= c && c <= 'Z' {
            ((c as u8) + 32) as char
        } else {
            c
        };
        lowered.push(l);
        i = i + 1;
        assert(lowered@ =~= spec_ascii_lowercase(s@.take(i as int)));
    }
    assert(s@.take(s@.len() as int) =~= s@);
    lowered
}

fn find_char(s: &[char], c: char) -> (r: Option<usize>)
    ensures
        match r {
            Some(i) => find_from(s@, c, 0) == Some(i as int) && i < s@.len(),
            None => find_from(s@, c, 0) is None,
        },
{
    let mut i: usize = 0;
    while i < s.len()
        invariant
            i <= s@.len(),
            find_from(s@, c, 0) == find_from(s@, c, i as int),
        decreases s@.len() - i,
    {
        if s[i] == c {
            return Some(i);
        }
        i = i + 1;
    }
    None
}

proof fn lemma_decimal_value_push(s: Seq<char>, c: char)
    ensures
        decimal_value(s.push(c)) == decimal_value(s) * 10 + ((c as u32) - 48) as nat,
{
    assert(s.push(c).drop_last() =~= s);
}

/// The value of the digits `s`, if it is at most 255.
fn parse_u8(s: &[char]) -> (r: Option<u8>)
    ensures
        r == spec_parse_u8(s@),
{
    let n = s.len();
    let start: usize = if n > 0 && s[0] == '+' {
        1
    } else {
        0
    };
    let ghost digits = s@.skip(start as int);
    assert(start == 1 ==> digits =~= s@.drop_first());
    assert(start == 0 ==> digits =~= s@);
    if start >= n {
        return None;
    }
    // The value, or 256 once it exceeds 255.
    let mut value: u32 = 0;
    let mut i: usize = start;
    while i < n
        invariant
            start <= i <= n,
            n == s@.len(),
            digits == s@.skip(start as int),
            digits == unsigned_digits(s@),
            forall|j: int| 0 <= j < i - start ==> is_digit(#[trigger] digits[j]),
            value == if decimal_value(digits.take(i - start)) > 255 {
                256
            } else {
                decimal_value(digits.take(i - start))
            },
        decreases n - i,
    {
        let c = s[i];
        if !('0' <= c && c <= '9') {
            proof {
                let k = i - start;
                assert(digits[k] == c);
                assert(!is_digit(digits[k]));
                assert(!all_digits(digits));
            }
            return None;
        }
        let d = (c as u32) - 48;
        proof {
            assert(digits.take(i - start + 1) =~= digits.take(i - start).push(c));
            lemma_decimal_value_push(digits.take(i - start), c);
        }
        value = if value > 255 {
            256
        } else if value * 10 + d > 255 {
            256
        } else {
            value * 10 + d
        };
        i = i + 1;
    }
    assert(digits.take(n - start) =~= digits);
    if value > 255 {
        None
    } else {
        Some(value as u8)
    }
}

// ---------------------------------------------------------------------------------------------
// Binary.
// ---------------------------------------------------------------------------------------------

/// An optional single-byte integer, prefixed with `tag`; 0 if the tag is absent.
pub open spec fn spec_tagged_int(s: Seq<u8>, i: nat, tag: u8) -> Parsed<u8> {
    if has_prefix_at(s, i as int, seq![tag]) {
        spec_int(s, i + 1)
    } else {
        Ok((0u8, i))
    }
}

/// Reading a clock time: the hour prefixed with `0e`, then the minute prefixed with `2e`, each
/// left out when 0.
pub open spec fn spec_clock_time(s: Seq<u8>, i: nat) -> Parsed<ClockTime> {
    match spec_tagged_int(s, i, 0x0e) {
        Err(e) => Err(e),
        Ok((hour, j)) => match spec_tagged_int(s, j, 0x2e) {
            Err(e) => Err(e),
            Ok((minute, k)) => if hour <= 23 && minute <= 59 {
                Ok((ClockTime::spec_new(hour, minute), k))
            } else {
                Err(ParseError::ValueNotInRange)
            },
        },
    }
}

/// The bytes of a clock time.
pub open spec fn clock_time_bytes(t: ClockTime) -> Seq<u8> {
    (if t.spec_hour() != 0 {
        seq![0x0eu8, t.spec_hour()]
    } else {
        Seq::empty()
    }) + (if t.spec_minute() != 0 {
        seq![0x2eu8, t.spec_minute()]
    } else {
        Seq::empty()
    })
}

impl ByteSeq {
    pub fn read_clock_time(&mut self) -> (r: Result<ClockTime, ParseError>)
        ensures
            final(self).data() == old(self).data(),
            final(self).pos() <= final(self).data().len(),
            spec_clock_time(old(self).data(), old(self).pos()) == match r {
                Ok(t) => Ok((t, final(self).pos())),
                Err(e) => Err(e),
            },
    {
        proof {
            use_type_invariant(&*self);
        }
        proof {
            assert([0x0eu8]@ =~= seq![0x0eu8]);
            assert([0x2eu8]@ =~= seq![0x2eu8]);
        }
        let hour = if self.assert_const(&[0x0e]).is_ok() {
            self.read_int()?
        } else {
            0
        };

        let minute = if self.assert_const(&[0x2e]).is_ok() {
            self.read_int()?
        } else {
            0
        };

        match ClockTime::from_h_min(hour, minute) {
            Some(t) => Ok(t),
            None => Err(ParseError::ValueNotInRange),
        }
    }

    pub fn push_clock_time(&mut self, clock_time: ClockTime)
        ensures
            final(self).data() == old(self).data() + clock_time_bytes(clock_time),
            final(self).pos() == old(self).pos(),
    {
        proof {
            assert([0x0eu8]@ =~= seq![0x0eu8]);
            assert([0x2eu8]@ =~= seq![0x2eu8]);
        }
        let ghost start = self.data();
        if clock_time.hour != 0 {
            self.push_const(&[0x0e]);
            self.push_int(clock_time.hour);
        }
        let ghost middle = self.data();
        assert(middle =~= start + (if clock_time.spec_hour() != 0 {
            seq![0x0eu8, clock_time.spec_hour()]
        } else {
            Seq::empty()
        }));
        if clock_time.minute != 0 {
            self.push_const(&[0x2e]);
            self.push_int(clock_time.minute);
        }
        assert(self.data() =~= old(self).data() + clock_time_bytes(clock_time));
    }
}

/// Law: reading a clock time where a valid one was pushed gives it back and moves past its
/// bytes, given that what follows doesn't start like a clock time's part (as the zero separator
/// that follows in the format doesn't).
pub proof fn lemma_clock_time_read_after_push(prefix: Seq<u8>, t: ClockTime, suffix: Seq<u8>)
    requires
        t.wf(),
        suffix.len() > 0 ==> suffix[0] != 0x0e && suffix[0] != 0x2e,
    ensures
        spec_clock_time(prefix + clock_time_bytes(t) + suffix, prefix.len()) == Ok::<
            (ClockTime, nat),
            ParseError,
        >((t, prefix.len() + clock_time_bytes(t).len())),
{
    let s = prefix + clock_time_bytes(t) + suffix;
    let i = prefix.len();
    let h = t.spec_hour();
    let m = t.spec_minute();
    let hb: Seq<u8> = if h != 0 {
        seq![0x0eu8, h]
    } else {
        Seq::empty()
    };
    let mb: Seq<u8> = if m != 0 {
        seq![0x2eu8, m]
    } else {
        Seq::empty()
    };
    assert(s =~= prefix + hb + mb + suffix);
    let j = i + hb.len();
    if h != 0 {
        assert(s.subrange(i as int, i + 1 as int) =~= seq![0x0eu8]);
        assert(s[i + 1 as int] == h);
    } else if i < s.len() {
        if m != 0 {
            assert(s[i as int] == 0x2eu8);
        } else {
            assert(s[i as int] == suffix[0]);
        }
        assert(s.subrange(i as int, i + 1 as int)[0] == s[i as int]);
    }
    assert(spec_tagged_int(s, i, 0x0e) == Ok::<(u8, nat), ParseError>((h, j)));
    if m != 0 {
        assert(s.subrange(j as int, j + 1 as int) =~= seq![0x2eu8]);
        assert(s[j + 1 as int] == m);
    } else if j < s.len() {
        assert(s[j as int] == suffix[0]);
        assert(s.subrange(j as int, j + 1 as int)[0] == s[j as int]);
    }
    assert(spec_tagged_int(s, j, 0x2e) == Ok::<(u8, nat), ParseError>((m, j + mb.len())));
    lemma_clock_time_ext(t);
}

} // verus!
