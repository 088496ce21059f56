//! A clock reading as plain calendar fields, and the two texts that the
//! wire formats make of it.

use vstd::prelude::*;
use crate::text::digit_char;

verus! {

/// A point in time, broken into the fields of the proleptic Gregorian
/// calendar and of a 24-hour clock.
#[derive(Copy, Clone, Debug, PartialEq, Eq, Structural)]
pub struct Timestamp {
    pub year: i32,
    /// 1 (January) to 12 (December).
    pub month: u8,
    /// Day of the month, from 1.
    pub day: u8,
    pub hour: u8,
    pub minute: u8,
    pub second: u8,
    /// Nanoseconds within the second.
    pub nanosecond: u32,
}

pub open spec fn is_leap_year(year: int) -> bool {
    year % 4 == 0 && (year % 100 != 0 || year % 400 == 0)
}

/// The number of days of a month. Meant for `1 <= month <= 12`.
pub open spec fn days_in_month(year: int, month: int) -> int {
    if month == 2 {
        if is_leap_year(year) {
            29
        } else {
            28
        }
    } else if month == 4 || month == 6 || month == 9 || month == 11 {
        30
    } else {
        31
    }
}

/// The English three-letter name of a month. Meant for `1 <= month <= 12`.
pub open spec fn month_abbrev(month: int) -> Seq<char> {
    if month == 1 {
        seq!['J', 'a', 'n']
    } else if month == 2 {
        seq!['F', 'e', 'b']
    } else if month == 3 {
        seq!['M', 'a', 'r']
    } else if month == 4 {
        seq!['A', 'p', 'r']
    } else if month == 5 {
        seq!['M', 'a', 'y']
    } else if month == 6 {
        seq!['J', 'u', 'n']
    } else if month == 7 {
        seq!['J', 'u', 'l']
    } else if month == 8 {
        seq!['A', 'u', 'g']
    } else if month == 9 {
        seq!['S', 'e', 'p']
    } else if month == 10 {
        seq!['O', 'c', 't']
    } else if month == 11 {
        seq!['N', 'o', 'v']
    } else {
        seq!['D', 'e', 'c']
    }
}

/// The last `width` decimal digits of `n`, with leading zeros.
pub open spec fn fixed_digits(n: nat, width: nat) -> Seq<char>
    decreases width,
{
    if width == 0 {
        Seq::empty()
    } else {
        fixed_digits(n / 10, (width - 1) as nat).push(digit_char(n % 10))
    }
}

/// A number below 100 in two columns, a space in place of a leading zero.
pub open spec fn two_columns(n: nat) -> Seq<char> {
    if n < 10 {
        seq![' ', digit_char(n)]
    } else {
        fixed_digits(n, 2)
    }
}

/// The `width` digits of `n` without the zeros at their end; the first
/// digit always stays.
pub open spec fn without_trailing_zeros(n: nat, width: nat) -> Seq<char>
    decreases width,
{
    if width > 1 && n % 10 == 0 {
        without_trailing_zeros(n / 10, (width - 1) as nat)
    } else {
        fixed_digits(n, width)
    }
}

/// The fraction of a second as RFC 3339 text: nothing for a whole second,
/// else a dot and the nine digits of the nanoseconds without the zeros at
/// their end.
pub open spec fn second_fraction(nanosecond: nat) -> Seq<char> {
    if nanosecond == 0 {
        Seq::empty()
    } else {
        seq!['.'] + without_trailing_zeros(nanosecond, 9)
    }
}

/// The time stamp of the BSD format: month name, day of the month in two
/// columns, and the time of day, as in `Feb  5 17:32:18`.
pub open spec fn rfc3164_stamp_text(t: Timestamp) -> Seq<char> {
    month_abbrev(t.month as int) + seq![' '] + two_columns(t.day as nat) + seq![' ']
        + fixed_digits(t.hour as nat, 2) + seq![':'] + fixed_digits(t.minute as nat, 2) + seq![':']
        + fixed_digits(t.second as nat, 2)
}

/// The time stamp of RFC 3339 for a reading in UTC, as in
/// `2003-10-11T22:14:15.003Z`.
pub open spec fn rfc3339_stamp_text(t: Timestamp) -> Seq<char> {
    fixed_digits(t.year as nat, 4) + seq!['-'] + fixed_digits(t.month as nat, 2) + seq!['-']
        + fixed_digits(t.day as nat, 2) + seq!['T'] + fixed_digits(t.hour as nat, 2) + seq![':']
        + fixed_digits(t.minute as nat, 2) + seq![':'] + fixed_digits(t.second as nat, 2)
        + second_fraction(t.nanosecond as nat) + seq!['Z']
}

impl Timestamp {
    /// The fields name a day of the calendar between the years -9999 and
    /// 9999 and a time of that day.
    pub open spec fn is_valid(&self) -> bool {
        &&& -9999 <= self.year <= 9999
        &&& 1 <= self.month <= 12
        &&& 1 <= self.day <= days_in_month(self.year as int, self.month as int)
        &&& self.hour < 24
        &&& self.minute < 60
        &&& self.second < 60
        &&& self.nanosecond < 1_000_000_000
    }

    /// Valid, and of a year that RFC 3339 can write: 0 to 9999.
    pub open spec fn fits_rfc3339(&self) -> bool {
        self.is_valid() && 0 <= self.year
    }

    /// This reading with the nanoseconds rounded down to a whole number of
    /// microseconds.
    pub open spec fn floor_to_micros(self) -> Timestamp {
        Timestamp { nanosecond: (self.nanosecond / 1000 * 1000) as u32, ..self }
    }

    /// Builds a reading from its fields, if they name a valid one.
    pub fn new(
        year: i32,
        month: u8,
        day: u8,
        hour: u8,
        minute: u8,
        second: u8,
        nanosecond: u32,
    ) -> (r: Option<Timestamp>)
        ensures
            r matches Some(t) ==> t == (Timestamp {
                year,
                month,
                day,
                hour,
                minute,
                second,
                nanosecond,
            }),
            r is Some <==> (Timestamp {
                year,
                month,
                day,
                hour,
                minute,
                second,
                nanosecond,
            }).is_valid(),
    {
        let t = Timestamp { year, month, day, hour, minute, second, nanosecond };
        if t.check() {
            Some(t)
        } else {
            None
        }
    }

    /// Tells whether the fields name a valid reading.
    pub fn check(&self) -> (ok: bool)
        ensures
            ok == self.is_valid(),
    {
        if self.year < -9999 || self.year > 9999 || self.month < 1 || self.month > 12 {
            return false;
        }
        let span: i32 = if self.year < 0 {
            -self.year
        } else {
            self.year
        };
        let leap = span % 4 == 0 && (span % 100 != 0 || span % 400 == 0);
        let last: u8 = if self.month == 2 {
            if leap {
                29
            } else {
                28
            }
        } else if self.month == 4 || self.month == 6 || self.month == 9 || self.month == 11 {
            30
        } else {
            31
        };
        1 <= self.day && self.day <= last && self.hour < 24 && self.minute < 60 && self.second < 60
            && self.nanosecond < 1_000_000_000
    }

    /// Rounds the nanoseconds down to a whole number of microseconds, the
    /// finest grain that RFC 5424 admits. Nothing else changes.
    pub fn truncate_to_micros(self) -> (t: Timestamp)
        ensures
            t == self.floor_to_micros(),
            t.nanosecond % 1000 == 0,
            t.nanosecond <= self.nanosecond < t.nanosecond + 1000,
            self.is_valid() ==> t.is_valid(),
            self.fits_rfc3339() ==> t.fits_rfc3339(),
    {
        Timestamp { nanosecond: self.nanosecond / 1000 * 1000, ..self }
    }
}

/// `time::OffsetDateTime::now_utc`, read out field by field. The contract
/// claims only what the type promises of every value: a day of the calendar
/// within its range of years, and a time of that day.
#[verifier::external_body]
pub(crate) fn utc_now() -> (t: Timestamp)
    ensures
        t.is_valid(),
{
    let now = time::OffsetDateTime::now_utc();
    Timestamp {
        year: now.year(),
        month: u8::from(now.month()),
        day: now.day(),
        hour: now.hour(),
        minute: now.minute(),
        second: now.second(),
        nanosecond: now.nanosecond(),
    }
}

/// `time::OffsetDateTime::now_local`, read out field by field; `None` where
/// it could not tell the local offset. Of a reading the contract claims what
/// it claims of one in UTC.
#[verifier::external_body]
pub(crate) fn local_now() -> (r: Option<Timestamp>)
    ensures
        r matches Some(t) ==> t.is_valid(),
{
    match time::OffsetDateTime::now_local() {
        Ok(now) => Some(Timestamp {
            year: now.year(),
            month: u8::from(now.month()),
            day: now.day(),
            hour: now.hour(),
            minute: now.minute(),
            second: now.second(),
            nanosecond: now.nanosecond(),
        }),
        Err(_) => None,
    }
}

/// `time::OffsetDateTime::format` with the description
/// `[month repr:short] [day padding:space] [hour]:[minute]:[second]`, on the
/// date and time that the fields name. The contract claims that the text is
/// the short English month name, the day padded with a space to two
/// columns, and hour, minute and second of the 24-hour clock in two digits
/// each.
#[verifier::external_body]
pub(crate) fn render_rfc3164_stamp(t: &Timestamp) -> (out: String)
    requires
        t.is_valid(),
    ensures
        out@ == rfc3164_stamp_text(*t),
{
    let month = time::Month::try_from(t.month).unwrap();
    let date = time::Date::from_calendar_date(t.year, month, t.day).unwrap();
    let clock = time::Time::from_hms_nano(t.hour, t.minute, t.second, t.nanosecond).unwrap();
    let items = time::format_description::parse_borrowed::<2>(
        "[month repr:short] [day padding:space] [hour]:[minute]:[second]",
    ).unwrap();
    time::OffsetDateTime::new_utc(date, clock).format(&items).unwrap()
}

/// `time::OffsetDateTime::format` with the well-known description `Rfc3339`,
/// on the date and time that the fields name, taken as UTC. The contract
/// claims that the text is year, month and day in four, two and two digits
/// with hyphens between, a `T`, hour, minute and second in two digits each
/// with colons between, the fraction of the second without zeros at its end
/// (nothing at all for a whole second), and a `Z`.
#[verifier::external_body]
pub(crate) fn render_rfc3339_stamp(t: &Timestamp) -> (out: String)
    requires
        t.fits_rfc3339(),
    ensures
        out@ == rfc3339_stamp_text(*t),
{
    let month = time::Month::try_from(t.month).unwrap();
    let date = time::Date::from_calendar_date(t.year, month, t.day).unwrap();
    let clock = time::Time::from_hms_nano(t.hour, t.minute, t.second, t.nanosecond).unwrap();
    time::OffsetDateTime::new_utc(date, clock)
        .format(&time::format_description::well_known::Rfc3339)
        .unwrap()
}

impl Timestamp {
    /// Reads the wall clock: local time where the local offset can be told,
    /// Coordinated Universal Time where it cannot.
    pub fn wall_clock() -> (t: Timestamp)
        ensures
            t.is_valid(),
    {
        match local_now() {
            Some(t) => t,
            None => utc_now(),
        }
    }

    /// The time stamp of the BSD format for this reading.
    pub fn rfc3164_stamp(&self) -> (out: String)
        requires
            self.is_valid(),
        ensures
            out@ == rfc3164_stamp_text(*self),
            out@.len() == 15,
    {
        proof {
            lemma_rfc3164_stamp_len(*self);
        }
        render_rfc3164_stamp(self)
    }

    /// The time stamp of RFC 5424 for this reading, taken as UTC: the
    /// RFC 3339 text of the reading rounded down to microseconds, so that
    /// the fraction has six digits at most.
    pub fn rfc5424_stamp(&self) -> (out: String)
        requires
            self.fits_rfc3339(),
        ensures
            out@ == rfc3339_stamp_text(self.floor_to_micros()),
    {
        let floored = self.truncate_to_micros();
        render_rfc3339_stamp(&floored)
    }
}

/// `fixed_digits` has the width asked for.
pub proof fn lemma_fixed_digits_len(n: nat, width: nat)
    ensures
        fixed_digits(n, width).len() == width,
    decreases width,
{
    if width > 0 {
        lemma_fixed_digits_len(n / 10, (width - 1) as nat);
    }
}

/// The time stamp of the BSD format is always 15 characters long.
pub proof fn lemma_rfc3164_stamp_len(t: Timestamp)
    ensures
        rfc3164_stamp_text(t).len() == 15,
{
    lemma_fixed_digits_len(t.day as nat, 2);
    lemma_fixed_digits_len(t.hour as nat, 2);
    lemma_fixed_digits_len(t.minute as nat, 2);
    lemma_fixed_digits_len(t.second as nat, 2);
}

/// Whether the decimal numeral of `n` ends in at least `zeros` zeros.
pub open spec fn ends_in_zeros(n: nat, zeros: nat) -> bool
    decreases zeros,
{
    zeros == 0 || (n % 10 == 0 && ends_in_zeros(n / 10, (zeros - 1) as nat))
}

/// Dropping the zeros at the end leaves at least one digit. Of a number
/// that ends in `zeros` zeros it leaves at most `width - zeros` digits.
pub proof fn lemma_without_trailing_zeros_len(n: nat, width: nat, zeros: nat)
    requires
        zeros < width,
        ends_in_zeros(n, zeros),
    ensures
        1 <= without_trailing_zeros(n, width).len() <= width - zeros,
    decreases width,
{
    if width > 1 && n % 10 == 0 {
        let fewer = if zeros == 0 {
            0nat
        } else {
            (zeros - 1) as nat
        };
        lemma_without_trailing_zeros_len(n / 10, (width - 1) as nat, fewer);
    } else {
        lemma_fixed_digits_len(n, width);
    }
}

/// After rounding down to microseconds the fraction of the second is empty
/// or a dot and one to six digits; it is empty just when less than a
/// microsecond of the second has passed.
pub proof fn lemma_micros_fraction_len(t: Timestamp)
    requires
        t.is_valid(),
    ensures
        second_fraction(t.floor_to_micros().nanosecond as nat).len() <= 7,
        second_fraction(t.floor_to_micros().nanosecond as nat).len() != 1,
        t.nanosecond < 1000 <==> second_fraction(t.floor_to_micros().nanosecond as nat).len() == 0,
{
    let ns = t.floor_to_micros().nanosecond as nat;
    assert(ns % 1000 == 0);
    if ns != 0 {
        assert(ends_in_zeros(ns, 3)) by {
            reveal_with_fuel(ends_in_zeros, 4);
        }
        lemma_without_trailing_zeros_len(ns, 9, 3);
    }
}

} // verus!
