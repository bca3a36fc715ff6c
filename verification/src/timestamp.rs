//! The moment a post is made: a local calendar date and time of day with the
//! offset of the local time from UTC.

use vstd::prelude::*;

verus! {

/// The first year a timestamp may hold. `chrono` reaches one year further
/// back; keeping that year free lets every local time of the range be held in
/// UTC as well, whatever its offset.
pub const MIN_YEAR: i32 = -262_142;

/// The last year a timestamp may hold, one year short of the last of `chrono`
/// for the same reason.
pub const MAX_YEAR: i32 = 262_141;

/// Whether `year` has a 29th of February in the proleptic Gregorian calendar.
pub open spec fn is_leap_year(year: int) -> bool {
    year % 4 == 0 && (year % 100 != 0 || year % 400 == 0)
}

/// The number of days of `month` in `year`; 0 where `month` is no month.
pub open spec fn days_in_month(year: int, month: int) -> int {
    if month == 1 || month == 3 || month == 5 || month == 7 || month == 8 || month == 10 || month
        == 12 {
        31
    } else if month == 4 || month == 6 || month == 9 || month == 11 {
        30
    } else if month == 2 {
        if is_leap_year(year) {
            29
        } else {
            28
        }
    } else {
        0
    }
}

/// A day that exists in the proleptic Gregorian calendar, in a year from
/// `MIN_YEAR` to `MAX_YEAR`.
pub open spec fn is_calendar_date(year: int, month: int, day: int) -> bool {
    &&& MIN_YEAR <= year <= MAX_YEAR
    &&& 1 <= month <= 12
    &&& 1 <= day <= days_in_month(year, month)
}

/// A time of day. During a leap second the second is 59 and the nanoseconds
/// run on from 1 000 000 000.
pub open spec fn is_clock_time(hour: int, minute: int, second: int, nanosecond: int) -> bool {
    &&& 0 <= hour < 24
    &&& 0 <= minute < 60
    &&& 0 <= second < 60
    &&& 0 <= nanosecond < 2_000_000_000
    &&& nanosecond >= 1_000_000_000 ==> second == 59
}

/// An offset from UTC of less than a day, in seconds, east positive.
pub open spec fn is_utc_offset(seconds: int) -> bool {
    -86_400 < seconds < 86_400
}

/// The character of one decimal digit.
pub open spec fn digit(n: int) -> char {
    (48 + n) as char
}

/// `n` in decimal, with zeros in front until it has `width` digits.
pub open spec fn decimal(n: nat, width: nat) -> Seq<char>
    decreases n, width,
{
    if n < 10 && width <= 1 {
        seq![digit(n as int)]
    } else {
        decimal(n / 10, if width > 0 { (width - 1) as nat } else { 0 }).push(digit((n % 10) as int))
    }
}

/// A year as ISO 8601 writes it: four digits from 0 to 9999, and a sign in
/// front of four digits or more outside that range.
pub open spec fn year_text(year: int) -> Seq<char> {
    if year < 0 {
        seq!['-'] + decimal((-year) as nat, 4)
    } else if year > 9999 {
        seq!['+'] + decimal(year as nat, 4)
    } else {
        decimal(year as nat, 4)
    }
}

/// A date as year, month and day with `-` between them, the month and the day
/// in two digits.
pub open spec fn iso_date(year: int, month: int, day: int) -> Seq<char> {
    year_text(year) + seq!['-'] + decimal(month as nat, 2) + seq!['-'] + decimal(day as nat, 2)
}

/// What `chrono` writes for a date and time with a fixed offset from UTC when
/// it is turned into text: the date, the time of day and the offset, each in
/// the form `chrono` gives it.
pub uninterp spec fn datetime_text(
    year: int,
    month: int,
    day: int,
    hour: int,
    minute: int,
    second: int,
    nanosecond: int,
    offset_seconds: int,
) -> Seq<char>;

/// A moment as the contracts speak of it: the local date and time of day,
/// and how many seconds the local time is ahead of UTC.
pub struct Moment {
    pub year: int,
    pub month: int,
    pub day: int,
    pub hour: int,
    pub minute: int,
    pub second: int,
    pub nanosecond: int,
    pub offset_seconds: int,
}

impl Moment {
    /// A moment that exists: its date is a day of the calendar, its time a
    /// time of day, and its offset less than a day.
    pub open spec fn valid(self) -> bool {
        &&& is_calendar_date(self.year, self.month, self.day)
        &&& is_clock_time(self.hour, self.minute, self.second, self.nanosecond)
        &&& is_utc_offset(self.offset_seconds)
    }

    /// The date of the moment as text.
    pub open spec fn date_text(self) -> Seq<char> {
        iso_date(self.year, self.month, self.day)
    }

    /// The whole moment as text.
    pub open spec fn text(self) -> Seq<char> {
        datetime_text(
            self.year,
            self.month,
            self.day,
            self.hour,
            self.minute,
            self.second,
            self.nanosecond,
            self.offset_seconds,
        )
    }
}

/// A local date and time of day, and how far the local time is ahead of UTC.
/// Every timestamp is a moment that exists.
#[derive(Clone, Copy, Debug, PartialEq, Eq)]
pub struct Timestamp {
    year: i32,
    month: u32,
    day: u32,
    hour: u32,
    minute: u32,
    second: u32,
    nanosecond: u32,
    offset_seconds: i32,
}

impl View for Timestamp {
    type V = Moment;

    closed spec fn view(&self) -> Moment {
        Moment {
            year: self.year as int,
            month: self.month as int,
            day: self.day as int,
            hour: self.hour as int,
            minute: self.minute as int,
            second: self.second as int,
            nanosecond: self.nanosecond as int,
            offset_seconds: self.offset_seconds as int,
        }
    }
}

/// Whether `year` has a 29th of February.
pub fn leap_year(year: i32) -> (leap: bool)
    ensures
        leap == is_leap_year(year as int),
{
    // A multiple of 400 that lifts every year above zero and leaves the cycle where it is.
    let lifted: u64 = (year as i64 + 2_147_484_000) as u64;
    lifted % 4 == 0 && (lifted % 100 != 0 || lifted % 400 == 0)
}

/// The number of days of `month` in `year`, or 0 where `month` is not 1 to 12.
pub fn month_length(year: i32, month: u32) -> (days: u32)
    ensures
        days == days_in_month(year as int, month as int),
{
    if month == 1 || month == 3 || month == 5 || month == 7 || month == 8 || month == 10 || month
        == 12 {
        31
    } else if month == 4 || month == 6 || month == 9 || month == 11 {
        30
    } else if month == 2 {
        if leap_year(year) {
            29
        } else {
            28
        }
    } else {
        0
    }
}

impl Timestamp {
    /// The invariant of the type.
    #[verifier::type_invariant]
    pub open spec fn exists_in_time(&self) -> bool {
        self@.valid()
    }

    /// Makes a timestamp of the given values, or `None` where they are no
    /// date, no time of day or no offset.
    pub fn new(
        year: i32,
        month: u32,
        day: u32,
        hour: u32,
        minute: u32,
        second: u32,
        nanosecond: u32,
        offset_seconds: i32,
    ) -> (made: Option<Timestamp>)
        ensures
            made is Some <==> (Moment {
                year: year as int,
                month: month as int,
                day: day as int,
                hour: hour as int,
                minute: minute as int,
                second: second as int,
                nanosecond: nanosecond as int,
                offset_seconds: offset_seconds as int,
            }).valid(),
            made matches Some(timestamp) ==> timestamp@ == (Moment {
                year: year as int,
                month: month as int,
                day: day as int,
                hour: hour as int,
                minute: minute as int,
                second: second as int,
                nanosecond: nanosecond as int,
                offset_seconds: offset_seconds as int,
            }),
    {
        let date = MIN_YEAR <= year && year <= MAX_YEAR && 1 <= month && month <= 12 && 1 <= day
            && day <= month_length(year, month);
        let time = hour < 24 && minute < 60 && second < 60 && nanosecond < 2_000_000_000 && (
        nanosecond < 1_000_000_000 || second == 59);
        let offset = -86_400 < offset_seconds && offset_seconds < 86_400;
        if date && time && offset {
            Some(Timestamp { year, month, day, hour, minute, second, nanosecond, offset_seconds })
        } else {
            None
        }
    }

    /// The date as text: the year, the month and the day with `-` between them.
    pub fn date_string(&self) -> (text: String)
        ensures
            text@ == self@.date_text(),
    {
        proof {
            use_type_invariant(self);
        }
        format_date(self.year, self.month, self.day)
    }

    /// The timestamp as text: the date, the time of day and the offset. The
    /// text begins with the date as `date_string` gives it, and a space.
    pub fn to_text(&self) -> (text: String)
        ensures
            text@ == self@.text(),
            (self@.date_text() + seq![' ']).is_prefix_of(text@),
    {
        proof {
            use_type_invariant(self);
        }
        format_timestamp(self)
    }

    /// The year; 0 is the year before the year 1.
    pub fn year(&self) -> (year: i32)
        ensures
            year == self@.year,
    {
        self.year
    }

    /// The month, from 1 to 12.
    pub fn month(&self) -> (month: u32)
        ensures
            month == self@.month,
    {
        self.month
    }

    /// The day of the month, from 1.
    pub fn day(&self) -> (day: u32)
        ensures
            day == self@.day,
    {
        self.day
    }

    /// The hour of the day, from 0 to 23.
    pub fn hour(&self) -> (hour: u32)
        ensures
            hour == self@.hour,
    {
        self.hour
    }

    /// The minute of the hour, from 0 to 59.
    pub fn minute(&self) -> (minute: u32)
        ensures
            minute == self@.minute,
    {
        self.minute
    }

    /// The second of the minute, from 0 to 59.
    pub fn second(&self) -> (second: u32)
        ensures
            second == self@.second,
    {
        self.second
    }

    /// The nanoseconds since the second began; 1 000 000 000 and more
    /// during a leap second.
    pub fn nanosecond(&self) -> (nanosecond: u32)
        ensures
            nanosecond == self@.nanosecond,
    {
        self.nanosecond
    }

    /// The seconds by which the local time is ahead of UTC.
    pub fn offset_seconds(&self) -> (seconds: i32)
        ensures
            seconds == self@.offset_seconds,
    {
        self.offset_seconds
    }
}

/// Formats a date with `chrono`, by `NaiveDate::format` with `%Y-%m-%d`.
/// Trusted: `chrono` accepts every calendar date of the range, writes the year
/// in four digits (signed, and in more digits where needed, outside 0 to
/// 9999), and the month and the day in two digits each.
#[verifier::external_body]
fn format_date(year: i32, month: u32, day: u32) -> (text: String)
    requires
        is_calendar_date(year as int, month as int, day as int),
    ensures
        text@ == iso_date(year as int, month as int, day as int),
{
    let date = chrono::NaiveDate::from_ymd_opt(year, month, day).unwrap();
    date.format("%Y-%m-%d").to_string()
}

/// Turns a timestamp into text with `chrono`, by the `Display` of a `DateTime`
/// with a fixed offset. Trusted: `chrono` accepts every moment that exists,
/// the text depends on the eight values alone, and it begins with the date as
/// `format_date` writes it, followed by a space.
#[verifier::external_body]
fn format_timestamp(moment: &Timestamp) -> (text: String)
    requires
        moment@.valid(),
    ensures
        text@ == datetime_text(
            moment@.year,
            moment@.month,
            moment@.day,
            moment@.hour,
            moment@.minute,
            moment@.second,
            moment@.nanosecond,
            moment@.offset_seconds,
        ),
        (iso_date(moment@.year, moment@.month, moment@.day) + seq![' ']).is_prefix_of(text@),
{
    let date = chrono::NaiveDate::from_ymd_opt(moment.year, moment.month, moment.day).unwrap();
    let time = chrono::NaiveTime::from_hms_nano_opt(
        moment.hour,
        moment.minute,
        moment.second,
        moment.nanosecond,
    ).unwrap();
    let offset = chrono::FixedOffset::east_opt(moment.offset_seconds).unwrap();
    chrono::TimeZone::from_local_datetime(&offset, &date.and_time(time)).unwrap().to_string()
}

/// Decimal text holds digits only, and at least as many as the width asks for.
pub proof fn lemma_decimal_digits(n: nat, width: nat)
    ensures
        decimal(n, width).len() >= 1,
        decimal(n, width).len() >= width,
        forall|i: int| 0 <= i < decimal(n, width).len() ==> '0' <= #[trigger] decimal(n, width)[i] <= '9',
    decreases n, width,
{
    if !(n < 10 && width <= 1) {
        lemma_decimal_digits(n / 10, if width > 0 { (width - 1) as nat } else { 0 });
    }
}

/// A number below 100 in two digits.
pub proof fn lemma_decimal_two(n: nat)
    requires
        n < 100,
    ensures
        decimal(n, 2) == seq![digit(n as int / 10), digit(n as int % 10)],
{
    reveal_with_fuel(decimal, 3);
    assert(decimal(n, 2) =~= seq![digit(n as int / 10), digit(n as int % 10)]);
}

/// A number below 10 000 in four digits.
pub proof fn lemma_decimal_four(n: nat)
    requires
        n < 10_000,
    ensures
        decimal(n, 4) == seq![
            digit(n as int / 1000),
            digit(n as int / 100 % 10),
            digit(n as int / 10 % 10),
            digit(n as int % 10),
        ],
{
    reveal_with_fuel(decimal, 5);
    assert(decimal(n, 4) =~= seq![
        digit(n as int / 1000),
        digit(n as int / 100 % 10),
        digit(n as int / 10 % 10),
        digit(n as int % 10),
    ]);
}

/// From the year 0 to the year 9999 a date is ten characters: four digits of
/// the year, two of the month and two of the day, with `-` between them.
pub proof fn lemma_iso_date_of_common_years(year: int, month: int, day: int)
    requires
        0 <= year <= 9999,
        0 <= month < 100,
        0 <= day < 100,
    ensures
        iso_date(year, month, day) == seq![
            digit(year / 1000),
            digit(year / 100 % 10),
            digit(year / 10 % 10),
            digit(year % 10),
            '-',
            digit(month / 10),
            digit(month % 10),
            '-',
            digit(day / 10),
            digit(day % 10),
        ],
{
    lemma_decimal_four(year as nat);
    lemma_decimal_two(month as nat);
    lemma_decimal_two(day as nat);
    assert(iso_date(year, month, day) =~= seq![
        digit(year / 1000),
        digit(year / 100 % 10),
        digit(year / 10 % 10),
        digit(year % 10),
        '-',
        digit(month / 10),
        digit(month % 10),
        '-',
        digit(day / 10),
        digit(day % 10),
    ]);
}

/// A date is written with digits, `-` and `+` only, and never with `+` from
/// the year 0 to the year 9999.
pub proof fn lemma_iso_date_chars(year: int, month: int, day: int)
    requires
        0 <= month,
        0 <= day,
    ensures
        forall|i: int|
            0 <= i < iso_date(year, month, day).len() ==> {
                let c = #[trigger] iso_date(year, month, day)[i];
                ('0' <= c <= '9') || c == '-' || (c == '+' && year > 9999)
            },
        iso_date(year, month, day).len() >= 10,
        0 <= year <= 9999 ==> '0' <= iso_date(year, month, day)[0] <= '9',
{
    lemma_decimal_digits((-year) as nat, 4);
    lemma_decimal_digits(year as nat, 4);
    lemma_decimal_digits(month as nat, 2);
    lemma_decimal_digits(day as nat, 2);
    let y = year_text(year);
    let m = decimal(month as nat, 2);
    let d = decimal(day as nat, 2);
    let text = iso_date(year, month, day);
    assert forall|i: int| 0 <= i < text.len() implies {
        let c = #[trigger] text[i];
        ('0' <= c <= '9') || c == '-' || (c == '+' && year > 9999)
    } by {
        if i < y.len() {
            assert(text[i] == y[i]);
            if year < 0 {
                if i > 0 {
                    assert(y[i] == decimal((-year) as nat, 4)[i - 1]);
                }
            } else if year > 9999 {
                if i > 0 {
                    assert(y[i] == decimal(year as nat, 4)[i - 1]);
                }
            }
        } else if i == y.len() {
        } else if i < y.len() + 1 + m.len() {
            assert(text[i] == m[i - y.len() - 1]);
        } else if i == y.len() + 1 + m.len() {
        } else {
            assert(text[i] == d[i - y.len() - m.len() - 2]);
        }
    }
    if 0 <= year <= 9999 {
        assert(text[0] == y[0]);
    }
}

} // verus!
