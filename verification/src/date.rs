use vstd::prelude::*;

verus! {

/// Day number (counted from January 1 of year 1, which is day 1) of the first
/// date that chrono can represent, January 1 of year -262143.
pub const MIN_DAY: i32 = -95746129;

/// Day number of the last date that chrono can represent, December 31 of year 262142.
pub const MAX_DAY: i32 = 95745399;

/// A leap year of the proleptic Gregorian calendar (year 0 is 1 BCE, a leap year).
pub open spec fn is_leap_year(year: int) -> bool {
    year % 4 == 0 && (year % 100 != 0 || year % 400 == 0)
}

/// The number of days of a month (1 to 12) of a year.
pub open spec fn days_in_month(year: int, month: int) -> int {
    if month == 2 {
        if is_leap_year(year) {
            29
        } else {
            28
        }
    } else if month == 4 || month == 6 || month == 9 || month == 11 {
        30
    } else {
        31
    }
}

/// The number of days of a year before the first day of a month.
pub open spec fn days_before_month(year: int, month: int) -> int
    decreases month,
{
    if month <= 1 {
        0
    } else {
        days_before_month(year, month - 1) + days_in_month(year, month - 1)
    }
}

/// What chrono's `NaiveDate::from_ymd_opt` followed by `Datelike::num_days_from_ce`
/// gives for a year, month and day: for an existing date of a year that chrono
/// represents (-262143 to 262142), its day number counted from January 1 of year 1,
/// which is day 1; `None` for anything else.
pub open spec fn ymd_day_number(year: i32, month: u32, day: u32) -> Option<i32> {
    if -262143 <= year <= 262142 && 1 <= month <= 12 && 1 <= day <= days_in_month(year as int, month as int) {
        let y = year - 1;
        Some((365 * y + y / 4 - y / 100 + y / 400 + days_before_month(year as int, month as int) + day) as i32)
    } else {
        None
    }
}

/// The text that chrono's `format("%Y-%m-%d")` gives for the date with the given day number.
pub uninterp spec fn iso_date_text(day: int) -> Seq<char>;

/// The digit character of a number from 0 to 9.
pub open spec fn digit_of(d: int) -> char {
    (d + 48) as char
}

/// The text `YYYY-MM-DD` of a year from 0 to 9999, a month and a day, each padded with
/// zeros to its width.
pub open spec fn key_text(year: int, month: int, day: int) -> Seq<char> {
    seq![
        digit_of(year / 1000),
        digit_of((year / 100) % 10),
        digit_of((year / 10) % 10),
        digit_of(year % 10),
        '-',
        digit_of(month / 10),
        digit_of(month % 10),
        '-',
        digit_of(day / 10),
        digit_of(day % 10),
    ]
}

/// What chrono's `NaiveDate::from_str` (the `%Y-%m-%d` format read back) gives for a
/// text, as a day number.
pub uninterp spec fn parsed_date_number(text: Seq<char>) -> Option<i32>;

/// Calls `chrono::NaiveDate::from_ymd_opt` and converts the date to its day number with
/// `chrono::Datelike::num_days_from_ce`. The contract claims that the result is
/// `ymd_day_number`, the proleptic Gregorian day number of an existing date in chrono's
/// year range, and that such a date lies between `NaiveDate::MIN` and `NaiveDate::MAX`,
/// whose day numbers are `MIN_DAY` and `MAX_DAY`.
#[verifier::external_body]
fn chrono_day_number(year: i32, month: u32, day: u32) -> (r: Option<i32>)
    ensures
        r == ymd_day_number(year, month, day),
        r matches Some(d) ==> MIN_DAY <= d <= MAX_DAY,
{
    chrono::NaiveDate::from_ymd_opt(year, month, day).map(|d| chrono::Datelike::num_days_from_ce(&d))
}

/// Calls `chrono::NaiveDate::from_num_days_from_ce_opt` and formats the date with
/// `"%Y-%m-%d"`. The result is named `iso_date_text`. Every day number between `MIN_DAY`
/// and `MAX_DAY` is a date that chrono represents, so the conversion always succeeds there.
/// For a date of the years 0 to 9999 the contract claims the text chrono's formatting
/// writes: the year as four digits, the month and the day as two, zero-padded, joined by
/// hyphens. For other years it states no more than the name.
#[verifier::external_body]
fn chrono_iso_text(day: i32) -> (r: String)
    requires
        MIN_DAY <= day <= MAX_DAY,
    ensures
        r@ == iso_date_text(day as int),
        forall|y: i32, m: u32, d: u32|
            0 <= y <= 9999 && #[trigger] ymd_day_number(y, m, d) == Some(day) ==> r@ == key_text(y as int, m as int, d as int),
{
    chrono::NaiveDate::from_num_days_from_ce_opt(day).map(|d| d.format("%Y-%m-%d").to_string()).unwrap_or_default()
}

/// Calls `chrono::NaiveDate::from_str` through `str::parse` and converts the date to its day
/// number with `chrono::Datelike::num_days_from_ce`. The result is named
/// `parsed_date_number`. For a text of the shape `YYYY-MM-DD` the contract claims what
/// chrono's parser does with it: the four, two and two digits are the year, month and day
/// given to `from_ymd_opt`. A parsed date lies between `NaiveDate::MIN` and `NaiveDate::MAX`.
#[verifier::external_body]
fn chrono_parse_date(text: &str) -> (r: Option<i32>)
    ensures
        r == parsed_date_number(text@),
        key_shape(text@) ==> r == ymd_day_number(
            key_fields(text@).0 as i32,
            key_fields(text@).1 as u32,
            key_fields(text@).2 as u32,
        ),
        r matches Some(n) ==> MIN_DAY <= n <= MAX_DAY,
{
    text.parse::<chrono::NaiveDate>().ok().map(|d| chrono::Datelike::num_days_from_ce(&d))
}

/// A calendar date of the proleptic Gregorian calendar, held as its day number.
#[derive(Clone, Copy, Debug, PartialEq, Eq, Structural)]
pub struct Date {
    day: i32,
}

impl Date {
    /// Every date lies in the range that chrono represents.
    #[verifier::type_invariant]
    pub open spec fn in_range(self) -> bool {
        MIN_DAY <= self.number() <= MAX_DAY
    }

    /// The day number of this date (January 1 of year 1 is day 1).
    pub closed spec fn number(self) -> int {
        self.day as int
    }

    /// The date text `YYYY-MM-DD` by which statistics charts are keyed.
    pub open spec fn text(self) -> Seq<char> {
        iso_date_text(self.number())
    }

    /// The date with the given day number, if chrono can represent it.
    pub fn from_days(day: i32) -> (r: Option<Date>)
        ensures
            r is Some <==> MIN_DAY <= day <= MAX_DAY,
            r matches Some(d) ==> d.number() == day,
    {
        if MIN_DAY <= day && day <= MAX_DAY {
            Some(Date { day })
        } else {
            None
        }
    }

    /// The date with the given year, month and day, if it exists and chrono can represent it.
    pub fn from_ymd(year: i32, month: u32, day: u32) -> (r: Option<Date>)
        ensures
            r is Some <==> ymd_day_number(year, month, day) is Some,
            r matches Some(d) ==> ymd_day_number(year, month, day) == Some(d.number() as i32),
    {
        match chrono_day_number(year, month, day) {
            Some(n) => Some(Date { day: n }),
            None => None,
        }
    }

    /// The day number of this date.
    pub fn days(&self) -> (r: i32)
        ensures
            r == self.number(),
    {
        self.day
    }

    /// The key text `YYYY-MM-DD` of this date.
    pub fn key(&self) -> (r: String)
        ensures
            r@ == self.text(),
            forall|y: i32, m: u32, d: u32|
                0 <= y <= 9999 && #[trigger] ymd_day_number(y, m, d) == Some(self.number() as i32) ==> r@ == key_text(
                    y as int,
                    m as int,
                    d as int,
                ),
    {
        proof {
            use_type_invariant(self);
        }
        chrono_iso_text(self.day)
    }

    /// The next calendar date; `None` for the last date chrono represents.
    pub fn succ(&self) -> (r: Option<Date>)
        ensures
            r is Some <==> self.number() < MAX_DAY,
            r matches Some(d) ==> d.number() == self.number() + 1,
    {
        proof {
            use_type_invariant(self);
        }
        if self.day < MAX_DAY {
            Some(Date { day: self.day + 1 })
        } else {
            None
        }
    }

    /// The previous calendar date; `None` for the first date chrono represents.
    pub fn pred(&self) -> (r: Option<Date>)
        ensures
            r is Some <==> self.number() > MIN_DAY,
            r matches Some(d) ==> d.number() == self.number() - 1,
    {
        proof {
            use_type_invariant(self);
        }
        if self.day > MIN_DAY {
            Some(Date { day: self.day - 1 })
        } else {
            None
        }
    }

    /// Whether this date comes strictly before `other`.
    pub fn is_before(&self, other: &Date) -> (r: bool)
        ensures
            r == (self.number() < other.number()),
    {
        self.day < other.day
    }

    /// Whether this date comes before `other` or is `other`.
    pub fn is_not_after(&self, other: &Date) -> (r: bool)
        ensures
            r == (self.number() <= other.number()),
    {
        self.day <= other.day
    }
}

/// The value of a decimal digit character.
pub open spec fn digit_value(c: char) -> int {
    c as int - 48
}

/// A decimal digit character.
pub open spec fn is_decimal_digit(c: char) -> bool {
    '0' <= c <= '9'
}

/// The text has the shape `YYYY-MM-DD`: four, two and two decimal digits, joined by
/// hyphens.
pub open spec fn key_shape(s: Seq<char>) -> bool {
    &&& s.len() == 10
    &&& s[4] == '-'
    &&& s[7] == '-'
    &&& forall|i: int| 0 <= i < 10 && i != 4 && i != 7 ==> is_decimal_digit(#[trigger] s[i])
}

/// The year, month and day that a text of the shape `YYYY-MM-DD` writes.
pub open spec fn key_fields(s: Seq<char>) -> (int, int, int) {
    (
        1000 * digit_value(s[0]) + 100 * digit_value(s[1]) + 10 * digit_value(s[2]) + digit_value(s[3]),
        10 * digit_value(s[5]) + digit_value(s[6]),
        10 * digit_value(s[8]) + digit_value(s[9]),
    )
}

/// A date of the years 0 to 9999, written as its key text, is read back as the same
/// year, month and day: the text has the key shape and its fields are the date's.
pub proof fn lemma_key_reads_back(year: i32, month: u32, day: u32)
    requires
        0 <= year <= 9999,
        ymd_day_number(year, month, day) is Some,
    ensures
        key_shape(key_text(year as int, month as int, day as int)),
        key_fields(key_text(year as int, month as int, day as int)) == (year as int, month as int, day as int),
{
    let y = year as int;
    let m = month as int;
    let d = day as int;
    assert(1 <= m <= 12 && 1 <= d <= 31);
    assert(0 <= y / 1000 < 10 && 0 <= (y / 100) % 10 < 10 && 0 <= (y / 10) % 10 < 10 && 0 <= y % 10 < 10);
    assert(1000 * (y / 1000) + 100 * ((y / 100) % 10) + 10 * ((y / 10) % 10) + y % 10 == y) by (nonlinear_arith)
        requires
            0 <= y <= 9999,
    ;
    assert(10 * (m / 10) + m % 10 == m && 0 <= m / 10 < 10) by (nonlinear_arith)
        requires
            1 <= m <= 12,
    ;
    assert(10 * (d / 10) + d % 10 == d && 0 <= d / 10 < 10) by (nonlinear_arith)
        requires
            1 <= d <= 31,
    ;
    let t = key_text(y, m, d);
    assert forall|i: int| 0 <= i < 10 && i != 4 && i != 7 implies is_decimal_digit(#[trigger] t[i]) by {}
}

/// Two dates with the same day number are the same date.
pub proof fn lemma_same_number_same_date(a: Date, b: Date)
    requires
        a.number() == b.number(),
    ensures
        a == b,
{
}

impl Date {
    /// The date that a text names as chrono's `NaiveDate::from_str` reads it (the
    /// `%Y-%m-%d` format); `None` where chrono refuses the text. A text of the key shape
    /// `YYYY-MM-DD` names the date of its year, month and day, where that date exists;
    /// so the key text that `key` writes for a date of the years 0 to 9999 reads back as
    /// that same date.
    pub fn from_key(text: &str) -> (r: Option<Date>)
        ensures
            r is Some <==> parsed_date_number(text@) is Some,
            r matches Some(d) ==> parsed_date_number(text@) == Some(d.number() as i32),
            key_shape(text@) ==> (r is Some <==> ymd_day_number(
                key_fields(text@).0 as i32,
                key_fields(text@).1 as u32,
                key_fields(text@).2 as u32,
            ) is Some),
            key_shape(text@) ==> (r matches Some(d) ==> ymd_day_number(
                key_fields(text@).0 as i32,
                key_fields(text@).1 as u32,
                key_fields(text@).2 as u32,
            ) == Some(d.number() as i32)),
            forall|d: Date, y: i32, m: u32, day: u32|
                #![trigger ymd_day_number(y, m, day), d.number()]
                0 <= y <= 9999 && ymd_day_number(y, m, day) == Some(d.number() as i32) && text@ == key_text(
                    y as int,
                    m as int,
                    day as int,
                ) ==> r == Some(d),
    {
        let r = match chrono_parse_date(text) {
            Some(n) => Date::from_days(n),
            None => None,
        };
        proof {
            assert forall|d: Date, y: i32, m: u32, day: u32|
                #![trigger ymd_day_number(y, m, day), d.number()]
                0 <= y <= 9999 && ymd_day_number(y, m, day) == Some(d.number() as i32) && text@ == key_text(
                    y as int,
                    m as int,
                    day as int,
                ) implies r == Some(d) by {
                lemma_key_reads_back(y, m, day);
                lemma_same_number_same_date(r.unwrap(), d);
            }
        }
        r
    }
}

} // verus!
