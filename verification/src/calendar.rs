//! Calendar dates as plain values, and the calls into `chrono` that the rules
//! make on them: the next day, day differences and shifts, the `%Y%m%d` and
//! `%Y-%m-%d` texts, `%Y%m%d` parsing, and the formatting of UTC instants.
use vstd::prelude::*;
use vstd::string::*;
use crate::text::{dec, dec_padded, dec_signed, push_dec, push_dec_signed};

verus! {

/// A proleptic Gregorian calendar date (what `chrono::NaiveDate` holds).
#[derive(Debug, Clone, Copy, PartialEq, Eq, Structural)]
pub struct CivilDate {
    pub year: i32,
    pub month: u32,
    pub day: u32,
}

/// The first year `chrono::NaiveDate` supports.
pub open spec fn min_year() -> int {
    -262143
}

/// The last year `chrono::NaiveDate` supports.
pub open spec fn max_year() -> int {
    262142
}

pub open spec fn is_leap_year(y: int) -> bool {
    (y % 4 == 0 && y % 100 != 0) || y % 400 == 0
}

pub open spec fn days_in_month(y: int, m: int) -> int {
    if m == 2 {
        if is_leap_year(y) {
            29
        } else {
            28
        }
    } else if m == 4 || m == 6 || m == 9 || m == 11 {
        30
    } else {
        31
    }
}

impl CivilDate {
    /// A real date within the range that `chrono::NaiveDate` represents.
    pub open spec fn wf(self) -> bool {
        &&& min_year() <= self.year <= max_year()
        &&& 1 <= self.month <= 12
        &&& 1 <= self.day <= days_in_month(self.year as int, self.month as int)
    }

    /// The last date `chrono::NaiveDate` represents.
    pub open spec fn is_last_supported(self) -> bool {
        self.year == max_year() && self.month == 12 && self.day == 31
    }

    /// Calendar order.
    pub open spec fn before(self, other: CivilDate) -> bool {
        self.year < other.year || (self.year == other.year && (self.month < other.month || (
        self.month == other.month && self.day < other.day)))
    }
}

/// The next calendar date.
pub open spec fn civil_succ(d: CivilDate) -> CivilDate {
    if (d.day as int) < days_in_month(d.year as int, d.month as int) {
        CivilDate { day: (d.day + 1) as u32, ..d }
    } else if d.month < 12 {
        CivilDate { month: (d.month + 1) as u32, day: 1, ..d }
    } else {
        CivilDate { year: (d.year + 1) as i32, month: 1, day: 1 }
    }
}

/// The `%Y` text of a year as `chrono` writes it: four zero-padded digits for
/// years 0 to 9999, otherwise a sign and at least four zero-padded digits.
pub open spec fn year_text(y: int) -> Seq<char> {
    if 0 <= y <= 9999 {
        dec_padded(y as nat, 4)
    } else if y < 0 {
        seq!['-'] + dec_padded((-y) as nat, 4)
    } else {
        seq!['+'] + dec_padded(y as nat, 4)
    }
}

/// The `%Y%m%d` text of a date.
pub open spec fn compact_text(d: CivilDate) -> Seq<char> {
    year_text(d.year as int) + dec_padded(d.month as nat, 2) + dec_padded(d.day as nat, 2)
}

/// What `chrono::NaiveDate::parse_from_str(s, "%Y%m%d")` returns, as
/// `(year, month, day)`.
pub uninterp spec fn chrono_parse_compact(s: Seq<char>) -> Option<(i32, u32, u32)>;

/// An optional date as an optional `(year, month, day)` triple.
pub open spec fn opt_triple(d: Option<CivilDate>) -> Option<(i32, u32, u32)> {
    match d {
        Some(d) => Some((d.year, d.month, d.day)),
        None => None,
    }
}

/// Calls `chrono::NaiveDate::succ_opt`, which the `chrono` documentation
/// describes as "the next calendar date", on a supported date that is not the
/// last one (where it would return `None`).
#[verifier::external_body]
pub(crate) fn next_day(d: CivilDate) -> (r: CivilDate)
    requires
        d.wf(),
        !d.is_last_supported(),
    ensures
        r == civil_succ(d),
{
    let n = chrono::NaiveDate::from_ymd_opt(d.year, d.month, d.day).unwrap().succ_opt().unwrap();
    CivilDate {
        year: chrono::Datelike::year(&n),
        month: chrono::Datelike::month(&n),
        day: chrono::Datelike::day(&n),
    }
}

/// Calls `chrono::NaiveDate::format(.., "%Y%m%d")`; per `chrono`'s formatter,
/// the year is four zero-padded digits (sign-prefixed outside 0..=9999), and
/// month and day are two zero-padded digits each.
#[verifier::external_body]
pub(crate) fn compact_date_text(d: CivilDate) -> (r: String)
    requires
        d.wf(),
    ensures
        r@ == compact_text(d),
{
    chrono::NaiveDate::from_ymd_opt(d.year, d.month, d.day).unwrap().format("%Y%m%d").to_string()
}

/// Calls `chrono::NaiveDate::parse_from_str(s, "%Y%m%d")`; any date it returns
/// is a real date within `chrono`'s range. Which texts it accepts is left to
/// the name `chrono_parse_compact`.
#[verifier::external_body]
pub(crate) fn parse_compact_date(s: &str) -> (r: Option<CivilDate>)
    ensures
        opt_triple(r) == chrono_parse_compact(s@),
        r matches Some(d) ==> d.wf(),
{
    chrono::NaiveDate::parse_from_str(s, "%Y%m%d").ok().map(
        |n| CivilDate {
            year: chrono::Datelike::year(&n),
            month: chrono::Datelike::month(&n),
            day: chrono::Datelike::day(&n),
        },
    )
}

/// The number of days from 1970-01-01 to `d` (negative before it), counted in
/// the proleptic Gregorian calendar: years are shifted to start in March, so
/// that the leap day ends a year, and counted in 400-year eras of 146097 days.
pub open spec fn day_number(d: CivilDate) -> int {
    let y: int = if d.month <= 2 { d.year - 1 } else { d.year as int };
    let era: int = y / 400;
    let yoe: int = y - era * 400;
    let mp: int = if d.month > 2 { d.month - 3 } else { d.month + 9 };
    let doy: int = (153 * mp + 2) / 5 + d.day - 1;
    let doe: int = yoe * 365 + yoe / 4 - yoe / 100 + doy;
    era * 146097 + doe - 719468
}

/// The first date `chrono::NaiveDate` represents.
pub open spec fn first_supported() -> CivilDate {
    CivilDate { year: min_year() as i32, month: 1, day: 1 }
}

/// The last date `chrono::NaiveDate` represents.
pub open spec fn last_supported() -> CivilDate {
    CivilDate { year: max_year() as i32, month: 12, day: 31 }
}

/// Calls `chrono::NaiveDate::signed_duration_since` (what `a - b` computes on
/// dates) and takes its whole days: the number of days from `b` to `a`.
#[verifier::external_body]
pub(crate) fn days_between(a: CivilDate, b: CivilDate) -> (r: i64)
    requires
        a.wf(),
        b.wf(),
    ensures
        r == day_number(a) - day_number(b),
{
    let x = chrono::NaiveDate::from_ymd_opt(a.year, a.month, a.day).unwrap();
    let y = chrono::NaiveDate::from_ymd_opt(b.year, b.month, b.day).unwrap();
    x.signed_duration_since(y).num_days()
}

/// Calls `chrono::NaiveDate::checked_add_signed` with `n` whole days: the date
/// `n` days after `d` (before it when `n` is negative), or `None` when that
/// date lies outside the range `chrono` represents.
#[verifier::external_body]
pub(crate) fn shift_days(d: CivilDate, n: i64) -> (r: Option<CivilDate>)
    requires
        d.wf(),
        -1_000_000_000 <= n <= 1_000_000_000,
    ensures
        r matches Some(x) ==> x.wf() && day_number(x) == day_number(d) + n,
        r is None <==> !(day_number(first_supported()) <= day_number(d) + n <= day_number(
            last_supported(),
        )),
{
    match chrono::NaiveDate::from_ymd_opt(d.year, d.month, d.day).unwrap().checked_add_signed(
        chrono::TimeDelta::days(n),
    ) {
        Some(x) => Some(
            CivilDate {
                year: chrono::Datelike::year(&x),
                month: chrono::Datelike::month(&x),
                day: chrono::Datelike::day(&x),
            },
        ),
        None => None,
    }
}

/// Whether the date `n` days after `d` lies within the range `chrono` represents.
pub open spec fn shifted_in_range(d: CivilDate, n: int) -> bool {
    day_number(first_supported()) <= day_number(d) + n <= day_number(last_supported())
}

/// The date `n` days after `d`, where that date is representable.
pub(crate) fn shift_in_range(d: CivilDate, n: i64) -> (r: CivilDate)
    requires
        d.wf(),
        -1_000_000_000 <= n <= 1_000_000_000,
        shifted_in_range(d, n as int),
    ensures
        r.wf(),
        day_number(r) == day_number(d) + n,
{
    match shift_days(d, n) {
        Some(x) => x,
        None => {
            assert(false);
            d
        },
    }
}

/// The `Display` text of a date (`%Y-%m-%d`).
pub open spec fn dashed_text(d: CivilDate) -> Seq<char> {
    year_text(d.year as int) + "-"@ + dec_padded(d.month as nat, 2) + "-"@ + dec_padded(
        d.day as nat,
        2,
    )
}

/// Calls `Display` of `chrono::NaiveDate`: the year as `%Y` writes it, then
/// month and day as two zero-padded digits, joined by `-`.
#[verifier::external_body]
pub(crate) fn dashed_date_text(d: CivilDate) -> (r: String)
    requires
        d.wf(),
    ensures
        r@ == dashed_text(d),
{
    chrono::NaiveDate::from_ymd_opt(d.year, d.month, d.day).unwrap().to_string()
}

/// What `chrono::DateTime::<Utc>::format(fmt)` writes for the instant `micros`
/// microseconds after the Unix epoch.
pub uninterp spec fn chrono_utc_format(micros: i64, fmt: Seq<char>) -> Seq<char>;

/// Instants within the range of `chrono::DateTime<Utc>`: their day, counted
/// from the epoch, is a day that `chrono::NaiveDate` represents.
pub open spec fn instant_in_range(micros: i64) -> bool {
    day_number(first_supported()) <= micros / 86_400_000_000 <= day_number(last_supported())
}

/// Calls `chrono::DateTime::from_timestamp_micros` and formats the UTC instant
/// with one of the two patterns the signal rules print.
#[verifier::external_body]
pub(crate) fn format_utc(micros: i64, fmt: &str) -> (r: String)
    requires
        instant_in_range(micros),
        fmt@ == "%Y-%m-%d %H:%M"@ || fmt@ == "%H:%M"@,
    ensures
        r@ == chrono_utc_format(micros, fmt@),
{
    chrono::DateTime::from_timestamp_micros(micros).unwrap().format(fmt).to_string()
}


/// Whether `a` is strictly before `b` in the calendar.
pub fn date_before(a: &CivilDate, b: &CivilDate) -> (r: bool)
    ensures
        r == a.before(*b),
{
    a.year < b.year || (a.year == b.year && (a.month < b.month || (a.month == b.month && a.day
        < b.day)))
}

/// Whether two dates are the same day.
pub fn same_date(a: &CivilDate, b: &CivilDate) -> (r: bool)
    ensures
        r == (*a == *b),
{
    a.year == b.year && a.month == b.month && a.day == b.day
}

/// The quarter (1 to 4) that a month falls in.
pub open spec fn quarter_of(month: int) -> int {
    (month - 1) / 3 + 1
}

/// The `"{year}-Q{quarter}"` label of the quarter a date falls in.
pub fn quarter_label(d: CivilDate) -> (r: String)
    requires
        d.wf(),
    ensures
        r@ == dec_signed(d.year as int) + "-Q"@ + dec(quarter_of(d.month as int) as nat),
{
    let mut s = String::new();
    push_dec_signed(&mut s, d.year as i64);
    s.append("-Q");
    push_dec(&mut s, ((d.month - 1) / 3 + 1) as u64);
    s
}

/// Whether a month opens a quarter (January, April, July, October).
pub fn is_quarter_start_month(month: u32) -> (r: bool)
    ensures
        r == (month == 1 || month == 4 || month == 7 || month == 10),
{
    month == 1 || month == 4 || month == 7 || month == 10
}

} // verus!
