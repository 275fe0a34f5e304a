//! Capture dates: reading one out of a metadata reader's output, and the
//! `YYYY-MM-DD` folder name that a date gives.
use vstd::prelude::*;
use chrono::Datelike;
use crate::text::{
    is_ascii_digit,
    lemma_zero_padded,
    pow10,
    prefix,
    trim_text,
    text_prefix,
    trimmed,
    zero_padded,
};

verus! {

/// The earliest year that a chrono date can hold.
pub const MIN_YEAR: i32 = -262143;

/// The latest year that a chrono date can hold.
pub const MAX_YEAR: i32 = 262142;

/// How many characters of the metadata reader's output hold the date.
pub const DATE_WIDTH: usize = 10;

/// A calendar date of the proleptic Gregorian calendar.
#[derive(Clone, Copy, Debug, PartialEq, Eq, Structural)]
pub struct CaptureDate {
    pub year: i32,
    pub month: u32,
    pub day: u32,
}

pub open spec fn is_leap_year(y: int) -> bool {
    (y % 4 == 0 && y % 100 != 0) || y % 400 == 0
}

/// The number of days of month `m` (1 to 12) of year `y`.
pub open spec fn days_in_month(y: int, m: int) -> int {
    if m == 2 {
        if is_leap_year(y) {
            29
        } else {
            28
        }
    } else if m == 4 || m == 6 || m == 9 || m == 11 {
        30
    } else {
        31
    }
}

impl CaptureDate {
    /// The date exists in the calendar and lies in chrono's range of years.
    pub open spec fn wf(self) -> bool {
        &&& MIN_YEAR <= self.year <= MAX_YEAR
        &&& 1 <= self.month <= 12
        &&& 1 <= self.day <= days_in_month(self.year as int, self.month as int)
    }

    pub open spec fn ymd(self) -> (int, int, int) {
        (self.year as int, self.month as int, self.day as int)
    }
}

/// What chrono's `NaiveDate::parse_from_str(s, "%Y:%m:%d")` gives on `s`, as
/// year, month and day; `None` where it returns an error.
pub uninterp spec fn parsed_ymd(s: Seq<char>) -> Option<(int, int, int)>;

/// The year as chrono's `%Y` writes it: four digits, zero-padded, for years 0
/// to 9999; otherwise a sign followed by at least four digits.
pub open spec fn year_text(y: int) -> Seq<char> {
    if 0 <= y <= 9999 {
        zero_padded(y as nat, 4)
    } else if y < 0 {
        seq!['-'] + zero_padded((-y) as nat, 4)
    } else {
        seq!['+'] + zero_padded(y as nat, 4)
    }
}

/// The date of year, month and day `ymd` as chrono's `%Y-%m-%d` writes it.
pub open spec fn date_text(ymd: (int, int, int)) -> Seq<char> {
    year_text(ymd.0) + seq!['-'] + zero_padded(ymd.1 as nat, 2) + seq!['-'] + zero_padded(
        ymd.2 as nat,
        2,
    )
}

/// For a year of four digits the folder name reads `YYYY-MM-DD`: ten
/// characters, dashes at the fifth and eighth, ASCII digits elsewhere.
pub proof fn law_folder_name_shape(d: CaptureDate)
    requires
        d.wf(),
        0 <= d.year <= 9999,
    ensures
        date_text(d.ymd()).len() == 10,
        date_text(d.ymd())[4] == '-',
        date_text(d.ymd())[7] == '-',
        forall|i: int|
            0 <= i < 10 && i != 4 && i != 7 ==> is_ascii_digit(#[trigger] date_text(d.ymd())[i]),
{
    reveal_with_fuel(pow10, 5);
    lemma_zero_padded(d.year as nat, 4);
    lemma_zero_padded(d.month as nat, 2);
    lemma_zero_padded(d.day as nat, 2);
    let y = zero_padded(d.year as nat, 4);
    let m = zero_padded(d.month as nat, 2);
    let dd = zero_padded(d.day as nat, 2);
    let t = date_text(d.ymd());
    assert(t =~= y + seq!['-'] + m + seq!['-'] + dd);
    assert forall|i: int| 0 <= i < 10 && i != 4 && i != 7 implies is_ascii_digit(#[trigger] t[i]) by {
        if i < 4 {
            assert(t[i] == y[i]);
        } else if i < 7 {
            assert(t[i] == m[i - 5]);
        } else {
            assert(t[i] == dd[i - 8]);
        }
    }
}

/// The capture date that a metadata reader's output gives: `None` where the
/// reader failed or wrote only white space, else what the first ten
/// characters of the trimmed output parse to.
pub open spec fn metadata_date(succeeded: bool, output: Seq<char>) -> Option<(int, int, int)> {
    if !succeeded || trimmed(output).len() == 0 {
        None
    } else {
        parsed_ymd(prefix(trimmed(output), DATE_WIDTH as nat))
    }
}

/// Relies on chrono's `NaiveDate::parse_from_str` with the pattern `%Y:%m:%d`,
/// and on `NaiveDate`'s accessors, whose results always form a calendar date
/// within chrono's range of years.
#[verifier::external_body]
fn parse_colon_date(s: &str) -> (r: Option<CaptureDate>)
    ensures
        r is None <==> parsed_ymd(s@) is None,
        r matches Some(d) ==> d.wf() && parsed_ymd(s@) == Some(d.ymd()),
{
    match chrono::NaiveDate::parse_from_str(s, "%Y:%m:%d") {
        Ok(d) => Some(CaptureDate { year: d.year(), month: d.month(), day: d.day() }),
        Err(_) => None,
    }
}

/// Relies on chrono's `NaiveDate::format` with the pattern `%Y-%m-%d`; the
/// date is rebuilt by `NaiveDate::from_ymd_opt`, which accepts every
/// well-formed date.
#[verifier::external_body]
fn format_dash_date(d: CaptureDate) -> (r: String)
    requires
        d.wf(),
    ensures
        r@ == date_text(d.ymd()),
{
    let date = chrono::NaiveDate::from_ymd_opt(d.year, d.month, d.day).unwrap();
    date.format("%Y-%m-%d").to_string()
}

/// The capture date that a metadata reader's output gives, where
/// `succeeded` tells whether the reader exited successfully.
pub fn date_from_metadata(succeeded: bool, output: &str) -> (r: Option<CaptureDate>)
    ensures
        r is None <==> metadata_date(succeeded, output@) is None,
        r matches Some(d) ==> d.wf() && metadata_date(succeeded, output@) == Some(d.ymd()),
{
    if !succeeded {
        return None;
    }
    let text = trim_text(output);
    if text.unicode_len() == 0 {
        return None;
    }
    let head = text_prefix(text.as_str(), DATE_WIDTH);
    parse_colon_date(head.as_str())
}

/// The name of the folder that holds the files taken on `d`.
pub fn date_folder_name(d: CaptureDate) -> (r: String)
    requires
        d.wf(),
    ensures
        r@ == date_text(d.ymd()),
{
    format_dash_date(d)
}

} // verus!
