//! Typed columns computed by polars from string columns: the non-strict
//! integer casts and the `%Y-%m-%d` date parse that the output tables use.

use vstd::prelude::*;

use polars::prelude::{ChunkCast, DataType, NewChunkedArray, PlSmallStr, StringChunked, StringMethods};

verus! {

/// A text value that polars can hold in a string column: at most `u32::MAX`
/// bytes of UTF-8 (polars-arrow asserts this for every value it stores).
pub open spec fn text_fits(v: Option<Seq<char>>) -> bool {
    match v {
        Some(s) => vstd::utf8::encode_utf8(s).len() <= u32::MAX,
        None => true,
    }
}

/// A string column that polars can hold: fewer than `u32::MAX` rows (its
/// row index is `u32`, and a length of `u32::MAX` or more panics), each
/// value fitting.
pub open spec fn column_fits(vals: Seq<Option<Seq<char>>>) -> bool {
    &&& vals.len() < u32::MAX
    &&& forall|i: int| 0 <= i < vals.len() ==> text_fits(#[trigger] vals[i])
}

/// The value of an ASCII digit `0` to `9`; `None` for any other character.
pub open spec fn digit_value(c: char) -> Option<nat> {
    if c == '0' {
        Some(0)
    } else if c == '1' {
        Some(1)
    } else if c == '2' {
        Some(2)
    } else if c == '3' {
        Some(3)
    } else if c == '4' {
        Some(4)
    } else if c == '5' {
        Some(5)
    } else if c == '6' {
        Some(6)
    } else if c == '7' {
        Some(7)
    } else if c == '8' {
        Some(8)
    } else if c == '9' {
        Some(9)
    } else {
        None
    }
}

pub open spec fn is_ascii_digit(c: char) -> bool {
    digit_value(c) is Some
}

/// The number that a sequence of ASCII digits spells in base ten.
pub open spec fn digits_value(d: Seq<char>) -> nat
    decreases d.len(),
{
    if d.len() == 0 {
        0
    } else {
        digits_value(d.drop_last()) * 10 + match digit_value(d.last()) {
            Some(v) => v,
            None => 0,
        }
    }
}

/// A text without its one optional leading `+`.
pub open spec fn unsigned_digits(s: Seq<char>) -> Seq<char> {
    if s.len() > 0 && s[0] == '+' {
        s.drop_first()
    } else {
        s
    }
}

/// The unsigned decimal integer that a text spells, if it is at most `max`:
/// an optional `+`, then one or more ASCII digits (leading zeros allowed),
/// and nothing else.
pub open spec fn parse_unsigned(s: Seq<char>, max: nat) -> Option<nat> {
    let d = unsigned_digits(s);
    if d.len() > 0 && (forall|i: int| 0 <= i < d.len() ==> is_ascii_digit(#[trigger] d[i]))
        && digits_value(d) <= max {
        Some(digits_value(d))
    } else {
        None
    }
}

/// What polars' non-strict cast of one text to `UInt32` gives.
pub open spec fn decimal_u32(s: Seq<char>) -> Option<u32> {
    match parse_unsigned(s, u32::MAX as nat) {
        Some(v) => Some(v as u32),
        None => None,
    }
}

/// What polars' non-strict cast of one text to `UInt64` gives.
pub open spec fn decimal_u64(s: Seq<char>) -> Option<u64> {
    match parse_unsigned(s, u64::MAX as nat) {
        Some(v) => Some(v as u64),
        None => None,
    }
}

/// What polars' `str.to_date` with format `%Y-%m-%d` (exact, non-strict)
/// gives for a text that is not of the form `YYYY-MM-DD` (such texts go
/// through chrono's more lenient parser): days since 1970-01-01, or null.
pub uninterp spec fn polars_str_to_date(s: Seq<char>) -> Option<i32>;

/// A text of the form `YYYY-MM-DD`: ten characters, ASCII digits but for
/// the dashes at positions 4 and 7.
pub open spec fn is_iso_date_text(s: Seq<char>) -> bool {
    &&& s.len() == 10
    &&& s[4] == '-'
    &&& s[7] == '-'
    &&& forall|i: int|
        0 <= i < 10 && i != 4 && i != 7 ==> is_ascii_digit(#[trigger] s[i])
}

pub open spec fn iso_year(s: Seq<char>) -> int {
    digits_value(s.subrange(0, 4)) as int
}

pub open spec fn iso_month(s: Seq<char>) -> int {
    digits_value(s.subrange(5, 7)) as int
}

pub open spec fn iso_day(s: Seq<char>) -> int {
    digits_value(s.subrange(8, 10)) as int
}

/// Leap years of the proleptic Gregorian calendar.
pub open spec fn is_leap_year(y: int) -> bool {
    (y % 4 == 0 && y % 100 != 0) || y % 400 == 0
}

pub open spec fn days_in_month(y: int, m: int) -> int {
    if m == 2 {
        if is_leap_year(y) {
            29
        } else {
            28
        }
    } else if m == 4 || m == 6 || m == 9 || m == 11 {
        30
    } else {
        31
    }
}

/// `y-m-d` is a day of the proleptic Gregorian calendar.
pub open spec fn is_calendar_date(y: int, m: int, d: int) -> bool {
    1 <= m <= 12 && 1 <= d <= days_in_month(y, m)
}

/// The serial day number of a Gregorian date (Hinnant's `days_from_civil`):
/// consecutive days have consecutive numbers, and 1970-01-01 is 0.
pub open spec fn days_from_civil(y: int, m: int, d: int) -> int {
    let yy = if m <= 2 {
        y - 1
    } else {
        y
    };
    let era = yy / 400;
    let yoe = yy - era * 400;
    let mp = if m > 2 {
        m - 3
    } else {
        m + 9
    };
    let doy = (153 * mp + 2) / 5 + d - 1;
    let doe = yoe * 365 + yoe / 4 - yoe / 100 + doy;
    era * 146097 + doe - 719468
}

/// What a `YYYY-MM-DD` text parses to: the days from 1970-01-01 to it
/// (negative before 1970), or null where it names no calendar date.
pub open spec fn iso_date_value(s: Seq<char>) -> Option<i32> {
    if is_calendar_date(iso_year(s), iso_month(s), iso_day(s)) {
        Some(
            (days_from_civil(iso_year(s), iso_month(s), iso_day(s)) - days_from_civil(1970, 1, 1))
                as i32,
        )
    } else {
        None
    }
}

/// Calls `ChunkCast::cast` (non-strict) of a polars `StringChunked` to
/// `DataType::UInt32`. The cast works value by value (polars-compute's
/// `utf8view_to_primitive`), keeps nulls, and parses each text with
/// `atoi_simd::parse::<u32, true, true>`: an optional `+`, then ASCII digits
/// (leading zeros skipped), a value in range; anything else (the empty text
/// among it) becomes null. A non-strict cast from `String` to `UInt32` does
/// not fail, so the result is read back without an error path. The column
/// is built with `from_slice_options`, whose limits the `requires` keeps.
#[verifier::external_body]
pub(crate) fn cast_u32_column(vals: &Vec<Option<String>>) -> (r: Vec<Option<u32>>)
    requires
        column_fits(vals.deep_view()),
    ensures
        r@.len() == vals@.len(),
        forall|i: int|
            0 <= i < vals@.len() ==> r@[i] == (match #[trigger] vals.deep_view()[i] {
                Some(s) => decimal_u32(s),
                None => None,
            }),
{
    let ca = StringChunked::from_slice_options(PlSmallStr::EMPTY, vals.as_slice());
    let out = ca.cast(&DataType::UInt32).unwrap();
    out.u32().unwrap().to_vec()
}

/// Calls `ChunkCast::cast` (non-strict) of a polars `StringChunked` to
/// `DataType::UInt64`; as for `cast_u32_column`, value by value, nulls kept,
/// each text parsed by `atoi_simd::parse::<u64, true, true>` (optional `+`,
/// ASCII digits, value in range), anything else null.
#[verifier::external_body]
pub(crate) fn cast_u64_column(vals: &Vec<Option<String>>) -> (r: Vec<Option<u64>>)
    requires
        column_fits(vals.deep_view()),
    ensures
        r@.len() == vals@.len(),
        forall|i: int|
            0 <= i < vals@.len() ==> r@[i] == (match #[trigger] vals.deep_view()[i] {
                Some(s) => decimal_u64(s),
                None => None,
            }),
{
    let ca = StringChunked::from_slice_options(PlSmallStr::EMPTY, vals.as_slice());
    let out = ca.cast(&DataType::UInt64).unwrap();
    out.u64().unwrap().to_vec()
}

/// Calls `StringMethods::as_date` of polars-time with the format `%Y-%m-%d`
/// and the cache on, which is what `str.to_date` with `exact: true` runs.
/// It parses value by value (`unary_elementwise`), keeps nulls, and gives
/// null where a text does not parse. The call fails only for a format that
/// `compile_fmt` rejects, which `%Y-%m-%d` is not. The empty text gives
/// null: polars' own parser finds no year in it and chrono's fallback
/// reports it too short. A text of the form `YYYY-MM-DD` is read by
/// polars' fast parser (`StrpTimeState::parse`: four, two and two ASCII
/// digits, literal dashes, nothing left over) and becomes
/// `NaiveDate::from_ymd_opt(year, month, day)`, counted in days from
/// 1970-01-01 by `naive_date_to_date`; where that is no date, the chrono
/// fallback rejects it too and the value is null. What any other text gives
/// is named, not spelled out.
#[verifier::external_body]
pub(crate) fn parse_date_column(vals: &Vec<Option<String>>) -> (r: Vec<Option<i32>>)
    requires
        column_fits(vals.deep_view()),
    ensures
        r@.len() == vals@.len(),
        forall|i: int|
            0 <= i < vals@.len() ==> r@[i] == (match #[trigger] vals.deep_view()[i] {
                Some(s) => if s.len() == 0 {
                    None
                } else if is_iso_date_text(s) {
                    iso_date_value(s)
                } else {
                    polars_str_to_date(s)
                },
                None => None,
            }),
{
    let ca = StringChunked::from_slice_options(PlSmallStr::EMPTY, vals.as_slice());
    let dates = ca.as_date(Some("%Y-%m-%d"), true).unwrap();
    dates.physical().to_vec()
}

} // verus!
