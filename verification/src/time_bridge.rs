//! What the library takes from the `time` crate: reading a date out of a
//! text, and the date that the clock shows. Nothing here is proved of `time`;
//! each contract says what is taken on trust.

use vstd::prelude::*;
use crate::calendar::{is_calendar_date, CivilDate};

verus! {

/// An error of the `time` crate, carried through unread.
#[verifier::external_type_specification]
#[verifier::external_body]
pub struct ExTimeError(time::Error);

/// The text given was not read as a date.
#[derive(Debug)]
pub struct ParseError {
    /// What `time` reported.
    pub cause: time::Error,
}

/// The description under which date texts are read: a year, a month and a day
/// with hyphens between them.
pub open spec fn iso_description() -> Seq<char> {
    "[year]-[month]-[day]"@
}

/// What `time::Date::parse` makes of `text` under the format description
/// `description`: the year, month and day of the date it returns, or `None`
/// where the description or the text is refused.
pub uninterp spec fn parsed_date(text: Seq<char>, description: Seq<char>) -> Option<(int, int, int)>;

/// What reading `text` as `YYYY-MM-DD` gives.
pub open spec fn parsed_iso_date(text: Seq<char>) -> Option<(int, int, int)> {
    parsed_date(text, iso_description())
}

/// Calls `time::format_description::parse_borrowed` (version 1) on
/// `description` and `time::Date::parse` on `text` with what it gives.
///
/// Trusted: the outcome depends on the two texts alone, and a date that
/// `time` returns is a day that exists.
#[verifier::external_body]
fn parse_date_with(text: &str, description: &str) -> (r: Result<(i32, u8, u8), time::Error>)
    ensures
        match r {
            Ok((year, month, day)) => parsed_date(text@, description@) == Some(
                (year as int, month as int, day as int),
            ) && is_calendar_date(year as int, month as int, day as int),
            Err(_) => parsed_date(text@, description@) is None,
        },
{
    let items = time::format_description::parse_borrowed::<1>(description)?;
    let date = time::Date::parse(text, &items)?;
    Ok((date.year(), u8::from(date.month()), date.day()))
}

/// The date that `time` gives for the moment `unix_seconds` seconds after
/// the beginning of 1970 (UTC), told `offset_hours` whole hours east of UTC:
/// its year, month and day, or `None` where `time` cannot hold the moment
/// or the date there.
pub uninterp spec fn date_at(unix_seconds: int, offset_hours: int) -> Option<(int, int, int)>;

/// Calls `time::UtcOffset::from_hms`, `time::OffsetDateTime::from_unix_timestamp`
/// and `checked_to_offset`, and returns the year, month and day of `date`
/// there.
///
/// Trusted: the outcome depends on the two numbers alone, and a date that
/// `time` returns is a day that exists.
#[verifier::external_body]
fn civil_date_at(unix_seconds: i64, offset_hours: i8) -> (r: Option<(i32, u8, u8)>)
    requires
        -25 <= offset_hours <= 25,
    ensures
        match r {
            Some((year, month, day)) => date_at(unix_seconds as int, offset_hours as int) == Some(
                (year as int, month as int, day as int),
            ) && is_calendar_date(year as int, month as int, day as int),
            None => date_at(unix_seconds as int, offset_hours as int) is None,
        },
{
    let offset = time::UtcOffset::from_hms(offset_hours, 0, 0).ok()?;
    let moment = time::OffsetDateTime::from_unix_timestamp(unix_seconds).ok()?;
    let date = moment.checked_to_offset(offset)?.date();
    Some((date.year(), u8::from(date.month()), date.day()))
}

/// Calls `time::OffsetDateTime::now_utc` and moves the moment to the offset
/// of `offset_hours` whole hours from UTC with `to_offset`; returns the year,
/// month and day there.
///
/// Trusted: the date is a day that exists, and it is the date that `time`
/// gives at this offset for some moment, the one that the clock showed:
/// `to_offset` is `checked_to_offset` unwrapped, and the date depends on the
/// whole seconds of the moment only. Which moment it is depends on the
/// clock. `time` panics where the clock shows a moment outside the years it
/// can hold.
#[verifier::external_body]
fn current_date_at(offset_hours: i8) -> (r: (i32, u8, u8))
    requires
        -25 <= offset_hours <= 25,
    ensures
        is_calendar_date(r.0 as int, r.1 as int, r.2 as int),
        exists|unix_seconds: int| #[trigger]
            date_at(unix_seconds, offset_hours as int) == Some(
                (r.0 as int, r.1 as int, r.2 as int),
            ),
{
    let offset = time::UtcOffset::from_hms(offset_hours, 0, 0).unwrap();
    let date = time::OffsetDateTime::now_utc().to_offset(offset).date();
    (date.year(), u8::from(date.month()), date.day())
}

/// Reads a date written as `YYYY-MM-DD`.
pub fn parse_date(text: &str) -> (r: Result<CivilDate, ParseError>)
    ensures
        match parsed_iso_date(text@) {
            Some((year, month, day)) => r matches Ok(date) && date.year() == year && date.month()
                == month && date.day() == day,
            None => r is Err,
        },
{
    match parse_date_with(text, "[year]-[month]-[day]") {
        Ok((year, month, day)) => Ok(CivilDate::of_existing_day(year, month, day)),
        Err(cause) => Err(ParseError { cause }),
    }
}

/// Hours east of UTC of the zone in which "today" is told: China Standard
/// Time.
pub const CHINA_OFFSET_HOURS: i8 = 8;

/// The date in China (UTC+8) at the moment `unix_seconds` seconds after the
/// beginning of 1970 (UTC), if `time` can hold it.
pub open spec fn china_date(unix_seconds: int) -> Option<(int, int, int)> {
    date_at(unix_seconds, CHINA_OFFSET_HOURS as int)
}

/// Whether `date` is the date in China (UTC+8) at some moment.
pub open spec fn is_china_date(date: CivilDate) -> bool {
    exists|unix_seconds: int| #[trigger]
        china_date(unix_seconds) == Some(
            (date.year() as int, date.month() as int, date.day() as int),
        )
}

/// The date in China (UTC+8) at the moment `unix_seconds` seconds after the
/// beginning of 1970 (UTC); `None` where `time` cannot hold the moment or the
/// date.
pub fn china_date_at(unix_seconds: i64) -> (r: Option<CivilDate>)
    ensures
        match china_date(unix_seconds as int) {
            Some((year, month, day)) => r matches Some(date) && date.year() == year
                && date.month() == month && date.day() == day,
            None => r is None,
        },
{
    match civil_date_at(unix_seconds, CHINA_OFFSET_HOURS) {
        Some((year, month, day)) => Some(CivilDate::of_existing_day(year, month, day)),
        None => None,
    }
}

/// The date that the clock shows now in China (UTC+8).
pub fn today() -> (r: CivilDate)
    ensures
        r.is_valid(),
        is_china_date(r),
{
    let (year, month, day) = current_date_at(CHINA_OFFSET_HOURS);
    let ghost shown = choose|unix_seconds: int| #[trigger]
        date_at(unix_seconds, CHINA_OFFSET_HOURS as int) == Some(
            (year as int, month as int, day as int),
        );
    let date = CivilDate::of_existing_day(year, month, day);
    assert(china_date(shown) == Some(
        (date.year() as int, date.month() as int, date.day() as int),
    ));
    date
}

} // verus!
