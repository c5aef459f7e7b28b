//! Chinese statutory holidays: is a calendar date a work day or an off day?
//!
//! A date is looked up in the holiday schedule of its year. A record there
//! decides, whichever day of the week the date is; without a record,
//! Saturdays and Sundays are off and the other days are work days.

pub mod calendar;
pub mod compiler;
pub mod data;
pub mod resolver;
pub mod time_bridge;

pub use calendar::{CivilDate, Weekday};
pub use compiler::{compile_year, is_year_file, CompiledYearTable, DayRecord, YearlyHolidaySchema};
pub use data::{compiled_table, has_schedule, yearly_schema};
pub use resolver::{
    is_now_offday, is_now_workday, is_offday, is_workday, verdict_of, workday_of, ResolverCache,
    YearLookup,
};
pub use time_bridge::{china_date_at, parse_date, today, ParseError};
