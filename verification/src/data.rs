//! The holiday schedules that the library carries, year by year, as the
//! State Council's yearly notices give them.

use vstd::prelude::*;
use crate::calendar::{has_iso_text, is_calendar_date, iso_text};
use crate::compiler::{
    compile_year, dates_distinct, deduplicated, entries_map, entries_of, CompiledYearTable,
    DayEntry, DayRecord, Holiday, YearlyHolidaySchema,
};

verus! {

/// A record of `date`, of the holiday `name`, off or not.
pub open spec fn day_entry(date: Seq<char>, name: Seq<char>, is_off_day: bool) -> DayEntry {
    DayEntry { date, holiday: Holiday { name, is_off_day } }
}

/// The schedule of 2025.
pub open spec fn schedule_2025() -> Seq<DayEntry> {
    seq![
        day_entry("2025-01-01"@, "元旦"@, true),
        day_entry("2025-01-26"@, "春节"@, false),
        day_entry("2025-01-28"@, "春节"@, true),
        day_entry("2025-01-29"@, "春节"@, true),
        day_entry("2025-01-30"@, "春节"@, true),
        day_entry("2025-01-31"@, "春节"@, true),
        day_entry("2025-02-01"@, "春节"@, true),
        day_entry("2025-02-02"@, "春节"@, true),
        day_entry("2025-02-03"@, "春节"@, true),
        day_entry("2025-02-04"@, "春节"@, true),
        day_entry("2025-02-08"@, "春节"@, false),
        day_entry("2025-04-04"@, "清明节"@, true),
        day_entry("2025-04-05"@, "清明节"@, true),
        day_entry("2025-04-06"@, "清明节"@, true),
        day_entry("2025-04-27"@, "劳动节"@, false),
        day_entry("2025-05-01"@, "劳动节"@, true),
        day_entry("2025-05-02"@, "劳动节"@, true),
        day_entry("2025-05-03"@, "劳动节"@, true),
        day_entry("2025-05-04"@, "劳动节"@, true),
        day_entry("2025-05-05"@, "劳动节"@, true),
        day_entry("2025-05-31"@, "端午节"@, true),
        day_entry("2025-06-01"@, "端午节"@, true),
        day_entry("2025-06-02"@, "端午节"@, true),
        day_entry("2025-09-28"@, "国庆节、中秋节"@, false),
        day_entry("2025-10-01"@, "国庆节、中秋节"@, true),
        day_entry("2025-10-02"@, "国庆节、中秋节"@, true),
        day_entry("2025-10-03"@, "国庆节、中秋节"@, true),
        day_entry("2025-10-04"@, "国庆节、中秋节"@, true),
        day_entry("2025-10-05"@, "国庆节、中秋节"@, true),
        day_entry("2025-10-06"@, "国庆节、中秋节"@, true),
        day_entry("2025-10-07"@, "国庆节、中秋节"@, true),
        day_entry("2025-10-08"@, "国庆节、中秋节"@, true),
        day_entry("2025-10-11"@, "国庆节、中秋节"@, false),
    ]
}

/// The schedule of `year` as the library carries it; `None` for a year of
/// which it carries none.
pub open spec fn supplied_schedule(year: int) -> Option<Seq<DayEntry>> {
    if year == 2025 {
        Some(schedule_2025())
    } else {
        None
    }
}

/// What the schedule of `year` says of each of its dates, if the library
/// carries one.
pub open spec fn year_holidays(year: int) -> Option<Map<Seq<char>, Holiday>> {
    match supplied_schedule(year) {
        Some(entries) => Some(entries_map(entries)),
        None => None,
    }
}

/// Whether `date` is the text of the day `month`, `day` of `year`, a day
/// that exists.
pub open spec fn is_day_text(date: Seq<char>, year: int, month: int, day: int) -> bool {
    is_calendar_date(year, month, day) && has_iso_text(year) && iso_text(year, month, day) == date
}

/// Whether `date` is the text of a day of `year`.
pub open spec fn is_day_of_year(date: Seq<char>, year: int) -> bool {
    exists|month: int, day: int| is_day_text(date, year, month, day)
}

/// Every record of the schedule of 2025 is of a day of 2025.
proof fn lemma_schedule_2025_days()
    ensures
        forall|i: int|
            0 <= i < schedule_2025().len() ==> is_day_of_year(
                (#[trigger] schedule_2025()[i]).date,
                2025,
            ),
{
    let schedule = schedule_2025();
    reveal_strlit("0123456789");
    reveal_strlit("2025-01-01");
    assert(is_day_text(schedule[0].date, 2025, 1, 1)) by {
        assert(iso_text(2025, 1, 1) =~= "2025-01-01"@);
    }
    reveal_strlit("2025-01-26");
    assert(is_day_text(schedule[1].date, 2025, 1, 26)) by {
        assert(iso_text(2025, 1, 26) =~= "2025-01-26"@);
    }
    reveal_strlit("2025-01-28");
    assert(is_day_text(schedule[2].date, 2025, 1, 28)) by {
        assert(iso_text(2025, 1, 28) =~= "2025-01-28"@);
    }
    reveal_strlit("2025-01-29");
    assert(is_day_text(schedule[3].date, 2025, 1, 29)) by {
        assert(iso_text(2025, 1, 29) =~= "2025-01-29"@);
    }
    reveal_strlit("2025-01-30");
    assert(is_day_text(schedule[4].date, 2025, 1, 30)) by {
        assert(iso_text(2025, 1, 30) =~= "2025-01-30"@);
    }
    reveal_strlit("2025-01-31");
    assert(is_day_text(schedule[5].date, 2025, 1, 31)) by {
        assert(iso_text(2025, 1, 31) =~= "2025-01-31"@);
    }
    reveal_strlit("2025-02-01");
    assert(is_day_text(schedule[6].date, 2025, 2, 1)) by {
        assert(iso_text(2025, 2, 1) =~= "2025-02-01"@);
    }
    reveal_strlit("2025-02-02");
    assert(is_day_text(schedule[7].date, 2025, 2, 2)) by {
        assert(iso_text(2025, 2, 2) =~= "2025-02-02"@);
    }
    reveal_strlit("2025-02-03");
    assert(is_day_text(schedule[8].date, 2025, 2, 3)) by {
        assert(iso_text(2025, 2, 3) =~= "2025-02-03"@);
    }
    reveal_strlit("2025-02-04");
    assert(is_day_text(schedule[9].date, 2025, 2, 4)) by {
        assert(iso_text(2025, 2, 4) =~= "2025-02-04"@);
    }
    reveal_strlit("2025-02-08");
    assert(is_day_text(schedule[10].date, 2025, 2, 8)) by {
        assert(iso_text(2025, 2, 8) =~= "2025-02-08"@);
    }
    reveal_strlit("2025-04-04");
    assert(is_day_text(schedule[11].date, 2025, 4, 4)) by {
        assert(iso_text(2025, 4, 4) =~= "2025-04-04"@);
    }
    reveal_strlit("2025-04-05");
    assert(is_day_text(schedule[12].date, 2025, 4, 5)) by {
        assert(iso_text(2025, 4, 5) =~= "2025-04-05"@);
    }
    reveal_strlit("2025-04-06");
    assert(is_day_text(schedule[13].date, 2025, 4, 6)) by {
        assert(iso_text(2025, 4, 6) =~= "2025-04-06"@);
    }
    reveal_strlit("2025-04-27");
    assert(is_day_text(schedule[14].date, 2025, 4, 27)) by {
        assert(iso_text(2025, 4, 27) =~= "2025-04-27"@);
    }
    reveal_strlit("2025-05-01");
    assert(is_day_text(schedule[15].date, 2025, 5, 1)) by {
        assert(iso_text(2025, 5, 1) =~= "2025-05-01"@);
    }
    reveal_strlit("2025-05-02");
    assert(is_day_text(schedule[16].date, 2025, 5, 2)) by {
        assert(iso_text(2025, 5, 2) =~= "2025-05-02"@);
    }
    reveal_strlit("2025-05-03");
    assert(is_day_text(schedule[17].date, 2025, 5, 3)) by {
        assert(iso_text(2025, 5, 3) =~= "2025-05-03"@);
    }
    reveal_strlit("2025-05-04");
    assert(is_day_text(schedule[18].date, 2025, 5, 4)) by {
        assert(iso_text(2025, 5, 4) =~= "2025-05-04"@);
    }
    reveal_strlit("2025-05-05");
    assert(is_day_text(schedule[19].date, 2025, 5, 5)) by {
        assert(iso_text(2025, 5, 5) =~= "2025-05-05"@);
    }
    reveal_strlit("2025-05-31");
    assert(is_day_text(schedule[20].date, 2025, 5, 31)) by {
        assert(iso_text(2025, 5, 31) =~= "2025-05-31"@);
    }
    reveal_strlit("2025-06-01");
    assert(is_day_text(schedule[21].date, 2025, 6, 1)) by {
        assert(iso_text(2025, 6, 1) =~= "2025-06-01"@);
    }
    reveal_strlit("2025-06-02");
    assert(is_day_text(schedule[22].date, 2025, 6, 2)) by {
        assert(iso_text(2025, 6, 2) =~= "2025-06-02"@);
    }
    reveal_strlit("2025-09-28");
    assert(is_day_text(schedule[23].date, 2025, 9, 28)) by {
        assert(iso_text(2025, 9, 28) =~= "2025-09-28"@);
    }
    reveal_strlit("2025-10-01");
    assert(is_day_text(schedule[24].date, 2025, 10, 1)) by {
        assert(iso_text(2025, 10, 1) =~= "2025-10-01"@);
    }
    reveal_strlit("2025-10-02");
    assert(is_day_text(schedule[25].date, 2025, 10, 2)) by {
        assert(iso_text(2025, 10, 2) =~= "2025-10-02"@);
    }
    reveal_strlit("2025-10-03");
    assert(is_day_text(schedule[26].date, 2025, 10, 3)) by {
        assert(iso_text(2025, 10, 3) =~= "2025-10-03"@);
    }
    reveal_strlit("2025-10-04");
    assert(is_day_text(schedule[27].date, 2025, 10, 4)) by {
        assert(iso_text(2025, 10, 4) =~= "2025-10-04"@);
    }
    reveal_strlit("2025-10-05");
    assert(is_day_text(schedule[28].date, 2025, 10, 5)) by {
        assert(iso_text(2025, 10, 5) =~= "2025-10-05"@);
    }
    reveal_strlit("2025-10-06");
    assert(is_day_text(schedule[29].date, 2025, 10, 6)) by {
        assert(iso_text(2025, 10, 6) =~= "2025-10-06"@);
    }
    reveal_strlit("2025-10-07");
    assert(is_day_text(schedule[30].date, 2025, 10, 7)) by {
        assert(iso_text(2025, 10, 7) =~= "2025-10-07"@);
    }
    reveal_strlit("2025-10-08");
    assert(is_day_text(schedule[31].date, 2025, 10, 8)) by {
        assert(iso_text(2025, 10, 8) =~= "2025-10-08"@);
    }
    reveal_strlit("2025-10-11");
    assert(is_day_text(schedule[32].date, 2025, 10, 11)) by {
        assert(iso_text(2025, 10, 11) =~= "2025-10-11"@);
    }
}

/// No two records of the schedule of 2025 are of the same date.
proof fn lemma_schedule_2025_distinct()
    ensures
        dates_distinct(schedule_2025()),
{
    let schedule = schedule_2025();
    reveal_strlit("2025-01-01");
    reveal_strlit("2025-01-26");
    reveal_strlit("2025-01-28");
    reveal_strlit("2025-01-29");
    reveal_strlit("2025-01-30");
    reveal_strlit("2025-01-31");
    reveal_strlit("2025-02-01");
    reveal_strlit("2025-02-02");
    reveal_strlit("2025-02-03");
    reveal_strlit("2025-02-04");
    reveal_strlit("2025-02-08");
    reveal_strlit("2025-04-04");
    reveal_strlit("2025-04-05");
    reveal_strlit("2025-04-06");
    reveal_strlit("2025-04-27");
    reveal_strlit("2025-05-01");
    reveal_strlit("2025-05-02");
    reveal_strlit("2025-05-03");
    reveal_strlit("2025-05-04");
    reveal_strlit("2025-05-05");
    reveal_strlit("2025-05-31");
    reveal_strlit("2025-06-01");
    reveal_strlit("2025-06-02");
    reveal_strlit("2025-09-28");
    reveal_strlit("2025-10-01");
    reveal_strlit("2025-10-02");
    reveal_strlit("2025-10-03");
    reveal_strlit("2025-10-04");
    reveal_strlit("2025-10-05");
    reveal_strlit("2025-10-06");
    reveal_strlit("2025-10-07");
    reveal_strlit("2025-10-08");
    reveal_strlit("2025-10-11");
    assert forall|i: int, j: int| 0 <= i < j < schedule.len() implies schedule[i].date
        != schedule[j].date by {
        let a = schedule[i].date;
        let b = schedule[j].date;
        assert(a.len() == 10 && b.len() == 10);
        assert(a[5] != b[5] || a[6] != b[6] || a[8] != b[8] || a[9] != b[9]);
    }
}

/// In every schedule that the library carries, each record is of a day of
/// the schedule's year, and no two records are of the same date.
pub proof fn lemma_schedules_sound(year: int)
    requires
        supplied_schedule(year) is Some,
    ensures
        dates_distinct(supplied_schedule(year)->0),
        forall|i: int|
            0 <= i < supplied_schedule(year)->0.len() ==> is_day_of_year(
                (#[trigger] supplied_schedule(year)->0[i]).date,
                year,
            ),
{
    lemma_schedule_2025_days();
    lemma_schedule_2025_distinct();
}

/// The records of 2025.
fn records_2025() -> (r: Vec<DayRecord<'static>>)
    ensures
        entries_of(r@) == schedule_2025(),
{
    let r = vec![
        DayRecord { date: "2025-01-01", name: "元旦", is_off_day: true },
        DayRecord { date: "2025-01-26", name: "春节", is_off_day: false },
        DayRecord { date: "2025-01-28", name: "春节", is_off_day: true },
        DayRecord { date: "2025-01-29", name: "春节", is_off_day: true },
        DayRecord { date: "2025-01-30", name: "春节", is_off_day: true },
        DayRecord { date: "2025-01-31", name: "春节", is_off_day: true },
        DayRecord { date: "2025-02-01", name: "春节", is_off_day: true },
        DayRecord { date: "2025-02-02", name: "春节", is_off_day: true },
        DayRecord { date: "2025-02-03", name: "春节", is_off_day: true },
        DayRecord { date: "2025-02-04", name: "春节", is_off_day: true },
        DayRecord { date: "2025-02-08", name: "春节", is_off_day: false },
        DayRecord { date: "2025-04-04", name: "清明节", is_off_day: true },
        DayRecord { date: "2025-04-05", name: "清明节", is_off_day: true },
        DayRecord { date: "2025-04-06", name: "清明节", is_off_day: true },
        DayRecord { date: "2025-04-27", name: "劳动节", is_off_day: false },
        DayRecord { date: "2025-05-01", name: "劳动节", is_off_day: true },
        DayRecord { date: "2025-05-02", name: "劳动节", is_off_day: true },
        DayRecord { date: "2025-05-03", name: "劳动节", is_off_day: true },
        DayRecord { date: "2025-05-04", name: "劳动节", is_off_day: true },
        DayRecord { date: "2025-05-05", name: "劳动节", is_off_day: true },
        DayRecord { date: "2025-05-31", name: "端午节", is_off_day: true },
        DayRecord { date: "2025-06-01", name: "端午节", is_off_day: true },
        DayRecord { date: "2025-06-02", name: "端午节", is_off_day: true },
        DayRecord { date: "2025-09-28", name: "国庆节、中秋节", is_off_day: false },
        DayRecord { date: "2025-10-01", name: "国庆节、中秋节", is_off_day: true },
        DayRecord { date: "2025-10-02", name: "国庆节、中秋节", is_off_day: true },
        DayRecord { date: "2025-10-03", name: "国庆节、中秋节", is_off_day: true },
        DayRecord { date: "2025-10-04", name: "国庆节、中秋节", is_off_day: true },
        DayRecord { date: "2025-10-05", name: "国庆节、中秋节", is_off_day: true },
        DayRecord { date: "2025-10-06", name: "国庆节、中秋节", is_off_day: true },
        DayRecord { date: "2025-10-07", name: "国庆节、中秋节", is_off_day: true },
        DayRecord { date: "2025-10-08", name: "国庆节、中秋节", is_off_day: true },
        DayRecord { date: "2025-10-11", name: "国庆节、中秋节", is_off_day: false },
    ];
    assert(entries_of(r@) =~= schedule_2025());
    r
}

/// Whether the library carries a schedule of `year`.
pub fn has_schedule(year: i32) -> (r: bool)
    ensures
        r == (supplied_schedule(year as int) is Some),
        r == (year_holidays(year as int) is Some),
{
    year == 2025
}

/// The schedule of `year`, if the library carries one.
pub fn yearly_schema(year: i32) -> (r: Option<YearlyHolidaySchema<'static>>)
    ensures
        match supplied_schedule(year as int) {
            Some(entries) => r matches Some(schema) && schema.year == year && schema.entries()
                == entries,
            None => r is None,
        },
{
    if year == 2025 {
        Some(YearlyHolidaySchema { year, days: records_2025() })
    } else {
        None
    }
}

/// The compiled table of `year`, if the library carries a schedule of it.
pub fn compiled_table(year: i32) -> (r: Option<CompiledYearTable<'static>>)
    ensures
        match year_holidays(year as int) {
            Some(holidays) => r matches Some(table) && table.spec_year() == year
                && table.holidays() == holidays && table@ == deduplicated(
                supplied_schedule(year as int)->0,
            ),
            None => r is None,
        },
{
    match yearly_schema(year) {
        Some(schema) => Some(compile_year(&schema)),
        None => None,
    }
}

} // verus!
