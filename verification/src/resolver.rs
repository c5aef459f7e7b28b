//! The holiday resolver: from a date to the verdict on it.

use vstd::prelude::*;
use vstd::hash_map::StringHashMap;
use std::collections::HashMap;
use crate::calendar::{has_iso_text, is_weekend, iso_text, CivilDate};
use crate::compiler::{
    entries_map, entries_of, is_last_for_date, lemma_entries_map, CompiledYearTable, Holiday,
};
use crate::data::{
    compiled_table, has_schedule, is_day_of_year, is_day_text, lemma_schedules_sound, supplied_schedule,
    year_holidays,
};
use crate::time_bridge::{is_china_date, parse_date, parsed_iso_date, today, ParseError};

verus! {

broadcast use vstd::std_specs::hash::group_hash_axioms;

/// The verdict on a date.
pub struct OffDayVerdict {
    /// Whether the date is off: a holiday, or a Saturday or Sunday that no
    /// record makes a work day.
    pub is_off_day: bool,
    /// The name of the holiday, where a record of the date decided.
    pub holiday_name: Option<Seq<char>>,
}

/// What a table says of a date: what it holds under the `YYYY-MM-DD` text of
/// the date, if the date has such a text and the table a record under it.
pub open spec fn holiday_in(
    holidays: Map<Seq<char>, Holiday>,
    year: int,
    month: int,
    day: int,
) -> Option<Holiday> {
    if has_iso_text(year) && holidays.contains_key(iso_text(year, month, day)) {
        Some(holidays[iso_text(year, month, day)])
    } else {
        None
    }
}

/// What the schedule of its year says of a date, if the library carries
/// such a schedule and it has a record of the date.
pub open spec fn recorded_holiday(year: int, month: int, day: int) -> Option<Holiday> {
    match year_holidays(year) {
        Some(holidays) => holiday_in(holidays, year, month, day),
        None => None,
    }
}

/// The verdict that a record gives: what the record says, under its name.
pub open spec fn record_verdict(holiday: Holiday) -> OffDayVerdict {
    OffDayVerdict { is_off_day: holiday.is_off_day, holiday_name: Some(holiday.name) }
}

/// The verdict of the weekend rule: off on a Saturday or a Sunday, and no
/// name.
pub open spec fn weekend_verdict(year: int, month: int, day: int) -> OffDayVerdict {
    OffDayVerdict { is_off_day: is_weekend(year, month, day), holiday_name: None }
}

/// The verdict on a date where `recorded` is what the table of its year says
/// of it: a record decides; without one, the weekend rule does.
pub open spec fn verdict_by(recorded: Option<Holiday>, year: int, month: int, day: int) -> OffDayVerdict {
    match recorded {
        Some(holiday) => record_verdict(holiday),
        None => weekend_verdict(year, month, day),
    }
}

/// The verdict on a date, by the schedules that the library carries.
pub open spec fn off_day_verdict(year: int, month: int, day: int) -> OffDayVerdict {
    verdict_by(recorded_holiday(year, month, day), year, month, day)
}

/// The verdict on `date`.
pub open spec fn verdict_on_date(date: CivilDate) -> OffDayVerdict {
    off_day_verdict(date.year() as int, date.month() as int, date.day() as int)
}

/// Whether a result, as the functions below return it, says what `verdict`
/// says.
pub open spec fn states(result: (bool, Option<&str>), verdict: OffDayVerdict) -> bool {
    &&& result.0 == verdict.is_off_day
    &&& match result.1 {
        Some(name) => verdict.holiday_name == Some(name@),
        None => verdict.holiday_name is None,
    }
}

/// The verdict that is due on a text: that on the date which the text is
/// read as, or `None` where it is not read as a date.
pub open spec fn verdict_due(text: Seq<char>) -> Option<OffDayVerdict> {
    match parsed_iso_date(text) {
        Some((year, month, day)) => Some(off_day_verdict(year, month, day)),
        None => None,
    }
}

/// Whether `result` is the answer to the question whether the date written
/// in `text` is off: an error where the text is not read as a date, else the
/// verdict on the date.
pub open spec fn answers(result: Result<(bool, Option<&str>), ParseError>, text: Seq<char>) -> bool {
    match verdict_due(text) {
        Some(verdict) => result matches Ok(found) && states(found, verdict),
        None => result is Err,
    }
}

/// The years of a cache that held the tables of `cached` after it was asked
/// for the table of `year`: that year is added if the library carries a
/// schedule of it.
pub open spec fn cached_after(cached: Set<int>, year: int) -> Set<int> {
    if year_holidays(year) is Some {
        cached.insert(year)
    } else {
        cached
    }
}

/// Whether `result` is the answer to the question whether the date written
/// in `text` is a work day: an error where the text is not read as a date,
/// else the contrary of the verdict on the date.
pub open spec fn answers_workday(result: Result<bool, ParseError>, text: Seq<char>) -> bool {
    match verdict_due(text) {
        Some(verdict) => result matches Ok(works) && works == !verdict.is_off_day,
        None => result is Err,
    }
}

/// The table of one year, laid out for finding a date at once.
pub struct YearLookup<'a> {
    by_date: StringHashMap<(&'a str, bool)>,
}

impl<'a> View for YearLookup<'a> {
    type V = Map<Seq<char>, Holiday>;

    closed spec fn view(&self) -> Map<Seq<char>, Holiday> {
        Map::new(
            |date: Seq<char>| self.by_date@.contains_key(date),
            |date: Seq<char>|
                Holiday { name: self.by_date@[date].0@, is_off_day: self.by_date@[date].1 },
        )
    }
}

impl<'a> YearLookup<'a> {
    /// Lays out a compiled table.
    pub fn from_table(table: &CompiledYearTable<'a>) -> (r: YearLookup<'a>)
        ensures
            r@ == table.holidays(),
    {
        let records = table.records();
        let ghost entries = entries_of(records@);
        let mut lookup = YearLookup { by_date: StringHashMap::new() };
        assert(lookup@ =~= entries_map(entries.take(0)));
        let mut i: usize = 0;
        while i < records.len()
            invariant
                i <= records.len(),
                entries == entries_of(records@),
                lookup@ == entries_map(entries.take(i as int)),
            decreases records.len() - i,
        {
            let record = records[i];
            lookup.by_date.insert(record.date.to_owned(), (record.name, record.is_off_day));
            proof {
                let longer = entries.take(i + 1);
                assert(longer.drop_last() =~= entries.take(i as int));
                assert(longer.last() == record@);
                assert(lookup@ =~= entries_map(longer));
            }
            i += 1;
        }
        assert(entries.take(i as int) =~= entries);
        lookup
    }

    /// What the table says of `date`: the name of its holiday and whether it
    /// is off; `None` where the table has no record of it.
    pub fn get(&self, date: &str) -> (r: Option<(&'a str, bool)>)
        ensures
            match r {
                Some((name, is_off_day)) => self@.contains_key(date@) && self@[date@] == (Holiday {
                    name: name@,
                    is_off_day,
                }),
                None => !self@.contains_key(date@),
            },
    {
        match self.by_date.get(date) {
            Some(found) => Some((found.0, found.1)),
            None => None,
        }
    }

    /// The verdict on `date` by this table: its record of the date decides;
    /// without one, the weekend rule does.
    pub fn verdict_on(&self, date: CivilDate) -> (r: (bool, Option<&'a str>))
        ensures
            states(
                r,
                verdict_by(
                    holiday_in(self@, date.year() as int, date.month() as int, date.day() as int),
                    date.year() as int,
                    date.month() as int,
                    date.day() as int,
                ),
            ),
    {
        if let Some(text) = date.to_iso_text() {
            if let Some((name, is_off_day)) = self.get(text.as_str()) {
                return (is_off_day, Some(name));
            }
        }
        (date.is_weekend(), None)
    }
}

/// The tables of the years that were asked for so far, each laid out once.
/// It starts empty, only grows, and what it holds of a year is what the
/// compiled table of that year says.
pub struct ResolverCache {
    years: HashMap<i32, YearLookup<'static>>,
}

impl ResolverCache {
    #[verifier::type_invariant]
    spec fn well_formed(&self) -> bool {
        forall|year: i32| #[trigger]
            self.years@.contains_key(year) ==> year_holidays(year as int) == Some(
                self.years@[year]@,
            )
    }

    /// The years whose tables the cache holds.
    pub closed spec fn cached_years(&self) -> Set<int> {
        Set::new(|year: int| i32::MIN <= year <= i32::MAX && self.years@.contains_key(year as i32))
    }

    /// An empty cache.
    pub fn new() -> (r: ResolverCache)
        ensures
            r.cached_years() == Set::<int>::empty(),
    {
        let r = ResolverCache { years: HashMap::new() };
        assert(r.cached_years() =~= Set::<int>::empty());
        r
    }

    /// Whether the cache holds the table of `year`.
    pub fn is_cached(&self, year: i32) -> (r: bool)
        ensures
            r == self.cached_years().contains(year as int),
    {
        self.years.contains_key(&year)
    }

    /// The table of `year`, from the cache if it is there; else it is
    /// compiled, laid out and put into the cache first. `None`, and the cache
    /// unchanged, for a year of which the library carries no schedule.
    pub fn get_year_data(&mut self, year: i32) -> (r: Option<&YearLookup<'static>>)
        ensures
            match year_holidays(year as int) {
                Some(holidays) => r matches Some(lookup) && lookup@ == holidays,
                None => r is None,
            },
            final(self).cached_years() == cached_after(old(self).cached_years(), year as int),
    {
        proof {
            use_type_invariant(&*self);
        }
        if !self.years.contains_key(&year) {
            match compiled_table(year) {
                Some(table) => {
                    let lookup = YearLookup::from_table(&table);
                    let mut years = HashMap::new();
                    std::mem::swap(&mut years, &mut self.years);
                    years.insert(year, lookup);
                    self.years = years;
                    assert(self.cached_years() =~= old(self).cached_years().insert(year as int));
                },
                None => {
                    return None;
                },
            }
        } else {
            assert(self.cached_years() =~= old(self).cached_years().insert(year as int));
        }
        self.years.get(&year)
    }

    /// The verdict on `date`, with the tables of this cache.
    pub fn verdict_on(&mut self, date: CivilDate) -> (r: (bool, Option<&'static str>))
        ensures
            states(r, verdict_on_date(date)),
            final(self).cached_years() == cached_after(old(self).cached_years(), date.year() as int),
    {
        match self.get_year_data(date.year()) {
            Some(lookup) => lookup.verdict_on(date),
            None => (date.is_weekend(), None),
        }
    }

    /// The verdict on `date`, if it can be given without changing the cache:
    /// the table of its year is in the cache, or the library carries no
    /// schedule of that year. `None` where the table has yet to be laid out.
    pub fn ready_verdict(&self, date: CivilDate) -> (r: Option<(bool, Option<&'static str>)>)
        ensures
            r is None <==> year_holidays(date.year() as int) is Some && !self.cached_years().contains(
                date.year() as int,
            ),
            r matches Some(found) ==> states(found, verdict_on_date(date)),
    {
        proof {
            use_type_invariant(self);
        }
        match self.years.get(&date.year()) {
            Some(lookup) => Some(lookup.verdict_on(date)),
            None => if has_schedule(date.year()) {
                None
            } else {
                Some((date.is_weekend(), None))
            },
        }
    }

    /// Whether the date written in `date`, as `YYYY-MM-DD`, is off, and the
    /// name of its holiday where a record decided; with the tables of this
    /// cache. The answer does not depend on what the cache holds.
    pub fn is_offday(&mut self, date: &str) -> (r: Result<(bool, Option<&'static str>), ParseError>)
        ensures
            answers(r, date@),
            match parsed_iso_date(date@) {
                Some((year, month, day)) => final(self).cached_years() == cached_after(
                    old(self).cached_years(),
                    year,
                ),
                None => final(self).cached_years() == old(self).cached_years(),
            },
    {
        match parse_date(date) {
            Ok(day) => Ok(self.verdict_on(day)),
            Err(error) => Err(error),
        }
    }

    /// Whether the date written in `date`, as `YYYY-MM-DD`, is a work day;
    /// with the tables of this cache.
    pub fn is_workday(&mut self, date: &str) -> (r: Result<bool, ParseError>)
        ensures
            answers_workday(r, date@),
            match parsed_iso_date(date@) {
                Some((year, month, day)) => final(self).cached_years() == cached_after(
                    old(self).cached_years(),
                    year,
                ),
                None => final(self).cached_years() == old(self).cached_years(),
            },
    {
        match self.is_offday(date) {
            Ok(found) => Ok(!found.0),
            Err(error) => Err(error),
        }
    }
}

/// Every record of a schedule that the library carries decides the verdict
/// on its day: the record is of a day of its year, and the verdict on that
/// day is what the record says.
pub proof fn lemma_record_decides(year: int, index: int) -> (day: (int, int))
    requires
        supplied_schedule(year) is Some,
        0 <= index < supplied_schedule(year)->0.len(),
    ensures
        is_day_text(supplied_schedule(year)->0[index].date, year, day.0, day.1),
        off_day_verdict(year, day.0, day.1) == record_verdict(
            supplied_schedule(year)->0[index].holiday,
        ),
{
    let entries = supplied_schedule(year)->0;
    lemma_schedules_sound(year);
    lemma_entries_map(entries);
    assert(is_day_of_year(entries[index].date, year));
    let (month, day) = choose|month: int, day: int|
        is_day_text(entries[index].date, year, month, day);
    assert(is_last_for_date(entries, index));
    (month, day)
}

/// Two answers to the same text agree: both are errors, or both say the
/// same of the date and name the same holiday. So it makes no difference how
/// often the question was asked before, nor which cache answered.
pub proof fn lemma_answers_agree(
    text: Seq<char>,
    first: Result<(bool, Option<&str>), ParseError>,
    second: Result<(bool, Option<&str>), ParseError>,
)
    requires
        answers(first, text),
        answers(second, text),
    ensures
        first is Ok <==> second is Ok,
        first is Ok ==> first->Ok_0.0 == second->Ok_0.0,
        first is Ok ==> (first->Ok_0.1 is Some <==> second->Ok_0.1 is Some),
        first is Ok && first->Ok_0.1 is Some ==> first->Ok_0.1->0@ == second->Ok_0.1->0@,
{
}

/// A date is a work day exactly when it is not off, and the one question
/// gives an error exactly when the other does.
pub proof fn lemma_workday_is_not_offday(
    text: Seq<char>,
    offday: Result<(bool, Option<&str>), ParseError>,
    workday: Result<bool, ParseError>,
)
    requires
        answers(offday, text),
        answers_workday(workday, text),
    ensures
        offday is Ok <==> workday is Ok,
        offday is Ok ==> workday->Ok_0 == !offday->Ok_0.0,
{
}

/// The verdict on `date`: a record of the date in the schedule of its year
/// decides; without one, Saturdays and Sundays are off.
pub fn verdict_of(date: CivilDate) -> (r: (bool, Option<&'static str>))
    ensures
        states(r, verdict_on_date(date)),
{
    let mut cache = ResolverCache::new();
    cache.verdict_on(date)
}

/// Whether `date` is a work day: the contrary of the verdict on it.
pub fn workday_of(date: CivilDate) -> (r: bool)
    ensures
        r == !verdict_on_date(date).is_off_day,
{
    let found = verdict_of(date);
    !found.0
}

/// On one date the two questions give contrary answers: the date is a work
/// day exactly when it is not off.
pub proof fn lemma_workday_contrary_on_date(date: CivilDate, found: (bool, Option<&str>), works: bool)
    requires
        states(found, verdict_on_date(date)),
        works == !verdict_on_date(date).is_off_day,
    ensures
        works == !found.0,
{
}

/// Whether the date written in `date`, as `YYYY-MM-DD`, is off, and the name
/// of its holiday where a record decided. An error where the text is not
/// read as a date.
///
/// In a year of which the library carries no schedule the weekend rule
/// alone decides. A record of the date decides against the weekend rule in
/// both ways.
pub fn is_offday(date: &str) -> (r: Result<(bool, Option<&'static str>), ParseError>)
    ensures
        answers(r, date@),
        forall|year: int, month: int, day: int|
            parsed_iso_date(date@) == Some((year, month, day)) && year_holidays(year) is None ==> (r
                matches Ok(found) && states(found, weekend_verdict(year, month, day))),
        forall|year: int, month: int, day: int, holidays: Map<Seq<char>, Holiday>|
            parsed_iso_date(date@) == Some((year, month, day)) && year_holidays(year) == Some(
                holidays,
            ) && holidays.contains_key(iso_text(year, month, day)) ==> (r matches Ok(found)
                && states(found, record_verdict(holidays[iso_text(year, month, day)]))),
{
    let mut cache = ResolverCache::new();
    cache.is_offday(date)
}

/// Whether the date written in `date`, as `YYYY-MM-DD`, is a work day: the
/// contrary of what `is_offday` says of it, and an error where that gives
/// one.
pub fn is_workday(date: &str) -> (r: Result<bool, ParseError>)
    ensures
        answers_workday(r, date@),
{
    match is_offday(date) {
        Ok(found) => Ok(!found.0),
        Err(error) => Err(error),
    }
}

/// Whether today, as the clock shows it in China (UTC+8), is off, and the
/// name of its holiday where a record decided: the verdict on the date that
/// some moment has in China, the one that the clock showed.
pub fn is_now_offday() -> (r: (bool, Option<&'static str>))
    ensures
        exists|date: CivilDate|
            date.is_valid() && is_china_date(date) && #[trigger] states(r, verdict_on_date(date)),
{
    let date = today();
    let r = verdict_of(date);
    assert(date.is_valid() && is_china_date(date) && states(r, verdict_on_date(date)));
    r
}

/// Whether today, as the clock shows it in China (UTC+8), is a work day:
/// the contrary of the verdict on the date that some moment has in China,
/// the one that the clock showed.
pub fn is_now_workday() -> (r: bool)
    ensures
        exists|date: CivilDate|
            date.is_valid() && is_china_date(date) && r == !(#[trigger] verdict_on_date(
                date,
            )).is_off_day,
{
    let date = today();
    let r = workday_of(date);
    assert(date.is_valid() && is_china_date(date) && r == !verdict_on_date(date).is_off_day);
    r
}

} // verus!
