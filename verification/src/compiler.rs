//! The holiday compiler: from the records of a year, as supplied, to a table
//! with one record for each date.

use vstd::prelude::*;
use vstd::hash_map::StringHashMap;
use vstd::string::*;

verus! {

/// What a record says of its date.
pub struct Holiday {
    /// The name of the holiday to which the date belongs.
    pub name: Seq<char>,
    /// Whether the date is off; if not, it is a work day that makes up for
    /// the holiday, though it may be a Saturday or a Sunday.
    pub is_off_day: bool,
}

/// One record: a date, and what is said of it.
pub struct DayEntry {
    /// The date, as `YYYY-MM-DD`.
    pub date: Seq<char>,
    /// What the record says of the date.
    pub holiday: Holiday,
}

/// One record of a year's holiday schedule.
#[derive(Clone, Copy, Debug)]
pub struct DayRecord<'a> {
    /// The date, as `YYYY-MM-DD`.
    pub date: &'a str,
    /// The name of the holiday to which the date belongs.
    pub name: &'a str,
    /// Whether the date is off; if not, it is a work day that makes up for
    /// the holiday.
    pub is_off_day: bool,
}

impl<'a> View for DayRecord<'a> {
    type V = DayEntry;

    open spec fn view(&self) -> DayEntry {
        DayEntry {
            date: self.date@,
            holiday: Holiday { name: self.name@, is_off_day: self.is_off_day },
        }
    }
}

/// The records of a sequence, each by its view.
pub open spec fn entries_of<'a>(records: Seq<DayRecord<'a>>) -> Seq<DayEntry> {
    records.map_values(|record: DayRecord<'a>| record@)
}

/// The holiday schedule of one year, as supplied: the same date may occur in
/// more than one record.
#[derive(Debug)]
pub struct YearlyHolidaySchema<'a> {
    /// The year of the schedule.
    pub year: i32,
    /// Its records, in the order in which they were supplied.
    pub days: Vec<DayRecord<'a>>,
}

impl<'a> YearlyHolidaySchema<'a> {
    /// The records of the schedule, in order.
    pub open spec fn entries(&self) -> Seq<DayEntry> {
        entries_of(self.days@)
    }
}

/// The mapping from dates to holidays that a sequence of records stands
/// for: where a date occurs more than once, the last record counts.
pub open spec fn entries_map(entries: Seq<DayEntry>) -> Map<Seq<char>, Holiday>
    decreases entries.len(),
{
    if entries.len() == 0 {
        Map::empty()
    } else {
        entries_map(entries.drop_last()).insert(entries.last().date, entries.last().holiday)
    }
}

/// Whether no record after the one at `index` has its date.
pub open spec fn is_last_for_date(entries: Seq<DayEntry>, index: int) -> bool {
    forall|later: int| index < later < entries.len() ==> entries[later].date != entries[index].date
}

/// Of the first `end` records, those that are the last for their date, in
/// order.
pub open spec fn kept_before(entries: Seq<DayEntry>, end: int) -> Seq<DayEntry>
    decreases end,
{
    if end <= 0 {
        Seq::empty()
    } else if is_last_for_date(entries, end - 1) {
        kept_before(entries, end - 1).push(entries[end - 1])
    } else {
        kept_before(entries, end - 1)
    }
}

/// The records without those that a later record of the same date
/// overrides, in order.
pub open spec fn deduplicated(entries: Seq<DayEntry>) -> Seq<DayEntry> {
    kept_before(entries, entries.len() as int)
}

/// Whether no two records have the same date.
pub open spec fn dates_distinct(entries: Seq<DayEntry>) -> bool {
    forall|i: int, j: int| 0 <= i < j < entries.len() ==> entries[i].date != entries[j].date
}

/// Whether the record at `index`, one of the first `end`, is the last for
/// its date and equal to `entry`.
pub open spec fn kept_from(entries: Seq<DayEntry>, end: int, entry: DayEntry, index: int) -> bool {
    0 <= index < end && is_last_for_date(entries, index) && entries[index] == entry
}

/// The records that are kept are those that are the last for their date,
/// and no two of them have the same date.
pub proof fn lemma_kept_before(entries: Seq<DayEntry>, end: int)
    requires
        0 <= end <= entries.len(),
    ensures
        forall|entry: DayEntry| #[trigger]
            kept_before(entries, end).contains(entry) <==> exists|i: int|
                kept_from(entries, end, entry, i),
        dates_distinct(kept_before(entries, end)),
    decreases end,
{
    let kept = kept_before(entries, end);
    if end > 0 {
        let shorter: int = end - 1;
        lemma_kept_before(entries, shorter);
        let before = kept_before(entries, shorter);
        assert forall|entry: DayEntry| #[trigger] kept.contains(entry) implies exists|i: int|
            kept_from(entries, end, entry, i) by {
            let k = choose|k: int| 0 <= k < kept.len() && kept[k] == entry;
            if k < before.len() {
                assert(before[k] == entry);
                assert(before.contains(entry));
                let i = choose|i: int| kept_from(entries, shorter, entry, i);
                assert(kept_from(entries, end, entry, i));
            } else {
                assert(kept_from(entries, end, entry, shorter));
            }
        }
        assert forall|entry: DayEntry|
            (exists|i: int| kept_from(entries, end, entry, i)) implies #[trigger] kept.contains(
            entry,
        ) by {
            let i = choose|i: int| kept_from(entries, end, entry, i);
            if i < shorter {
                assert(kept_from(entries, shorter, entry, i));
                assert(before.contains(entry));
                let k = choose|k: int| 0 <= k < before.len() && before[k] == entry;
                assert(kept[k] == entry);
            } else {
                assert(kept[before.len() as int] == entry);
            }
        }
        assert forall|a: int, b: int| 0 <= a < b < kept.len() implies kept[a].date
            != kept[b].date by {
            assert(kept[a] == before[a]);
            if b == before.len() {
                assert(before.contains(before[a]));
                let i = choose|i: int| kept_from(entries, shorter, before[a], i);
                assert(entries[shorter].date != entries[i].date);
            } else {
                assert(kept[b] == before[b]);
            }
        }
    } else {
        assert forall|entry: DayEntry|
            (exists|i: int| kept_from(entries, end, entry, i)) implies #[trigger] kept.contains(
            entry,
        ) by {
            let i = choose|i: int| kept_from(entries, end, entry, i);
        }
    }
}

/// A record of the date of the record at `index` that is the last for that
/// date.
pub proof fn lemma_last_record(entries: Seq<DayEntry>, index: int) -> (last: int)
    requires
        0 <= index < entries.len(),
    ensures
        index <= last < entries.len(),
        entries[last].date == entries[index].date,
        is_last_for_date(entries, last),
    decreases entries.len() - index,
{
    if is_last_for_date(entries, index) {
        index
    } else {
        let later = choose|later: int|
            index < later < entries.len() && entries[later].date == entries[index].date;
        lemma_last_record(entries, later)
    }
}

/// Whether the record at `index` is of `date`.
pub open spec fn is_record_of(entries: Seq<DayEntry>, date: Seq<char>, index: int) -> bool {
    0 <= index < entries.len() && entries[index].date == date
}

/// The mapping of a sequence of records holds the dates of its records and
/// no others, and gives each date what its last record says.
pub proof fn lemma_entries_map(entries: Seq<DayEntry>)
    ensures
        forall|date: Seq<char>| #[trigger]
            entries_map(entries).contains_key(date) <==> exists|i: int|
                is_record_of(entries, date, i),
        forall|i: int|
            #![trigger entries[i]]
            0 <= i < entries.len() && is_last_for_date(entries, i) ==> entries_map(
                entries,
            ).contains_key(entries[i].date) && entries_map(entries)[entries[i].date]
                == entries[i].holiday,
    decreases entries.len(),
{
    if entries.len() > 0 {
        let front = entries.drop_last();
        let end: int = entries.len() - 1;
        lemma_entries_map(front);
        assert forall|date: Seq<char>| #[trigger]
            entries_map(entries).contains_key(date) implies exists|i: int|
            is_record_of(entries, date, i) by {
            if date == entries[end].date {
                assert(is_record_of(entries, date, end));
            } else {
                assert(entries_map(front).contains_key(date));
                let i = choose|i: int| is_record_of(front, date, i);
                assert(is_record_of(entries, date, i));
            }
        }
        assert forall|date: Seq<char>|
            (exists|i: int| is_record_of(entries, date, i)) implies #[trigger] entries_map(
            entries,
        ).contains_key(date) by {
            let i = choose|i: int| is_record_of(entries, date, i);
            if i < end {
                assert(is_record_of(front, date, i));
                assert(entries_map(front).contains_key(date));
            }
        }
        assert forall|i: int|
            #![trigger entries[i]]
            0 <= i < entries.len() && is_last_for_date(entries, i) implies entries_map(
            entries,
        ).contains_key(entries[i].date) && entries_map(entries)[entries[i].date]
            == entries[i].holiday by {
            if i < end {
                assert(entries[end].date != entries[i].date);
                assert(is_last_for_date(front, i)) by {
                    assert forall|later: int| i < later < front.len() implies front[later].date
                        != front[i].date by {
                        assert(entries[later].date != entries[i].date);
                    }
                }
                assert(front[i] == entries[i]);
            }
        }
    } else {
        assert forall|date: Seq<char>|
            (exists|i: int| is_record_of(entries, date, i)) implies #[trigger] entries_map(
            entries,
        ).contains_key(date) by {
            let i = choose|i: int| is_record_of(entries, date, i);
        }
    }
}

/// Taking out the records that a later one overrides changes nothing in
/// what the records say of any date.
pub proof fn lemma_deduplicated_map(entries: Seq<DayEntry>)
    ensures
        dates_distinct(deduplicated(entries)),
        entries_map(deduplicated(entries)) == entries_map(entries),
{
    let kept = deduplicated(entries);
    let end: int = entries.len() as int;
    lemma_kept_before(entries, end);
    lemma_entries_map(entries);
    lemma_entries_map(kept);
    assert forall|date: Seq<char>| #[trigger]
        entries_map(kept).contains_key(date) implies entries_map(entries).contains_key(date) by {
        let k = choose|k: int| is_record_of(kept, date, k);
        assert(kept.contains(kept[k]));
        let i = choose|i: int| kept_from(entries, end, kept[k], i);
        assert(is_record_of(entries, date, i));
    }
    assert forall|date: Seq<char>| #[trigger]
        entries_map(entries).contains_key(date) implies entries_map(kept).contains_key(date)
        && entries_map(kept)[date] == entries_map(entries)[date] by {
        let i = choose|i: int| is_record_of(entries, date, i);
        let last = lemma_last_record(entries, i);
        assert(kept_from(entries, end, entries[last], last));
        assert(kept.contains(entries[last]));
        let k = choose|k: int| 0 <= k < kept.len() && kept[k] == entries[last];
        assert(is_record_of(kept, date, k));
        assert(is_last_for_date(kept, k));
    }
    assert(entries_map(kept) =~= entries_map(entries));
}

/// Every date of the records is still found after compilation, in one
/// record only, and with what the last record of that date said.
pub proof fn lemma_compiled_date_found(entries: Seq<DayEntry>, index: int) -> (place: int)
    requires
        0 <= index < entries.len(),
    ensures
        is_record_of(deduplicated(entries), entries[index].date, place),
        forall|other: int| #[trigger]
            is_record_of(deduplicated(entries), entries[index].date, other) ==> other == place,
        entries_map(deduplicated(entries)).contains_key(entries[index].date),
        entries_map(deduplicated(entries))[entries[index].date] == deduplicated(
            entries,
        )[place].holiday,
        is_last_for_date(entries, index) ==> deduplicated(entries)[place] == entries[index],
{
    let kept = deduplicated(entries);
    let end: int = entries.len() as int;
    let date = entries[index].date;
    lemma_kept_before(entries, end);
    lemma_entries_map(kept);
    let last = lemma_last_record(entries, index);
    assert(kept_from(entries, end, entries[last], last));
    assert(kept.contains(entries[last]));
    let place = choose|k: int| 0 <= k < kept.len() && kept[k] == entries[last];
    assert(is_record_of(kept, date, place));
    assert(is_last_for_date(kept, place));
    if is_last_for_date(entries, index) && last != index {
        assert(entries[last].date != entries[index].date);
    }
    place
}

/// Whether a file name ends in `.json` after at least one other character.
pub open spec fn has_json_extension(name: Seq<char>) -> bool {
    name.len() > 5 && name.subrange(name.len() - 5, name.len() as int) == ".json"@
}

/// Whether a file of this name, among the yearly files, holds the schedule
/// of a year: it is a `.json` file, and not one of the two that describe the
/// collection itself.
pub open spec fn names_year_file(name: Seq<char>) -> bool {
    has_json_extension(name) && name != "schema.json"@ && name != "renovate.json"@
}

/// Whether two texts are the same.
fn same_text(a: &str, b: &str) -> (r: bool)
    ensures
        r == (a@ == b@),
{
    let left = a.to_owned();
    let right = b.to_owned();
    left == right
}

/// Whether a file of this name holds the schedule of a year.
pub fn is_year_file(name: &str) -> (r: bool)
    ensures
        r == names_year_file(name@),
{
    let length: usize = name.unicode_len();
    if length <= 5 {
        return false;
    }
    let ending = name.substring_char(length - 5, length);
    same_text(ending, ".json") && !same_text(name, "schema.json") && !same_text(
        name,
        "renovate.json",
    )
}

/// The compiled table of one year: its records in order, no two of the same
/// date.
#[derive(Debug)]
pub struct CompiledYearTable<'a> {
    year: i32,
    records: Vec<DayRecord<'a>>,
}

impl<'a> View for CompiledYearTable<'a> {
    type V = Seq<DayEntry>;

    closed spec fn view(&self) -> Seq<DayEntry> {
        entries_of(self.records@)
    }
}

impl<'a> CompiledYearTable<'a> {
    #[verifier::type_invariant]
    spec fn well_formed(&self) -> bool {
        dates_distinct(entries_of(self.records@))
    }

    /// The year of the table.
    pub closed spec fn spec_year(&self) -> i32 {
        self.year
    }

    /// What the table says of each of its dates.
    pub open spec fn holidays(&self) -> Map<Seq<char>, Holiday> {
        entries_map(self@)
    }

    /// The year of the table.
    #[verifier::when_used_as_spec(spec_year)]
    pub fn year(&self) -> (r: i32)
        ensures
            r == self.spec_year(),
    {
        self.year
    }

    /// The records of the table, in order; no two have the same date.
    pub fn records(&self) -> (r: &Vec<DayRecord<'a>>)
        ensures
            entries_of(r@) == self@,
            dates_distinct(self@),
    {
        proof {
            use_type_invariant(self);
        }
        &self.records
    }
}

/// Compiles the schedule of a year: of the records of one date the last is
/// kept, and the records that are kept stay in their order.
pub fn compile_year<'a>(schema: &YearlyHolidaySchema<'a>) -> (table: CompiledYearTable<'a>)
    ensures
        table.spec_year() == schema.year,
        table@ == deduplicated(schema.entries()),
        table.holidays() == entries_map(schema.entries()),
{
    let ghost entries = schema.entries();
    let count: usize = schema.days.len();
    // For each date, the place of its last record.
    let mut last_place: StringHashMap<usize> = StringHashMap::new();
    let mut i: usize = 0;
    while i < count
        invariant
            i <= count,
            count == schema.days@.len(),
            entries == entries_of(schema.days@),
            forall|date: Seq<char>| #[trigger]
                last_place@.contains_key(date) ==> {
                    let place = last_place@[date];
                    &&& place < i
                    &&& entries[place as int].date == date
                    &&& forall|later: int| place < later < i ==> entries[later].date != date
                },
            forall|k: int| 0 <= k < i ==> last_place@.contains_key(#[trigger] entries[k].date),
        decreases count - i,
    {
        let date = schema.days[i].date;
        last_place.insert(date.to_owned(), i);
        i += 1;
    }
    let mut kept: Vec<DayRecord<'a>> = Vec::new();
    let mut i: usize = 0;
    while i < count
        invariant
            i <= count,
            count == schema.days@.len(),
            entries == entries_of(schema.days@),
            forall|date: Seq<char>| #[trigger]
                last_place@.contains_key(date) ==> {
                    let place = last_place@[date];
                    &&& place < count
                    &&& entries[place as int].date == date
                    &&& forall|later: int| place < later < count ==> entries[later].date != date
                },
            forall|k: int| 0 <= k < count ==> last_place@.contains_key(#[trigger] entries[k].date),
            entries_of(kept@) == kept_before(entries, i as int),
        decreases count - i,
    {
        let record = schema.days[i];
        let ghost before = entries_of(kept@);
        assert(entries[i as int] == record@);
        assert(last_place@.contains_key(entries[i as int].date));
        let is_last = match last_place.get(record.date) {
            Some(place) => *place == i,
            None => false,
        };
        assert(is_last == is_last_for_date(entries, i as int));
        if is_last {
            kept.push(record);
            assert(entries_of(kept@) =~= before.push(record@));
        }
        i += 1;
    }
    proof {
        lemma_deduplicated_map(entries);
    }
    CompiledYearTable { year: schema.year, records: kept }
}

} // verus!
