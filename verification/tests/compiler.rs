use cn_offday::{
    compile_year, compiled_table, is_year_file, yearly_schema, DayRecord, YearLookup,
    YearlyHolidaySchema,
};

fn record<'a>(date: &'a str, name: &'a str, is_off_day: bool) -> DayRecord<'a> {
    DayRecord { date, name, is_off_day }
}

fn triples<'a>(records: &[DayRecord<'a>]) -> Vec<(&'a str, &'a str, bool)> {
    records.iter().map(|r| (r.date, r.name, r.is_off_day)).collect()
}

#[test]
fn records_of_different_dates_are_all_kept_in_order() {
    let schema = YearlyHolidaySchema {
        year: 2030,
        days: vec![
            record("2030-10-01", "National Day", true),
            record("2030-01-01", "New Year", true),
            record("2030-09-29", "National Day", false),
        ],
    };
    let table = compile_year(&schema);
    assert_eq!(table.year(), 2030);
    assert_eq!(
        triples(table.records()),
        vec![
            ("2030-10-01", "National Day", true),
            ("2030-01-01", "New Year", true),
            ("2030-09-29", "National Day", false),
        ]
    );
}

#[test]
fn of_two_records_of_a_date_the_last_is_kept() {
    let schema = YearlyHolidaySchema {
        year: 2030,
        days: vec![
            record("2030-01-01", "first", true),
            record("2030-01-02", "other", true),
            record("2030-01-01", "second", false),
        ],
    };
    let table = compile_year(&schema);
    assert_eq!(
        triples(table.records()),
        vec![("2030-01-02", "other", true), ("2030-01-01", "second", false)]
    );
    let lookup = YearLookup::from_table(&table);
    assert_eq!(lookup.get("2030-01-01"), Some(("second", false)));
    assert_eq!(lookup.get("2030-01-02"), Some(("other", true)));
    assert_eq!(lookup.get("2030-01-03"), None);
}

#[test]
fn of_many_records_of_a_date_the_last_is_kept() {
    let schema = YearlyHolidaySchema {
        year: 2031,
        days: vec![
            record("a", "1", true),
            record("a", "2", false),
            record("b", "3", true),
            record("a", "4", true),
            record("b", "5", false),
            record("c", "6", false),
            record("a", "7", false),
        ],
    };
    let table = compile_year(&schema);
    assert_eq!(
        triples(table.records()),
        vec![("b", "5", false), ("c", "6", false), ("a", "7", false)]
    );
}

#[test]
fn an_empty_schedule_compiles_to_an_empty_table() {
    let schema = YearlyHolidaySchema { year: -3, days: Vec::new() };
    let table = compile_year(&schema);
    assert_eq!(table.year(), -3);
    assert!(table.records().is_empty());
    assert_eq!(YearLookup::from_table(&table).get("2025-01-01"), None);
}

#[test]
fn every_date_of_a_schedule_is_found_after_compilation() {
    let schema = YearlyHolidaySchema {
        year: 2032,
        days: vec![
            record("2032-02-10", "Spring Festival", false),
            record("2032-02-11", "Spring Festival", true),
            record("2032-02-10", "Spring Festival", true),
            record("2032-05-01", "Labour Day", true),
            record("2032-02-11", "Spring Festival", true),
        ],
    };
    let table = compile_year(&schema);
    let lookup = YearLookup::from_table(&table);
    for (at, day) in schema.days.iter().enumerate() {
        let last = schema.days.iter().rposition(|other| other.date == day.date).unwrap();
        let found = lookup.get(day.date).unwrap();
        assert_eq!(found, (schema.days[last].name, schema.days[last].is_off_day));
        let kept = table.records().iter().filter(|r| r.date == day.date).count();
        assert_eq!(kept, 1);
        assert!(last >= at);
    }
    assert_eq!(table.records().len(), 3);
}

#[test]
fn dates_are_told_apart_to_the_letter() {
    let schema = YearlyHolidaySchema {
        year: 2033,
        days: vec![
            record("2033-01-01", "plain", true),
            record("2033-1-1", "short", false),
            record("2033-01-01 ", "with a blank", false),
            record("", "empty", true),
        ],
    };
    let table = compile_year(&schema);
    assert_eq!(table.records().len(), 4);
    let lookup = YearLookup::from_table(&table);
    assert_eq!(lookup.get("2033-01-01"), Some(("plain", true)));
    assert_eq!(lookup.get("2033-1-1"), Some(("short", false)));
    assert_eq!(lookup.get(""), Some(("empty", true)));
}

#[test]
fn which_files_hold_a_year() {
    assert!(is_year_file("2025.json"));
    assert!(is_year_file("2007.json"));
    assert!(is_year_file("a.json"));
    assert!(is_year_file("..json"));
    assert!(is_year_file("年.json"));
    assert!(is_year_file("schema.json.json"));
    assert!(is_year_file("xschema.json"));
    assert!(!is_year_file("schema.json"));
    assert!(!is_year_file("renovate.json"));
    assert!(!is_year_file(".json"));
    assert!(!is_year_file("json"));
    assert!(!is_year_file(""));
    assert!(!is_year_file("2025.JSON"));
    assert!(!is_year_file("2025.json5"));
    assert!(!is_year_file("2025.ics"));
    assert!(!is_year_file("README.md"));
    assert!(!is_year_file("2025json"));
}

#[test]
fn the_library_carries_the_schedule_of_2025() {
    let schema = yearly_schema(2025).unwrap();
    assert_eq!(schema.year, 2025);
    assert_eq!(schema.days.len(), 33);
    assert_eq!(triples(&schema.days)[0], ("2025-01-01", "元旦", true));
    assert_eq!(triples(&schema.days)[1], ("2025-01-26", "春节", false));
    assert_eq!(triples(&schema.days)[32], ("2025-10-11", "国庆节、中秋节", false));
    assert_eq!(schema.days.iter().filter(|d| d.is_off_day).count(), 28);
    let table = compiled_table(2025).unwrap();
    assert_eq!(table.year(), 2025);
    assert_eq!(triples(table.records()), triples(&schema.days));
}

#[test]
fn other_years_have_no_schedule() {
    for year in [i32::MIN, -2025, 0, 202, 1949, 1999, 2100, 20250, i32::MAX] {
        assert!(yearly_schema(year).is_none());
        assert!(compiled_table(year).is_none());
    }
}
