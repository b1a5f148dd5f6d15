use hrdf_parser::calendar::Date;
use hrdf_parser::error::{HrdfError, ParsingError};
use hrdf_parser::hrdf::{load_names, validity_year_start};
use hrdf_parser::parsing::exchange_journey_parser as exchange_journeys;
use hrdf_parser::parsing::journey_parser;
use hrdf_parser::parsing::line_parser;
use hrdf_parser::parsing::stop_connection_parser;
use hrdf_parser::parsing::stop_parser::{parse_line as stop_line, StopFile};
use hrdf_parser::parsing::timetable_metadata_parser;
use hrdf_parser::parsing::transport_type_parser;
use hrdf_parser::utils::AutoIncrement;
use rustc_hash::{FxHashMap, FxHashSet};

fn tables() -> FxHashMap<String, i32> {
    FxHashMap::default()
}

#[test]
fn journey_rows_without_a_journey_name_row_a() {
    let mut auto_increment = AutoIncrement::new();
    let mut data = FxHashMap::default();
    let mut keys = FxHashSet::default();
    let t = tables();
    let e = journey_parser::parse_line("*A VE 8500090 8503000 001417 %", &mut data, &mut keys, &mut auto_increment, &t, &t, &t)
        .unwrap_err();
    assert_eq!(e.to_string(), "Type A row missing.");
}

#[test]
fn journey_codes_that_are_unknown() {
    let t = tables();
    for row in [
        "*G IR  8507000 8509000                                     %",
        "*A FS 8507000 8509000                                      %",
    ] {
        let lines = vec!["*Z 000001 000011   101         %".to_string(), row.to_string()];
        match journey_parser::parse("FPLAN", &lines, &t, &t, &t) {
            Err(HrdfError::Parsing { error, line_number: 1, .. }) => {
                assert!(matches!(error, ParsingError::UnknownLegacyId));
                assert_eq!(error.to_string(), "Unknown legacy ID");
            }
            other => panic!("expected an unknown code, got {other:?}"),
        }
    }
}

#[test]
fn exchange_times_of_an_unknown_stop() {
    let mut stops = FxHashMap::default();
    let mut default = None;
    let e = stop_line(StopFile::ExchangeTimes, "8500011 05 05 X", &mut stops, &mut default).unwrap_err();
    assert_eq!(e.to_string(), "Unknown Stop ID 8500011");
    let e = stop_line(StopFile::Priorities, "8500011 4 X", &mut stops, &mut default).unwrap_err();
    assert_eq!(e.to_string(), "Unknown stop ID 8500011");
}

#[test]
fn exchange_journeys_of_an_unknown_journey() {
    let rows = vec!["8501008 023057 000011 001671 000011 002  000010 Genève".to_string()];
    match exchange_journeys::parse("UMSTEIGZ", &rows, &FxHashSet::default()) {
        Err(HrdfError::Parsing { error, .. }) => {
            assert_eq!(error.to_string(), "Unknown legacy ID for (23057, 000011)")
        }
        Ok(_) => panic!("expected an unknown journey"),
        Err(other) => panic!("expected a parsing error, got {other:?}"),
    }
}

#[test]
fn timetable_metadata_expects_dates_first() {
    let lines = vec!["Fahrplan 2026$22.09.2026".to_string()];
    match timetable_metadata_parser::parse("ECKDATEN", &lines) {
        Err(HrdfError::Parsing { error: ParsingError::Unknown(t), .. }) => {
            assert_eq!(t, "Expected a date (DD.MM.YYYY) for start_date, got \"Fahrplan 2026$22.09.2026\"")
        }
        other => panic!("expected a date error, got {other:?}"),
    }
}

#[test]
fn line_rows_before_their_k_row() {
    let mut data = FxHashMap::default();
    let e = line_parser::parse_line("0000002 N T x", &mut data).unwrap_err();
    assert_eq!(e.to_string(), "Type K row missing.");
}

#[test]
fn stop_connection_with_an_unknown_attribute() {
    let mut data = FxHashMap::default();
    let mut auto_increment = AutoIncrement::new();
    let e = stop_connection_parser::parse_line("*A Y", &mut data, &tables(), &mut auto_increment).unwrap_err();
    assert_eq!(e.to_string(), "Unknown legacy attribute ID: {s}");
}

#[test]
fn transport_type_category_before_any_type() {
    let lines = vec!["category001 Intercity".to_string()];
    match transport_type_parser::parse("ZUGART", &lines) {
        Err(HrdfError::Parsing { error, .. }) => {
            assert_eq!(error.to_string(), "Error: TransportType not found for id: 0")
        }
        other => panic!("expected a category error, got {other:?}"),
    }
}

#[test]
fn validity_years_start_on_january_first() {
    assert_eq!(validity_year_start(2026).unwrap(), Date::from_ymd_opt(2026, 1, 1).unwrap());
    assert!(matches!(validity_year_start(400_000), Err(HrdfError::InvalidYear)));
}

#[test]
fn load_names_come_from_the_digest() {
    let digest = "ba7816bf8f01cfea414140de5dae2223b00361a396177a9cb410ff61f20015ad";
    let n = load_names("abc", None);
    assert!(!n.is_url);
    assert_eq!(n.cache_dir, "./");
    assert_eq!(n.cache_file, format!("{digest}.cache"));
    assert_eq!(n.cache_part, format!("{digest}.cache.part"));
    assert_eq!(n.archive, "abc");
    assert_eq!(n.archive_part, format!("{digest}.zip.part"));
    assert_eq!(n.unpacked, digest);
    assert_eq!(n.unpacked_part, format!("{digest}.part"));
    let n = load_names("https://example.org/a.zip", Some("/tmp/c".to_string()));
    assert!(n.is_url);
    assert_eq!(n.cache_dir, "/tmp/c");
    assert!(n.archive.ends_with(".zip"));
    assert_eq!(n.archive.len(), 64 + 4);
}
