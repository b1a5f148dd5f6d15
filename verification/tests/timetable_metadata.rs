use hrdf_parser::calendar::Date;
use hrdf_parser::error::{HrdfError, ParsingError};
use hrdf_parser::models::TimetableMetadataEntry;
use hrdf_parser::parsing::timetable_metadata_parser::{
    date_combinator, info_combinator, key_at, parse, parse_line, InfoLines,
};
use hrdf_parser::utils::AutoIncrement;
use rustc_hash::FxHashMap;

type PResult<T> = Result<T, ParsingError>;

#[test]
fn test_date_combinator_valid() {
    let input = "11.12.2023";
    let result = date_combinator(input);
    assert!(result.is_ok());
    let (_, info_line) = result.unwrap();
    match info_line {
        InfoLines::Date(date) => {
            assert_eq!(date.day(), 11);
            assert_eq!(date.month(), 12);
            assert_eq!(date.year(), 2023);
        }
        _ => panic!("Expected Date variant"),
    }
}

#[test]
fn test_date_combinator_start_of_year() {
    let input = "1.1.2024";
    let result = date_combinator(input);
    assert!(result.is_ok());
    let (_, info_line) = result.unwrap();
    match info_line {
        InfoLines::Date(date) => {
            assert_eq!(date.day(), 1);
            assert_eq!(date.month(), 1);
            assert_eq!(date.year(), 2024);
        }
        _ => panic!("Expected Date variant"),
    }
}

#[test]
fn test_date_combinator_end_of_year() {
    let input = "31.12.2024";
    let result = date_combinator(input);
    assert!(result.is_ok());
    let (_, info_line) = result.unwrap();
    match info_line {
        InfoLines::Date(date) => {
            assert_eq!(date.day(), 31);
            assert_eq!(date.month(), 12);
            assert_eq!(date.year(), 2024);
        }
        _ => panic!("Expected Date variant"),
    }
}

#[test]
fn test_info_combinator_single_value() {
    let input = "Timetable 2024";
    let result = info_combinator(input);
    assert!(result.is_ok());
    let (_, info_line) = result.unwrap();
    match info_line {
        InfoLines::MetaData(metadata) => {
            assert_eq!(metadata.len(), 1);
            assert_eq!(metadata[0], "Timetable 2024");
        }
        _ => panic!("Expected MetaData variant"),
    }
}

#[test]
fn test_info_combinator_multiple_values() {
    let input = "Value1$Value2$Value3";
    let result = info_combinator(input);
    assert!(result.is_ok());
    let (_, info_line) = result.unwrap();
    match info_line {
        InfoLines::MetaData(metadata) => {
            assert_eq!(metadata.len(), 3);
            assert_eq!(metadata[0], "Value1");
            assert_eq!(metadata[1], "Value2");
            assert_eq!(metadata[2], "Value3");
        }
        _ => panic!("Expected MetaData variant"),
    }
}

#[test]
fn test_info_combinator_with_spaces() {
    let input = "SBB CFF FFS$OpenTransport";
    let result = info_combinator(input);
    assert!(result.is_ok());
    let (_, info_line) = result.unwrap();
    match info_line {
        InfoLines::MetaData(metadata) => {
            assert_eq!(metadata.len(), 2);
            assert_eq!(metadata[0], "SBB CFF FFS");
            assert_eq!(metadata[1], "OpenTransport");
        }
        _ => panic!("Expected MetaData variant"),
    }
}

#[test]
fn test_info_combinator_consecutive_delimiters() {
    let input = "Start$$End";
    let result = info_combinator(input);
    assert!(result.is_ok());
    let (_, info_line) = result.unwrap();
    match info_line {
        InfoLines::MetaData(metadata) => {
            // Parser behavior with consecutive delimiters
            assert!(!metadata.is_empty());
            assert_eq!(metadata[0], "Start");
        }
        _ => panic!("Expected MetaData variant"),
    }
}

#[test]
fn test_date_combinator_single_digit_day() {
    let input = "5.6.2024";
    let result = date_combinator(input);
    assert!(result.is_ok());
    let (_, info_line) = result.unwrap();
    match info_line {
        InfoLines::Date(date) => {
            assert_eq!(date.day(), 5);
            assert_eq!(date.month(), 6);
            assert_eq!(date.year(), 2024);
        }
        _ => panic!("Expected Date variant"),
    }
}

#[test]
fn test_date_combinator_leap_year() {
    let input = "29.2.2024";
    let result = date_combinator(input);
    assert!(result.is_ok());
    let (_, info_line) = result.unwrap();
    match info_line {
        InfoLines::Date(date) => {
            assert_eq!(date.day(), 29);
            assert_eq!(date.month(), 2);
            assert_eq!(date.year(), 2024);
        }
        _ => panic!("Expected Date variant"),
    }
}

#[test]
#[should_panic]
fn test_date_combinator_invalid_date() {
    let input = "32.13.2024"; // Invalid day and month
    date_combinator(input).unwrap();
}

#[test]
fn test_info_combinator_numeric_values() {
    let input = "5.40.41";
    let result = info_combinator(input);
    assert!(result.is_ok());
    let (_, info_line) = result.unwrap();
    match info_line {
        InfoLines::MetaData(metadata) => {
            assert_eq!(metadata.len(), 1);
            assert_eq!(metadata[0], "5.40.41");
        }
        _ => panic!("Expected MetaData variant"),
    }
}

const KEYS: [&str; 6] = [
    "start_date",
    "end_date",
    "name",
    "created_at",
    "version",
    "provider",
];

fn parse_lines(lines: &[&str]) -> PResult<FxHashMap<i32, TimetableMetadataEntry>> {
    let mut data = FxHashMap::default();
    let mut index = 0;
    let mut auto_increment = AutoIncrement::new();
    for line in lines {
        parse_line(line, &mut data, &KEYS, &mut index, &mut auto_increment)?;
    }
    Ok(data)
}

fn value_of(data: &FxHashMap<i32, TimetableMetadataEntry>, key: &str) -> String {
    data.values()
        .find(|entry| entry.key() == key)
        .unwrap_or_else(|| panic!("missing key {key}"))
        .value()
        .to_string()
}

#[test]
fn parse_lines_reads_a_real_eckdaten() {
    let data = parse_lines(&[
        "14.12.2025",
        "12.12.2026",
        "Fahrplan 2026$22.09.2026 21:49:55$5.40.41$INFO+",
    ])
    .unwrap();
    assert_eq!(data.len(), 6);
    assert_eq!(value_of(&data, "start_date"), "2025-12-14");
    assert_eq!(value_of(&data, "end_date"), "2026-12-12");
    assert_eq!(value_of(&data, "provider"), "INFO+");
}

#[test]
fn invalid_start_date_is_an_error_naming_the_value() {
    let err = parse_lines(&["31.02.2024"]).unwrap_err();
    let msg = err.to_string();
    assert!(msg.contains("start_date"), "unexpected message: {msg}");
    assert!(msg.contains("31.02.2024"), "unexpected message: {msg}");
}

#[test]
fn invalid_end_date_is_an_error_naming_the_value() {
    let err = parse_lines(&["14.12.2025", "not a date"]).unwrap_err();
    let msg = err.to_string();
    assert!(msg.contains("end_date"), "unexpected message: {msg}");
    assert!(msg.contains("not a date"), "unexpected message: {msg}");
}

#[test]
fn more_values_than_keys_is_an_error_not_a_panic() {
    let result = parse_lines(&[
        "14.12.2025",
        "12.12.2026",
        "name$created_at$version$provider",
        "extra",
    ]);
    let err = result.unwrap_err().to_string();
    assert!(err.contains("extra"), "unexpected message: {err}");
}


fn file_lines(content: &str) -> Vec<String> {
    content.lines().map(String::from).collect()
}

#[test]
fn parse_accepts_a_valid_file() {
    let lines = file_lines("14.12.2025\n12.12.2026\nFahrplan 2026$22.09.2026 21:49:55$5.40.41$INFO+\n");
    let data = parse("ECKDATEN", &lines).unwrap();
    assert_eq!(data.data().len(), 6);
}

#[test]
fn parse_accepts_windows_line_endings() {
    // The 2025 archive's ECKDATEN uses CRLF.
    let lines = file_lines("15.12.2024\r\n13.12.2025\r\nFahrplan 2025$05.12.2025 20:05:36$5.40.41$INFO+\r\n");
    let data = parse("ECKDATEN", &lines).unwrap();
    assert_eq!(data.data().len(), 6);
    let provider = data.data().values().find(|e| e.key() == "provider").unwrap();
    assert_eq!(provider.value(), "INFO+");
}

#[test]
fn parse_rejects_an_end_date_before_the_start_date() {
    let lines = file_lines("12.12.2026\n14.12.2025\nFahrplan 2026$22.09.2026 21:49:55$5.40.41$INFO+\n");
    let result = parse("ECKDATEN", &lines);
    assert!(matches!(result, Err(HrdfError::OutOfRangeDate(_))));
}

#[test]
fn key_at_names_the_extra_value() {
    assert_eq!(key_at(&KEYS, 2, "x").unwrap(), "name");
    assert!(matches!(
        key_at(&KEYS, 6, "x\ty"),
        Err(ParsingError::Unknown(v)) if v == "ECKDATEN has more than 6 values, unexpected value \"x\\ty\""
    ));
}

#[test]
fn eckdaten_dates_round_trip_and_short_numbers() {
    let data = parse_lines(&["1.2.2025", "03.04.2025"]).unwrap();
    assert_eq!(value_of(&data, "start_date"), "2025-02-01");
    assert_eq!(value_of(&data, "end_date"), "2025-04-03");
    assert_eq!(data.get(&1).unwrap().value_as_naive_date().unwrap(), Date { year: 2025, month: 2, day: 1 });
    // A bare number waits for the rest of a date: the line cannot be read.
    assert!(matches!(parse_lines(&["2025"]), Err(ParsingError::Syntax(_))));
}
