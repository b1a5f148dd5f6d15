use hrdf_parser::error::{HrdfError, ParsingError};
use hrdf_parser::models::DirectionType;
use hrdf_parser::parsing::exchange_administration_parser::{
    self as administration, parse_exchange_administration_row,
};
use hrdf_parser::parsing::exchange_journey_parser::{self as journeys, parse_exchange_journey_row};
use hrdf_parser::parsing::exchange_line_parser::{self as lines, parse_exchange_line_row};
use hrdf_parser::utils::AutoIncrement;
use rustc_hash::{FxHashMap, FxHashSet};

#[test]
fn exchange_administration_parser_row_parser() {
    let line = "1111135 sbg034 sbg034 01 Waldshut, Busbahnhof";
    let (_, (stop_id, administration_1, administration_2, duration)) =
        parse_exchange_administration_row(line).unwrap();
    assert_eq!(Some(1111135), stop_id);
    assert_eq!("sbg034", &administration_1);
    assert_eq!("sbg034", &administration_2);
    assert_eq!(1, duration);
    let line = "8501008 085000 000011 10 Genève";
    let (_, (stop_id, administration_1, administration_2, duration)) =
        parse_exchange_administration_row(line).unwrap();
    assert_eq!(Some(8501008), stop_id);
    assert_eq!("085000", &administration_1);
    assert_eq!("000011", &administration_2);
    assert_eq!(10, duration);
    let line = "@@@@@@@ 000793 000873 02";
    let (_, (stop_id, administration_1, administration_2, duration)) =
        parse_exchange_administration_row(line).unwrap();
    assert_eq!(None, stop_id);
    assert_eq!("000793", &administration_1);
    assert_eq!("000873", &administration_2);
    assert_eq!(2, duration);
    let line = "8101236 81____ 007000 02 Feldkirch";
    let (_, (stop_id, administration_1, administration_2, duration)) =
        parse_exchange_administration_row(line).unwrap();
    assert_eq!(Some(8101236), stop_id);
    assert_eq!("81____", &administration_1);
    assert_eq!("007000", &administration_2);
    assert_eq!(2, duration);
}

#[test]
fn exchange_administration_parser_multiple_row_parsing() {
    let rows = vec![
        "1111135 sbg034 sbg034 01 Waldshut, Busbahnhof".to_string(),
        "8501008 085000 000011 10 Genève".to_string(),
        "@@@@@@@ 000793 000873 02".to_string(),
        "8101236 81____ 007000 02 Feldkirch".to_string(),
    ];
    let mut auto_increment = AutoIncrement::new();
    let exchanges = rows
        .into_iter()
        .filter(|line| !line.trim().is_empty())
        .map(|line| administration::parse_line(&line, &mut auto_increment))
        .collect::<Result<FxHashMap<_, _>, ParsingError>>()
        .unwrap();
    let e = exchanges.get(&1).unwrap();
    assert_eq!((e.id, e.stop_id, e.duration), (1, Some(1111135), 1));
    assert_eq!((e.administration_1.as_str(), e.administration_2.as_str()), ("sbg034", "sbg034"));
    let e = exchanges.get(&2).unwrap();
    assert_eq!((e.id, e.stop_id, e.duration), (2, Some(8501008), 10));
    assert_eq!((e.administration_1.as_str(), e.administration_2.as_str()), ("085000", "000011"));
    let e = exchanges.get(&3).unwrap();
    assert_eq!((e.id, e.stop_id, e.duration), (3, None, 2));
    assert_eq!((e.administration_1.as_str(), e.administration_2.as_str()), ("000793", "000873"));
    let e = exchanges.get(&4).unwrap();
    assert_eq!((e.id, e.stop_id, e.duration), (4, Some(8101236), 2));
    assert_eq!((e.administration_1.as_str(), e.administration_2.as_str()), ("81____", "007000"));
}

#[test]
fn exchange_administration_file_numbers_rows_and_names_bad_lines() {
    let rows = vec![
        "1111135 sbg034 sbg034 01 Waldshut".to_string(),
        "   ".to_string(),
        "@@@@@@@ 000793 000873 02".to_string(),
    ];
    let storage = administration::parse("UMSTEIGV", &rows).unwrap();
    assert_eq!(storage.data().len(), 2);
    assert_eq!(storage.data().get(&2).unwrap().stop_id, None);
    let bad = vec!["1111135 sbg034 sbg034 01".to_string(), "1111135 sbg034 sbg034 x1".to_string()];
    match administration::parse("UMSTEIGV", &bad) {
        Err(HrdfError::Parsing { line_number, .. }) => assert_eq!(line_number, 1),
        other => panic!("expected a parsing error, got {other:?}"),
    }
}

#[test]
fn exchange_journey_parser_row_parser() {
    let line = "8501008 023057 000011 001671 000011 002  000010 Genève";
    let (_res, (stop_id, journey_id_1, administration_1, journey_id_2, administration_2, duration, is_guaranteed, bit_field_id)) =
        parse_exchange_journey_row(line).unwrap();
    assert_eq!(8501008, stop_id);
    assert_eq!(23057, journey_id_1);
    assert_eq!("000011", &administration_1);
    assert_eq!(1671, journey_id_2);
    assert_eq!("000011", &administration_2);
    assert_eq!(2, duration);
    assert!(!is_guaranteed);
    assert_eq!(Some(10), bit_field_id);
    let line = "8501120 001929 000011 024256 000011 999         Lausanne";
    let (_res, (stop_id, journey_id_1, administration_1, journey_id_2, administration_2, duration, is_guaranteed, bit_field_id)) =
        parse_exchange_journey_row(line).unwrap();
    assert_eq!(8501120, stop_id);
    assert_eq!(1929, journey_id_1);
    assert_eq!("000011", &administration_1);
    assert_eq!(24256, journey_id_2);
    assert_eq!("000011", &administration_2);
    assert_eq!(999, duration);
    assert!(!is_guaranteed);
    assert_eq!(None, bit_field_id);
    let line = "8575489 000020 000801 000045 000801 004! 000019 Crana, Ponte Oscuro";
    let (_res, (stop_id, journey_id_1, administration_1, journey_id_2, administration_2, duration, is_guaranteed, bit_field_id)) =
        parse_exchange_journey_row(line).unwrap();
    assert_eq!(8575489, stop_id);
    assert_eq!(20, journey_id_1);
    assert_eq!("000801", &administration_1);
    assert_eq!(45, journey_id_2);
    assert_eq!("000801", &administration_2);
    assert_eq!(4, duration);
    assert!(is_guaranteed);
    assert_eq!(Some(19), bit_field_id);
}

#[test]
fn exchange_journey_parser_multiple_row_parsing() {
    let rows = vec![
        "8501008 023057 000011 001671 000011 002  000010 Genève".to_string(),
        "8501120 001929 000011 024256 000011 999         Lausanne".to_string(),
        "8575489 000020 000801 000045 000801 004! 000019 Crana, Ponte Oscuro".to_string(),
    ];
    let mut keys: FxHashSet<(i32, String)> = FxHashSet::default();
    keys.insert((23057, "000011".to_string()));
    keys.insert((1929, "000011".to_string()));
    keys.insert((1671, "000011".to_string()));
    keys.insert((24256, "000011".to_string()));
    keys.insert((20, "000801".to_string()));
    keys.insert((45, "000801".to_string()));

    let storage = journeys::parse("UMSTEIGZ", &rows, &keys).unwrap();
    let exchanges = storage.data();

    let e = exchanges.get(&1).unwrap();
    assert_eq!((e.id, e.stop_id, e.journey_legacy_id_1, e.journey_legacy_id_2), (1, 8501008, 23057, 1671));
    assert_eq!((e.administration_1.as_str(), e.administration_2.as_str()), ("000011", "000011"));
    assert_eq!((e.duration, e.is_guaranteed, e.bit_field_id), (2, false, Some(10)));
    let e = exchanges.get(&2).unwrap();
    assert_eq!((e.id, e.stop_id, e.journey_legacy_id_1, e.journey_legacy_id_2), (2, 8501120, 1929, 24256));
    assert_eq!((e.administration_1.as_str(), e.administration_2.as_str()), ("000011", "000011"));
    assert_eq!((e.duration, e.is_guaranteed, e.bit_field_id), (999, false, None));
    let e = exchanges.get(&3).unwrap();
    assert_eq!((e.id, e.stop_id, e.journey_legacy_id_1, e.journey_legacy_id_2), (3, 8575489, 20, 45));
    assert_eq!((e.administration_1.as_str(), e.administration_2.as_str()), ("000801", "000801"));
    assert_eq!((e.duration, e.is_guaranteed, e.bit_field_id), (4, true, Some(19)));

    let mut only_first = FxHashSet::default();
    only_first.insert((23057, "000011".to_string()));
    match journeys::parse("UMSTEIGZ", &rows, &only_first) {
        Err(HrdfError::Parsing { error: ParsingError::UnknownJourney(1671, a), line_number: 0, .. }) => {
            assert_eq!(a, "000011")
        }
        other => panic!("expected an unknown journey, got {other:?}"),
    }
}

#[test]
fn exchange_line_parser_row_parser() {
    let line = "8301113 000011 S   *        * 007000 B   *        * 003  Luino (I)";
    let (_res, (stop_id, a1, t1, l1, d1, a2, t2, l2, d2, duration, is_guaranteed)) =
        parse_exchange_line_row(line).unwrap();
    assert_eq!(Some(8301113), stop_id);
    assert_eq!("000011", &a1);
    assert_eq!("S", &t1);
    assert_eq!("*", &l1);
    assert_eq!("*", &d1);
    assert_eq!("007000", &a2);
    assert_eq!("B", &t2);
    assert_eq!("*", &l2);
    assert_eq!("*", &d2);
    assert_eq!(3, duration);
    assert!(!is_guaranteed);

    let line = "1111135 sbg034 B   7339     H sbg034 TX  7341     H 000! Waldshut, Busbahnhof";
    let (_res, (stop_id, a1, t1, l1, d1, a2, t2, l2, d2, duration, is_guaranteed)) =
        parse_exchange_line_row(line).unwrap();
    assert_eq!(Some(1111135), stop_id);
    assert_eq!("sbg034", &a1);
    assert_eq!("B", &t1);
    assert_eq!("7339", &l1);
    assert_eq!("H", &d1);
    assert_eq!("sbg034", &a2);
    assert_eq!("TX", &t2);
    assert_eq!("7341", &l2);
    assert_eq!("H", &d2);
    assert_eq!(0, duration);
    assert!(is_guaranteed);

    let line = "8509002 000011 RE  *        * 000065 S   12       * 008  Landquart";
    let (_res, (stop_id, a1, t1, l1, d1, a2, t2, l2, d2, duration, is_guaranteed)) =
        parse_exchange_line_row(line).unwrap();
    assert_eq!(Some(8509002), stop_id);
    assert_eq!("000011", &a1);
    assert_eq!("RE", &t1);
    assert_eq!("*", &l1);
    assert_eq!("*", &d1);
    assert_eq!("000065", &a2);
    assert_eq!("S", &t2);
    assert_eq!("12", &l2);
    assert_eq!("*", &d2);
    assert_eq!(8, duration);
    assert!(!is_guaranteed);

    let line = "8580522 003849 T   #0000482 * 003849 T   #0000488 * 003  Zürich, Escher-Wyss-Platz";
    let (_res, (stop_id, a1, t1, l1, d1, a2, t2, l2, d2, duration, is_guaranteed)) =
        parse_exchange_line_row(line).unwrap();
    assert_eq!(Some(8580522), stop_id);
    assert_eq!("003849", &a1);
    assert_eq!("T", &t1);
    assert_eq!("#0000482", &l1);
    assert_eq!("*", &d1);
    assert_eq!("003849", &a2);
    assert_eq!("T", &t2);
    assert_eq!("#0000488", &l2);
    assert_eq!("*", &d2);
    assert_eq!(3, duration);
    assert!(!is_guaranteed);
}

#[test]
fn multiline_parser() {
    let rows = vec![
        "8301113 000011 S   *        * 007000 B   *        * 003  Luino (I)".to_string(),
        "1111135 sbg034 B   7339     H sbg034 TX  7341     H 000! Waldshut, Busbahnhof".to_string(),
        "8509002 000011 RE  *        * 000065 S   12       * 008  Landquart".to_string(),
        "8580522 003849 T   #0000482 * 003849 T   #0000488 * 003  Zürich, Escher-Wyss-Platz".to_string(),
    ];
    let mut tt: FxHashMap<String, i32> = FxHashMap::default();
    tt.insert("S".to_string(), 1);
    tt.insert("B".to_string(), 2);
    tt.insert("TX".to_string(), 3);
    tt.insert("RE".to_string(), 4);
    tt.insert("T".to_string(), 5);
    let mut auto_increment = AutoIncrement::new();
    let exchanges = rows
        .into_iter()
        .filter(|line| !line.trim().is_empty())
        .map(|line| lines::parse_line(&line, &mut auto_increment, &tt))
        .collect::<Result<FxHashMap<_, _>, ParsingError>>()
        .unwrap();

    let e = exchanges.get(&1).unwrap();
    assert_eq!((e.id, e.stop_id, e.duration, e.is_guaranteed), (1, Some(8301113), 3, false));
    assert_eq!((e.line_1.administration.as_str(), e.line_1.transport_type_id), ("000011", 1));
    assert_eq!((e.line_1.line_id.clone(), e.line_1.direction), (None, None));
    assert_eq!((e.line_2.administration.as_str(), e.line_2.transport_type_id), ("007000", 2));
    assert_eq!((e.line_2.line_id.clone(), e.line_2.direction), (None, None));

    let e = exchanges.get(&2).unwrap();
    assert_eq!((e.id, e.stop_id, e.duration, e.is_guaranteed), (2, Some(1111135), 0, true));
    assert_eq!((e.line_1.administration.as_str(), e.line_1.transport_type_id), ("sbg034", 2));
    assert_eq!((e.line_1.line_id.clone(), e.line_1.direction), (Some("7339".to_string()), Some(DirectionType::Return)));
    assert_eq!((e.line_2.administration.as_str(), e.line_2.transport_type_id), ("sbg034", 3));
    assert_eq!((e.line_2.line_id.clone(), e.line_2.direction), (Some("7341".to_string()), Some(DirectionType::Return)));

    let e = exchanges.get(&3).unwrap();
    assert_eq!((e.id, e.stop_id, e.duration, e.is_guaranteed), (3, Some(8509002), 8, false));
    assert_eq!((e.line_1.administration.as_str(), e.line_1.transport_type_id), ("000011", 4));
    assert_eq!((e.line_1.line_id.clone(), e.line_1.direction), (None, None));
    assert_eq!((e.line_2.administration.as_str(), e.line_2.transport_type_id), ("000065", 1));
    assert_eq!((e.line_2.line_id.clone(), e.line_2.direction), (Some("12".to_string()), None));

    let e = exchanges.get(&4).unwrap();
    assert_eq!((e.id, e.stop_id, e.duration, e.is_guaranteed), (4, Some(8580522), 3, false));
    assert_eq!((e.line_1.administration.as_str(), e.line_1.transport_type_id), ("003849", 5));
    assert_eq!((e.line_1.line_id.clone(), e.line_1.direction), (Some("#0000482".to_string()), None));
    assert_eq!((e.line_2.administration.as_str(), e.line_2.transport_type_id), ("003849", 5));
    assert_eq!((e.line_2.line_id.clone(), e.line_2.direction), (Some("#0000488".to_string()), None));
}

#[test]
fn exchange_line_errors_name_the_unknown_part() {
    let mut tt: FxHashMap<String, i32> = FxHashMap::default();
    tt.insert("S".to_string(), 1);
    let mut auto_increment = AutoIncrement::new();
    let unknown_type = "8301113 000011 S   *        * 007000 B   *        * 003  Luino (I)";
    assert!(matches!(
        lines::parse_line(unknown_type, &mut auto_increment, &tt),
        Err(ParsingError::Unknown(t)) if t == "Unknown legacy ID for transport_type_id_2 {transport_type_id_2}"
    ));
    let unknown_direction = "8301113 000011 S   *        X 007000 S   *        * 003  Luino (I)";
    assert!(matches!(
        lines::parse_line(unknown_direction, &mut auto_increment, &tt),
        Err(ParsingError::UnknownDirection(d)) if d == "X"
    ));
    assert_eq!(auto_increment.get(), 0);
    assert!(matches!(DirectionType::from_str("R"), Ok(DirectionType::Outbound)));
}
