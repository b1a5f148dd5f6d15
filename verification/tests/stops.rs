use hrdf_parser::error::{HrdfError, ParsingError};
use hrdf_parser::models::{CoordinateSystem, Stop};
use hrdf_parser::parsing::stop_parser::{
    description_combinator, parse, parse_file, parse_line, station_combinator, DescriptionLine, StopFile,
};
use rustc_hash::FxHashMap;

fn lines(v: &[&str]) -> Vec<String> {
    v.iter().map(|s| s.to_string()).collect()
}

#[test]
fn station_with_all_designations() {
    let (_, row) = station_combinator("8500010     Basel SBB$<1>$BS$<3>$Bale$<4>$Basilea FFS$<4>$Bâle CFF$<4>").unwrap();
    assert_eq!(row.stop_id, 8500010);
    assert_eq!(row.designation, "Basel SBB");
    assert_eq!(row.long_name, None);
    assert_eq!(row.abbreviation, Some("BS".to_string()));
    assert_eq!(
        row.synonyms,
        Some(vec!["Bale".to_string(), "Basilea FFS".to_string(), "Bâle CFF".to_string()])
    );
}

#[test]
fn station_with_long_name() {
    let (_, row) = station_combinator(
        "8501212     Chavannes-R., UNIL-Mouline$<1>$Chavannes-près-Renens, UNIL-Mouline$<2>$MOUI$<3>",
    )
    .unwrap();
    assert_eq!(row.designation, "Chavannes-R., UNIL-Mouline");
    assert_eq!(row.long_name, Some("Chavannes-près-Renens, UNIL-Mouline".to_string()));
    assert_eq!(row.abbreviation, Some("MOUI".to_string()));
    assert_eq!(row.synonyms, None);
}

#[test]
fn station_with_comment_after_name() {
    let (rest, row) = station_combinator("0000022     Basel$<1>        % Hilfs-Hs-Nr. 000022").unwrap();
    assert_eq!(row.stop_id, 22);
    assert_eq!(row.designation, "Basel");
    assert_eq!(rest, "        % Hilfs-Hs-Nr. 000022");
}

#[test]
fn station_needs_its_official_name_first() {
    assert!(station_combinator("8500010     Basel SBB$<2>").is_err());
    assert!(station_combinator("8500010     Basel SBB$<1>$X$<5>").is_err());
    assert!(station_combinator("8500010     Basel SBB").is_err());
    assert!(station_combinator("8500010Basel SBB$<1>").is_err());
}

#[test]
fn description_rows() {
    let (_, d) = description_combinator("0000132 B 3                     % Bahn-2000-Strecke").unwrap();
    assert!(matches!(d, DescriptionLine::Restriction { stop_id: 132, restrictions: 3 }));
    let (_, d) = description_combinator("8500010 G A ch:1:sloid:10       % HS-Nr. 8500010").unwrap();
    match d {
        DescriptionLine::Sloid { stop_id, sloid } => {
            assert_eq!(stop_id, 8500010);
            assert_eq!(sloid, "ch:1:sloid:10       % HS-Nr. 8500010");
        }
        _ => panic!("Expected Sloid variant"),
    }
    let (_, d) = description_combinator("8500010 G a ch:1:sloid:10:3:5").unwrap();
    assert!(matches!(d, DescriptionLine::Boarding { stop_id: 8500010, .. }));
    let (_, d) = description_combinator("8500010 L CH").unwrap();
    assert!(matches!(d, DescriptionLine::Country { stop_id: 8500010, .. }));
    let (_, d) = description_combinator("8500010 I KT 12").unwrap();
    assert!(matches!(d, DescriptionLine::Canton { stop_id: 8500010, canton_id: 12 }));
    let (_, d) = description_combinator("% Globale IDs").unwrap();
    assert!(matches!(d, DescriptionLine::Comment));
    assert!(description_combinator("8500010 X 1").is_err());
}

fn stops_with(names: &[&str]) -> FxHashMap<i32, Stop> {
    let mut stops = FxHashMap::default();
    let mut default = None;
    for line in names {
        parse_line(StopFile::Stations, line, &mut stops, &mut default).unwrap();
    }
    stops
}

#[test]
fn files_change_known_stops() {
    let mut stops = stops_with(&["8500010     Basel SBB$<1>"]);
    let mut default = None;
    let stop = stops.get(&8500010).unwrap();
    assert_eq!(stop.exchange_priority, 8);
    assert_eq!(stop.exchange_flag, 0);
    assert_eq!(stop.exchange_time, None);
    parse_line(StopFile::Priorities, "8500010  4 Basel SBB   % Prio", &mut stops, &mut default).unwrap();
    parse_line(StopFile::Flags, "8500010  5000 Basel SBB", &mut stops, &mut default).unwrap();
    parse_line(StopFile::ExchangeTimes, "8500010 05 03 Basel SBB", &mut stops, &mut default).unwrap();
    parse_line(StopFile::Coordinates(CoordinateSystem::LV95), "8500010    2611363    1266310   0", &mut stops, &mut default).unwrap();
    parse_line(StopFile::Coordinates(CoordinateSystem::WGS84), "8500010    7.589563   47.547412 0", &mut stops, &mut default).unwrap();
    parse_line(StopFile::Descriptions, "8500010 G A ch:1:sloid:10", &mut stops, &mut default).unwrap();
    parse_line(StopFile::Descriptions, "8500010 G a ch:1:sloid:10:3:5", &mut stops, &mut default).unwrap();
    parse_line(StopFile::Descriptions, "8500010 G a ch:1:sloid:10:3:6", &mut stops, &mut default).unwrap();
    parse_line(StopFile::Descriptions, "8500010 B 3", &mut stops, &mut default).unwrap();
    // A description of an unknown stop is ignored.
    parse_line(StopFile::Descriptions, "8500011 B 3", &mut stops, &mut default).unwrap();
    let stop = stops.get(&8500010).unwrap();
    assert_eq!(stop.exchange_priority, 4);
    assert_eq!(stop.exchange_flag, 5000);
    assert_eq!(stop.exchange_time, Some((5, 3)));
    assert_eq!(stop.lv95_coordinates.as_ref().unwrap().x, "2611363");
    assert_eq!(stop.wgs84_coordinates.as_ref().unwrap().x, "47.547412");
    assert_eq!(stop.wgs84_coordinates.as_ref().unwrap().y, "7.589563");
    assert_eq!(stop.sloid, "ch:1:sloid:10");
    assert_eq!(stop.boarding_areas, vec!["ch:1:sloid:10:3:5".to_string(), "ch:1:sloid:10:3:6".to_string()]);
    assert_eq!(stop.restrictions, 3);
    assert_eq!(stops.len(), 1);
    assert_eq!(default, None);
}

#[test]
fn unknown_stop_is_an_error() {
    let mut stops = stops_with(&["8500010     Basel SBB$<1>"]);
    let mut default = None;
    let e = parse_line(StopFile::Priorities, "8500011 4 X", &mut stops, &mut default).unwrap_err();
    assert!(matches!(e, ParsingError::UnknownStop(8500011)));
    assert_eq!(e.to_string(), "Unknown stop ID 8500011");
    assert!(parse_line(StopFile::Flags, "8500011 4", &mut stops, &mut default).is_err());
    assert!(parse_line(StopFile::ExchangeTimes, "8500011 02 02", &mut stops, &mut default).is_err());
    assert!(parse_line(StopFile::Coordinates(CoordinateSystem::LV95), "8500011 1 2 3", &mut stops, &mut default).is_err());
}

#[test]
fn first_default_exchange_time_wins() {
    let mut stops = stops_with(&["8500010     Basel SBB$<1>"]);
    let mut default = None;
    let file = lines(&["9999999 02 02 STANDARD", "8500010 05 05 Basel SBB", "9999999 07 07 STANDARD"]);
    parse_file(StopFile::ExchangeTimes, "UMSTEIGB", &file, &mut stops, &mut default).unwrap();
    assert_eq!(default, Some((2, 2)));
    assert_eq!(stops.get(&8500010).unwrap().exchange_time, Some((5, 5)));
}

fn sources(umsteigb: &[&str], bhfart: &[&str]) -> Vec<(String, Vec<String>)> {
    vec![
        ("BAHNHOF".to_string(), lines(&["8500010     Basel SBB$<1>$BS$<3>", "", "8500016     Basel St. Johann$<1>$BSSJ$<3>"])),
        ("BFKOORD_LV95".to_string(), lines(&["8500010    2611363    1266310   0      % HS-Nr. 8500010"])),
        ("BFKOORD_WGS".to_string(), lines(&["8500010    7.589563   47.547412 0      % HS-Nr. 8500010"])),
        ("BFPRIOS".to_string(), lines(&["8500010  4 Basel SBB                % HS-Nr. 8500010 Prio Erhöht  (4)"])),
        ("KMINFO".to_string(), lines(&["8500010  5000 Basel SBB                % HS-Nr. 8500009"])),
        ("UMSTEIGB".to_string(), lines(umsteigb)),
        ("BHFART_60".to_string(), lines(bhfart)),
    ]
}

#[test]
fn stops_are_read_from_seven_files() {
    let src = sources(&["9999999 02 02 STANDARD", "8500010 05 05 Basel SBB"], &["% Globale IDs", "8500016 G A ch:1:sloid:16"]);
    let (stops, default) = parse(&src).unwrap();
    assert_eq!(default, (2, 2));
    assert_eq!(stops.data().len(), 2);
    assert_eq!(stops.find(8500016).unwrap().sloid, "ch:1:sloid:16");
    assert_eq!(stops.find(8500010).unwrap().exchange_time, Some((5, 5)));
}

#[test]
fn stops_need_a_default_exchange_time() {
    let src = sources(&["8500010 05 05 Basel SBB"], &["8500016 X"]);
    assert!(matches!(parse(&src), Err(HrdfError::MissingDefaultExchangeTime)));
}

#[test]
fn stop_file_errors_name_file_and_line() {
    let src = sources(&["9999999 02 02 STANDARD"], &["% ok", "8500016 X"]);
    match parse(&src) {
        Err(HrdfError::Parsing { file, line, line_number, .. }) => {
            assert_eq!(file, "BHFART_60");
            assert_eq!(line, "8500016 X");
            assert_eq!(line_number, 1);
        }
        _ => panic!("expected a parsing error"),
    }
}
