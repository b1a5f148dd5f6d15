use hrdf_parser::parsing::through_service_parser::{
    parse, parse_line, through_service_combinator, ThroughServiceLine,
};
use hrdf_parser::utils::AutoIncrement;
use rustc_hash::{FxHashMap, FxHashSet};

fn fields(input: &str) -> (i32, String, i32, i32, String, i32, i32) {
    let result = through_service_combinator(input);
    assert!(result.is_ok());
    let (_, ts_line) = result.unwrap();
    match ts_line {
        ThroughServiceLine::ThroughService {
            journey_1_id,
            journey_1_administration,
            journey_1_stop_id,
            journey_2_id,
            journey_2_administration,
            bit_field_id,
            journey_2_stop_id,
        } => (
            journey_1_id,
            journey_1_administration,
            journey_1_stop_id,
            journey_2_id,
            journey_2_administration,
            bit_field_id,
            journey_2_stop_id,
        ),
    }
}

#[test]
fn test_through_service_combinator_basic() {
    let (j1, a1, s1, j2, a2, bf, s2) = fields("000001 000871 8576671 024064 000871 000010 8576671");
    assert_eq!(j1, 1);
    assert_eq!(a1, "000871");
    assert_eq!(s1, 8576671);
    assert_eq!(j2, 24064);
    assert_eq!(a2, "000871");
    assert_eq!(bf, 10);
    assert_eq!(s2, 8576671);
}

#[test]
fn test_through_service_combinator_zero_bitfield() {
    let (j1, a1, s1, j2, a2, bf, s2) = fields("000002 000181 8530625 000003 000181 000000 8530625");
    assert_eq!(j1, 2);
    assert_eq!(a1, "000181");
    assert_eq!(s1, 8530625);
    assert_eq!(j2, 3);
    assert_eq!(a2, "000181");
    assert_eq!(bf, 0);
    assert_eq!(s2, 8530625);
}

#[test]
fn test_through_service_combinator_different_stops() {
    let (j1, _, _, j2, _, bf, _) = fields("000002 000194 8503674 000004 000194 000001 8503674");
    assert_eq!(j1, 2);
    assert_eq!(j2, 4);
    assert_eq!(bf, 1);
}

#[test]
fn test_through_service_combinator_large_bitfield() {
    let (j1, _, _, j2, _, bf, _) = fields("000001 000882 8581701 000041 000882 063787 8581701");
    assert_eq!(j1, 1);
    assert_eq!(j2, 41);
    assert_eq!(bf, 63787);
}

fn check(data: &FxHashMap<i32, hrdf_parser::models::ThroughService>, id: i32, j1: (i32, &str), s1: i32, j2: (i32, &str), s2: i32, bf: i32) {
    let ts = data.get(&id).unwrap();
    assert_eq!(ts.id, id);
    assert_eq!((ts.journey_1_id.0, ts.journey_1_id.1.as_str()), j1);
    assert_eq!(ts.journey_1_stop_id, s1);
    assert_eq!((ts.journey_2_id.0, ts.journey_2_id.1.as_str()), j2);
    assert_eq!(ts.journey_2_stop_id, s2);
    assert_eq!(ts.bit_field_id, bf);
}

#[test]
fn test_parse_line_creates_through_service() {
    let mut data = FxHashMap::default();
    let mut journeys = FxHashSet::default();
    journeys.insert((1, "000871".to_string()));
    journeys.insert((24064, "000871".to_string()));
    let mut auto_increment = AutoIncrement::new();
    parse_line("000001 000871 8576671 024064 000871 000010 8576671", &mut data, &journeys, &mut auto_increment).unwrap();
    assert_eq!(data.len(), 1);
    check(&data, 1, (1, "000871"), 8576671, (24064, "000871"), 8576671, 10);
}

#[test]
fn test_parse_line_missing_journey_logs_warning() {
    let mut data = FxHashMap::default();
    let journeys = FxHashSet::default();
    let mut auto_increment = AutoIncrement::new();
    parse_line("000001 000871 8576671 024064 000871 000010 8576671", &mut data, &journeys, &mut auto_increment).unwrap();
    assert_eq!(data.len(), 1);
    check(&data, 1, (1, "000871"), 8576671, (24064, "000871"), 8576671, 10);
}

#[test]
fn test_parse_line_multiple_through_services() {
    let mut data = FxHashMap::default();
    let mut journeys = FxHashSet::default();
    journeys.insert((1, "000871".to_string()));
    journeys.insert((24064, "000871".to_string()));
    journeys.insert((2, "000181".to_string()));
    journeys.insert((3, "000181".to_string()));
    let mut auto_increment = AutoIncrement::new();
    parse_line("000001 000871 8576671 024064 000871 000010 8576671", &mut data, &journeys, &mut auto_increment).unwrap();
    parse_line("000002 000181 8530625 000003 000181 000000 8530625", &mut data, &journeys, &mut auto_increment).unwrap();
    assert_eq!(data.len(), 2);
    check(&data, 1, (1, "000871"), 8576671, (24064, "000871"), 8576671, 10);
    check(&data, 2, (2, "000181"), 8530625, (3, "000181"), 8530625, 0);
}

#[test]
fn test_parse_line_matching_stops() {
    let mut data = FxHashMap::default();
    let journeys = FxHashSet::default();
    let mut auto_increment = AutoIncrement::new();
    parse_line("000002 000181 8530625 000003 000181 000000 8530625", &mut data, &journeys, &mut auto_increment).unwrap();
    let ts = data.get(&1).unwrap();
    assert_eq!(ts.journey_1_stop_id(), 8530625);
    assert_eq!(ts.journey_2_stop_id(), 8530625);
    check(&data, 1, (2, "000181"), 8530625, (3, "000181"), 8530625, 0);
}

#[test]
fn through_service_file_and_short_rows() {
    let journeys = FxHashSet::default();
    let rows = vec![
        "000001 000871 8576671 024064 000871 000010 8576671".to_string(),
        "".to_string(),
        "000002 000181 8530625 000003 000181 000000 8530625".to_string(),
    ];
    let storage = parse("DURCHBI", &rows, &journeys).unwrap();
    assert_eq!(storage.data().len(), 2);
    let short = vec!["000001 000871 8576671 024064".to_string()];
    assert!(parse("DURCHBI", &short, &journeys).is_err());
}

#[test]
fn blank_lines_change_nothing() {
    let keys: FxHashSet<(i32, String)> = FxHashSet::default();
    let with = vec![
        "000002 000181 8530625 000003 000181 000000 8530625".to_string(),
        "   ".to_string(),
        "".to_string(),
        "000004 000194 8503674 000004 000194 000001 8503674".to_string(),
    ];
    let without = vec![with[0].clone(), with[3].clone()];
    let a = parse("DURCHBI", &with, &keys).unwrap();
    let b = parse("DURCHBI", &without, &keys).unwrap();
    assert_eq!(a.data().len(), b.data().len());
    for id in [1, 2] {
        let (x, y) = (a.find(id).unwrap(), b.find(id).unwrap());
        assert_eq!(x.id(), y.id());
        assert_eq!(x.journey_1_stop_id(), y.journey_1_stop_id());
        assert_eq!(x.journey_2_stop_id(), y.journey_2_stop_id());
    }
}
