use hrdf_parser::models::{CoordinateSystem, JourneyPlatform, Platform};
use hrdf_parser::parsing::platform_parser::{
    coord_combinator, journey_platform_combinator, parse, parse_line, platform_combinator,
    section_combinator, sloid_combinator, PlatformLine,
};
use hrdf_parser::utils::AutoIncrement;
use rustc_hash::{FxHashMap, FxHashSet};

fn number(text: &str) -> f64 {
    text.parse::<f64>().unwrap()
}

#[test]
fn test_journey_platform_combinator_basic() {
    let input = "8500010 000003 000011 #0000001      053751";
    let result = journey_platform_combinator(input);
    assert!(result.is_ok());
    let (_, platform_line) = result.unwrap();
    match platform_line {
        PlatformLine::JourneyPlatform { stop_id, journey_id, administration, index, time, bit_field_id } => {
            assert_eq!(stop_id, 8500010);
            assert_eq!(journey_id, 3);
            assert_eq!(administration, "000011");
            assert_eq!(index, 1);
            assert_eq!(time, None);
            assert_eq!(bit_field_id, Some(53751));
        }
        _ => panic!("Expected JourneyPlatform variant"),
    }
}

#[test]
fn test_journey_platform_combinator_with_time() {
    let input = "8014331 005338 8006C5 #0000003 0025 049496";
    let result = journey_platform_combinator(input);
    assert!(result.is_ok());
    let (_, platform_line) = result.unwrap();
    match platform_line {
        PlatformLine::JourneyPlatform { stop_id, journey_id, administration, index, time, bit_field_id } => {
            assert_eq!(stop_id, 8014331);
            assert_eq!(journey_id, 5338);
            assert_eq!(administration, "8006C5");
            assert_eq!(index, 3);
            assert_eq!(time, Some(25));
            assert_eq!(bit_field_id, Some(49496));
        }
        _ => panic!("Expected JourneyPlatform variant"),
    }
}

#[test]
fn test_journey_platform_combinator_spaces_for_optional_fields() {
    let input = "8500010 000003 000011 #0000002      000000";
    let result = journey_platform_combinator(input);
    assert!(result.is_ok());
    let (_, platform_line) = result.unwrap();
    match platform_line {
        PlatformLine::JourneyPlatform { stop_id, journey_id, administration, index, time, bit_field_id } => {
            assert_eq!(stop_id, 8500010);
            assert_eq!(journey_id, 3);
            assert_eq!(administration, "000011");
            assert_eq!(index, 2);
            assert_eq!(time, None);
            // bitfield_id of 0 is valid (means journey operates every day)
            assert_eq!(bit_field_id, Some(0));
        }
        _ => panic!("Expected JourneyPlatform variant"),
    }
}

fn platform_fields(input: &str) -> (i32, i32, String, Option<String>) {
    let result = platform_combinator(input);
    assert!(result.is_ok());
    let (_, platform_line) = result.unwrap();
    match platform_line {
        PlatformLine::Platform { stop_id, index, platform_name, code } => (stop_id, index, platform_name, code),
        _ => panic!("Expected Platform variant"),
    }
}

#[test]
fn test_platform_combinator_basic() {
    let (stop_id, index, platform_name, code) = platform_fields("8500010 #0000004 G '9'");
    assert_eq!(stop_id, 8500010);
    assert_eq!(index, 4);
    assert_eq!(platform_name, "9");
    assert_eq!(code, None);
}

#[test]
fn test_platform_combinator_double_digit() {
    let (stop_id, index, platform_name, code) = platform_fields("8500010 #0000001 G '11'");
    assert_eq!(stop_id, 8500010);
    assert_eq!(index, 1);
    assert_eq!(platform_name, "11");
    assert_eq!(code, None);
}

#[test]
fn test_platform_combinator_with_section() {
    let (stop_id, index, platform_name, code) = platform_fields("8500207 #0000001 G '1' A 'AB'");
    assert_eq!(stop_id, 8500207);
    assert_eq!(index, 1);
    assert_eq!(platform_name, "1");
    assert_eq!(code, Some("AB".to_string()));
}

#[test]
fn test_platform_combinator_empty_name() {
    let (stop_id, index, platform_name, code) = platform_fields("8574200 #0000003 G ''");
    assert_eq!(stop_id, 8574200);
    assert_eq!(index, 3);
    assert_eq!(platform_name, "");
    assert_eq!(code, None);
}

#[test]
fn test_section_combinator() {
    let input = "8500207 #0000001 A 'AB'";
    let result = section_combinator(input);
    assert!(result.is_ok());
    let (_, platform_line) = result.unwrap();
    match platform_line {
        PlatformLine::Section { stop_id, index, section_data } => {
            assert_eq!(stop_id, 8500207);
            assert_eq!(index, 1);
            assert_eq!(section_data, "'AB'");
        }
        _ => panic!("Expected Section variant"),
    }
}

#[test]
fn test_sloid_combinator_lowercase() {
    let input = "8574200 #0000003 g A ch:1:sloid:74200:1:3";
    let result = sloid_combinator(input);
    assert!(result.is_ok());
    let (_, platform_line) = result.unwrap();
    match platform_line {
        PlatformLine::Sloid { stop_id, index, sloid } => {
            assert_eq!(stop_id, 8574200);
            assert_eq!(index, 3);
            assert_eq!(sloid, "ch:1:sloid:74200:1:3");
        }
        _ => panic!("Expected Sloid variant"),
    }
}

#[test]
fn test_sloid_combinator_uppercase() {
    let input = "8574200 #0000003 I A ch:1:sloid:74200:1:3";
    let result = sloid_combinator(input);
    assert!(result.is_ok());
    let (_, platform_line) = result.unwrap();
    match platform_line {
        PlatformLine::Sloid { stop_id, index, sloid } => {
            assert_eq!(stop_id, 8574200);
            assert_eq!(index, 3);
            assert_eq!(sloid, "ch:1:sloid:74200:1:3");
        }
        _ => panic!("Expected Sloid variant"),
    }
}

fn coord_fields(input: &str) -> (i32, i32, f64, f64, Option<f64>) {
    let result = coord_combinator(input);
    assert!(result.is_ok());
    let (_, platform_line) = result.unwrap();
    match platform_line {
        PlatformLine::Coord { stop_id, index, x, y, altitude } => {
            (stop_id, index, number(&x), number(&y), altitude.map(|a| number(&a)))
        }
        _ => panic!("Expected Coord variant"),
    }
}

#[test]
fn test_coord_combinator_with_altitude() {
    let (stop_id, index, x, y, altitude) = coord_fields("8574200 #0000003 k 2692827 1247287 680");
    assert_eq!(stop_id, 8574200);
    assert_eq!(index, 3);
    assert_eq!(x, 2692827.0);
    assert_eq!(y, 1247287.0);
    assert_eq!(altitude, Some(680.0));
}

#[test]
fn test_coord_combinator_without_altitude() {
    let (stop_id, index, x, y, altitude) = coord_fields("8574200 #0000003 k 2692827.5 1247287.2");
    assert_eq!(stop_id, 8574200);
    assert_eq!(index, 3);
    assert_eq!(x, 2692827.5);
    assert_eq!(y, 1247287.2);
    assert_eq!(altitude, None);
}

#[test]
fn test_coord_combinator_uppercase_k() {
    let (stop_id, index, x, y, altitude) = coord_fields("8574200 #0000003 K 2692827 1247287 680");
    assert_eq!(stop_id, 8574200);
    assert_eq!(index, 3);
    assert_eq!(x, 2692827.0);
    assert_eq!(y, 1247287.0);
    assert_eq!(altitude, Some(680.0));
}

struct Tables {
    platforms: FxHashMap<i32, Platform>,
    journey_platform: FxHashMap<(i32, i32), JourneyPlatform>,
    platforms_pk_type_converter: FxHashMap<(i32, i32), i32>,
    journeys_pk_type_converter: FxHashSet<(i32, String)>,
    auto_increment: AutoIncrement,
}

fn tables() -> Tables {
    Tables {
        platforms: FxHashMap::default(),
        journey_platform: FxHashMap::default(),
        platforms_pk_type_converter: FxHashMap::default(),
        journeys_pk_type_converter: FxHashSet::default(),
        auto_increment: AutoIncrement::new(),
    }
}

fn apply(t: &mut Tables, line: &str, cs: CoordinateSystem) -> Result<(), hrdf_parser::error::ParsingError> {
    parse_line(
        line,
        &mut t.platforms,
        &mut t.journey_platform,
        &mut t.platforms_pk_type_converter,
        &t.journeys_pk_type_converter,
        &mut t.auto_increment,
        cs,
    )
}

#[test]
fn test_parse_line_platform_creation() {
    let mut t = tables();
    apply(&mut t, "8500010 #0000001 G '11'", CoordinateSystem::LV95).unwrap();
    assert_eq!(t.platforms.len(), 1);
    assert_eq!(t.platforms_pk_type_converter.len(), 1);
    let platform = t.platforms.get(&1).unwrap();
    assert_eq!(platform.id, 1);
    assert_eq!(platform.name, "11");
    assert_eq!(platform.sectors, None);
    assert_eq!(platform.stop_id, 8500010);
    assert_eq!(platform.sloid, "");
    assert_eq!(platform.lv95_coordinates.coordinate_system, CoordinateSystem::LV95);
    assert_eq!(number(&platform.lv95_coordinates.x), 0.0);
    assert_eq!(number(&platform.lv95_coordinates.y), 0.0);
    assert_eq!(platform.wgs84_coordinates.coordinate_system, CoordinateSystem::LV95);
    assert_eq!(number(&platform.wgs84_coordinates.x), 0.0);
    assert_eq!(number(&platform.wgs84_coordinates.y), 0.0);
}

#[test]
#[should_panic]
fn test_parse_line_sloid_requires_existing_platform() {
    let mut t = tables();
    apply(&mut t, "8574200 #0000003 g A ch:1:sloid:74200:1:3", CoordinateSystem::LV95).unwrap();
}

#[test]
#[should_panic]
fn test_parse_line_coord_requires_existing_platform() {
    let mut t = tables();
    apply(&mut t, "8574200 #0000003 k 2692827 1247287 680", CoordinateSystem::LV95).unwrap();
}

#[test]
fn test_parse_line_complete_platform_sequence() {
    let mut t = tables();
    // Create platform
    apply(&mut t, "8574200 #0000003 G '5'", CoordinateSystem::LV95).unwrap();
    // Add SLOID
    apply(&mut t, "8574200 #0000003 g A ch:1:sloid:74200:1:3", CoordinateSystem::LV95).unwrap();
    // Add coordinates
    apply(&mut t, "8574200 #0000003 k 2692827 1247287 680", CoordinateSystem::LV95).unwrap();

    assert_eq!(t.platforms.len(), 1);
    let platform_id = *t.platforms_pk_type_converter.get(&(8574200, 3)).unwrap();
    assert_eq!(platform_id, 1);
    let platform = t.platforms.get(&platform_id).unwrap();
    assert_eq!(platform.id(), platform_id);
    assert_eq!(platform.name, "5");
    assert_eq!(platform.sectors, None);
    assert_eq!(platform.stop_id, 8574200);
    assert_eq!(platform.sloid, "ch:1:sloid:74200:1:3");
    let lv95 = &platform.lv95_coordinates;
    assert_eq!(lv95.coordinate_system, CoordinateSystem::LV95);
    assert_eq!(number(&lv95.x), 2692827.0);
    assert_eq!(number(&lv95.y), 1247287.0);
    let wgs84 = &platform.wgs84_coordinates;
    assert_eq!(wgs84.coordinate_system, CoordinateSystem::LV95);
    assert_eq!(number(&wgs84.x), 0.0);
    assert_eq!(number(&wgs84.y), 0.0);
}

#[test]
fn test_coordinate_system_wgs84_reverses_coordinates() {
    let mut t = tables();
    // Create platform
    apply(&mut t, "8500010 #0000001 G '1'", CoordinateSystem::WGS84).unwrap();
    // Add WGS84 coordinates (should be reversed)
    t.auto_increment = AutoIncrement::new();
    apply(&mut t, "8500010 #0000001 k 47.123 8.456", CoordinateSystem::WGS84).unwrap();
    let wgs84 = &t.platforms.get(&1).unwrap().wgs84_coordinates;
    assert_eq!(wgs84.x, "8.456");
    assert_eq!(wgs84.y, "47.123");
    let lv95 = &t.platforms.get(&1).unwrap().lv95_coordinates;
    assert_eq!(lv95.coordinate_system, CoordinateSystem::LV95);
    assert_eq!(number(&lv95.x), 0.0);
    assert_eq!(number(&lv95.y), 0.0);
}

#[test]
#[should_panic]
fn test_journey_platform_requires_valid_journey() {
    let mut t = tables();
    apply(&mut t, "8500010 000003 000011 #0000001      053751", CoordinateSystem::LV95).unwrap();
}

// ------------------------------------------------------------------------------------------

#[test]
fn journey_platform_is_kept_once_platforms_are_known() {
    let mut t = tables();
    t.journeys_pk_type_converter.insert((3, "000011".to_string()));
    // No platform is known yet: the row is checked and dropped.
    apply(&mut t, "8500010 000003 000011 #0000001      053751", CoordinateSystem::LV95).unwrap();
    assert!(t.journey_platform.is_empty());
    apply(&mut t, "8500010 #0000001 G '11'", CoordinateSystem::LV95).unwrap();
    apply(&mut t, "8500010 000003 000011 #0000001 1230 053751", CoordinateSystem::LV95).unwrap();
    let jp = t.journey_platform.get(&(3, 1)).unwrap();
    assert_eq!(jp.platform_id, 1);
    assert_eq!(jp.administration, "000011");
    assert_eq!(jp.time.unwrap().hour, 12);
    assert_eq!(jp.time.unwrap().minute, 30);
    assert_eq!(jp.bit_field_id, Some(53751));
    // An unknown (stop, index), once some platform is known.
    let e = apply(&mut t, "8500010 000003 000011 #0000002      053751", CoordinateSystem::LV95).unwrap_err();
    assert_eq!(e.to_string(), "Unknown id: Legacy Platform Id (stop_id, index): (8500010, 2)");
    // A time that is no time of day.
    assert!(apply(&mut t, "8500010 000003 000011 #0000001 2460 053751", CoordinateSystem::LV95).is_err());
}

#[test]
fn unknown_journey_is_named() {
    let mut t = tables();
    let e = apply(&mut t, "8500010 000003 000011 #0000001      053751", CoordinateSystem::LV95).unwrap_err();
    assert_eq!(e.to_string(), "Unknown id: Journey Legacy Id (journey_id, administration): (3, 000011)");
}

#[test]
fn platform_ids_count_every_platform_row() {
    let mut t = tables();
    apply(&mut t, "8500010 #0000001 G '1'", CoordinateSystem::LV95).unwrap();
    apply(&mut t, "8500010 #0000001 G '1'", CoordinateSystem::WGS84).unwrap();
    apply(&mut t, "8500010 #0000002 G '2'", CoordinateSystem::WGS84).unwrap();
    assert_eq!(t.platforms.len(), 2);
    assert_eq!(*t.platforms_pk_type_converter.get(&(8500010, 1)).unwrap(), 1);
    // The second row of (8500010, 1) used up id 2.
    assert_eq!(*t.platforms_pk_type_converter.get(&(8500010, 2)).unwrap(), 3);
    assert_eq!(t.auto_increment.get(), 3);
}

#[test]
fn coordinates_need_a_number_after_the_exponent_mark() {
    assert!(coord_combinator("8574200 #0000003 k 2692827 1247287 680e").is_err());
    let (_, _, _, _, altitude) = coord_fields("8574200 #0000003 k 2692827 1247287 x");
    assert_eq!(altitude, None);
    let (_, _, x, y, _) = coord_fields("8574200 #0000003 k2.5e3 -.5");
    assert_eq!(x, 2500.0);
    assert_eq!(y, -0.5);
    let (_, _, x, _, _) = coord_fields("8574200 #0000003 k NaN 1");
    assert!(x.is_nan());
    let (_, _, x, _, _) = coord_fields("8574200 #0000003 k inf 1");
    assert_eq!(x, f64::INFINITY);
}

#[test]
fn platform_files_are_read_in_turn() {
    let lv95 = vec![
        "8500010 #0000001 G '1' A 'AB'".to_string(),
        "".to_string(),
        "8500010 #0000001 k 2611363 1266310".to_string(),
    ];
    let wgs84 = vec!["8500010 #0000001 k 47.5 7.5".to_string()];
    let (journey_platform, platforms) = parse(&lv95, &wgs84, &FxHashSet::default()).unwrap();
    assert!(journey_platform.data().is_empty());
    let platform = platforms.find(1).unwrap();
    assert_eq!(platform.sectors, Some("AB".to_string()));
    assert_eq!(platform.lv95_coordinates.x, "2611363");
    assert_eq!(platform.wgs84_coordinates.x, "7.5");
    let bad = vec!["8500010 #0000009 g A ch:1".to_string()];
    assert!(parse(&lv95, &bad, &FxHashSet::default()).is_err());
}
