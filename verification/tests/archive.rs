use hrdf_parser::data_storage::{DataStorage, HrdfFiles, Source};
use hrdf_parser::error::{HrdfError, ParsingError};
use hrdf_parser::hrdf::{next_load_step, Hrdf, LoadEvent, LoadStep};
use hrdf_parser::hrdf::LoadStep::{BuildCache, Done, Download, Parse, ReadCache, Unzip};
use hrdf_parser::models::{Language, Version};

fn src(name: &str, lines: &[&str]) -> Source {
    (name.to_string(), lines.iter().map(|s| s.to_string()).collect())
}

fn files() -> HrdfFiles {
    let bits = format!("000001 {}", "F".repeat(96));
    HrdfFiles {
        bit_fields: src("BITFELD", &[bits.as_str()]),
        holidays: src("FEIERTAG", &[]),
        timetable_metadata: src("ECKDATEN", &[]),
        attributes: src("ATTRIBUT", &[]),
        directions: src("RICHTUNG", &[]),
        information_texts: vec![],
        lines: src("LINIE", &[]),
        transport_companies: vec![(Language::German, "BETRIEB_DE".to_string(), vec![])],
        transport_types: src("ZUGART", &[]),
        stop_connections: src("METABHF", &[]),
        stops: vec![
            src("BAHNHOF", &["8500010     Basel SBB$<1>"]),
            src("BFKOORD_LV95", &[]),
            src("BFKOORD_WGS", &[]),
            src("BFPRIOS", &[]),
            src("KMINFO", &[]),
            src("UMSTEIGB", &["9999999 02 02 STANDARD"]),
            src("BHFART_60", &[]),
        ],
        journeys: src("FPLAN", &["*Z 000001 000011   101         %", "0000175 Hauenstein-Basistunn -00833  02515               %"]),
        platforms_lv95: vec!["8500010 #0000001 G '7'".to_string(), "8500010 000001 000011 #0000001      000000".to_string()],
        platforms_wgs84: vec![],
        through_service: src("DURCHBI", &[]),
        exchange_times_administration: src("UMSTEIGV", &[]),
        exchange_times_journey: src("UMSTEIGZ", &[]),
        exchange_times_line: src("UMSTEIGL", &[]),
    }
}

#[test]
fn an_archive_is_read_file_after_file() {
    let hrdf = Hrdf::from_files(&files()).unwrap();
    let ds: &DataStorage = hrdf.data_storage();
    assert_eq!(ds.bit_fields.data().len(), 1);
    assert_eq!(ds.stops.data().len(), 1);
    assert_eq!(ds.default_exchange_time, (2, 2));
    assert_eq!(ds.journeys.data().len(), 1);
    assert_eq!(ds.platforms.data().len(), 1);
    let jp = ds.journey_platform.data().get(&(1, 1)).unwrap();
    assert_eq!(jp.administration, "000011");
    assert_eq!(jp.bit_field_id, Some(0));
}

#[test]
fn the_first_file_that_fails_gives_the_error() {
    let mut f = files();
    let bits = format!("000001 {}", "F".repeat(96));
    f.bit_fields = src("BITFELD", &[bits.as_str(), "0000X2 FF"]);
    f.stops[5] = src("UMSTEIGB", &[]);
    match DataStorage::new(&f) {
        Err(e @ HrdfError::Parsing { .. }) => {
            assert_eq!(
                e.to_string(),
                "File BITFELD, at line 1: 0000X2 FF. Parsing error: Syntax error"
            );
        }
        _ => panic!("expected a parsing error"),
    }
    f.bit_fields = src("BITFELD", &[]);
    let e = DataStorage::new(&f).unwrap_err();
    assert!(matches!(e, HrdfError::MissingDefaultExchangeTime));
    assert_eq!(e.to_string(), "Error default exchante time not defined");
}

#[test]
fn platform_errors_are_the_platform_files() {
    let mut f = files();
    f.platforms_wgs84 = vec!["8500010 #0000002 g A ch:1".to_string()];
    match DataStorage::new(&f) {
        Err(HrdfError::Platforms(ParsingError::UnknownId(t))) => {
            assert_eq!(t, "Legacy Platform Id (stop_id, index): (8500010, 2)");
        }
        _ => panic!("expected a platform error"),
    }
}

#[test]
fn versions_name_their_files() {
    assert_eq!(Version::V_5_40_41_2_0_7.platforms_prefix(), "GLEISE");
    assert_eq!(Version::V_5_40_41_2_0_6.platforms_prefix(), "GLEIS");
    assert_eq!(Version::V_5_40_41_2_0_7.stop_descriptions_file(), "BHFART");
    assert_eq!(Version::V_5_40_41_2_0_4.stop_descriptions_file(), "BHFART_60");
}

#[test]
fn error_texts() {
    let e = HrdfError::Parsing {
        error: ParsingError::UnknownStop(12),
        file: "KMINFO".to_string(),
        line: "12 3".to_string(),
        line_number: 4,
    };
    assert_eq!(e.to_string(), "File KMINFO, at line 4: 12 3. Parsing error: Unknown stop ID 12");
    let d = hrdf_parser::calendar::Date::from_ymd_opt(2024, 3, 5).unwrap();
    assert_eq!(HrdfError::OutOfRangeDate(d).to_string(), "Out of rage date: 2024-03-05");
    assert_eq!(HrdfError::FailedToAddDays(d, 1).to_string(), "Failed to add 1 days to 2024-03-05");
    assert_eq!(ParsingError::UnableToBuildTime(24, 5, 0).to_string(), "Unable to build time 24:5:0");
}

fn facts(cache_exists: bool, force: bool, is_url: bool, archive_exists: bool, unzipped_exists: bool) -> hrdf_parser::hrdf::LoadFacts {
    hrdf_parser::hrdf::LoadFacts {
        cache_exists,
        force_rebuild_cache: force,
        is_url,
        archive_exists,
        unzipped_exists,
    }
}

fn steps(f: hrdf_parser::hrdf::LoadFacts, cache_ok: bool) -> Vec<hrdf_parser::hrdf::LoadStep> {
    let mut out = Vec::new();
    let mut event = LoadEvent::Started;
    loop {
        let step = next_load_step(f, event);
        out.push(step);
        event = match step {
            LoadStep::ReadCache => LoadEvent::CacheRead { ok: cache_ok },
            LoadStep::Download => LoadEvent::Downloaded,
            LoadStep::Unzip => LoadEvent::Unzipped,
            LoadStep::Parse => LoadEvent::Parsed,
            LoadStep::BuildCache => LoadEvent::CacheBuilt,
            LoadStep::Done => break,
        };
    }
    out
}

#[test]
fn loading_steps() {
    assert_eq!(steps(facts(true, false, true, false, false), true), vec![ReadCache, Done]);
    assert_eq!(
        steps(facts(true, false, true, false, false), false),
        vec![ReadCache, Download, Unzip, Parse, BuildCache, Done]
    );
    assert_eq!(steps(facts(true, true, true, true, false), true), vec![Unzip, Parse, BuildCache, Done]);
    assert_eq!(steps(facts(false, false, false, false, true), true), vec![Parse, BuildCache, Done]);
    assert_eq!(steps(facts(false, false, true, false, true), true), vec![Download, Parse, BuildCache, Done]);
}
