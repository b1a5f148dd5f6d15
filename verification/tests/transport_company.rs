use hrdf_parser::models::{Language, TransportCompany, Translations};
use hrdf_parser::parsing::transport_company_parser::{
    colon_combinator, kline_combinator, nline_combinator, parse, parse_transport_company_line,
    TransportCompanyLine,
};
use rustc_hash::FxHashMap;

/// The names of a set of translations, as (language, text) pairs.
fn names(t: &Translations) -> Vec<(&'static str, String)> {
    let mut v = Vec::new();
    if let Some(s) = &t.german { v.push(("German", s.clone())); }
    if let Some(s) = &t.english { v.push(("English", s.clone())); }
    if let Some(s) = &t.french { v.push(("French", s.clone())); }
    if let Some(s) = &t.italian { v.push(("Italian", s.clone())); }
    v
}

/// Compares a company with the expected values written as in the files' JSON
/// form: `{"id":..,"short_name":{..},"long_name":{..},"full_name":{..},"administrations":[..]}`.
fn check_company(company: &TransportCompany, reference: &str) {
    let reference: serde_json::Value = serde_json::from_str(reference).unwrap();
    assert_eq!(reference["id"].as_i64().unwrap(), company.id as i64);
    for (field, t) in [
        ("short_name", &company.short_name),
        ("long_name", &company.long_name),
        ("full_name", &company.full_name),
    ] {
        let expected = reference[field].as_object().unwrap();
        let got = names(t);
        assert_eq!(got.len(), expected.len(), "{field}");
        for (lang, text) in got {
            assert_eq!(expected[lang].as_str().unwrap(), text, "{field} {lang}");
        }
    }
    let admins: Vec<String> = reference["administrations"]
        .as_array()
        .unwrap()
        .iter()
        .map(|v| v.as_str().unwrap().to_string())
        .collect();
    assert_eq!(admins, company.administrations);
}

#[test]
fn test_kline_combinator_basic() {
    let input = r#"00379 K "SBB" L "SBB" V "Schweizerische Bundesbahnen SBB""#;
    let result = kline_combinator(input);
    assert!(result.is_ok());
    let (_, tc_line) = result.unwrap();
    match tc_line {
        TransportCompanyLine::Kline {
            id,
            short_name,
            long_name,
            full_name,
        } => {
            assert_eq!(id, 379);
            assert_eq!(short_name, "SBB");
            assert_eq!(long_name, "SBB");
            assert_eq!(full_name, "Schweizerische Bundesbahnen SBB");
        }
        _ => panic!("Expected Kline variant"),
    }
}

#[test]
fn test_kline_combinator_sob() {
    let input = r#"00380 K "SOB" L "SOB-bt" V "Schweizerische Südostbahn (bt)""#;
    let result = kline_combinator(input);
    assert!(result.is_ok());
    let (_, tc_line) = result.unwrap();
    match tc_line {
        TransportCompanyLine::Kline {
            id,
            short_name,
            long_name,
            full_name,
        } => {
            assert_eq!(id, 380);
            assert_eq!(short_name, "SOB");
            assert_eq!(long_name, "SOB-bt");
            assert_eq!(full_name, "Schweizerische Südostbahn (bt)");
        }
        _ => panic!("Expected Kline variant"),
    }
}

#[test]
fn test_kline_combinator_with_spaces_in_names() {
    let input = r#"00381 K "SOB" L "SOB-sob" V "Schweizerische Südostbahn (sob)""#;
    let result = kline_combinator(input);
    assert!(result.is_ok());
    let (_, tc_line) = result.unwrap();
    match tc_line {
        TransportCompanyLine::Kline {
            id,
            short_name,
            long_name,
            full_name,
        } => {
            assert_eq!(id, 381);
            assert_eq!(short_name, "SOB");
            assert_eq!(long_name, "SOB-sob");
            assert_eq!(full_name, "Schweizerische Südostbahn (sob)");
        }
        _ => panic!("Expected Kline variant"),
    }
}

#[test]
fn test_nline_combinator() {
    let input = r#"00379 N "ch:1:sboid:379""#;
    let result = nline_combinator(input);
    assert!(result.is_ok());
    let (_, tc_line) = result.unwrap();
    match tc_line {
        TransportCompanyLine::Nline { id, sboid } => {
            assert_eq!(id, 379);
            assert_eq!(sboid, "ch:1:sboid:379");
        }
        _ => panic!("Expected Nline variant"),
    }
}

#[test]
fn test_colon_combinator_single_admin() {
    let input = "00379 : 000011";
    let result = colon_combinator(input);
    assert!(result.is_ok());
    let (_, tc_line) = result.unwrap();
    match tc_line {
        TransportCompanyLine::ColonLine {
            id,
            administrations,
        } => {
            assert_eq!(id, 379);
            assert_eq!(administrations.len(), 1);
            assert_eq!(administrations[0], "000011");
        }
        _ => panic!("Expected ColonLine variant"),
    }
}

#[test]
fn test_colon_combinator_multiple_admins() {
    let input = "00380 : 000036 000082";
    let result = colon_combinator(input);
    assert!(result.is_ok());
    let (_, tc_line) = result.unwrap();
    match tc_line {
        TransportCompanyLine::ColonLine {
            id,
            administrations,
        } => {
            assert_eq!(id, 380);
            assert_eq!(administrations.len(), 2);
            assert_eq!(administrations[0], "000036");
            assert_eq!(administrations[1], "000082");
        }
        _ => panic!("Expected ColonLine variant"),
    }
}

#[test]
fn test_parse_transport_company_line_creates_new_company() {
    let mut companies = FxHashMap::default();
    parse_transport_company_line(
        r#"00379 K "SBB" L "SBB" V "Schweizerische Bundesbahnen SBB""#,
        &mut companies,
        Language::German,
    )
    .unwrap();
    assert_eq!(companies.len(), 1);
    let company = companies.get(&379).unwrap();
    check_company(company, r#"
        {
            "id":379,
            "short_name":{"German":"SBB"},
            "long_name":{"German":"SBB"},
            "full_name":{"German":"Schweizerische Bundesbahnen SBB"},
            "administrations":[]
        }"#);
}

#[test]
fn test_parse_transport_company_line_updates_existing() {
    let mut companies = FxHashMap::default();

    // Create company
    parse_transport_company_line(
        r#"00379 K "SBB" L "SBB" V "Schweizerische Bundesbahnen SBB""#,
        &mut companies,
        Language::German,
    )
    .unwrap();

    // Update with colon line
    parse_transport_company_line("00379 : 000011", &mut companies, Language::German).unwrap();

    assert_eq!(companies.len(), 1);
    let company = companies.get(&379).unwrap();
    check_company(company, r#"
        {
            "id":379,
            "short_name":{"German":"SBB"},
            "long_name":{"German":"SBB"},
            "full_name":{"German":"Schweizerische Bundesbahnen SBB"},
            "administrations":["000011"]
        }"#);
}

#[test]
fn test_parse_transport_company_line_multiple_languages() {
    let mut companies = FxHashMap::default();

    parse_transport_company_line(
        r#"00379 K "SBB" L "SBB" V "Schweizerische Bundesbahnen SBB""#,
        &mut companies,
        Language::German,
    )
    .unwrap();

    parse_transport_company_line(
        r#"00379 K "CFF" L "CFF" V "Chemins de fer fédéraux CFF""#,
        &mut companies,
        Language::French,
    )
    .unwrap();

    assert_eq!(companies.len(), 1);
    let company = companies.get(&379).unwrap();
    check_company(company, r#"
        {
            "id":379,
            "short_name":{"German":"SBB", "French":"CFF"},
            "long_name":{"German":"SBB", "French":"CFF"},
            "full_name":{"German":"Schweizerische Bundesbahnen SBB", "French":"Chemins de fer fédéraux CFF"},
            "administrations":[]
        }"#);
}

#[test]
fn test_colon_line_creates_company_if_not_exists() {
    let mut companies = FxHashMap::default();

    parse_transport_company_line("00379 : 000011", &mut companies, Language::German).unwrap();

    assert_eq!(companies.len(), 1);
    let company = companies.get(&379).unwrap();
    check_company(company, r#"
        {
            "id":379,
            "short_name":{},
            "long_name":{},
            "full_name":{},
            "administrations":["000011"]
        }"#);
}

#[test]
fn test_nline_parsing_ignores_sboid() {
    let mut companies = FxHashMap::default();
    companies.insert(379, TransportCompany::new(379));

    let result = parse_transport_company_line(
        r#"00379 N "ch:1:sboid:379""#,
        &mut companies,
        Language::German,
    );

    assert!(result.is_ok());
    // SBOID is currently not used
    let company = companies.get(&379).unwrap();
    check_company(company, r#"
        {
            "id":379,
            "short_name":{},
            "long_name":{},
            "full_name":{},
            "administrations":[]
        }"#);
}

#[test]
fn transport_company_files_in_four_languages() {
    let sources = vec![
        (Language::German, "BETRIEB_DE".to_string(), vec![r#"00379 K "SBB" L "SBB" V "Schweizerische Bundesbahnen SBB""#.to_string(), "00379 : 000011 000012".to_string()]),
        (Language::French, "BETRIEB_FR".to_string(), vec!["".to_string(), r#"00379 K "CFF" L "CFF" V "Chemins de fer fédéraux CFF""#.to_string()]),
    ];
    let storage = parse(&sources).unwrap();
    let company = storage.data().get(&379).unwrap();
    assert_eq!(company.short_name.french, Some("CFF".to_string()));
    assert_eq!(company.administrations, vec!["000011".to_string(), "000012".to_string()]);
    let bad = vec![(Language::German, "BETRIEB_DE".to_string(), vec!["00379 X".to_string()])];
    assert!(parse(&bad).is_err());
}
