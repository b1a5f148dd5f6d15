use hrdf_parser::calendar::Date;
use hrdf_parser::error::{HrdfError, ParsingError};
use hrdf_parser::models::Language;
use hrdf_parser::parsing::direction_parser::{self as directions, parse_direction_row};
use hrdf_parser::parsing::holiday_parser::{self as holidays, parse_holiday_row};
use hrdf_parser::parsing::information_text_parser::{self as infotexts, parse_infotext_row};
use hrdf_parser::utils::AutoIncrement;
use rustc_hash::FxHashMap;

#[test]
fn direction_parser_row_parser_v207() {
    let input = "R000008 Winterthur";
    let (_, (prefix, id, name)) = parse_direction_row(input).unwrap();
    assert_eq!("R", prefix);
    assert_eq!(8, id);
    assert_eq!("Winterthur", name);

    let input = "R000192 Saas-Fee, Parkhaus";
    let (_, (prefix, id, name)) = parse_direction_row(input).unwrap();
    assert_eq!("R", prefix);
    assert_eq!(192, id);
    assert_eq!("Saas-Fee, Parkhaus", name);

    let input = "R002609 Hégenheim - Collège des Trois Pays";
    let (_, (prefix, id, name)) = parse_direction_row(input).unwrap();
    assert_eq!("R", prefix);
    assert_eq!(2609, id);
    assert_eq!("Hégenheim - Collège des Trois Pays", name);
}

#[test]
fn type_converter_v207() {
    let rows = vec![
        "R000008 Winterthur".to_string(),
        "R000192 Saas-Fee, Parkhaus".to_string(),
        "R002609 Hégenheim - Collège des Trois Pays".to_string(),
    ];
    let mut pk_type_converter = FxHashMap::default();
    let list = rows
        .into_iter()
        .filter(|line| !line.trim().is_empty())
        .map(|line| directions::parse_line(&line, &mut pk_type_converter))
        .collect::<Result<Vec<_>, ParsingError>>()
        .unwrap();
    let map: FxHashMap<i32, _> = list.into_iter().map(|d| (d.id, d)).collect();
    assert_eq!(*pk_type_converter.get("R8").unwrap(), 8);
    assert_eq!(*pk_type_converter.get("R192").unwrap(), 192);
    assert_eq!(*pk_type_converter.get("R2609").unwrap(), 2609);
    assert_eq!(map.get(&8).unwrap().name, "Winterthur");
    assert_eq!(map.get(&192).unwrap().name, "Saas-Fee, Parkhaus");
    assert_eq!(map.get(&2609).unwrap().name, "Hégenheim - Collège des Trois Pays");
}

#[test]
fn directions_file_gives_storage_and_keys() {
    let rows = vec!["R000008 Winterthur".to_string(), " ".to_string(), "R000192 Saas-Fee".to_string()];
    let (storage, keys) = directions::parse("RICHTUNG", &rows).unwrap();
    assert_eq!(storage.data().len(), 2);
    assert_eq!(keys.get("R192"), Some(&192));
    let bad = vec!["R000008 Winterthur".to_string(), "X000009 Basel".to_string()];
    match directions::parse("RICHTUNG", &bad) {
        Err(HrdfError::Parsing { line_number, line, .. }) => {
            assert_eq!(line_number, 1);
            assert_eq!(line, "X000009 Basel");
        }
        other => panic!("expected a parsing error, got {other:?}"),
    }
}

#[test]
fn infotext_row_parser1() {
    let input = "000001921 ch:1:sjyid:100001:3995-001";
    let (_, (id, infotext)) = parse_infotext_row(input).unwrap();
    assert_eq!(1921, id);
    assert_eq!("ch:1:sjyid:100001:3995-001", &infotext);
}

#[test]
fn infotext_row_parser2() {
    let input = "000003459 2518 ";
    let (_, (id, infotext)) = parse_infotext_row(input).unwrap();
    assert_eq!(3459, id);
    assert_eq!("2518", &infotext);
}

#[test]
fn parse_and_transform_infotext() {
    let input = "000001921 ch:1:sjyid:100001:3995-001";
    let mut infotext_map = FxHashMap::default();
    infotexts::parse_line(input, &mut infotext_map, "DE").unwrap();
    infotexts::parse_line(input, &mut infotext_map, "FR").unwrap();
    infotexts::parse_line(input, &mut infotext_map, "IT").unwrap();
    infotexts::parse_line(input, &mut infotext_map, "EN").unwrap();
    let info = infotext_map.get(&1921).unwrap();
    assert_eq!(info.id, 1921);
    let text = Some("ch:1:sjyid:100001:3995-001".to_string());
    assert_eq!(info.content.french, text);
    assert_eq!(info.content.italian, text);
    assert_eq!(info.content.german, text);
    assert_eq!(info.content.english, text);
}

#[test]
fn infotexts_merge_languages_and_refuse_unknown_ones() {
    let sources = vec![
        ("DE".to_string(), "INFOTEXT_DE".to_string(), vec!["000000001 Hallo".to_string()]),
        ("FR".to_string(), "INFOTEXT_FR".to_string(), vec!["000000001 Salut".to_string(), "000000002 Deux".to_string()]),
    ];
    let storage = infotexts::parse(&sources).unwrap();
    let one = storage.data().get(&1).unwrap();
    assert_eq!(one.content.get(Language::German), Some(&"Hallo".to_string()));
    assert_eq!(one.content.get(Language::French), Some(&"Salut".to_string()));
    assert_eq!(one.content.get(Language::English), None);
    assert_eq!(storage.data().len(), 2);

    let mut map = FxHashMap::default();
    assert!(matches!(
        infotexts::parse_line("000000001 Hallo", &mut map, "XX"),
        Err(ParsingError::UnknownLanguage(l)) if l == "XX"
    ));
    assert!(map.is_empty());
}

#[test]
fn holiday_parser_row_parser_v207() {
    let input = "25.12.2024 Weihnachtstag<deu>Noël<fra>Natale<ita>Christmas Day<eng>";
    let (_, (date, translations)) = parse_holiday_row(input).unwrap();
    assert_eq!("25.12.2024", &date);
    assert_eq!("Weihnachtstag<deu>Noël<fra>Natale<ita>Christmas Day<eng>", &translations);
}

#[test]
fn row_converter_v207() {
    let mut auto_increment = AutoIncrement::new();
    let input = "25.12.2024 Weihnachtstag<deu>Noël<fra>Natale<ita>Christmas Day<eng>";
    let (_, instance) = holidays::parse_line(input, &mut auto_increment).unwrap();
    assert_eq!(instance.id, 1);
    assert_eq!(instance.date, Date { year: 2024, month: 12, day: 25 });
    assert_eq!(instance.name.german, Some("Weihnachtstag".to_string()));
    assert_eq!(instance.name.english, Some("Christmas Day".to_string()));
    assert_eq!(instance.name.french, Some("Noël".to_string()));
    assert_eq!(instance.name.italian, Some("Natale".to_string()));
}

#[test]
fn holiday_names_and_dates_errors() {
    assert!(matches!(
        holidays::parse_name_translations("Neujahr"),
        Err(ParsingError::MissingValue)
    ));
    assert!(matches!(
        holidays::parse_name_translations("Neujahr<xx>"),
        Err(ParsingError::UnknownLanguage(l)) if l == "xx"
    ));
    let t = holidays::parse_name_translations(">>A<deu>B<deu>").unwrap();
    assert_eq!(t.german, Some("B".to_string()));
    let mut auto_increment = AutoIncrement::new();
    assert!(matches!(
        holidays::parse_line("31.02.2024 Nie<deu>", &mut auto_increment),
        Err(ParsingError::InvalidDate(d)) if d == "31.02.2024"
    ));
    let rows = vec!["01.01.2025 Neujahr<deu>".to_string(), "02.01.2025 Berchtoldstag<deu>".to_string()];
    let storage = holidays::parse("FEIERTAG", &rows).unwrap();
    assert_eq!(storage.data().get(&2).unwrap().date, Date { year: 2025, month: 1, day: 2 });
}
