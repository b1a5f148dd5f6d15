use hrdf_parser::error::ParsingError;
use hrdf_parser::models::Language;
use hrdf_parser::parsing::attribute_parser::{
    parse, parse_line, row_description_combinator, row_language_combinator,
    row_language_description_combinator, row_offer_combinator, AttributeLine,
};
use hrdf_parser::utils::AutoIncrement;
use rustc_hash::FxHashMap;

type PResult<T> = Result<T, ParsingError>;

fn row_language_description_parser(input: &str) -> PResult<(String, String)> {
    let (_, ld) = row_language_description_combinator(input).map_err(ParsingError::Syntax)?;

    match ld {
        AttributeLine::LanguageDescription {
            legacy_id,
            description,
        } => Ok((legacy_id, description)),
        _ => Err(ParsingError::Unknown("Not a LanguageDescription".into())),
    }
}

#[test]
fn language_description_row() {
    let input = "VR VELOS: Reservation obligatory";
    let (id, description) = row_language_description_parser(input).unwrap();
    assert_eq!("VR", id);
    assert_eq!("VELOS: Reservation obligatory", description);

    let input = "2  2nd class only";
    let (id, description) = row_language_description_parser(input).unwrap();
    assert_eq!("2", id);
    assert_eq!("2nd class only", description);
}

#[test]
fn language_description_long_row() {
    let input = "VR  VELOS: Reservation obligatory";
    let (id, description) = row_language_description_parser(input).unwrap();
    assert_eq!("VR", id);
    assert_eq!("VELOS: Reservation obligatory", description);

    let input = "2   2nd class only";
    let (id, description) = row_language_description_parser(input).unwrap();
    assert_eq!("2", id);
    assert_eq!("2nd class only", description);
}

fn row_description_parser(input: &str) -> PResult<String> {
    let (_, lang) = row_description_combinator(input).map_err(ParsingError::Syntax)?;

    match lang {
        AttributeLine::Description(s) => Ok(s),
        _ => Err(ParsingError::Unknown("Not a Description".into())),
    }
}

#[test]
fn description_row() {
    let input = "# WR WR WR";
    let description = row_description_parser(input).unwrap();
    assert_eq!("WR WR WR", description);
}

fn row_offer_parser(input: &str) -> PResult<(String, i16, i16, i16)> {
    let (_, line) = row_offer_combinator(input).map_err(ParsingError::Syntax)?;
    match line {
        AttributeLine::Offer {
            designation_id,
            stop_scope,
            priority,
            secondary_sorting_priority,
        } => Ok((
            designation_id,
            stop_scope,
            priority,
            secondary_sorting_priority,
        )),
        _ => Err(ParsingError::Unknown("Not an Offer".into())),
    }
}

#[test]
fn offer_row() {
    let input = "PR 0   4  5";
    let (id, journey_section, priority, sorting) = row_offer_parser(input).unwrap();
    assert_eq!("PR", id);
    assert_eq!(0, journey_section);
    assert_eq!(4, priority);
    assert_eq!(5, sorting);
}

fn row_language_parser(input: &str) -> PResult<String> {
    let (_, line) = row_language_combinator(input).map_err(ParsingError::Syntax)?;

    match line {
        AttributeLine::Language(language) => Ok(language),
        _ => Err(ParsingError::Unknown("Not a Language".into())),
    }
}

#[test]
fn language_row() {
    let input = "<text>";
    let language = row_language_parser(input).unwrap();
    assert_eq!("text", language);

    let input = "<fre>";
    let language = row_language_parser(input).unwrap();
    assert_eq!("fre", language);
}

#[test]
fn muti_line_parsing() {
    let rows = vec![
        "GK 0   4  5".to_string(),
        "# PG PG PG".to_string(),
        "<deu>".to_string(),
        "GK  Zollkontrolle möglich, mehr Zeit einrechnen".to_string(),
        "<fra>".to_string(),
        "GK  Contrôle douanier possible, prévoir davantage de temps".to_string(),
        "<ita>".to_string(),
        "GK  Possibile controllo doganale, prevedere più tempo".to_string(),
        "<eng>".to_string(),
        "GK  Possible customs check, please allow extra time".to_string(),
    ];

    let mut auto_increment = AutoIncrement::new();
    let mut data = FxHashMap::default();
    let mut pk_type_converter = FxHashMap::default();
    let mut current_language = Language::default();

    rows.into_iter()
        .filter(|line| !line.trim().is_empty())
        .try_for_each(|line| {
            parse_line(
                &line,
                &mut data,
                &mut pk_type_converter,
                &mut auto_increment,
                &mut current_language,
            )
        })
        .unwrap();

    assert_eq!(*pk_type_converter.get("GK").unwrap(), 1);
    let attribute = data.get(&1).unwrap();
    assert_eq!(attribute.id, 1);
    assert_eq!(attribute.designation, "GK");
    assert_eq!(attribute.stop_scope, 0);
    assert_eq!(attribute.main_sorting_priority, 4);
    assert_eq!(attribute.secondary_sorting_priority, 5);
    assert_eq!(attribute.description.german, Some("Zollkontrolle möglich, mehr Zeit einrechnen".to_string()));
    assert_eq!(attribute.description.english, Some("Possible customs check, please allow extra time".to_string()));
    assert_eq!(attribute.description.french, Some("Contrôle douanier possible, prévoir davantage de temps".to_string()));
    assert_eq!(attribute.description.italian, Some("Possibile controllo doganale, prevedere più tempo".to_string()));
}

#[test]
fn attribute_errors_and_file() {
    let lines = vec![
        "GK 0   4  5".to_string(),
        "<text>".to_string(),
        "GK  Zollkontrolle".to_string(),
        "<fra>".to_string(),
        "GK  Contrôle".to_string(),
    ];
    let (storage, keys) = parse("ATTRIBUT", &lines).unwrap();
    let gk = storage.data().get(&1).unwrap();
    assert_eq!(gk.description.german, Some("Zollkontrolle".to_string()));
    assert_eq!(gk.description.french, Some("Contrôle".to_string()));
    assert_eq!(keys.get("GK"), Some(&1));

    let unknown = vec!["XX  nothing".to_string()];
    match parse("ATTRIBUT", &unknown) {
        Err(hrdf_parser::error::HrdfError::Parsing { error: ParsingError::UnknownId(t), .. }) => {
            assert_eq!(t, "legacy_id : XX")
        }
        other => panic!("expected an unknown id, got {other:?}"),
    }
    let language = vec!["<fre>".to_string()];
    assert!(parse("ATTRIBUT", &language).is_err());
    let _ = Language::default();
}
