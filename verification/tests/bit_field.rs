use hrdf_parser::error::ParsingError;
use hrdf_parser::parsing::bit_field_parser::{
    convert_hex_number_to_bits, parse, parse_bitfield_row, parse_line,
};

const ALL_F: &str = "FFFFFFFFFFFFFFFFFFFFFFFFFFFFFFFFFFFFFFFFFFFFFFFFFFFFFFFFFFFFFFFFFFFFFFFFFFFFFFFFFFFFFFFFFFFF";

#[test]
fn successful_bitfield_row() {
    let input = "000017 FFFFFFFFFFFFFFFFFFFFFFFFFFFFFFFFFFFFFFFFFFFFFFFFFFFFFFFFFFFFFFFFFFFFFFFFFFFFFFFFFFFFFFFFFFFF0000";
    let (_, (id, hex_number)) = parse_bitfield_row(input).unwrap();
    assert_eq!(17, id);
    let mut expected = vec![1u8; 368];
    expected.extend(vec![0u8; 16]);
    assert_eq!(expected, hex_number);
}

#[test]
#[should_panic]
fn failed_bitfield_row_num_short() {
    let input = "00017 FFFFFFFFFFFFFFFFFFFFFFFFFFFFFFFFFFFFFFFFFFFFFFFFFFFFFFFFFFFFFFFFFFFFFFFFFFFFFFFFFFFFFFFFFFFF0000";
    let (_, (_, _)) = parse_bitfield_row(input).unwrap();
}

#[test]
#[should_panic]
fn failed_bitfield_row_num_long() {
    let input = "0900017 FFFFFFFFFFFFFFFFFFFFFFFFFFFFFFFFFFFFFFFFFFFFFFFFFFFFFFFFFFFFFFFFFFFFFFFFFFFFFFFFFFFFFFFFFFFF0000";
    let (_, (_, _)) = parse_bitfield_row(input).unwrap();
}

#[test]
#[should_panic]
fn failed_bitfield_row_num_invalid() {
    let input = "0C0017 FFFFFFFFFFFFFFFFFFFFFFFFFFFFFFFFFFFFFFFFFFFFFFFFFFFFFFFFFFFFFFFFFFFFFFFFFFFFFFFFFFFFFFFFFFFF0000";
    let (_, (_, _)) = parse_bitfield_row(input).unwrap();
}

#[test]
#[should_panic]
fn failed_bitfield_row_bitfield_short() {
    let input = "000017 FFFFFFFFFFFFFFFFFFFFFFFFFFFFFFFFFFFFFFFFFFFFFFFFFFFFFFFFFFFFFFFFFFFFFFFFFFFFFFFFFFFFFFFFFFF0000 ";
    let (_, (_, _)) = parse_bitfield_row(input).unwrap();
}

#[test]
#[should_panic]
fn failed_bitfield_row_bitfield_long() {
    let input = "000017 FAFFFFFFFFFFFFFFFFFFFFFFFFFFFFFFFFFFFFFFFFFFFFFFFFFFFFFFFFFFFFFFFFFFFFFFFFFFFFFFFFFFFFFFFFFFF0000";
    let (res, (_, _)) = parse_bitfield_row(input).unwrap();
    assert!(res.is_empty());
}

#[test]
#[should_panic]
fn failed_bitfield_row_bitfield_invalid() {
    let input = "000017 FbFFFFFFFFFFFFFFFFFFFFFFFFFFFFFFFFFFFFFFFFFFFFFFFFFFFFFFFFFFFFFFFFFFFFFFFFFFFFFFFFFFFFFFFFFF0000";
    let (_, (_, _)) = parse_bitfield_row(input).unwrap();
}

#[test]
#[should_panic]
fn failed_bitfield_row_bitfield_invalid_spacing1() {
    let input = "000017  FFFFFFFFFFFFFFFFFFFFFFFFFFFFFFFFFFFFFFFFFFFFFFFFFFFFFFFFFFFFFFFFFFFFFFFFFFFFFFFFFFFFFFFFFFF0000";
    let (_, (_, _)) = parse_bitfield_row(input).unwrap();
}

#[test]
#[should_panic]
fn failed_bitfield_row_bitfield_invalid_spacing2() {
    let input = "000017,FFFFFFFFFFFFFFFFFFFFFFFFFFFFFFFFFFFFFFFFFFFFFFFFFFFFFFFFFFFFFFFFFFFFFFFFFFFFFFFFFFFFFFFFFFF0000";
    let (_, (_, _)) = parse_bitfield_row(input).unwrap();
}

#[test]
#[should_panic]
fn failed_bitfield_row_bitfield_invalid_spacing3() {
    let input = "000017 ,FFFFFFFFFFFFFFFFFFFFFFFFFFFFFFFFFFFFFFFFFFFFFFFFFFFFFFFFFFFFFFFFFFFFFFFFFFFFFFFFFFFFFFFFFFF0000";
    let (_, (_, _)) = parse_bitfield_row(input).unwrap();
}

#[test]
fn hex_digits_become_four_bits_each() {
    assert_eq!(convert_hex_number_to_bits("A5").unwrap(), vec![1, 0, 1, 0, 0, 1, 0, 1]);
    assert_eq!(convert_hex_number_to_bits("0f").unwrap(), vec![0, 0, 0, 0, 1, 1, 1, 1]);
    assert!(matches!(
        convert_hex_number_to_bits("1G2").unwrap_err(),
        ParsingError::InvalidHexDigit('G')
    ));
}

#[test]
fn parse_line_and_file_keep_the_last_row_of_an_id() {
    let row = format!("000003 {ALL_F}0000");
    let (id, bf) = parse_line(&row).unwrap();
    assert_eq!(id, 3);
    assert_eq!(bf.id(), 3);
    assert_eq!(bf.bits().len(), 384);

    let lines = vec![
        format!("000003 {ALL_F}0000"),
        "   ".to_string(),
        format!("000004 0000{ALL_F}"),
        format!("000003 0000{ALL_F}"),
    ];
    let storage = parse("BITFELD", &lines).unwrap();
    assert_eq!(storage.data().len(), 2);
    assert_eq!(storage.data().get(&3).unwrap().bits()[0], 0);

    let bad = vec![format!("000003 {ALL_F}0000"), "000004 XYZ".to_string()];
    match parse("BITFELD", &bad).unwrap_err() {
        hrdf_parser::error::HrdfError::Parsing { line_number, file, .. } => {
            assert_eq!(line_number, 1);
            assert_eq!(file, "BITFELD");
        }
        _ => panic!("expected a parsing error"),
    }
}
