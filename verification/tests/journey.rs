use hrdf_parser::calendar::Time;
use hrdf_parser::models::{JourneyMetadataType, JourneyRouteEntry};
use hrdf_parser::parsing::journey_parser::{
    parse, parse_line, row_a_combinator, row_a_ve_combinator, row_ci_co_combinator,
    row_g_combinator, row_i_combinator, row_journey_description_combinator, row_l_combinator,
    row_r_combinator, row_z_combinator, JourneyLines,
};
use hrdf_parser::utils::AutoIncrement;
use rustc_hash::{FxHashMap, FxHashSet};

fn t(hour: u32, minute: u32) -> Option<Time> {
    Some(Time { hour, minute })
}

#[test]
fn parsing_rows() {
    let rows = vec![
        "*Z 002359 000011   101                                     % -- 37649518273 --".to_string(),
        "*G IR  8507000 8509000                                     %".to_string(),
        "*A VE 8507000 8509000 348508                               %".to_string(),
        "*A FS 8507000 8509000                                      %".to_string(),
        "*I JY                        000001370                     %".to_string(),
        "*L 35       8507000 8509000                                %".to_string(),
        "*R H                                                       %".to_string(),
        "*CI 0002 8507000 8507000                                   %".to_string(),
        "8507000 Bern                         00638                 %".to_string(),
        "8508005 Burgdorf              00652  00653                 %".to_string(),
        "8508008 Herzogenbuchsee       00704  00705                 %".to_string(),
        "8509000 Chur                  00948                        %".to_string(),
    ];
    let mut auto_increment = AutoIncrement::new();
    let mut data = FxHashMap::default();
    let mut pk_type_converter = FxHashSet::default();
    let mut transport_types_pk_type_converter = FxHashMap::<String, i32>::default();
    transport_types_pk_type_converter.insert("IR".to_string(), 100);
    let mut attributes_pk_type_converter = FxHashMap::<String, i32>::default();
    attributes_pk_type_converter.insert("FS".to_string(), 100);
    let directions_pk_type_converter = FxHashMap::<String, i32>::default();

    for line in rows {
        parse_line(
            &line,
            &mut data,
            &mut pk_type_converter,
            &mut auto_increment,
            &transport_types_pk_type_converter,
            &attributes_pk_type_converter,
            &directions_pk_type_converter,
        )
        .unwrap();
    }

    let journey = data.get(&1).unwrap();
    assert_eq!(journey.id, 1);
    assert_eq!(journey.legacy_id, 2359);
    assert_eq!(journey.administration, "000011");
    assert!(pk_type_converter.contains(&(2359, "000011".to_string())));

    let entries = |t: JourneyMetadataType| {
        journey
            .metadata
            .iter()
            .filter(|(k, _)| *k == t)
            .map(|(_, e)| e.clone())
            .collect::<Vec<_>>()
    };

    let attribute = entries(JourneyMetadataType::Attribute);
    assert_eq!(attribute.len(), 1);
    assert_eq!(attribute[0].from_stop_id, Some(8507000));
    assert_eq!(attribute[0].until_stop_id, Some(8509000));
    assert_eq!(attribute[0].resource_id, Some(100));
    assert_eq!(attribute[0].bit_field_id, None);
    assert_eq!(attribute[0].departure_time, None);
    assert_eq!(attribute[0].arrival_time, None);
    assert_eq!(attribute[0].extra_field_1, None);
    assert_eq!(attribute[0].extra_field_2, None);

    let transport_type = entries(JourneyMetadataType::TransportType);
    assert_eq!(transport_type.len(), 1);
    assert_eq!(transport_type[0].from_stop_id, Some(8507000));
    assert_eq!(transport_type[0].until_stop_id, Some(8509000));
    assert_eq!(transport_type[0].resource_id, Some(100));
    assert_eq!(transport_type[0].bit_field_id, None);
    assert_eq!(transport_type[0].extra_field_1, None);

    let info = entries(JourneyMetadataType::InformationText);
    assert_eq!(info.len(), 1);
    assert_eq!(info[0].from_stop_id, None);
    assert_eq!(info[0].until_stop_id, None);
    assert_eq!(info[0].resource_id, Some(1370));
    assert_eq!(info[0].bit_field_id, None);
    assert_eq!(info[0].departure_time, None);
    assert_eq!(info[0].arrival_time, None);
    assert_eq!(info[0].extra_field_1, Some("JY".to_string()));
    assert_eq!(info[0].extra_field_2, None);

    let bit_field = entries(JourneyMetadataType::BitField);
    assert_eq!(bit_field.len(), 1);
    assert_eq!(bit_field[0].from_stop_id, Some(8507000));
    assert_eq!(bit_field[0].until_stop_id, Some(8509000));
    assert_eq!(bit_field[0].resource_id, None);
    assert_eq!(bit_field[0].bit_field_id, Some(348508));

    let boarding = entries(JourneyMetadataType::ExchangeTimeBoarding);
    assert_eq!(boarding.len(), 1);
    assert_eq!(boarding[0].from_stop_id, Some(8507000));
    assert_eq!(boarding[0].until_stop_id, Some(8507000));
    assert_eq!(boarding[0].resource_id, None);
    assert_eq!(boarding[0].extra_field_1, None);
    assert_eq!(boarding[0].extra_field_2, Some(2));

    let line = entries(JourneyMetadataType::Line);
    assert_eq!(line.len(), 1);
    assert_eq!(line[0].from_stop_id, Some(8507000));
    assert_eq!(line[0].until_stop_id, Some(8509000));
    assert_eq!(line[0].resource_id, None);
    assert_eq!(line[0].extra_field_1, Some("35".to_string()));

    let direction = entries(JourneyMetadataType::Direction);
    assert_eq!(direction.len(), 1);
    assert_eq!(direction[0].from_stop_id, None);
    assert_eq!(direction[0].until_stop_id, None);
    assert_eq!(direction[0].resource_id, None);
    assert_eq!(direction[0].extra_field_1, Some("H".to_string()));

    assert_eq!(
        journey.route,
        vec![
            JourneyRouteEntry { stop_id: 8507000, arrival_time: None, departure_time: t(6, 38) },
            JourneyRouteEntry { stop_id: 8508005, arrival_time: t(6, 52), departure_time: t(6, 53) },
            JourneyRouteEntry { stop_id: 8508008, arrival_time: t(7, 4), departure_time: t(7, 5) },
            JourneyRouteEntry { stop_id: 8509000, arrival_time: t(9, 48), departure_time: None },
        ]
    );
}

#[test]
fn journey_parser_success_no_options() {
    // Z row
    let input = "*Z 000003 000011   101         % Fahrtnummer 3, für TU 11 (SBB), mit Variante 101 (ignore)";
    let (res, row) = row_z_combinator(input).unwrap();
    match row {
        JourneyLines::Zline { journey_id, transport_company_id, transport_variant, num_cycles, cycle_dura_min } => {
            assert_eq!(3, journey_id);
            assert_eq!("000011", transport_company_id);
            assert_eq!(101, transport_variant);
            assert_eq!(None, num_cycles);
            assert_eq!(None, cycle_dura_min);
        }
        l => panic!("Zline expected but got {l:?}"),
    }
    assert_eq!(res.trim(), "% Fahrtnummer 3, für TU 11 (SBB), mit Variante 101 (ignore)");

    // G row
    let input = "*G ICE                 % Angebotskategorie ICE gilt ab HS-Nr. 8500090 bis HS-Nr. 8503000";
    let (res, row) = row_g_combinator(input).unwrap();
    match row {
        JourneyLines::Gline { offer, stop_from_id, stop_to_id } => {
            assert_eq!("ICE", offer);
            assert_eq!(None, stop_from_id);
            assert_eq!(None, stop_to_id);
        }
        l => panic!("Gline expected but got {l:?}"),
    }
    assert_eq!(res.trim(), "% Angebotskategorie ICE gilt ab HS-Nr. 8500090 bis HS-Nr. 8503000");

    // A VE row
    let input = "*A VE                        % Ab HS-Nr. 8500090 bis HS-Nr. 8503000, gelten die Gültigkeitstage 001417 (Bitfeld für bspw. alle Montage)";
    let (res, row) = row_a_ve_combinator(input).unwrap();
    match row {
        JourneyLines::AVEline { stop_from_id, stop_to_id, bit_field_id } => {
            assert_eq!(None, stop_from_id);
            assert_eq!(None, stop_to_id);
            assert_eq!(None, bit_field_id);
        }
        l => panic!("AVEline expected but got {l:?}"),
    }
    assert_eq!(
        res.trim(),
        "% Ab HS-Nr. 8500090 bis HS-Nr. 8503000, gelten die Gültigkeitstage 001417 (Bitfeld für bspw. alle Montage)"
    );
}

#[test]
fn journey_parser_success_with_options() {
    // Z row
    let input = "*Z 123456 000011   101 012 060 % Fahrtnummer 123456, für TU 11 (SBB), mit Variante 101 (ignore), 12 mal, alle 60 Minuten";
    let (res, row) = row_z_combinator(input).unwrap();
    match row {
        JourneyLines::Zline { journey_id, transport_company_id, transport_variant, num_cycles, cycle_dura_min } => {
            assert_eq!(123456, journey_id);
            assert_eq!("000011", transport_company_id);
            assert_eq!(101, transport_variant);
            assert_eq!(Some(12), num_cycles);
            assert_eq!(Some(60), cycle_dura_min);
        }
        l => panic!("Zline expected but got {l:?}"),
    }
    assert_eq!(
        res.trim(),
        "% Fahrtnummer 123456, für TU 11 (SBB), mit Variante 101 (ignore), 12 mal, alle 60 Minuten"
    );

    // G row
    let input = "*G ICE 8500090 8503000 % Angebotskategorie ICE gilt ab HS-Nr. 8500090 bis HS-Nr. 8503000";
    let (res, row) = row_g_combinator(input).unwrap();
    match row {
        JourneyLines::Gline { offer, stop_from_id, stop_to_id } => {
            assert_eq!("ICE", offer);
            assert_eq!(Some(8500090), stop_from_id);
            assert_eq!(Some(8503000), stop_to_id);
        }
        l => panic!("Gline expected but got {l:?}"),
    }
    assert_eq!(res.trim(), "% Angebotskategorie ICE gilt ab HS-Nr. 8500090 bis HS-Nr. 8503000");

    // A VE row
    let input = "*A VE 8500090 8503000 001417 % Ab HS-Nr. 8500090 bis HS-Nr. 8503000, gelten die Gültigkeitstage 001417 (Bitfeld für bspw. alle Montage)";
    let (res, row) = row_a_ve_combinator(input).unwrap();
    match row {
        JourneyLines::AVEline { stop_from_id, stop_to_id, bit_field_id } => {
            assert_eq!(Some(8500090), stop_from_id);
            assert_eq!(Some(8503000), stop_to_id);
            assert_eq!(Some(1417), bit_field_id);
        }
        l => panic!("AVEline expected but got {l:?}"),
    }
    assert_eq!(
        res.trim(),
        "% Ab HS-Nr. 8500090 bis HS-Nr. 8503000, gelten die Gültigkeitstage 001417 (Bitfeld für bspw. alle Montage)"
    );

    // A row
    let input = "*A WR 8500090 8503000 047873 % Attribut WR gilt ab HS-Nr. 8500090 bis HS-Nr. 8503000 mit den Gültigkeitstagen 047873";
    let (res, row) = row_a_combinator(input).unwrap();
    match row {
        JourneyLines::Aline { offer, stop_from_id, stop_to_id, reference } => {
            assert_eq!("WR", offer);
            assert_eq!(Some(8500090), stop_from_id);
            assert_eq!(Some(8503000), stop_to_id);
            assert_eq!(Some(47873), reference);
        }
        l => panic!("Aline expected but got {l:?}"),
    }
    assert_eq!(
        res.trim(),
        "% Attribut WR gilt ab HS-Nr. 8500090 bis HS-Nr. 8503000 mit den Gültigkeitstagen 047873"
    );

    // I row
    let input = "*I hi 8578157 8589334        000018037  01126  01159 % Hinweis auf Infotext (hi) ab HS-Nr. 8578157 bis HS-Nr. 8589334 mit Infotext 18037 Abfahrt 11:26 Ankunft 11:59";
    let (res, row) = row_i_combinator(input).unwrap();
    match row {
        JourneyLines::Iline { info_code, stop_from_id, stop_to_id, validity_ref, info_ref, departure_time, arrival_time } => {
            assert_eq!("hi", info_code);
            assert_eq!(Some(8578157), stop_from_id);
            assert_eq!(Some(8589334), stop_to_id);
            assert_eq!(None, validity_ref);
            assert_eq!(18037, info_ref);
            assert_eq!(Some(1126), departure_time);
            assert_eq!(Some(1159), arrival_time);
        }
        l => panic!("Iline expected but got {l:?}"),
    }
    assert_eq!(
        res.trim(),
        "% Hinweis auf Infotext (hi) ab HS-Nr. 8578157 bis HS-Nr. 8589334 mit Infotext 18037 Abfahrt 11:26 Ankunft 11:59"
    );

    // L row
    let input = "*L 8        8578157 8589334  01126  01159 % Linie 8 ab HS-Nr. 8578157 bis HS-Nr. 8589334 Abfahrt 11:26 Ankunft 11:59";
    let (res, row) = row_l_combinator(input).unwrap();
    match row {
        JourneyLines::Lline { line_info, stop_from_id, stop_to_id, departure_time, arrival_time } => {
            assert_eq!("8", line_info);
            assert_eq!(Some(8578157), stop_from_id);
            assert_eq!(Some(8589334), stop_to_id);
            assert_eq!(Some(1126), departure_time);
            assert_eq!(Some(1159), arrival_time);
        }
        l => panic!("Lline expected but got {l:?}"),
    }
    assert_eq!(
        "% Linie 8 ab HS-Nr. 8578157 bis HS-Nr. 8589334 Abfahrt 11:26 Ankunft 11:59",
        res.trim()
    );

    // R row
    let input = "*R R R000063 1300146 8574808             % gilt für Rück-Richtung 63 ab HS-Nr. 1300146 bis HS-Nr. 8574808";
    let (res, row) = row_r_combinator(input).unwrap();
    match row {
        JourneyLines::Rline { direction, ref_direction_code, stop_from_id, stop_to_id, departure_time, arrival_time } => {
            assert_eq!("R", direction);
            assert_eq!("R63", ref_direction_code);
            assert_eq!(Some(1300146), stop_from_id);
            assert_eq!(Some(8574808), stop_to_id);
            assert_eq!(None, departure_time);
            assert_eq!(None, arrival_time);
        }
        l => panic!("Rline expected but got {l:?}"),
    }
    assert_eq!("% gilt für Rück-Richtung 63 ab HS-Nr. 1300146 bis HS-Nr. 8574808", res.trim());
}

#[test]
fn success_with_partial_options1() {
    let input = "*A R  8500090 8503000        % Attribut R gilt ab HS-Nr. 8500090 bis HS-Nr. 8503000";
    let (res, row) = row_a_combinator(input).unwrap();
    match row {
        JourneyLines::Aline { offer, stop_from_id, stop_to_id, reference } => {
            assert_eq!("R", offer);
            assert_eq!(Some(8500090), stop_from_id);
            assert_eq!(Some(8503000), stop_to_id);
            assert_eq!(None, reference);
        }
        l => panic!("Aline expected but got {l:?}"),
    }
    assert_eq!(res.trim(), "% Attribut R gilt ab HS-Nr. 8500090 bis HS-Nr. 8503000");
}

#[test]
fn success_partial_options() {
    let input = "*A VR 8500090 8503000        % Attribut VR gilt ab HS-Nr. 8500090 bis HS-Nr. 8503000";
    let (res, row) = row_a_combinator(input).unwrap();
    match row {
        JourneyLines::Aline { offer, stop_from_id, stop_to_id, reference } => {
            assert_eq!("VR", offer);
            assert_eq!(Some(8500090), stop_from_id);
            assert_eq!(Some(8503000), stop_to_id);
            assert_eq!(None, reference);
        }
        l => panic!("Aline expected but got {l:?}"),
    }
    assert_eq!(res.trim(), "% Attribut VR gilt ab HS-Nr. 8500090 bis HS-Nr. 8503000");
}

#[test]
fn journey_parser_success_with_partial_options() {
    // I row
    let input = "*I hi 8573602 8587744        000018040             % Hinweis auf Infotext (hi) ab HS-Nr. 8573602 bis HS-Nr. 8587744  mit Infotext 18040";
    let (res, row) = row_i_combinator(input).unwrap();
    match row {
        JourneyLines::Iline { info_code, stop_from_id, stop_to_id, validity_ref, info_ref, departure_time, arrival_time } => {
            assert_eq!("hi", info_code);
            assert_eq!(Some(8573602), stop_from_id);
            assert_eq!(Some(8587744), stop_to_id);
            assert_eq!(None, validity_ref);
            assert_eq!(18040, info_ref);
            assert_eq!(None, departure_time);
            assert_eq!(None, arrival_time);
        }
        l => panic!("Iline expected but got {l:?}"),
    }
    assert_eq!(
        res.trim(),
        "% Hinweis auf Infotext (hi) ab HS-Nr. 8573602 bis HS-Nr. 8587744  mit Infotext 18040"
    );

    // L row
    let input = "*L #0000022 8589601 8589913             % Referenz auf Linie No. 22 ab HS-Nr. 8589601 bis HS-Nr. 8589913";
    let (res, row) = row_l_combinator(input).unwrap();
    match row {
        JourneyLines::Lline { line_info, stop_from_id, stop_to_id, departure_time, arrival_time } => {
            assert_eq!("#0000022", line_info);
            assert_eq!(Some(8589601), stop_from_id);
            assert_eq!(Some(8589913), stop_to_id);
            assert_eq!(None, departure_time);
            assert_eq!(None, arrival_time);
        }
        l => panic!("Lline expected but got {l:?}"),
    }
    assert_eq!("% Referenz auf Linie No. 22 ab HS-Nr. 8589601 bis HS-Nr. 8589913", res.trim());

    // R row
    let input = "*R H                                     % gilt für die gesamte Hin-Richtung";
    let (res, row) = row_r_combinator(input).unwrap();
    match row {
        JourneyLines::Rline { direction, ref_direction_code, stop_from_id, stop_to_id, departure_time, arrival_time } => {
            assert_eq!("H", direction);
            assert_eq!("", ref_direction_code);
            assert_eq!(None, stop_from_id);
            assert_eq!(None, stop_to_id);
            assert_eq!(None, departure_time);
            assert_eq!(None, arrival_time);
        }
        l => panic!("Rline expected but got {l:?}"),
    }
    assert_eq!("% gilt für die gesamte Hin-Richtung", res.trim());

    // CO row
    let input = "*CO 0002 8507000 8507000                                   % Check-out 2 Min. ab HS-Nr. 8507000 bis HS-Nr. 8507000";
    let (res, row) = row_ci_co_combinator(input).unwrap();
    match row {
        JourneyLines::CoLine { num_minutes, stop_from_id, stop_to_id, departure_time, arrival_time } => {
            assert_eq!(2, num_minutes);
            assert_eq!(Some(8507000), stop_from_id);
            assert_eq!(Some(8507000), stop_to_id);
            assert_eq!(None, departure_time);
            assert_eq!(None, arrival_time);
        }
        l => panic!("CoLine expected but got {l:?}"),
    }
    assert_eq!("% Check-out 2 Min. ab HS-Nr. 8507000 bis HS-Nr. 8507000", res.trim());
}

#[test]
fn success_with_partial_options61() {
    let input = "*L 61       8500010 8507492                                %";
    let (res, row) = row_l_combinator(input).unwrap();
    match row {
        JourneyLines::Lline { line_info, stop_from_id, stop_to_id, departure_time, arrival_time } => {
            assert_eq!("61", line_info);
            assert_eq!(Some(8500010), stop_from_id);
            assert_eq!(Some(8507492), stop_to_id);
            assert_eq!(None, departure_time);
            assert_eq!(None, arrival_time);
        }
        l => panic!("Lline expected but got {l:?}"),
    }
    assert_eq!("%", res.trim());
}

#[test]
fn success_ci_options() {
    let input = "*CI 0002 8507000 8507000                                   % Check-in 2 Min. ab HS-Nr. 8507000 bis HS-Nr. 8507000";
    let (res, row) = row_ci_co_combinator(input).unwrap();
    match row {
        JourneyLines::CiLine { num_minutes, stop_from_id, stop_to_id, departure_time, arrival_time } => {
            assert_eq!(2, num_minutes);
            assert_eq!(Some(8507000), stop_from_id);
            assert_eq!(Some(8507000), stop_to_id);
            assert_eq!(None, departure_time);
            assert_eq!(None, arrival_time);
        }
        l => panic!("CiLine expected but got {l:?}"),
    }
    assert_eq!("% Check-in 2 Min. ab HS-Nr. 8507000 bis HS-Nr. 8507000", res.trim());
}

fn description(input: &str) -> (String, (i32, String, Option<i32>, Option<i32>, Option<i32>, String)) {
    let (res, row) = row_journey_description_combinator(input).unwrap();
    match row {
        JourneyLines::JourneyLine { stop_id, stop_name, arrival_time, departure_time, journey_id, administration } => {
            (res, (stop_id, stop_name, arrival_time, departure_time, journey_id, administration))
        }
        l => panic!("JourneyLine expected but got {l:?}"),
    }
}

#[test]
fn success_journey_options1() {
    let input = "0053301 S Wannsee DB                02014                % HS-Nr. 0053301 Ankunft N/A,   Abfahrt 20:14";
    let (res, (stop_id, stop_name, arrival_time, departure_time, journey_id, administration)) = description(input);
    assert_eq!(53301, stop_id);
    assert_eq!("S Wannsee DB", stop_name);
    assert_eq!(None, arrival_time);
    assert_eq!(Some(2014), departure_time);
    assert_eq!(None, journey_id);
    assert_eq!("", administration);
    assert_eq!("% HS-Nr. 0053301 Ankunft N/A,   Abfahrt 20:14", res.trim());
}

#[test]
fn success_journey_options2() {
    let input = "0053202 Am Kl. Wannsee/Am Gr  02016  02016               %";
    let (res, (stop_id, stop_name, arrival_time, departure_time, journey_id, administration)) = description(input);
    assert_eq!(53202, stop_id);
    assert_eq!("Am Kl. Wannsee/Am Gr", stop_name);
    assert_eq!(Some(2016), arrival_time);
    assert_eq!(Some(2016), departure_time);
    assert_eq!(None, journey_id);
    assert_eq!("", administration);
    assert_eq!("%", res.trim());
}

#[test]
fn success_journey_all_options() {
    let input = "0053291 Wannseebrücke         02015  02015 052344 80____ % HS-Nr. 0053291 Ankunft 20:15, Abfahrt 20:15, Fahrtnummer 052344, Verwaltung 80____ (DB)";
    let (res, (stop_id, stop_name, arrival_time, departure_time, journey_id, administration)) = description(input);
    assert_eq!(53291, stop_id);
    assert_eq!("Wannseebrücke", stop_name);
    assert_eq!(Some(2015), arrival_time);
    assert_eq!(Some(2015), departure_time);
    assert_eq!(Some(52344), journey_id);
    assert_eq!("80____", administration);
    assert_eq!(
        "% HS-Nr. 0053291 Ankunft 20:15, Abfahrt 20:15, Fahrtnummer 052344, Verwaltung 80____ (DB)",
        res.trim()
    );
}

#[test]
fn success_journey_negative_time() {
    let input = "0000175 Hauenstein-Basistunn -00833 -00833                 %";
    let (res, (stop_id, stop_name, arrival_time, departure_time, journey_id, administration)) = description(input);
    assert_eq!(175, stop_id);
    assert_eq!("Hauenstein-Basistunn", stop_name);
    assert_eq!(Some(-833), arrival_time);
    assert_eq!(Some(-833), departure_time);
    assert_eq!(None, journey_id);
    assert_eq!("", administration);
    assert_eq!("%", res.trim());
}

// ------------------------------------------------------------------------------------------

fn empty_tables() -> FxHashMap<String, i32> {
    FxHashMap::default()
}

#[test]
fn journey_rows_before_any_z_row_are_refused() {
    let mut auto_increment = AutoIncrement::new();
    let mut data = FxHashMap::default();
    let mut keys = FxHashSet::default();
    let tables = empty_tables();
    let r = parse_line(
        "*A VE 8500090 8503000 001417 %",
        &mut data,
        &mut keys,
        &mut auto_increment,
        &tables,
        &tables,
        &tables,
    );
    assert!(r.is_err());
    assert!(data.is_empty());
}

#[test]
fn journey_times_wrap_and_drop_their_sign() {
    let lines = vec![
        "*Z 000001 000011   101         %".to_string(),
        "0000175 Hauenstein-Basistunn -00833  02515               %".to_string(),
    ];
    let tables = empty_tables();
    let (storage, keys) = parse("FPLAN", &lines, &tables, &tables, &tables).unwrap();
    let journey = storage.data().get(&1).unwrap();
    assert_eq!(journey.route[0].arrival_time, t(8, 33));
    assert_eq!(journey.route[0].departure_time, t(1, 15));
    assert_eq!(keys.len(), 1);
}

#[test]
fn journey_invalid_minutes_are_an_error_naming_the_line() {
    let lines = vec![
        "".to_string(),
        "*Z 000001 000011   101         %".to_string(),
        "0000175 Hauenstein-Basistunn  00875                      %".to_string(),
    ];
    let tables = empty_tables();
    match parse("FPLAN", &lines, &tables, &tables, &tables) {
        Err(hrdf_parser::error::HrdfError::Parsing { line_number, file, .. }) => {
            assert_eq!(line_number, 2);
            assert_eq!(file, "FPLAN");
        }
        other => panic!("expected a parsing error, got {other:?}"),
    }
}

#[test]
fn journey_line_references_and_unknown_keys() {
    let mut tt = FxHashMap::default();
    tt.insert("IC".to_string(), 7);
    let mut dirs = FxHashMap::default();
    dirs.insert("R63".to_string(), 9);
    let attrs = empty_tables();
    let lines = vec![
        "*Z 000002 000011   101         %".to_string(),
        "*L #0000022 8589601 8589913             %".to_string(),
        "*R R R000063 1300146 8574808             %".to_string(),
        "*G IC  8507000 8509000".to_string(),
        "*Z 000003 000011   101         %".to_string(),
    ];
    let (storage, keys) = parse("FPLAN", &lines, &tt, &attrs, &dirs).unwrap();
    let first = storage.data().get(&1).unwrap();
    assert_eq!(first.metadata.len(), 3);
    assert_eq!(first.metadata[0].0, JourneyMetadataType::Line);
    assert_eq!(first.metadata[0].1.resource_id, Some(22));
    assert_eq!(first.metadata[1].0, JourneyMetadataType::Direction);
    assert_eq!(first.metadata[1].1.resource_id, Some(9));
    assert_eq!(first.metadata[1].1.extra_field_1, Some("R".to_string()));
    assert_eq!(first.metadata[2].1.resource_id, Some(7));
    assert_eq!(storage.data().get(&2).unwrap().legacy_id, 3);
    assert!(keys.contains(&(3, "000011".to_string())));

    let bad = vec!["*Z 000002 000011   101         %".to_string(), "*A XX 8507000 8509000        %".to_string()];
    assert!(parse("FPLAN", &bad, &tt, &attrs, &dirs).is_err());
}
