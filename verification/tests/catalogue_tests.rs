use jp_landxml::{
    CoordinateSystemMapper, CoordinateSystemNameParser, CoordinateSystemValidator,
    DeclaredOffset, HorizontalDatum, JLandXml, JLandXmlProperty, JapanPlaneCoordinateSystem,
    LandXMLError, ParsingStats, ValidationWarning, VerticalDatum,
};

#[test]
fn jlandxml_test_zone_epsg_codes() {
    assert_eq!(JapanPlaneCoordinateSystem::Zone1.epsg_code(), 6669);
    assert_eq!(JapanPlaneCoordinateSystem::Zone9.epsg_code(), 6677);
    assert_eq!(JapanPlaneCoordinateSystem::Zone19.epsg_code(), 6687);
}

#[test]
fn jlandxml_test_zone_numbers() {
    assert_eq!(JapanPlaneCoordinateSystem::Zone1.zone_number(), 1);
    assert_eq!(JapanPlaneCoordinateSystem::Zone9.zone_number(), 9);
    assert_eq!(JapanPlaneCoordinateSystem::Zone19.zone_number(), 19);
}

#[test]
fn jlandxml_test_from_zone_number() {
    assert_eq!(
        JapanPlaneCoordinateSystem::from_zone_number(1).unwrap(),
        JapanPlaneCoordinateSystem::Zone1
    );
    assert_eq!(
        JapanPlaneCoordinateSystem::from_zone_number(9).unwrap(),
        JapanPlaneCoordinateSystem::Zone9
    );
    assert!(JapanPlaneCoordinateSystem::from_zone_number(20).is_err());
    assert!(JapanPlaneCoordinateSystem::from_zone_number(0).is_err());
}

#[test]
fn jlandxml_test_coordinate_system_name_parsing() {
    assert_eq!(
        CoordinateSystemMapper::parse_horizontal_coordinate_system_name("1(X,Y)").unwrap(),
        Some(JapanPlaneCoordinateSystem::Zone1)
    );
    assert_eq!(
        CoordinateSystemMapper::parse_horizontal_coordinate_system_name("9(X,Y)").unwrap(),
        Some(JapanPlaneCoordinateSystem::Zone9)
    );
    assert_eq!(
        CoordinateSystemMapper::parse_horizontal_coordinate_system_name("19(X,Y)").unwrap(),
        Some(JapanPlaneCoordinateSystem::Zone19)
    );
    assert_eq!(
        CoordinateSystemMapper::parse_horizontal_coordinate_system_name("20(X,Y)").unwrap(),
        None
    );
    assert_eq!(
        CoordinateSystemMapper::parse_horizontal_coordinate_system_name("invalid").unwrap(),
        None
    );
}

#[test]
fn jlandxml_test_epsg_from_jlandxml_name() {
    assert_eq!(CoordinateSystemMapper::get_epsg_from_jlandxml_name("1(X,Y)"), Some(6669));
    assert_eq!(CoordinateSystemMapper::get_epsg_from_jlandxml_name("9(X,Y)"), Some(6677));
    assert_eq!(CoordinateSystemMapper::get_epsg_from_jlandxml_name("invalid"), None);
}

#[test]
fn jlandxml_test_jlandxml_properties() {
    let prop = JLandXmlProperty::project_phase("詳細設計");
    assert_eq!(prop.label, "projectPhase");
    assert_eq!(prop.value, "詳細設計");

    let traffic_prop = JLandXmlProperty::traffic_volume(12000);
    assert_eq!(traffic_prop.label, "trafficVolume");
    assert_eq!(traffic_prop.value, "12000");
}

#[test]
fn coordinate_systems_test_zone_epsg_codes() {
    assert_eq!(JapanPlaneCoordinateSystem::Zone1.epsg_code(), 6669);
    assert_eq!(JapanPlaneCoordinateSystem::Zone9.epsg_code(), 6677);
    assert_eq!(JapanPlaneCoordinateSystem::Zone19.epsg_code(), 6687);
}

#[test]
fn coordinate_systems_test_zone_numbers() {
    assert_eq!(JapanPlaneCoordinateSystem::Zone1.zone_number(), 1);
    assert_eq!(JapanPlaneCoordinateSystem::Zone9.zone_number(), 9);
    assert_eq!(JapanPlaneCoordinateSystem::Zone19.zone_number(), 19);
}

#[test]
fn coordinate_systems_test_from_zone_number() {
    assert_eq!(
        JapanPlaneCoordinateSystem::from_zone_number(1).unwrap(),
        JapanPlaneCoordinateSystem::Zone1
    );
    assert_eq!(
        JapanPlaneCoordinateSystem::from_zone_number(9).unwrap(),
        JapanPlaneCoordinateSystem::Zone9
    );
    assert!(JapanPlaneCoordinateSystem::from_zone_number(20).is_err());
    assert!(JapanPlaneCoordinateSystem::from_zone_number(0).is_err());
}

#[test]
fn coordinate_systems_test_coordinate_system_name_parsing() {
    assert_eq!(
        CoordinateSystemMapper::parse_horizontal_coordinate_system_name("1(X,Y)").unwrap(),
        Some(JapanPlaneCoordinateSystem::Zone1)
    );
    assert_eq!(
        CoordinateSystemMapper::parse_horizontal_coordinate_system_name("9(X,Y)").unwrap(),
        Some(JapanPlaneCoordinateSystem::Zone9)
    );
    assert_eq!(
        CoordinateSystemMapper::parse_horizontal_coordinate_system_name("19(X,Y)").unwrap(),
        Some(JapanPlaneCoordinateSystem::Zone19)
    );
    assert_eq!(
        CoordinateSystemMapper::parse_horizontal_coordinate_system_name("20(X,Y)").unwrap(),
        None
    );
    assert_eq!(
        CoordinateSystemMapper::parse_horizontal_coordinate_system_name("invalid").unwrap(),
        None
    );
    assert_eq!(
        CoordinateSystemMapper::parse_horizontal_coordinate_system_name("1(X,Z)").unwrap(),
        None
    );
}

#[test]
fn coordinate_systems_test_epsg_from_jlandxml_name() {
    assert_eq!(CoordinateSystemMapper::get_epsg_from_jlandxml_name("1(X,Y)"), Some(6669));
    assert_eq!(CoordinateSystemMapper::get_epsg_from_jlandxml_name("9(X,Y)"), Some(6677));
    assert_eq!(CoordinateSystemMapper::get_epsg_from_jlandxml_name("invalid"), None);
}

#[test]
fn models_test_jlandxml_properties() {
    let prop = JLandXmlProperty::project_phase("詳細設計");
    assert_eq!(prop.label, "projectPhase");
    assert_eq!(prop.value, "詳細設計");

    let traffic_prop = JLandXmlProperty::traffic_volume(12000);
    assert_eq!(traffic_prop.label, "trafficVolume");
    assert_eq!(traffic_prop.value, "12000");
}

#[test]
fn test_coordinate_system_name_parser() {
    assert!(CoordinateSystemNameParser::validate("1(X,Y)"));
    assert!(CoordinateSystemNameParser::validate("9(X,Y)"));
    assert!(CoordinateSystemNameParser::validate("19(X,Y)"));

    assert!(!CoordinateSystemNameParser::validate("20(X,Y)"));
    assert!(!CoordinateSystemNameParser::validate("invalid"));
    assert!(!CoordinateSystemNameParser::validate("1(X,Z)"));

    let result = CoordinateSystemNameParser::parse("9(X,Y)").unwrap();
    assert_eq!(result, Some(JapanPlaneCoordinateSystem::Zone9));
}

#[test]
fn parser_test_coordinate_system_info() {
    let info = CoordinateSystemNameParser::get_info("9(X,Y)").unwrap();
    assert!(info.is_some());
    assert!(info.unwrap().contains("平面直角座標系9系"));

    let invalid_info = CoordinateSystemNameParser::get_info("invalid").unwrap();
    assert!(invalid_info.is_none());
}

#[test]
fn test_jlandxml_property_creation() {
    let prop = JLandXmlProperty::new("testLabel", "testValue");
    assert_eq!(prop.label, "testLabel");
    assert_eq!(prop.value, "testValue");

    let project_prop = JLandXmlProperty::project_phase("詳細設計");
    assert_eq!(project_prop.label, "projectPhase");
    assert_eq!(project_prop.value, "詳細設計");
}

#[test]
fn test_all_horizontal_datums() {
    let datums = vec![
        ("JGD2000", HorizontalDatum::JGD2000),
        ("JGD2011", HorizontalDatum::JGD2011),
        ("TD", HorizontalDatum::TD),
    ];

    for (str_val, expected) in datums {
        let parsed = HorizontalDatum::from_str(str_val)
            .expect(&format!("Should parse {} successfully", str_val));
        assert_eq!(parsed, expected);
        assert_eq!(parsed.as_str(), str_val);
        assert!(!parsed.description().is_empty());
    }

    assert!(HorizontalDatum::from_str("INVALID").is_err());

    println!("✅ All horizontal datums test passed");
}

#[test]
fn test_all_vertical_datums() {
    let datums_with_offsets = vec![
        ("T.P", VerticalDatum::TP, 0.0),
        ("K.P", VerticalDatum::KP, -0.8745),
        ("S.P", VerticalDatum::SP, -0.0873),
        ("Y.P", VerticalDatum::YP, -0.8402),
        ("A.P", VerticalDatum::AP, -1.1344),
        ("O.P", VerticalDatum::OP, -1.3000),
        ("T.P.W", VerticalDatum::TPW, 0.113),
        ("B.S.L", VerticalDatum::BSL, 84.371),
    ];

    for (str_val, expected, expected_offset) in datums_with_offsets {
        let parsed = VerticalDatum::from_str(str_val)
            .expect(&format!("Should parse {} successfully", str_val));
        assert_eq!(parsed, expected);
        assert_eq!(parsed.as_str(), str_val);
        // The library states the offset in tenths of a millimetre.
        let offset_in_metres = parsed.tp_offset() as f64 / 10000.0;
        assert_eq!(offset_in_metres, expected_offset);

        assert!(!parsed.description().is_empty());

        let test_elevation = 10.0;
        let tp_elevation = test_elevation + offset_in_metres;
        assert_eq!(tp_elevation, test_elevation + expected_offset);
    }

    assert!(VerticalDatum::from_str("INVALID").is_err());

    println!("✅ All vertical datums test passed");
}

/// How a declared offset in metres relates to the offset of a datum.
fn declared(vertical_datum: VerticalDatum, differ_tp: Option<f64>) -> DeclaredOffset {
    match differ_tp {
        None => DeclaredOffset::Absent,
        Some(provided) => {
            let expected = vertical_datum.tp_offset() as f64 / 10000.0;
            if (provided - expected).abs() > 0.001 {
                DeclaredOffset::Differs
            } else {
                DeclaredOffset::Agrees
            }
        }
    }
}

#[test]
fn jlandxml_comprehensive_tests_test_coordinate_system_validation() {
    let warnings = CoordinateSystemValidator::validate_complete_system(
        HorizontalDatum::JGD2011,
        VerticalDatum::OP,
        JapanPlaneCoordinateSystem::Zone6,
        declared(VerticalDatum::OP, Some(-1.3000)),
    )
    .expect("Should validate successfully");

    assert_eq!(warnings.len(), 0, "Should have no warnings for correct setup");

    let warnings = CoordinateSystemValidator::validate_complete_system(
        HorizontalDatum::JGD2011,
        VerticalDatum::OP,
        JapanPlaneCoordinateSystem::Zone6,
        declared(VerticalDatum::OP, Some(-1.0000)),
    )
    .expect("Should validate successfully");

    assert_eq!(warnings.len(), 1);
    assert!(matches!(warnings[0], ValidationWarning::DifferTpMismatch { .. }));

    let warnings = CoordinateSystemValidator::validate_complete_system(
        HorizontalDatum::JGD2011,
        VerticalDatum::OP,
        JapanPlaneCoordinateSystem::Zone6,
        declared(VerticalDatum::OP, None),
    )
    .expect("Should validate successfully");

    assert_eq!(warnings.len(), 1);
    assert!(matches!(warnings[0], ValidationWarning::MissingDifferTp { .. }));

    let warnings = CoordinateSystemValidator::validate_complete_system(
        HorizontalDatum::JGD2011,
        VerticalDatum::TP,
        JapanPlaneCoordinateSystem::Zone9,
        declared(VerticalDatum::TP, Some(1.0)),
    )
    .expect("Should validate successfully");

    assert_eq!(warnings.len(), 1);
    assert!(matches!(warnings[0], ValidationWarning::UnnecessaryDifferTp));

    let warnings = CoordinateSystemValidator::validate_complete_system(
        HorizontalDatum::TD,
        VerticalDatum::TP,
        JapanPlaneCoordinateSystem::Zone9,
        declared(VerticalDatum::TP, None),
    )
    .expect("Should validate successfully");

    assert_eq!(warnings.len(), 1);
    assert!(matches!(warnings[0], ValidationWarning::LegacyDatumUsage { .. }));

    println!("✅ Coordinate system validation test passed");
}

#[test]
fn jlandxml_tests_test_coordinate_system_name_parsing() {
    let result = CoordinateSystemNameParser::parse("9(X,Y)").expect("Should parse successfully");
    assert_eq!(result, Some(JapanPlaneCoordinateSystem::Zone9));

    let result = CoordinateSystemNameParser::parse("1(X,Y)").expect("Should parse successfully");
    assert_eq!(result, Some(JapanPlaneCoordinateSystem::Zone1));

    let result = CoordinateSystemNameParser::parse("19(X,Y)").expect("Should parse successfully");
    assert_eq!(result, Some(JapanPlaneCoordinateSystem::Zone19));

    let result = CoordinateSystemNameParser::parse("20(X,Y)").expect("Should parse without error");
    assert_eq!(result, None);

    let result = CoordinateSystemNameParser::parse("invalid").expect("Should parse without error");
    assert_eq!(result, None);

    println!("✅ Coordinate system name parsing test passed");
}

#[test]
fn test_japan_plane_coordinate_systems() {
    let zones = JapanPlaneCoordinateSystem::all_zones();
    assert_eq!(zones.len(), 19);

    let zone9 = JapanPlaneCoordinateSystem::Zone9;
    assert_eq!(zone9.zone_number(), 9);
    assert_eq!(zone9.epsg_code(), 6677);
    assert!(zone9.description().contains("東京都"));

    let zone1 = JapanPlaneCoordinateSystem::Zone1;
    assert_eq!(zone1.zone_number(), 1);
    assert_eq!(zone1.epsg_code(), 6669);
    assert!(zone1.description().contains("長崎県"));

    let zone_from_num =
        JapanPlaneCoordinateSystem::from_zone_number(9).expect("Should convert successfully");
    assert_eq!(zone_from_num, JapanPlaneCoordinateSystem::Zone9);

    let invalid_zone = JapanPlaneCoordinateSystem::from_zone_number(20);
    assert!(invalid_zone.is_err());

    println!("✅ Japan plane coordinate systems test passed");
}

#[test]
fn test_jlandxml_unified_api() {
    let result =
        JLandXml::parse_coordinate_system_name("9(X,Y)").expect("Should parse successfully");
    assert_eq!(result, Some(JapanPlaneCoordinateSystem::Zone9));

    let epsg_code = JLandXml::get_epsg_code(JapanPlaneCoordinateSystem::Zone9);
    assert_eq!(epsg_code, 6677);

    let description = JLandXml::get_zone_description(JapanPlaneCoordinateSystem::Zone9);
    assert!(description.contains("東京都"));

    println!("✅ J-LandXML unified API test passed");
}

#[test]
fn jlandxml_tests_test_coordinate_system_validation() {
    assert!(CoordinateSystemNameParser::validate("1(X,Y)"));
    assert!(CoordinateSystemNameParser::validate("9(X,Y)"));
    assert!(CoordinateSystemNameParser::validate("19(X,Y)"));

    assert!(!CoordinateSystemNameParser::validate("0(X,Y)"));
    assert!(!CoordinateSystemNameParser::validate("20(X,Y)"));
    assert!(!CoordinateSystemNameParser::validate("9(X,Z)"));
    assert!(!CoordinateSystemNameParser::validate("invalid"));

    println!("✅ Coordinate system validation test passed");
}

#[test]
fn jlandxml_tests_test_coordinate_system_info() {
    let info =
        CoordinateSystemNameParser::get_info("9(X,Y)").expect("Should get info successfully");
    assert!(info.is_some());

    let info_str = info.unwrap();
    assert!(info_str.contains("平面直角座標系9系"));
    assert!(info_str.contains("6677"));

    let invalid_info =
        CoordinateSystemNameParser::get_info("invalid").expect("Should handle invalid input");
    assert!(invalid_info.is_none());

    println!("✅ Coordinate system info test passed");
}

#[test]
fn every_zone_is_found_again_by_its_number() {
    let zones = JapanPlaneCoordinateSystem::all_zones();
    for (index, zone) in zones.iter().enumerate() {
        assert_eq!(zone.zone_number() as usize, index + 1);
        assert_eq!(zone.epsg_code(), 6668 + zone.zone_number() as u32);
        assert_eq!(JapanPlaneCoordinateSystem::from_zone_number(zone.zone_number()).unwrap(), *zone);
    }
}

#[test]
fn zone_out_of_range_names_the_number() {
    assert_eq!(
        JapanPlaneCoordinateSystem::from_zone_number(20),
        Err(LandXMLError::InvalidCoordinateSystem(
            "Unsupported plane coordinate zone: 20".to_string()
        ))
    );
    assert_eq!(
        JapanPlaneCoordinateSystem::from_zone_number(255),
        Err(LandXMLError::InvalidCoordinateSystem(
            "Unsupported plane coordinate zone: 255".to_string()
        ))
    );
    assert_eq!(
        JapanPlaneCoordinateSystem::from_zone_number(0),
        Err(LandXMLError::InvalidCoordinateSystem(
            "Unsupported plane coordinate zone: 0".to_string()
        ))
    );
}

#[test]
fn zone_is_written_with_number_and_code() {
    assert_eq!(JapanPlaneCoordinateSystem::Zone9.to_string(), "平面直角座標系9系 (EPSG:6677)");
    assert_eq!(JapanPlaneCoordinateSystem::Zone19.to_string(), "平面直角座標系19系 (EPSG:6687)");
    assert_eq!(
        CoordinateSystemNameParser::get_info("9(X,Y)").unwrap(),
        Some(
            "平面直角座標系9系 (EPSG:6677) - 東京都、福島、栃木、茨城、埼玉、千葉、群馬、神奈川県"
                .to_string()
        )
    );
}

#[test]
fn datums_are_written_with_their_meaning() {
    assert_eq!(HorizontalDatum::TD.to_string(), "TD (旧日本測地系（Tokyo Datum、Bessel楕円体）)");
    assert_eq!(VerticalDatum::OP.to_string(), "O.P - 淀川（Osaka Peil）");
}

#[test]
fn datum_names_are_trimmed_before_they_are_read() {
    assert_eq!(HorizontalDatum::from_str("  JGD2011\n"), Ok(HorizontalDatum::JGD2011));
    assert_eq!(HorizontalDatum::from_str("\u{3000}TD\u{a0}"), Ok(HorizontalDatum::TD));
    assert_eq!(VerticalDatum::from_str("\tT.P.W "), Ok(VerticalDatum::TPW));
    assert_eq!(VerticalDatum::from_str("B.S.L"), Ok(VerticalDatum::BSL));
    // White space inside a name is not taken off.
    assert!(VerticalDatum::from_str("T. P").is_err());
}

#[test]
fn unknown_datum_is_quoted_as_it_was_given() {
    assert_eq!(
        HorizontalDatum::from_str(" WGS84 "),
        Err(LandXMLError::InvalidCoordinateSystem("Unsupported horizontal datum:  WGS84 ".to_string()))
    );
    assert_eq!(
        VerticalDatum::from_str("t.p"),
        Err(LandXMLError::InvalidCoordinateSystem("Unsupported vertical datum: t.p".to_string()))
    );
}

#[test]
fn zone_names_are_trimmed_and_anchored() {
    assert_eq!(
        CoordinateSystemMapper::parse_horizontal_coordinate_system_name("  9(X,Y) "),
        Ok(Some(JapanPlaneCoordinateSystem::Zone9))
    );
    assert_eq!(
        CoordinateSystemMapper::parse_horizontal_coordinate_system_name("09(X,Y)"),
        Ok(Some(JapanPlaneCoordinateSystem::Zone9))
    );
    assert_eq!(
        CoordinateSystemMapper::parse_horizontal_coordinate_system_name("x9(X,Y)"),
        Ok(None)
    );
    assert_eq!(
        CoordinateSystemMapper::parse_horizontal_coordinate_system_name("9(X,Y)x"),
        Ok(None)
    );
    assert_eq!(
        CoordinateSystemMapper::parse_horizontal_coordinate_system_name("123(X,Y)"),
        Ok(None)
    );
    assert_eq!(CoordinateSystemMapper::parse_horizontal_coordinate_system_name(""), Ok(None));
    assert_eq!(
        CoordinateSystemMapper::parse_horizontal_coordinate_system_name("00(X,Y)"),
        Ok(None)
    );
}

#[test]
fn digits_of_another_script_are_an_error() {
    // The pattern takes every decimal digit of Unicode; a number is written
    // with the digits 0 to 9 alone.
    let found = CoordinateSystemMapper::parse_horizontal_coordinate_system_name("٣(X,Y)");
    match found {
        Err(LandXMLError::ParseError(message)) => {
            assert!(message.starts_with("Invalid zone number: "), "{}", message);
            assert!(message.len() > "Invalid zone number: ".len());
        }
        other => panic!("{:?}", other),
    }
    assert!(!CoordinateSystemNameParser::validate("٣(X,Y)"));
    assert_eq!(CoordinateSystemMapper::get_epsg_from_jlandxml_name("٣(X,Y)"), None);
    assert!(CoordinateSystemNameParser::get_info("٣(X,Y)").is_err());
}

#[test]
fn digits_are_read_as_a_number_below_256() {
    assert_eq!(
        CoordinateSystemMapper::zone_from_digits(Some("19".to_string())),
        Ok(Some(JapanPlaneCoordinateSystem::Zone19))
    );
    assert_eq!(
        CoordinateSystemMapper::zone_from_digits(Some("+7".to_string())),
        Ok(Some(JapanPlaneCoordinateSystem::Zone7))
    );
    assert_eq!(
        CoordinateSystemMapper::zone_from_digits(Some("007".to_string())),
        Ok(Some(JapanPlaneCoordinateSystem::Zone7))
    );
    assert_eq!(CoordinateSystemMapper::zone_from_digits(Some("255".to_string())), Ok(None));
    assert_eq!(CoordinateSystemMapper::zone_from_digits(None), Ok(None));
    for unreadable in ["256", "", "+", "-1", " 1", "1 ", "1a"] {
        let found = CoordinateSystemMapper::zone_from_digits(Some(unreadable.to_string()));
        assert!(matches!(found, Err(LandXMLError::ParseError(_))), "{:?}", unreadable);
    }
}

#[test]
fn every_datum_goes_with_every_zone() {
    for zone in JapanPlaneCoordinateSystem::all_zones() {
        for datum in [HorizontalDatum::JGD2000, HorizontalDatum::JGD2011, HorizontalDatum::TD] {
            assert_eq!(CoordinateSystemMapper::validate_datum_compatibility(datum, zone), Ok(()));
        }
    }
}

#[test]
fn only_tokyo_bay_needs_no_correction() {
    assert!(!CoordinateSystemMapper::needs_tp_correction(VerticalDatum::TP));
    for datum in [
        VerticalDatum::KP,
        VerticalDatum::SP,
        VerticalDatum::YP,
        VerticalDatum::AP,
        VerticalDatum::OP,
        VerticalDatum::TPW,
        VerticalDatum::BSL,
    ] {
        assert!(CoordinateSystemMapper::needs_tp_correction(datum));
    }
}

#[test]
fn warnings_come_in_order() {
    let warnings = CoordinateSystemValidator::validate_complete_system(
        HorizontalDatum::TD,
        VerticalDatum::KP,
        JapanPlaneCoordinateSystem::Zone10,
        DeclaredOffset::Differs,
    )
    .unwrap();
    assert_eq!(
        warnings,
        vec![
            ValidationWarning::DifferTpMismatch { vertical_datum: VerticalDatum::KP },
            ValidationWarning::LegacyDatumUsage { datum: HorizontalDatum::TD },
        ]
    );
    let warnings = CoordinateSystemValidator::validate_complete_system(
        HorizontalDatum::JGD2000,
        VerticalDatum::TP,
        JapanPlaneCoordinateSystem::Zone10,
        DeclaredOffset::Agrees,
    )
    .unwrap();
    assert_eq!(warnings, vec![ValidationWarning::UnnecessaryDifferTp]);
    let warnings = CoordinateSystemValidator::validate_complete_system(
        HorizontalDatum::JGD2000,
        VerticalDatum::TP,
        JapanPlaneCoordinateSystem::Zone10,
        DeclaredOffset::Absent,
    )
    .unwrap();
    assert!(warnings.is_empty());
}

#[test]
fn properties_carry_their_labels() {
    let criterion = JLandXmlProperty::application_criterion("MlitLandXmlVer1.6");
    assert_eq!(criterion.label, "applicationCriterion");
    assert_eq!(criterion.value, "MlitLandXmlVer1.6");
    let class = JLandXmlProperty::road_classification("第3種第2級");
    assert_eq!(class.label, "classification");
    assert_eq!(class.value, "第3種第2級");
    assert_eq!(JLandXmlProperty::traffic_volume(0).value, "0");
    assert_eq!(JLandXmlProperty::traffic_volume(u32::MAX).value, "4294967295");
}

#[test]
fn criterion_declares_version_1_6() {
    assert_eq!(JLandXml::version_of_criterion("MlitLandXmlVer1.6"), Some("1.6".to_string()));
    assert_eq!(JLandXml::version_of_criterion("1.6"), Some("1.6".to_string()));
    assert_eq!(JLandXml::version_of_criterion("rev 21.65"), Some("1.6".to_string()));
    assert_eq!(JLandXml::version_of_criterion("MlitLandXmlVer1.5"), None);
    assert_eq!(JLandXml::version_of_criterion("1,6"), None);
    assert_eq!(JLandXml::version_of_criterion(""), None);
}

#[test]
fn document_is_j_landxml_by_version_criterion_or_name() {
    assert!(!JLandXml::is_j_landxml(false, false, None));
    assert!(!JLandXml::is_j_landxml(false, false, Some("")));
    assert!(JLandXml::is_j_landxml(false, false, Some("9(X,Y)")));
    assert!(JLandXml::is_j_landxml(false, false, Some("anything")));
    assert!(JLandXml::is_j_landxml(true, false, None));
    assert!(JLandXml::is_j_landxml(false, true, Some("")));
}

#[test]
fn name_that_cites_no_zone_rules_a_document_out() {
    assert!(JLandXml::validate_j_landxml(false, false, Some("9(X,Y)")));
    assert!(JLandXml::validate_j_landxml(true, true, Some("19(X,Y)")));
    assert!(!JLandXml::validate_j_landxml(true, true, Some("20(X,Y)")));
    assert!(!JLandXml::validate_j_landxml(true, false, Some("")));
    assert!(!JLandXml::validate_j_landxml(false, false, Some("anything")));
    assert!(JLandXml::validate_j_landxml(true, false, None));
    assert!(JLandXml::validate_j_landxml(false, true, None));
    assert!(!JLandXml::validate_j_landxml(false, false, None));
}

#[test]
fn statistics_are_printed_line_by_line() {
    let full = ParsingStats {
        is_j_landxml: true,
        j_landxml_version: Some("1.6".to_string()),
        plane_coordinate_zone: Some(JapanPlaneCoordinateSystem::Zone9),
        epsg_code: Some(6677),
        alignment_count: 3,
    };
    assert_eq!(
        full.to_string(),
        "=== J-LandXML Parsing Statistics ===\nJ-LandXML: Yes\nVersion: 1.6\n\
         Coordinate System: 平面直角座標系9系 (EPSG:6677)\nEPSG Code: 6677\nAlignments: 3\n"
    );
    let bare = ParsingStats {
        is_j_landxml: false,
        j_landxml_version: None,
        plane_coordinate_zone: None,
        epsg_code: None,
        alignment_count: 0,
    };
    assert_eq!(
        bare.to_string(),
        "=== J-LandXML Parsing Statistics ===\nJ-LandXML: No\nAlignments: 0\n"
    );
}
