use walking_pattern::settings::{
    invalid_field, lookup, parse_setting_lines, parse_usize, validate_ranges, SettingKey,
    SettingsError, SettingsTable,
};

const VALID_SETTINGS: &str = "\
max_iterations=1024
pose_tolerance=1e-8
step_tolerance=1e-13
position_weight=0.9999
orientation_weight=0.9999
minimum_bias=1e-3
";

const FLOAT_KEYS: [SettingKey; 5] = [
    SettingKey::PoseTolerance,
    SettingKey::StepTolerance,
    SettingKey::PositionWeight,
    SettingKey::OrientationWeight,
    SettingKey::MinimumBias,
];

/// Reads a settings text as far as the library decides it: the lines, the
/// iteration count, then the presence of each real-valued key in order.
fn read(source: &str) -> Result<(usize, SettingsTable), SettingsError> {
    let table = parse_setting_lines(source)?;
    let max_iterations = parse_usize(&table, SettingKey::MaxIterations)?;
    for key in FLOAT_KEYS {
        lookup(&table, key)?;
    }
    Ok((max_iterations, table))
}

#[test]
fn rejects_missing_unknown_duplicate_and_malformed_settings() {
    let missing = VALID_SETTINGS.replace("minimum_bias=1e-3\n", "");
    assert_eq!(read(&missing).map(|_| ()), Err(SettingsError::MissingKey("minimum_bias")));

    let unknown = format!("{VALID_SETTINGS}gain=1\n");
    assert!(matches!(read(&unknown), Err(SettingsError::UnknownKey { .. })));

    let duplicate = format!("{VALID_SETTINGS}max_iterations=2\n");
    assert!(matches!(read(&duplicate), Err(SettingsError::DuplicateKey { .. })));

    let malformed = format!("{VALID_SETTINGS}broken\n");
    assert!(matches!(read(&malformed), Err(SettingsError::MalformedLine { .. })));
}

#[test]
fn reads_every_key_of_a_complete_settings_text() {
    let (max_iterations, table) = read(VALID_SETTINGS).unwrap();
    assert_eq!(max_iterations, 1024);
    let expected = [
        (SettingKey::PoseTolerance, 2, "1e-8"),
        (SettingKey::StepTolerance, 3, "1e-13"),
        (SettingKey::PositionWeight, 4, "0.9999"),
        (SettingKey::OrientationWeight, 5, "0.9999"),
        (SettingKey::MinimumBias, 6, "1e-3"),
    ];
    for (key, line, value) in expected {
        let entry = lookup(&table, key).unwrap();
        assert_eq!(entry.line, line);
        assert_eq!(entry.value, value);
    }
    assert_eq!(lookup(&table, SettingKey::MaxIterations).unwrap().line, 1);
}

#[test]
fn comment_and_blank_lines_are_ignored_but_shift_line_numbers() {
    let source = format!("# IK settings\n\n{VALID_SETTINGS}");
    let (max_iterations, table) = read(&source).unwrap();
    assert_eq!(max_iterations, 1024);
    assert_eq!(lookup(&table, SettingKey::MaxIterations).unwrap().line, 3);

    // A trailing comment is not stripped: it stays part of the value, which
    // the real-valued reader then refuses.
    let source = VALID_SETTINGS.replace("minimum_bias=1e-3", "minimum_bias=1e-3 # invalid");
    let (_, table) = read(&source).unwrap();
    assert_eq!(lookup(&table, SettingKey::MinimumBias).unwrap().value, "1e-3 # invalid");

    let indented = "   # indented comment\n\t\n  max_iterations = 7  \r\n";
    let table = parse_setting_lines(indented).unwrap();
    assert_eq!(parse_usize(&table, SettingKey::MaxIterations), Ok(7));
    assert_eq!(lookup(&table, SettingKey::MaxIterations).unwrap().line, 3);
}

#[test]
fn reports_the_line_and_key_of_each_fault() {
    assert_eq!(
        parse_setting_lines("max_iterations=1\n\ngain=1\nbroken\n"),
        Err(SettingsError::UnknownKey { line: 3, key: "gain".to_string() })
    );
    assert_eq!(
        parse_setting_lines("max_iterations=1\nmax_iterations = 2\n"),
        Err(SettingsError::DuplicateKey { line: 2, key: "max_iterations".to_string() })
    );
    for malformed in ["a=b=c", "=1", "max_iterations=", "max_iterations", " = "] {
        assert_eq!(
            parse_setting_lines(&format!("# c\n{malformed}")),
            Err(SettingsError::MalformedLine { line: 2 })
        );
    }
    assert_eq!(parse_setting_lines(""), Ok(SettingsTable::empty()));
}

#[test]
fn rejects_an_unparseable_iteration_count() {
    let source = VALID_SETTINGS.replace("max_iterations=1024", "max_iterations=none");
    assert_eq!(
        read(&source).map(|_| ()),
        Err(SettingsError::InvalidValue { line: 1, key: "max_iterations".to_string() })
    );
    for (text, expected) in [
        ("+12", Some(12)),
        ("0", Some(0)),
        ("007", Some(7)),
        ("-1", None),
        ("+", None),
        ("1_000", None),
        ("99999999999999999999999", None),
    ] {
        let table = parse_setting_lines(&format!("max_iterations={text}")).unwrap();
        assert_eq!(parse_usize(&table, SettingKey::MaxIterations).ok(), expected, "{text}");
    }
    let max = format!("max_iterations={}", usize::MAX);
    let table = parse_setting_lines(&max).unwrap();
    assert_eq!(parse_usize(&table, SettingKey::MaxIterations), Ok(usize::MAX));
}

#[test]
fn range_checks_report_the_first_field_out_of_range() {
    assert_eq!(invalid_field(0, [false; 5]), Some(SettingKey::MaxIterations));
    assert_eq!(invalid_field(1, [true; 5]), None);
    assert_eq!(invalid_field(1, [true, true, false, true, false]), Some(SettingKey::PositionWeight));
    assert_eq!(validate_ranges(3, [true, true, true, true, false]), Err(SettingsError::OutOfRange("minimum_bias")));
    assert_eq!(validate_ranges(3, [true; 5]), Ok(()));
}

#[test]
fn settings_errors_have_readable_messages() {
    assert_eq!(
        SettingsError::MalformedLine { line: 12 }.message(),
        "設定ファイルの12行目がkey=value形式ではありません"
    );
    assert_eq!(
        SettingsError::UnknownKey { line: 3, key: "gain".to_string() }.message(),
        "設定ファイルの3行目に未知のキーがあります: gain"
    );
    assert_eq!(
        SettingsError::OutOfRange("minimum_bias").message(),
        "設定値は有限な正の値でなければなりません: minimum_bias"
    );
    assert_eq!(SettingsError::MissingKey("pose_tolerance").message(), "設定キーがありません: pose_tolerance");
}
