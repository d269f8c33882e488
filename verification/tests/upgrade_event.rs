use apt_cli_wrappers::AptUpgradeEvent;

fn processing(package: &str) -> AptUpgradeEvent {
    AptUpgradeEvent::Processing { package: package.to_string() }
}

fn setting_up(package: &str) -> AptUpgradeEvent {
    AptUpgradeEvent::SettingUp { package: package.to_string() }
}

fn unpacking(package: &str, version: &str, over: &str) -> AptUpgradeEvent {
    AptUpgradeEvent::Unpacking {
        package: package.to_string(),
        version: version.to_string(),
        over: over.to_string(),
    }
}

#[test]
fn apt_upgrade_event_progress() {
    assert_eq!(
        AptUpgradeEvent::Progress { percent: 1 },
        "Progress: [  1%]".parse::<AptUpgradeEvent>().unwrap()
    );

    assert_eq!(
        AptUpgradeEvent::Progress { percent: 25 },
        "Progress: [ 25%] ".parse::<AptUpgradeEvent>().unwrap()
    );

    assert_eq!(
        AptUpgradeEvent::Progress { percent: 100 },
        "Progress: [100%]".parse::<AptUpgradeEvent>().unwrap()
    );
}

#[test]
fn progress_line_parses_and_renders() {
    let event = AptUpgradeEvent::from_str("Progress: [ 25%] ").unwrap();
    assert_eq!(event, AptUpgradeEvent::Progress { percent: 25 });
    assert_eq!(event.to_string(), "progress: [ 25%]");
}

#[test]
fn every_percentage_parses_from_its_padded_form() {
    for n in 0u8..=100 {
        let line = format!("Progress: [{:>3}%]", n);
        assert_eq!(AptUpgradeEvent::from_str(&line), Ok(AptUpgradeEvent::Progress { percent: n }));
        let trailing = format!("Progress: [{:>3}%] \t\r\n", n);
        assert_eq!(
            AptUpgradeEvent::from_str(&trailing),
            Ok(AptUpgradeEvent::Progress { percent: n })
        );
    }
}

#[test]
fn progress_accepts_any_byte_and_a_plus_sign() {
    assert_eq!(
        AptUpgradeEvent::from_str("Progress: [255%]"),
        Ok(AptUpgradeEvent::Progress { percent: 255 })
    );
    assert_eq!(
        AptUpgradeEvent::from_str("Progress: [ +7%]"),
        Ok(AptUpgradeEvent::Progress { percent: 7 })
    );
    assert_eq!(
        AptUpgradeEvent::from_str("Progress: [007%]"),
        Ok(AptUpgradeEvent::Progress { percent: 7 })
    );
}

#[test]
fn malformed_progress_reports_nothing() {
    for line in [
        "Progress: [",
        "Progress: [%]",
        "Progress: [1%]",
        "Progress: [ 1%]",
        "Progress: [   1%]",
        "Progress: [1  %]",
        "Progress: [1 2%]",
        "Progress: [abc%]",
        "Progress: [ -1%]",
        "Progress: [256%]",
        "Progress: [999%]",
        "Progress: [   %]",
        "Progress: [  +%]",
        "Progress: [1000%]",
        "progress: [ 25%]",
        " Progress: [ 25%]",
    ] {
        assert_eq!(AptUpgradeEvent::from_str(line), Err(()), "{:?}", line);
    }
}

#[test]
fn progress_wants_its_closing_characters() {
    for line in [
        "Progress: [ 25xy",
        "Progress: [ 25%%",
        "Progress: [ 25]%",
        "Progress: [ 25% ]",
        "Progress: [ 25%)",
        "Progress: [ 25 %]",
        "Progress: [ 25%",
        "Progress: [ 25",
    ] {
        assert_eq!(AptUpgradeEvent::from_str(line), Err(()), "{:?}", line);
    }
}

#[test]
fn processing_takes_the_first_word() {
    assert_eq!(
        AptUpgradeEvent::from_str("Processing triggers for man-db (2.8.3-2) ..."),
        Ok(processing("man-db"))
    );
    assert_eq!(
        AptUpgradeEvent::from_str("Processing triggers for   libc-bin\n"),
        Ok(processing("libc-bin"))
    );
    assert_eq!(AptUpgradeEvent::from_str("Processing triggers for "), Err(()));
    assert_eq!(AptUpgradeEvent::from_str("Processing triggers for   \t"), Err(()));
    assert_eq!(AptUpgradeEvent::from_str("Processing triggers for"), Err(()));
}

#[test]
fn setting_up_takes_the_first_word() {
    assert_eq!(
        AptUpgradeEvent::from_str("Setting up libfoo:amd64 (1.2.3-1) ..."),
        Ok(setting_up("libfoo:amd64"))
    );
    assert_eq!(AptUpgradeEvent::from_str("Setting up "), Err(()));
    assert_eq!(AptUpgradeEvent::from_str("Setting up"), Err(()));
}

#[test]
fn unpacking_strips_one_character_at_each_end() {
    assert_eq!(
        AptUpgradeEvent::from_str("Unpacking foo (1.2.3) over (1.2.2) ..."),
        Ok(unpacking("foo", "1.2.3", "1.2.2"))
    );
    assert_eq!(
        AptUpgradeEvent::from_str("Unpacking  bar:amd64   [2.0-1ubuntu3]  x  <1.9>"),
        Ok(unpacking("bar:amd64", "2.0-1ubuntu3", "1.9"))
    );
}

#[test]
fn unpacking_wants_more_than_two_characters_in_each_version() {
    assert_eq!(
        AptUpgradeEvent::from_str("Unpacking foo (123) over (456)"),
        Ok(unpacking("foo", "123", "456"))
    );
    assert_eq!(AptUpgradeEvent::from_str("Unpacking foo (12) over (456)"), Err(()));
    assert_eq!(AptUpgradeEvent::from_str("Unpacking foo (123) over (45)"), Err(()));
    assert_eq!(AptUpgradeEvent::from_str("Unpacking foo (1) over (2)"), Err(()));
    assert_eq!(AptUpgradeEvent::from_str("Unpacking foo () over ()"), Err(()));
}

#[test]
fn unpacking_wants_four_words() {
    assert_eq!(AptUpgradeEvent::from_str("Unpacking "), Err(()));
    assert_eq!(AptUpgradeEvent::from_str("Unpacking foo"), Err(()));
    assert_eq!(AptUpgradeEvent::from_str("Unpacking foo (1.2.3)"), Err(()));
    assert_eq!(AptUpgradeEvent::from_str("Unpacking foo (1.2.3) over"), Err(()));
    assert_eq!(AptUpgradeEvent::from_str("Unpacking foo (1.2.3) (1.2.2)"), Err(()));
}

#[test]
fn other_lines_report_nothing() {
    for line in ["", " ", "Reading package lists...", "Unpacking", "Setting  up foo"] {
        assert_eq!(AptUpgradeEvent::from_str(line), Err(()), "{:?}", line);
    }
}

#[test]
fn events_render_in_lower_case() {
    assert_eq!(processing("man-db").to_string(), "processing triggers for man-db");
    assert_eq!(setting_up("foo").to_string(), "setting up foo");
    assert_eq!(
        unpacking("foo", "1.2.3", "1.2.2").to_string(),
        "unpacking foo (1.2.3) over (1.2.2)"
    );
    assert_eq!(AptUpgradeEvent::Progress { percent: 0 }.to_string(), "progress: [  0%]");
    assert_eq!(AptUpgradeEvent::Progress { percent: 42 }.to_string(), "progress: [ 42%]");
    assert_eq!(AptUpgradeEvent::Progress { percent: 100 }.to_string(), "progress: [100%]");
    assert_eq!(AptUpgradeEvent::Progress { percent: 255 }.to_string(), "progress: [255%]");
}

#[test]
fn events_encode_under_fixed_keys() {
    assert_eq!(
        processing("foo").into_dbus_map(),
        vec![("processing_package", "foo".to_string())]
    );
    assert_eq!(
        AptUpgradeEvent::Progress { percent: 7 }.into_dbus_map(),
        vec![("percent", "7".to_string())]
    );
    assert_eq!(
        AptUpgradeEvent::Progress { percent: 100 }.into_dbus_map(),
        vec![("percent", "100".to_string())]
    );
    assert_eq!(setting_up("foo").into_dbus_map(), vec![("setting_up", "foo".to_string())]);
    assert_eq!(
        unpacking("foo", "2", "1").into_dbus_map(),
        vec![
            ("over", "1".to_string()),
            ("version", "2".to_string()),
            ("unpacking", "foo".to_string())
        ]
    );
}

#[test]
fn processing_map_decodes() {
    let entries = vec![("processing_package", "foo".to_string())];
    assert_eq!(AptUpgradeEvent::from_dbus_map(&entries), Ok(processing("foo")));
}

#[test]
fn decoding_an_encoding_gives_the_event_back() {
    let mut events = vec![
        processing("man-db"),
        processing(""),
        setting_up("libc6:amd64"),
        unpacking("foo", "1.2.3", "1.2.2"),
        unpacking("", "", ""),
    ];
    for percent in 0u8..=255 {
        events.push(AptUpgradeEvent::Progress { percent });
    }
    for event in events {
        let entries = event.clone().into_dbus_map();
        assert_eq!(AptUpgradeEvent::from_dbus_map(&entries), Ok(event));
    }
}

#[test]
fn unpacking_decodes_with_its_two_last_keys_in_either_order() {
    let one = vec![
        ("over", "1".to_string()),
        ("version", "2".to_string()),
        ("unpacking", "foo".to_string()),
    ];
    let other = vec![
        ("over", "1".to_string()),
        ("unpacking", "foo".to_string()),
        ("version", "2".to_string()),
    ];
    assert_eq!(AptUpgradeEvent::from_dbus_map(&one), Ok(unpacking("foo", "2", "1")));
    assert_eq!(AptUpgradeEvent::from_dbus_map(&other), Ok(unpacking("foo", "2", "1")));
}

#[test]
fn malformed_maps_do_not_decode() {
    let empty: Vec<(&str, String)> = Vec::new();
    assert_eq!(AptUpgradeEvent::from_dbus_map(&empty), Err(()));
    let cases: Vec<Vec<(&str, String)>> = vec![
        vec![("unknown", "foo".to_string())],
        vec![("percent", "".to_string())],
        vec![("percent", "abc".to_string())],
        vec![("percent", "256".to_string())],
        vec![("percent", "-1".to_string())],
        vec![("percent", " 1".to_string())],
        vec![("over", "1".to_string())],
        vec![("over", "1".to_string()), ("version", "2".to_string())],
        vec![
            ("version", "2".to_string()),
            ("over", "1".to_string()),
            ("unpacking", "foo".to_string()),
        ],
        vec![
            ("unpacking", "foo".to_string()),
            ("version", "2".to_string()),
            ("over", "1".to_string()),
        ],
        vec![
            ("over", "1".to_string()),
            ("version", "2".to_string()),
            ("version", "3".to_string()),
        ],
        vec![
            ("over", "1".to_string()),
            ("unpacking", "foo".to_string()),
            ("other", "3".to_string()),
        ],
    ];
    for entries in cases {
        assert_eq!(AptUpgradeEvent::from_dbus_map(&entries), Err(()), "{:?}", entries);
    }
}

#[test]
fn percent_decodes_as_an_unsigned_byte() {
    let decode = |text: &str| AptUpgradeEvent::from_dbus_map(&[("percent", text.to_string())]);
    assert_eq!(decode("0"), Ok(AptUpgradeEvent::Progress { percent: 0 }));
    assert_eq!(decode("255"), Ok(AptUpgradeEvent::Progress { percent: 255 }));
    assert_eq!(decode("+12"), Ok(AptUpgradeEvent::Progress { percent: 12 }));
    assert_eq!(decode("000012"), Ok(AptUpgradeEvent::Progress { percent: 12 }));
    assert_eq!(decode("99999999999999999999999999"), Err(()));
    assert_eq!(decode("+"), Err(()));
    assert_eq!(decode("1 "), Err(()));
}

#[test]
fn entries_behind_those_read_are_ignored() {
    let entries = vec![("setting_up", "foo".to_string()), ("junk", "bar".to_string())];
    assert_eq!(AptUpgradeEvent::from_dbus_map(&entries), Ok(setting_up("foo")));
}

#[test]
fn words_end_at_unicode_white_space() {
    let mut chars: Vec<char> = (0u32..=0xFFFF).filter_map(char::from_u32).collect();
    chars.extend(['\u{10000}', '\u{1F600}', '\u{E0001}', '\u{10FFFF}']);
    for c in chars {
        let line = format!("Setting up {}pkg{}tail", c, c);
        let expected = line["Setting up ".len()..]
            .split_whitespace()
            .next()
            .map(|package| AptUpgradeEvent::SettingUp { package: package.to_string() })
            .ok_or(());
        assert_eq!(AptUpgradeEvent::from_str(&line), expected, "{:?}", c);
    }
}

#[test]
fn percent_decodes_as_the_standard_parser_does() {
    let mut texts: Vec<String> = Vec::new();
    for n in 0u32..=300 {
        texts.push(format!("{}", n));
        texts.push(format!("+{}", n));
        texts.push(format!("-{}", n));
        texts.push(format!("{:04}", n));
        texts.push(format!("{}x", n));
    }
    for text in texts {
        let expected =
            text.parse::<u8>().map(|percent| AptUpgradeEvent::Progress { percent }).map_err(|_| ());
        let entries = [("percent", text.clone())];
        assert_eq!(AptUpgradeEvent::from_dbus_map(&entries), expected, "{:?}", text);
    }
}
