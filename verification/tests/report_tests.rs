use timewarrior_report::Config;
use timewarrior_report::ReportError;
use timewarrior_report::Session;
use timewarrior_report::Timestamp;
use timewarrior_report::TimewarriorData;

#[test]
fn create_simple_timewarrior_data() {
    let report_data = TimewarriorData::from_string("test: test\n\n[]".into()).unwrap();
    assert_eq!(
        report_data,
        TimewarriorData {
            config: Config::new().insert("test".to_string(), "test".to_string()),
            sessions: Vec::new(),
        }
    );
}

#[test]
fn create_session_without_end_date() {
    let test_session = Session::from_json_record(
        "{\"id\":1,\"start\":\"20210711T103400Z\",\"tags\":[\"test\"],\"annotation\":\"this is a test\"}",
    )
    .unwrap();
    assert_eq!(
        test_session,
        Session {
            id: 1,
            start: Timestamp::deserialize("20210711T103400Z").unwrap(),
            end: None,
            tags: vec!["test".to_string()],
            annotation: Some("this is a test".to_string()),
        }
    );
}

#[test]
fn create_session_with_end_date() {
    let test_session = Session::from_json_record(
        "{\"id\":1,\"start\":\"20210711T103400Z\",\"end\":\"20210711T113400Z\",\"tags\":[\"test\"],\"annotation\":\"this is a test\"}",
    )
    .unwrap();
    assert_eq!(
        test_session,
        Session {
            id: 1,
            start: Timestamp::deserialize("20210711T103400Z").unwrap(),
            end: Some(Timestamp::deserialize("20210711T113400Z").unwrap()),
            tags: vec!["test".to_string()],
            annotation: Some("this is a test".to_string()),
        }
    );
}

#[test]
fn parse_is_deterministic() {
    let text = "k: v\nother: setting\n\n[{\"id\":3,\"start\":\"20210711T103400Z\",\"tags\":[]}]";
    let a = TimewarriorData::from_string(text.into()).unwrap();
    let b = TimewarriorData::from_string(text.into()).unwrap();
    assert_eq!(a, b);
    let c = TimewarriorData::from_string_with_offset(text.into(), 3600).unwrap();
    let d = TimewarriorData::from_string_with_offset(text.into(), 3600).unwrap();
    assert_eq!(c, d);
}

#[test]
fn minimal_round_trip() {
    let data = TimewarriorData::from_string("k: v\n\n[]".into()).unwrap();
    assert_eq!(data.config.get("k"), Some(&"v".to_string()));
    assert_eq!(data.config.len(), 1);
    assert!(data.sessions.is_empty());
}

#[test]
fn session_without_end_is_open_and_start_denotes_utc_instant() {
    let data = TimewarriorData::from_string(
        "k: v\n\n[{\"id\":1,\"start\":\"20210711T103400Z\",\"tags\":[]}]".into(),
    )
    .unwrap();
    let s = &data.sessions[0];
    assert!(s.end.is_none());
    assert_eq!(s.start.utc.year, 2021);
    assert_eq!(s.start.utc.month, 7);
    assert_eq!(s.start.utc.day, 11);
    assert_eq!(s.start.utc.hour, 10);
    assert_eq!(s.start.utc.minute, 34);
    assert_eq!(s.start.utc.second, 0);
}

#[test]
fn session_with_end_converts_both_independently() {
    // The fixture keeps `end` chronologically after `start`; the parser
    // does not enforce that order (an unchecked invariant of the source
    // tool's reports).
    let data = TimewarriorData::from_string_with_offset(
        "k: v\n\n[{\"id\":1,\"start\":\"20210711T233000Z\",\"end\":\"20210712T003000Z\",\"tags\":[]}]"
            .into(),
        3600,
    )
    .unwrap();
    let s = &data.sessions[0];
    assert_eq!(s.start.utc.day, 11);
    assert_eq!(s.start.local.day, 12);
    assert_eq!(s.start.local.hour, 0);
    assert_eq!(s.start.local.minute, 30);
    let e = s.end.unwrap();
    assert_eq!(e.utc.day, 12);
    assert_eq!(e.local.hour, 1);
    assert_eq!(e.local.minute, 30);
    assert_eq!(e.local.day, 12);
}

#[test]
fn equal_ids_are_order_equivalent_but_not_equal() {
    let a = Session::from_json_record("{\"id\":7,\"start\":\"20210711T103400Z\",\"tags\":[\"x\"]}")
        .unwrap();
    let b = Session::from_json_record("{\"id\":7,\"start\":\"20210711T103400Z\",\"tags\":[\"y\"]}")
        .unwrap();
    assert_eq!(a.partial_cmp(&b), Some(std::cmp::Ordering::Equal));
    assert!(a != b);
}

#[test]
fn ordering_follows_id() {
    let a = Session::from_json_record("{\"id\":1,\"start\":\"20210711T103400Z\",\"tags\":[]}")
        .unwrap();
    let b = Session::from_json_record("{\"id\":2,\"start\":\"20210711T103400Z\",\"tags\":[]}")
        .unwrap();
    assert!(a < b);
    assert!(b > a);
}

#[test]
fn malformed_header_line_is_malformed_input() {
    let r = TimewarriorData::from_string("no separator here\n\n[]".into());
    assert!(matches!(r, Err(ReportError::MalformedInput(_))));
}

#[test]
fn missing_blank_line_separator_is_malformed_input() {
    let r = TimewarriorData::from_string("k: v".into());
    assert!(matches!(r, Err(ReportError::MalformedInput(_))));
}

#[test]
fn invalid_timestamp_is_decode_error_naming_the_value() {
    let r = TimewarriorData::from_string(
        "k: v\n\n[{\"id\":1,\"start\":\"20210711T1034\",\"tags\":[]}]".into(),
    );
    match r {
        Err(ReportError::Decode(msg)) => assert!(msg.contains("20210711T1034")),
        other => panic!("expected a decode error, got {:?}", other),
    }
}

#[test]
fn non_numeric_timestamp_is_decode_error() {
    let r = TimewarriorData::from_string(
        "k: v\n\n[{\"id\":1,\"start\":\"2021071aT103400Z\",\"tags\":[]}]".into(),
    );
    match r {
        Err(ReportError::Decode(msg)) => assert!(msg.contains("2021071aT103400Z")),
        other => panic!("expected a decode error, got {:?}", other),
    }
}

#[test]
fn calendar_invalid_timestamp_is_decode_error() {
    let r = TimewarriorData::from_string(
        "k: v\n\n[{\"id\":1,\"start\":\"20210231T103400Z\",\"tags\":[]}]".into(),
    );
    assert!(matches!(r, Err(ReportError::Decode(_))));
}

#[test]
fn body_must_be_an_array() {
    let r = TimewarriorData::from_string("k: v\n\n{}".into());
    assert!(matches!(r, Err(ReportError::Decode(_))));
}

#[test]
fn missing_required_field_is_decode_error() {
    let r = TimewarriorData::from_string("k: v\n\n[{\"id\":1,\"tags\":[]}]".into());
    assert!(matches!(r, Err(ReportError::Decode(_))));
}

#[test]
fn trailing_text_after_array_is_decode_error() {
    let r = TimewarriorData::from_string("k: v\n\n[] trailing".into());
    assert!(matches!(r, Err(ReportError::Decode(_))));
}

#[test]
fn duplicate_config_key_last_wins() {
    let data = TimewarriorData::from_string("a: 1\na: 2\nb: 3\n\n[]".into()).unwrap();
    assert_eq!(data.config.get("a"), Some(&"2".to_string()));
    assert_eq!(data.config.get("b"), Some(&"3".to_string()));
    assert_eq!(data.config.len(), 2);
}

#[test]
fn config_value_keeps_everything_after_first_separator() {
    let data = TimewarriorData::from_string("a: b: c\n\n[]".into()).unwrap();
    assert_eq!(data.config.get("a"), Some(&"b: c".to_string()));
}

#[test]
fn empty_header_gives_empty_config() {
    let data = TimewarriorData::from_string("\n\n[]".into()).unwrap();
    assert_eq!(data.config.len(), 0);
    assert!(data.sessions.is_empty());
}

#[test]
fn config_equality_ignores_entry_order() {
    let a = Config::new()
        .insert("x".to_string(), "1".to_string())
        .insert("y".to_string(), "2".to_string());
    let b = Config::new()
        .insert("y".to_string(), "2".to_string())
        .insert("x".to_string(), "1".to_string());
    assert!(a == b);
}

#[test]
fn unknown_members_are_skipped() {
    let data = TimewarriorData::from_string(
        "k: v\n\n[{\"id\":4,\"start\":\"20210711T103400Z\",\"tags\":[\"a\",\"b\"],\"extra\":{\"deep\":[1,-2.5e3,true,null,\"s\"]}}]"
            .into(),
    )
    .unwrap();
    assert_eq!(data.sessions[0].id, 4);
    assert_eq!(data.sessions[0].tags, vec!["a".to_string(), "b".to_string()]);
}

#[test]
fn duplicate_session_member_is_decode_error() {
    let r = TimewarriorData::from_string(
        "k: v\n\n[{\"id\":1,\"id\":2,\"start\":\"20210711T103400Z\",\"tags\":[]}]".into(),
    );
    assert!(matches!(r, Err(ReportError::Decode(_))));
}

#[test]
fn annotation_null_and_absent_both_decode_to_none() {
    let a = Session::from_json_record(
        "{\"id\":1,\"start\":\"20210711T103400Z\",\"tags\":[],\"annotation\":null}",
    )
    .unwrap();
    let b = Session::from_json_record("{\"id\":1,\"start\":\"20210711T103400Z\",\"tags\":[]}")
        .unwrap();
    assert!(a.annotation.is_none());
    assert!(b.annotation.is_none());
    assert_eq!(a, b);
}

#[test]
fn string_escapes_are_decoded() {
    let s = Session::from_json_record(
        "{\"id\":1,\"start\":\"20210711T103400Z\",\"tags\":[\"\\u0041\\n\\\"\\u00e9\"],\"annotation\":\"\\ud83d\\ude00\"}",
    )
    .unwrap();
    assert_eq!(s.tags, vec!["A\n\"\u{e9}".to_string()]);
    assert_eq!(s.annotation, Some("\u{1F600}".to_string()));
}

#[test]
fn lone_surrogate_escape_is_decode_error() {
    let r = Session::from_json_record(
        "{\"id\":1,\"start\":\"20210711T103400Z\",\"tags\":[\"\\ud83d\"]}",
    );
    assert!(matches!(r, Err(ReportError::Decode(_))));
}

#[test]
fn negative_or_fractional_id_is_decode_error() {
    let neg = TimewarriorData::from_string(
        "k: v\n\n[{\"id\":-1,\"start\":\"20210711T103400Z\",\"tags\":[]}]".into(),
    );
    assert!(matches!(neg, Err(ReportError::Decode(_))));
    let frac = TimewarriorData::from_string(
        "k: v\n\n[{\"id\":1.5,\"start\":\"20210711T103400Z\",\"tags\":[]}]".into(),
    );
    assert!(matches!(frac, Err(ReportError::Decode(_))));
}

#[test]
fn negative_offset_rolls_back_a_day() {
    let data = TimewarriorData::from_string_with_offset(
        "k: v\n\n[{\"id\":1,\"start\":\"20210301T001500Z\",\"tags\":[]}]".into(),
        -3600,
    )
    .unwrap();
    let t = data.sessions[0].start;
    assert_eq!(t.local.month, 2);
    assert_eq!(t.local.day, 28);
    assert_eq!(t.local.hour, 23);
    assert_eq!(t.local.minute, 15);
    assert_eq!(t.offset_seconds, -3600);
}

#[test]
fn error_display_strings_name_the_kind() {
    assert_eq!(ReportError::IO("gone".to_string()).message(), "gone");
    assert_eq!(
        ReportError::IO("gone".to_string()).display_string(),
        "IOError: gone"
    );
    assert_eq!(
        ReportError::Decode("bad".to_string()).display_string(),
        "DecodeError: bad"
    );
    assert_eq!(
        ReportError::MalformedInput("cut".to_string()).display_string(),
        "MalformedInputError: cut"
    );
}

#[test]
fn sessions_keep_report_order() {
    let data = TimewarriorData::from_string(
        "k: v\n\n[{\"id\":2,\"start\":\"20210711T103400Z\",\"tags\":[]},{\"id\":1,\"start\":\"20210711T103400Z\",\"tags\":[]}]"
            .into(),
    )
    .unwrap();
    assert_eq!(data.sessions[0].id, 2);
    assert_eq!(data.sessions[1].id, 1);
}

#[test]
fn from_json_decodes_a_session_array() {
    let sessions = Session::from_json(
        "[{\"id\":1,\"start\":\"20210711T103400Z\",\"tags\":[]},{\"id\":2,\"start\":\"20210711T113400Z\",\"tags\":[\"t\"]}]",
    )
    .unwrap();
    assert_eq!(sessions.len(), 2);
    assert_eq!(sessions[0].id, 1);
    assert_eq!(sessions[1].id, 2);
    assert_eq!(sessions[1].tags, vec!["t".to_string()]);
}

#[test]
fn deserialize_with_offset_localizes_the_wall_clock() {
    let t = Timestamp::deserialize_with_offset("20210711T103400Z", 7200).unwrap();
    assert_eq!(t.utc.hour, 10);
    assert_eq!(t.local.hour, 12);
    assert_eq!(t.local.day, 11);
    assert_eq!(t.offset_seconds, 7200);
    assert!(Timestamp::deserialize_with_offset("20210711T103400", 7200).is_none());
}
