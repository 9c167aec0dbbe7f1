use subniri::config::CivilTime;
use subniri::config_value::{
    bool_from_kdl, integer_from_kdl, node_value, set_node_value, signed_duration_from_kdl, string_from_kdl,
    time_from_kdl, time_to_kdl, u128_to_kdl, url_from_kdl, ConfigError, IntKind, KdlEntry, KdlNode, KdlValue,
    SourceSpan,
};

fn text(v: &KdlValue) -> String {
    match v {
        KdlValue::String(s) => s.clone(),
        other => panic!("not a string: {other:?}"),
    }
}

#[test]
fn strings_read_scalars_as_text() {
    assert_eq!(string_from_kdl(&KdlValue::String("hi".to_owned())).unwrap(), "hi");
    assert_eq!(string_from_kdl(&KdlValue::Bool(true)).unwrap(), "true");
    assert_eq!(string_from_kdl(&KdlValue::Integer(-42)).unwrap(), "-42");
    assert_eq!(string_from_kdl(&KdlValue::Float("1.5".to_owned())).unwrap(), "1.5");
    assert!(matches!(string_from_kdl(&KdlValue::Null), Err(ConfigError::WrongType { span: None, src: None })));
}

#[test]
fn booleans_only_from_booleans() {
    assert_eq!(bool_from_kdl(&KdlValue::Bool(false)).unwrap(), false);
    assert!(matches!(bool_from_kdl(&KdlValue::String("true".to_owned())), Err(ConfigError::WrongType { .. })));
}

#[test]
fn integers_are_checked_against_their_type() {
    assert_eq!(integer_from_kdl(&KdlValue::Integer(255), IntKind::U8).unwrap(), 255);
    assert!(matches!(integer_from_kdl(&KdlValue::Integer(256), IntKind::U8), Err(ConfigError::OutOfRange { .. })));
    assert!(matches!(integer_from_kdl(&KdlValue::Integer(-1), IntKind::U32), Err(ConfigError::OutOfRange { .. })));
    assert_eq!(integer_from_kdl(&KdlValue::Integer(-128), IntKind::I8).unwrap(), -128);
    assert!(matches!(integer_from_kdl(&KdlValue::Bool(true), IntKind::I64), Err(ConfigError::WrongType { .. })));
    assert!(matches!(u128_to_kdl(u128::MAX), KdlValue::Integer(i) if i == i128::MAX));
    assert!(matches!(u128_to_kdl(7), KdlValue::Integer(7)));
}

fn node_with(children: bool, entries: Vec<KdlEntry>) -> KdlNode {
    KdlNode {
        name: "value".to_owned(),
        entries,
        children: if children { Some(vec![]) } else { None },
        span: SourceSpan { offset: 0, len: 5 },
    }
}

#[test]
fn node_values_need_exactly_one_argument() {
    let span = SourceSpan { offset: 3, len: 4 };
    let arg = KdlEntry { name: None, value: KdlValue::Integer(1), span };
    let node = node_with(false, vec![arg.clone()]);
    assert!(matches!(node_value(&node), Ok(KdlValue::Integer(1))));
    let empty = node_with(false, vec![]);
    assert_eq!(node_value(&empty).unwrap_err().message(), "Missing field value");
    let two = node_with(false, vec![arg.clone(), arg.clone()]);
    assert_eq!(node_value(&two).unwrap_err().message(), "Wrong type, expected: one argument");
    let children = node_with(true, vec![arg]);
    assert_eq!(node_value(&children).unwrap_err().message(), "Wrong type, expected: no children");
    let prop = node_with(false, vec![KdlEntry { name: Some("x".to_owned()), value: KdlValue::Null, span }]);
    match node_value(&prop) {
        Err(ConfigError::WrongTypeExpected { span: s, expected, .. }) => {
            assert_eq!(s, Some(span));
            assert_eq!(expected, "argument");
        },
        other => panic!("unexpected {other:?}"),
    }
}

#[test]
fn writing_a_node_value_replaces_its_entries() {
    let span = SourceSpan { offset: 0, len: 1 };
    let mut node = node_with(true, vec![KdlEntry { name: Some("a".to_owned()), value: KdlValue::Bool(true), span }]);
    set_node_value(&mut node, None, span);
    assert!(node.children.is_none());
    assert_eq!(node.entries.len(), 1);
    assert!(matches!(node_value(&node), Ok(KdlValue::Null)));
    set_node_value(&mut node, Some(KdlValue::Integer(9)), span);
    assert!(matches!(node_value(&node), Ok(KdlValue::Integer(9))));
}

#[test]
fn times_round_trip_through_text() {
    let t = time_from_kdl(&KdlValue::String("07:30".to_owned())).unwrap();
    assert_eq!((t.hour, t.minute, t.second, t.subsec_nanosecond), (7, 30, 0, 0));
    assert_eq!(text(&time_to_kdl(&t)), "07:30");
    let t = CivilTime { hour: 7, minute: 0, second: 5, subsec_nanosecond: 500_000_000 };
    assert_eq!(text(&time_to_kdl(&t)), "07:00:05.5");
    let t = CivilTime { hour: 23, minute: 59, second: 1, subsec_nanosecond: 0 };
    assert_eq!(text(&time_to_kdl(&t)), "23:59:01");
    assert!(matches!(
        time_from_kdl(&KdlValue::String("25:00".to_owned())),
        Err(ConfigError::InvalidDateTime { .. })
    ));
    assert!(matches!(time_from_kdl(&KdlValue::Integer(7)), Err(ConfigError::WrongType { .. })));
}

#[test]
fn durations_are_parsed_by_jiff() {
    assert_eq!(signed_duration_from_kdl(&KdlValue::String("1h 30m".to_owned())).unwrap(), (5400, 0));
    assert_eq!(signed_duration_from_kdl(&KdlValue::String("PT1.5S".to_owned())).unwrap(), (1, 500_000_000));
    assert!(matches!(
        signed_duration_from_kdl(&KdlValue::String("soon".to_owned())),
        Err(ConfigError::InvalidDateTime { .. })
    ));
    assert!(matches!(signed_duration_from_kdl(&KdlValue::Null), Err(ConfigError::WrongType { .. })));
}

#[test]
fn urls_are_normalized() {
    assert_eq!(url_from_kdl(&KdlValue::String("https://example.com".to_owned())).unwrap(), "https://example.com/");
    assert!(matches!(
        url_from_kdl(&KdlValue::String("not a url".to_owned())),
        Err(ConfigError::InvalidUrl { .. })
    ));
}

#[test]
fn errors_keep_their_first_span_and_take_the_source() {
    let first = SourceSpan { offset: 1, len: 2 };
    let second = SourceSpan { offset: 5, len: 1 };
    let e = ConfigError::unknown_field("foo".to_owned(), None)
        .with_span_no_overwrite(first)
        .with_span_no_overwrite(second)
        .with_source("foo 1".to_owned());
    match &e {
        ConfigError::UnknownField { name, span, src } => {
            assert_eq!(name, "foo");
            assert_eq!(*span, Some(first));
            assert_eq!(src.as_deref(), Some("foo 1"));
        },
        other => panic!("unexpected {other:?}"),
    }
    assert_eq!(e.message(), "Unknown field foo");
    let io = ConfigError::IoError("denied".to_owned()).with_source("x".to_owned()).with_span_no_overwrite(first);
    assert_eq!(io.message(), "IO error: denied");
    assert_eq!(ConfigError::wrong_type(None).expected("string".to_owned()).message(), "Wrong type, expected: string");
}
