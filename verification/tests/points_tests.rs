use mc_cli::backtest::axis::{points_syntax, PointsSpec};

#[test]
fn value_spec_range_and_list() {
    match points_syntax(" 0:1:0.25 ").unwrap() {
        PointsSpec::Range(a, b, c) => assert_eq!((a.as_str(), b.as_str(), c.as_str()), ("0", "1", "0.25")),
        other => panic!("expected a range, got {other:?}"),
    }
    match points_syntax("[0.1, 0.2,0.35]").unwrap() {
        PointsSpec::List(v) => assert_eq!(v, vec!["0.1".to_string(), "0.2".to_string(), "0.35".to_string()]),
        other => panic!("expected a list, got {other:?}"),
    }
}

#[test]
fn value_spec_grammar_errors() {
    assert_eq!(
        points_syntax("0:1").unwrap_err(),
        "value-spec \"0:1\" must be a range start:stop:step or a list [v1,v2,v3]"
    );
    assert_eq!(points_syntax("[]").unwrap_err(), "invalid value \"\" in list (expected a number)");
    assert_eq!(points_syntax("[1,x]").unwrap_err(), "invalid value \"x\" in list (expected a number)");
    assert_eq!(points_syntax("a:b:c").unwrap_err(), "invalid range start \"a\"");
    assert_eq!(points_syntax("0: b:c").unwrap_err(), "invalid range stop \" b\"");
    assert_eq!(points_syntax("0:1:c").unwrap_err(), "invalid range step \"c\"");
    assert!(points_syntax("0:1:0").is_ok(), "a zero step is a value check, made later");
}
