use mc_cli::coord_map::CoordMap;
use mc_cli::simulate::filter::{filter_input_panics, parse_filter, RecordFilterError};
use mc_cli::simulate_command::collect_filter_columns;

fn message(input: &str) -> String {
    match parse_filter(input) {
        Err(RecordFilterError::Message(m)) => m,
        other => panic!("expected a message error for {input:?}, got {other:?}"),
    }
}

#[test]
fn record_filter_parses_columns_numbers_and_text() {
    let f = parse_filter("league == NBA and (odds >= 1.5 OR not side = 'home')").expect("valid");
    assert_eq!(
        format!("{f:?}"),
        "And(Cmp(\"league\", Eq, Text(\"NBA\")), Or(Cmp(\"odds\", Gte, Num(\"1.5\")), \
         Not(Cmp(\"side\", Eq, Text(\"home\")))))"
    );
    let g = parse_filter("date > 2025-01-01 and x < -2e3").expect("valid");
    assert_eq!(
        format!("{g:?}"),
        "And(Cmp(\"date\", Gt, Text(\"2025-01-01\")), Cmp(\"x\", Lt, Num(\"-2e3\")))"
    );
}

#[test]
fn record_filter_refusals() {
    assert_eq!(message(""), "empty filter expression");
    assert_eq!(message("   "), "empty filter expression");
    assert_eq!(message("a !b"), "unexpected '!' in filter: \"a !b\"");
    assert_eq!(message("a > 'x"), "unterminated string literal in filter: \"a > 'x\"");
    assert_eq!(message("a # 1"), "unexpected character '#' in filter: \"a # 1\"");
    assert_eq!(message("a > 1 b"), "trailing tokens in filter: \"a > 1 b\"");
    assert_eq!(message("(a > 1"), "expected ')' in filter");
    assert_eq!(message("a >"), "expected a value in filter, got None");
    assert_eq!(message("a b"), "expected a comparison operator in filter, got Some(Ident(\"b\"))");
    assert_eq!(message("and"), "expected a column name in filter, got Some(And)");
    match parse_filter("5 > a") {
        Err(RecordFilterError::AtNumber(p, n)) => {
            assert_eq!(p, "expected a column name in filter, got ");
            assert_eq!(n, "5");
        }
        other => panic!("got {other:?}"),
    }
}

#[test]
fn record_filter_inputs_that_would_be_cut_inside_a_character() {
    assert!(filter_input_panics(">é"));
    assert!(filter_input_panics("é > 1"));
    assert!(!filter_input_panics("ê > 1"));
    assert!(!filter_input_panics("x == 'é'"));
    assert!(!filter_input_panics("a > 1"));
}

#[test]
fn collect_filter_columns_gathers_each_name_once() {
    let f = parse_filter("b > 1 and (a < 2 or not b == 3)").unwrap();
    let mut set = CoordMap::new();
    collect_filter_columns(&f, &mut set);
    assert_eq!(set.len(), 2);
    assert_eq!(set.entry(0).0, "a");
    assert_eq!(set.entry(1).0, "b");
}
