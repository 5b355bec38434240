use mc_cli::grade::flag::FlagPredicate;
use mc_cli::simulate::CmpOp;

fn names() -> Vec<String> {
    vec!["wr".to_string(), "wr_lower_95".to_string(), "n".to_string()]
}

#[test]
fn flag_predicate_parses_metric_op_and_threshold() {
    let p = FlagPredicate::parse("  wr_lower_95   <   0.50 ", &names()).expect("valid");
    assert_eq!(p.metric_index, 1);
    assert_eq!(p.op, CmpOp::Lt);
    assert_eq!(p.threshold, "0.50");
    for (op, want) in [
        ("<=", CmpOp::Lte),
        (">", CmpOp::Gt),
        (">=", CmpOp::Gte),
        ("==", CmpOp::Eq),
        ("!=", CmpOp::Neq),
    ] {
        let p = FlagPredicate::parse(&format!("n {op} 1e3"), &names()).expect("valid");
        assert_eq!(p.metric_index, 2);
        assert_eq!(p.op, want);
    }
}

#[test]
fn flag_predicate_refusals() {
    let e = FlagPredicate::parse("wr <", &names()).unwrap_err();
    assert_eq!(e, "--flag-if \"wr <\" must be '<metric> <op> <value>' (e.g. 'wr_lower_95 < 0.50')");
    let e = FlagPredicate::parse("roi < 1", &names()).unwrap_err();
    assert_eq!(e, "--flag-if references unknown metric \"roi\"; defined metrics: wr, wr_lower_95, n");
    let e = FlagPredicate::parse("wr => 1", &names()).unwrap_err();
    assert_eq!(e, "--flag-if operator \"=>\" must be one of <, <=, >, >=, ==, !=");
    let e = FlagPredicate::parse("wr < half", &names()).unwrap_err();
    assert_eq!(e, "--flag-if threshold \"half\" is not a number");
}

#[test]
fn flag_threshold_accepts_the_float_grammar() {
    for t in ["1", "1.", ".5", "-0.25", "+3", "1e-3", "2E+10", "inf", "-Infinity", "NaN"] {
        assert!(FlagPredicate::parse(&format!("wr < {t}"), &names()).is_ok(), "{t}");
    }
    for t in [".", "e5", "1e", "1.2.3", "0x10", "1_000", "--1"] {
        assert!(FlagPredicate::parse(&format!("wr < {t}"), &names()).is_err(), "{t}");
    }
}
