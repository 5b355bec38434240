use mc_cli::eval_common::{parse_metric_expr, Reduction};

#[test]
fn t_parse_metric_each_reduction() {
    for (s, red, arity) in [
        ("n=count(x)", Reduction::Count, 1),
        ("m=mean(x)", Reduction::Mean, 1),
        ("s=sum(x)", Reduction::Sum, 1),
        ("d=std(x)", Reduction::Std, 1),
        ("lo=min(x)", Reduction::Min, 1),
        ("hi=max(x)", Reduction::Max, 1),
        ("wl=wilson_lower(x)", Reduction::WilsonLower, 1),
        ("wu=wilson_upper(x)", Reduction::WilsonUpper, 1),
        ("r=ratio(a,b)", Reduction::Ratio, 2),
    ] {
        let m = parse_metric_expr(s).expect("valid metric");
        assert_eq!(m.reduction, red, "reduction for {s}");
        assert_eq!(m.ingredients.len(), arity, "arity for {s}");
    }
}

#[test]
fn t_parse_metric_whitespace_tolerant() {
    let a = parse_metric_expr("win_rate = mean( direction_correct )").expect("ws form");
    let b = parse_metric_expr("win_rate=mean(direction_correct)").expect("tight form");
    assert_eq!(a.name, "win_rate");
    assert_eq!(a.name, b.name);
    assert_eq!(a.ingredients, b.ingredients);
    let r = parse_metric_expr("roi = ratio( pnl , stake )").expect("ratio ws");
    assert_eq!(r.ingredients, vec!["pnl".to_string(), "stake".to_string()]);
}

#[test]
fn t_parse_metric_unknown_reduction_error_ux() {
    let err = parse_metric_expr("x=avgg(y)").unwrap_err();
    assert!(err.contains("unknown reduction"), "got: {err}");
    assert!(err.contains("count, mean, sum, ratio"), "expected list in: {err}");
    assert!(err.contains("wilson_upper"), "full list in: {err}");
}

#[test]
fn t_parse_metric_wrong_arity() {
    let e1 = parse_metric_expr("r=ratio(a)").unwrap_err();
    assert!(e1.contains("ratio() takes exactly 2"), "got: {e1}");
    let e2 = parse_metric_expr("r=ratio(a,b,c)").unwrap_err();
    assert!(e2.contains("ratio() takes exactly 2"), "got: {e2}");
    let e3 = parse_metric_expr("m=mean(a,b)").unwrap_err();
    assert!(e3.contains("mean() takes exactly 1"), "got: {e3}");
}

#[test]
fn t_parse_metric_malformed() {
    assert!(parse_metric_expr("noequals").is_err());
    assert!(parse_metric_expr("=mean(x)").is_err());
    assert!(parse_metric_expr("m=mean(x").is_err()); // missing close
    assert!(parse_metric_expr("m=mean()").is_err()); // empty ingredient
    assert!(parse_metric_expr("m=mean(a,)").is_err()); // stray comma
}

#[test]
fn metric_names_take_no_inner_spaces() {
    assert!(parse_metric_expr("win rate=mean(x)").is_err());
    let m = parse_metric_expr("  win_rate = mean ( x )  ").expect("spaces around parts are tolerated");
    assert_eq!(m.name, "win_rate");
    assert_eq!(m.ingredients, vec!["x".to_string()]);
}
