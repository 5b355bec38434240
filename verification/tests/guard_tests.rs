use mc_cli::eval_common::guard_filter_f64_equality;
use mc_cli::query::filter::{Filter, FilterAtom, FilterValue};
use mc_cli::simulate::CmpOp;

fn dim_ok() -> Filter {
    Filter::Compare(
        FilterAtom::Dimension("Time".into()),
        CmpOp::Eq,
        FilterValue::StringLit("2025".into()),
    )
}

#[test]
fn t_guard_rejects_bare_f64_measure_equality() {
    let f = Filter::Compare(
        FilterAtom::Measure("line".into()),
        CmpOp::Eq,
        FilterValue::Number("9.0".into()),
    );
    let err = guard_filter_f64_equality(&f).unwrap_err();
    assert!(err.contains("bare equality"), "got: {err}");
    assert!(err.contains("line"), "names the measure: {err}");
}

#[test]
fn t_guard_allows_dimension_eq_and_measure_range() {
    let dim = Filter::Compare(
        FilterAtom::Dimension("Time".into()),
        CmpOp::Eq,
        FilterValue::StringLit("2025".into()),
    );
    assert!(guard_filter_f64_equality(&dim).is_ok());

    let range = Filter::And(
        Box::new(Filter::Compare(
            FilterAtom::Measure("line".into()),
            CmpOp::Gte,
            FilterValue::Number("8.99".into()),
        )),
        Box::new(Filter::Compare(
            FilterAtom::Measure("line".into()),
            CmpOp::Lte,
            FilterValue::Number("9.01".into()),
        )),
    );
    assert!(guard_filter_f64_equality(&range).is_ok());

    let buried = Filter::And(
        Box::new(dim_ok()),
        Box::new(Filter::Compare(
            FilterAtom::Measure("line".into()),
            CmpOp::Eq,
            FilterValue::Number("9.0".into()),
        )),
    );
    assert!(guard_filter_f64_equality(&buried).is_err());
}
