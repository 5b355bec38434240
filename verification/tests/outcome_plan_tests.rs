use mc_cli::simulate_reader::{
    detect_outcome_kind, plan_outcome, DerivePushes, OutcomeCell, OutcomeKind, OutcomeMode,
    OutcomeModeRequest,
};

fn cols(v: &[&str]) -> Vec<String> {
    v.iter().map(|s| s.to_string()).collect()
}

#[test]
fn outcome_kind_from_cells() {
    let t = |s: &str| OutcomeCell::Text(s.to_string());
    assert_eq!(detect_outcome_kind(&vec![t("win"), t(" loss ")]), OutcomeKind::Enum);
    assert_eq!(detect_outcome_kind(&vec![t(" 1"), OutcomeCell::NearBinary]), OutcomeKind::Binary);
    assert_eq!(detect_outcome_kind(&vec![OutcomeCell::Missing]), OutcomeKind::Empty);
    assert_eq!(detect_outcome_kind(&Vec::new()), OutcomeKind::Empty);
    assert_eq!(detect_outcome_kind(&vec![t("0"), OutcomeCell::OtherNumber]), OutcomeKind::Mixed);
}

#[test]
fn binary_outcome_is_refused_without_legacy_mode() {
    let c = cols(&["bet_id", "won"]);
    let e = plan_outcome(OutcomeKind::Binary, OutcomeModeRequest::Canonical, &None, false, &c, "won")
        .unwrap_err();
    assert!(e.contains("legacy-binary"), "got: {e}");
    assert!(e.starts_with("outcome column \"won\" is binary 0/1"), "got: {e}");

    let p = plan_outcome(OutcomeKind::Binary, OutcomeModeRequest::LegacyBinary, &None, false, &c, "won")
        .unwrap();
    assert_eq!(p.mode, OutcomeMode::LegacyBinary);
    assert_eq!(p.warnings.len(), 1);
    assert!(p.warnings[0].contains("INACCURATE"));
}

#[test]
fn pushes_derive_by_default_when_possible() {
    let c = cols(&["won", "actual_total", "line"]);
    let p = plan_outcome(OutcomeKind::Binary, OutcomeModeRequest::Canonical, &None, false, &c, "won")
        .unwrap();
    assert_eq!(p.mode, OutcomeMode::DerivedPushes);
    let d = p.derive.unwrap();
    assert_eq!((d.actual_col.as_str(), d.line_col.as_str()), ("actual_total", "line"));
    assert_eq!(
        p.warnings,
        vec!["pushes auto-derived where (actual_total - line).abs() < 1e-9 → push (4-state outcome reconstructed from the binary score + line columns); pushes are neutral (stake returned).".to_string()]
    );

    let p = plan_outcome(OutcomeKind::Binary, OutcomeModeRequest::LegacyBinary, &None, true, &c, "won")
        .unwrap();
    assert_eq!(p.mode, OutcomeMode::LegacyBinary);
    assert!(p.derive.is_none());

    let p = plan_outcome(OutcomeKind::Enum, OutcomeModeRequest::Canonical, &None, false, &c, "won").unwrap();
    assert_eq!(p.mode, OutcomeMode::Canonical);
    assert!(p.warnings.is_empty());
}

#[test]
fn explicit_derive_pair_must_be_present() {
    let c = cols(&["won", "score"]);
    let ask = Some(DerivePushes { actual_col: "score".to_string(), line_col: "total".to_string() });
    let e = plan_outcome(OutcomeKind::Enum, OutcomeModeRequest::Canonical, &ask, false, &c, "won")
        .unwrap_err();
    assert_eq!(e, "--derive-pushes needs both \"score\" and \"total\" columns; present: won, score");
    let e = plan_outcome(OutcomeKind::Empty, OutcomeModeRequest::Canonical, &None, false, &c, "won")
        .unwrap_err();
    assert_eq!(e, "outcome column \"won\" has no usable values");
    let p = plan_outcome(OutcomeKind::Mixed, OutcomeModeRequest::Canonical, &None, false, &c, "won").unwrap();
    assert_eq!(p.mode, OutcomeMode::Canonical);
}

use mc_cli::simulate::Outcome;
use mc_cli::simulate_reader::{apply_window, normalize_outcome, OutcomeValue, Window};

fn num(one: bool, zero: bool, shown: &str) -> OutcomeValue {
    OutcomeValue::Number { near_one: one, near_zero: zero, shown: shown.to_string() }
}

#[test]
fn record_outcomes_by_mode() {
    let text = |s: &str| OutcomeValue::Text(s.to_string());
    assert_eq!(normalize_outcome(&text(" Won "), "outcome", OutcomeMode::Canonical, false), Ok(Outcome::Win));
    assert_eq!(
        normalize_outcome(&text("1"), "outcome", OutcomeMode::Canonical, false).unwrap_err(),
        "outcome value \"1\" is binary; pass --outcome-mode legacy-binary"
    );
    assert!(normalize_outcome(&num(true, false, "1"), "won", OutcomeMode::Canonical, false)
        .unwrap_err()
        .starts_with("outcome column \"won\" is numeric 0/1 (binary)."));
    assert_eq!(normalize_outcome(&num(true, false, "1"), "won", OutcomeMode::LegacyBinary, false), Ok(Outcome::Win));
    assert_eq!(normalize_outcome(&num(false, true, "0"), "won", OutcomeMode::LegacyBinary, false), Ok(Outcome::Loss));
    assert_eq!(
        normalize_outcome(&num(false, false, "0.5"), "won", OutcomeMode::LegacyBinary, false).unwrap_err(),
        "outcome column \"won\" has non-binary numeric value 0.5; expected 0 or 1"
    );
    assert_eq!(normalize_outcome(&num(true, false, "1"), "won", OutcomeMode::DerivedPushes, true), Ok(Outcome::Push));
    assert_eq!(normalize_outcome(&num(true, false, "1"), "won", OutcomeMode::DerivedPushes, false), Ok(Outcome::Win));
    assert_eq!(normalize_outcome(&text(" 0"), "won", OutcomeMode::DerivedPushes, false), Ok(Outcome::Loss));
    assert_eq!(
        normalize_outcome(&OutcomeValue::Missing, "won", OutcomeMode::Canonical, false).unwrap_err(),
        "outcome column \"won\" is missing/null in a record"
    );
}

#[test]
fn windows_keep_positions() {
    let keys = vec![10i64, 20, 30, 40];
    assert_eq!(apply_window(&keys, Window::All), vec![0, 1, 2, 3]);
    assert_eq!(apply_window(&keys, Window::First(2)), vec![0, 1]);
    assert_eq!(apply_window(&keys, Window::First(9)), vec![0, 1, 2, 3]);
    assert_eq!(apply_window(&keys, Window::Range(20, 30)), vec![1, 2]);
    assert_eq!(apply_window(&keys, Window::Range(31, 39)), Vec::<usize>::new());
}
