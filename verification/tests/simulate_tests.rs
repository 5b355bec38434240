use mc_cli::simulate::sizing::parse_sizing;
use mc_cli::simulate::{replay_batches, ReplayMode, SizingKind, SplitMix64};

#[test]
fn t_splitmix64_known_sequence() {
    // splitmix64(seed=0) first outputs are stable across platforms.
    let mut rng = SplitMix64::new(0);
    assert_eq!(rng.next_u64(), 16294208416658607535);
    assert_eq!(rng.next_u64(), 7960286522194355700);
}

fn num(s: &str) -> f64 {
    s.parse::<f64>().expect("number text")
}

#[test]
fn t_sizing_parse_quarter_kelly_with_modifiers() {
    let r = parse_sizing("quarter_kelly:cap=0.025,shrink=0.02").expect("parse");
    assert_eq!(r.kind, SizingKind::Kelly);
    assert!((num(&r.param) - 0.25).abs() < 1e-12);
    assert!((num(r.cap.as_deref().unwrap()) - 0.025).abs() < 1e-12);
    assert!((num(&r.shrink) - 0.02).abs() < 1e-12);
}

#[test]
fn t_sizing_unknown_rule_errors() {
    assert!(parse_sizing("martingale:pct=0.1").is_err());
}

#[test]
fn t_sizing_from_column_requires_column() {
    assert!(parse_sizing("from_column").is_err());
    let r = parse_sizing("from_column:stake_hint").expect("parse");
    assert_eq!(r.kind, SizingKind::FromColumn);
    assert_eq!(r.column.as_deref(), Some("stake_hint"));
}

#[test]
fn sizing_messages_and_overrides() {
    let r = parse_sizing(" flat : pct = 0.02 , floor=0.001,, min_odds=1.5 ").expect("parse");
    assert_eq!(r.kind, SizingKind::Flat);
    assert_eq!(r.head, "flat");
    assert_eq!(r.param, "0.02");
    assert_eq!(r.floor.as_deref(), Some("0.001"));
    assert_eq!(r.min_odds.as_deref(), Some("1.5"));
    let h = parse_sizing("half_kelly:fraction=0.3").unwrap();
    assert_eq!(h.param, "0.3");
    assert_eq!(parse_sizing("kelly").unwrap().param, "0");
    assert_eq!(
        parse_sizing("martingale").unwrap_err(),
        "unknown sizing rule \"martingale\"; valid: flat, flat_current, kelly, quarter_kelly, half_kelly, from_column"
    );
    assert_eq!(parse_sizing("flat:pct").unwrap_err(), "sizing param \"pct\" must be key=value");
    assert_eq!(parse_sizing("flat:pct=abc").unwrap_err(), "sizing param pct=\"abc\": not a number");
    assert_eq!(
        parse_sizing("flat:size=2").unwrap_err(),
        "unknown sizing param \"size\"; valid: pct, fraction, cap, shrink, min_odds, floor"
    );
    assert_eq!(
        parse_sizing("from_column").unwrap_err(),
        "from_column requires a column name (e.g. from_column:stake_hint)"
    );
    assert_eq!(
        parse_sizing("from_column:pct=1").unwrap_err(),
        "from_column requires a bare column name first (from_column:stake_hint)"
    );
    let c = parse_sizing("from_column: hint , cap=0.1").unwrap();
    assert_eq!(c.column.as_deref(), Some("hint"));
    assert_eq!(c.cap.as_deref(), Some("0.1"));
}

#[test]
fn replay_batches_group_equal_keys() {
    let keys = vec![5, 5, 7, 5, 9, 9, 9];
    assert_eq!(replay_batches(&keys, ReplayMode::Batch), vec![(0, 2), (2, 3), (3, 4), (4, 7)]);
    assert_eq!(
        replay_batches(&keys, ReplayMode::Sequential),
        vec![(0, 1), (1, 2), (2, 3), (3, 4), (4, 5), (5, 6), (6, 7)]
    );
    assert!(replay_batches(&[], ReplayMode::Batch).is_empty());
}
