use mc_cli::context_events::{self, Action};
use mc_cli::query::parse_coord_string;

fn args(v: &[&str]) -> Vec<String> {
    v.iter().map(|s| s.to_string()).collect()
}

#[test]
fn diff_requires_both_sides_and_defaults() {
    assert_eq!(
        mc_cli::diff::parse(&args(&["m.yaml", "--left", "Scenario=Base"])).unwrap_err(),
        "--left and --right are both required for diff"
    );
    assert_eq!(
        mc_cli::diff::parse(&args(&["--left", "a", "--right", "b"])).unwrap_err(),
        "`mc model diff` requires a YAML model path"
    );
    let c = mc_cli::diff::parse(&args(&["m.yaml", "--left", "a", "--right", "b"])).unwrap();
    assert_eq!(c.limit, 50);
}

#[test]
fn sweep_goal_defaults_and_range_required() {
    assert_eq!(
        mc_cli::sweep::parse(&args(&["m.yaml", "--metric", "mean(Spend)"])).unwrap_err(),
        "--range is required (format: start:end:step)"
    );
    let c = mc_cli::sweep::parse(&args(&["m.yaml", "--range", "0:1:1", "--range", "0:5:1", "--metric", "mean(x)"])).unwrap();
    assert_eq!(c.goal, "minimize");
    assert_eq!(c.range, "0:5:1");
    assert!(mc_cli::sweep::parse(&args(&["m.yaml", "--range", "0:1:1", "--metric", "m", "--goal", "best"])).is_err());
}

#[test]
fn query_ledger_argument_checks() {
    assert_eq!(
        mc_cli::query_ledger::parse(&args(&["d", "--repeated", "0"])).unwrap_err(),
        "--repeated requires a positive integer"
    );
    assert!(mc_cli::query_ledger::parse(&args(&["d", "--severity", "high"])).is_err());
    assert!(mc_cli::query_ledger::parse(&args(&[])).is_err());
    let c = mc_cli::query_ledger::parse(&args(&["d", "--scope", "a=b=c"])).unwrap();
    assert_eq!(c.scope_filters, vec![("a".to_string(), "b=c".to_string())]);
}

#[test]
fn context_events_actions() {
    let c = context_events::parse(&args(&["d", "--period", "2026-01", "--remove", "e1", "--remove", "e2"])).unwrap();
    assert!(matches!(c.action, Action::Remove { ref id } if id == "e2"));
    assert_eq!(
        context_events::parse(&args(&["d", "--period", "2026-01"])).unwrap_err(),
        "--add requires --type"
    );
    let c = context_events::parse(&args(&["d"])).unwrap();
    assert!(matches!(c.action, Action::List));
    let c = context_events::parse(&args(&[
        "d", "--period", "p", "--type", "t", "--description", "x", "--scope", "K=V,bad,X = Y",
    ]))
    .unwrap();
    match c.action {
        Action::Add { scope, .. } => {
            assert_eq!(scope.get("K").map(|s| s.as_str()), Some("V"));
            assert_eq!(scope.get("X").map(|s| s.as_str()), Some("Y"));
            assert_eq!(scope.len(), 2);
        }
        _ => panic!("expected an add"),
    }
}

#[test]
fn coordinate_strings_read_back() {
    let m = parse_coord_string("Scenario=Base,Time=2025,Measure=Spend");
    assert_eq!(m.len(), 3);
    assert_eq!(m.get("Scenario").map(|s| s.as_str()), Some("Base"));
    assert_eq!(m.get("Time").map(|s| s.as_str()), Some("2025"));
    assert_eq!(m.entry(0).0, "Measure");
}
