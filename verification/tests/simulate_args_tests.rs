use mc_cli::cli::Parsed;
use mc_cli::simulate::odds::OddsSource;
use mc_cli::simulate::ReplayMode;
use mc_cli::simulate_command::{panics_on, parse, ArgReading, SimFormat, SimulateCommand, SimulateError};
use mc_cli::simulate_metrics::Resample;
use mc_cli::simulate_reader::{OutcomeModeRequest, Window};

fn args(v: &[&str]) -> Vec<String> {
    v.iter().map(|s| s.to_string()).collect()
}

fn plain(n: usize) -> Vec<ArgReading> {
    vec![ArgReading { at_most_zero: false, low_fixed_odds: None }; n]
}

fn run(v: &[&str]) -> SimulateCommand {
    let a = args(v);
    match parse(&a, &plain(a.len())) {
        Ok(Parsed::Run(c)) => c,
        other => panic!("expected a run, got {other:?}"),
    }
}

fn message(v: &[&str], readings: Vec<ArgReading>) -> String {
    let a = args(v);
    match parse(&a, &readings) {
        Err(SimulateError::Message(m)) => m,
        other => panic!("expected a message, got {other:?}"),
    }
}

fn msg(v: &[&str]) -> String {
    message(v, plain(v.len()))
}

#[test]
fn t_monte_carlo_requires_seed() {
    let e = msg(&[
        "--bets",
        "bets.jsonl",
        "--start-bankroll",
        "1000",
        "--sizing",
        "flat:pct=0.1",
        "--monte-carlo",
        "100",
    ]);
    assert!(e.contains("seed"), "got: {e}");
}

#[test]
fn simulate_defaults_and_options() {
    let c = run(&["--bets", "b.csv", "--start-bankroll", "1000", "--sizing", "flat:pct=0.1"]);
    assert_eq!(c.bets, "b.csv");
    assert_eq!(c.start_bankroll, "1000");
    assert_eq!(c.sizing_str, "flat:pct=0.1");
    assert_eq!(c.odds_str, "record");
    assert!(matches!(c.odds, OddsSource::Record));
    assert_eq!(c.window, Window::All);
    assert_eq!(c.window_str, "all");
    assert_eq!(c.resample, Resample::Iid);
    assert_eq!(c.resample_str, "iid");
    assert_eq!(c.format, SimFormat::Text);
    assert_eq!(c.outcome_mode, OutcomeModeRequest::Canonical);
    assert_eq!(c.replay, ReplayMode::Batch);
    assert!(c.cartridge.is_none() && c.filter.is_none() && c.derive.is_none());

    let c = run(&[
        "cart.yaml",
        "--bets",
        "b.jsonl",
        "--start-bankroll",
        "500",
        "--sizing",
        "kelly",
        "--odds",
        " fixed: 1.9 ",
        "--monte-carlo",
        "50",
        "--seed",
        "7",
        "--resample",
        "block:3",
        "--window",
        "first:10",
        "--format",
        "json",
        "--columns",
        "bet_id=id, outcome = won ,",
        "--columns",
        "bet_id=game",
        "--derive-pushes",
        " total = line ",
        "--replay",
        "sequential",
        "--metric",
        "roi",
        "--metric",
        "sharpe",
        "--outcome-mode",
        "legacy-binary",
    ]);
    assert_eq!(c.cartridge.as_deref(), Some("cart.yaml"));
    assert!(matches!(&c.odds, OddsSource::Fixed(d) if d == "1.9"));
    assert_eq!(c.odds_str, " fixed: 1.9 ");
    assert_eq!(c.monte_carlo, Some(50));
    assert_eq!(c.seed, Some(7));
    assert_eq!(c.resample, Resample::Block(3));
    assert_eq!(c.window, Window::First(10));
    assert_eq!(c.format, SimFormat::Json);
    assert_eq!(c.columns.get("bet_id").map(|s| s.as_str()), Some("game"));
    assert_eq!(c.columns.get("outcome").map(|s| s.as_str()), Some("won"));
    let d = c.derive.expect("derive");
    assert_eq!((d.actual_col.as_str(), d.line_col.as_str()), ("total", "line"));
    assert_eq!(c.replay, ReplayMode::Sequential);
    assert_eq!(c.metrics, vec!["roi".to_string(), "sharpe".to_string()]);
    assert_eq!(c.outcome_mode, OutcomeModeRequest::LegacyBinary);
}

#[test]
fn simulate_help_stops_at_once() {
    let a = args(&["--help", "--nonsense"]);
    assert!(matches!(parse(&a, &plain(2)), Ok(Parsed::Help)));
}

#[test]
fn simulate_argument_errors() {
    assert_eq!(msg(&["--bets"]), "--bets requires an argument");
    assert_eq!(msg(&["--start-bankroll", "1000"]), "--bets is required");
    assert_eq!(msg(&["--bets", "b"]), "--start-bankroll is required");
    assert_eq!(msg(&["--bets", "b", "--start-bankroll", "9"]), "--sizing is required");
    assert_eq!(
        msg(&["--start-bankroll", "lots"]),
        "--start-bankroll expects a number, got \"lots\""
    );
    assert_eq!(msg(&["--seed", "-1"]), "--seed expects an unsigned integer, got \"-1\"");
    assert_eq!(msg(&["--monte-carlo", "x"]), "--monte-carlo expects an integer, got \"x\"");
    assert_eq!(msg(&["--format", "xml"]), "--format must be text|json, got \"xml\"");
    assert_eq!(msg(&["--replay", "later"]), "--replay must be batch|sequential, got \"later\"");
    assert_eq!(
        msg(&["--outcome-mode", "binary"]),
        "--outcome-mode must be canonical|legacy-binary, got \"binary\""
    );
    assert_eq!(
        msg(&["--columns", "a=b,c"]),
        "--columns entry \"c\" must be canonical=source"
    );
    assert_eq!(
        msg(&["--derive-pushes", "ab"]),
        "--derive-pushes expects <actual>=<line>, got \"ab\""
    );
    assert!(msg(&["--metric", "profit"]).starts_with("unknown metric \"profit\"; valid: final_bank, roi,"));
    assert_eq!(msg(&["--verbose"]), "unknown argument: \"--verbose\"");
    assert_eq!(msg(&["a", "b"]), "unexpected positional argument: \"b\"");
    let base = ["--bets", "b", "--start-bankroll", "9", "--sizing", "flat:pct=0.1"];
    let with = |extra: &[&str]| {
        let mut v: Vec<&str> = base.to_vec();
        v.extend_from_slice(extra);
        msg(&v)
    };
    assert_eq!(
        with(&["--odds", "decimal"]),
        "--odds must be 'fixed:<decimal>' or 'column:<name>', got \"decimal\""
    );
    assert_eq!(with(&["--odds", "column: "]), "--odds column: requires a column name");
    assert_eq!(with(&["--odds", "fixed:two"]), "--odds fixed: expects a number, got \"two\"");
    assert_eq!(with(&["--resample", "block:0"]), "--resample block length must be >= 1");
}

#[test]
fn simulate_float_verdicts_come_from_the_caller() {
    let v = ["--bets", "b", "--start-bankroll", "-5", "--sizing", "flat:pct=0.1"];
    let mut r = plain(v.len());
    r[3].at_most_zero = true;
    assert_eq!(message(&v, r), "--start-bankroll must be > 0");

    let v = ["--bets", "b", "--start-bankroll", "5", "--sizing", "flat:pct=0.1", "--odds", "fixed:1.0"];
    let mut r = plain(v.len());
    r[7].low_fixed_odds = Some("1".to_string());
    assert_eq!(message(&v, r), "--odds fixed:1 must be > 1.0");
}

#[test]
fn simulate_filter_errors_and_panics() {
    let v = args(&["--bets", "b", "--start-bankroll", "5", "--sizing", "flat:pct=0.1", "--filter", "p >"]);
    assert!(!panics_on(&v, &plain(v.len())));
    assert!(matches!(parse(&v, &plain(v.len())), Err(SimulateError::Filter(_))));
    let ok = args(&["--bets", "b", "--start-bankroll", "5", "--sizing", "flat:pct=0.1", "--filter", "p > 0.5"]);
    assert!(!panics_on(&ok, &plain(ok.len())));
    match parse(&ok, &plain(ok.len())) {
        Ok(Parsed::Run(c)) => assert_eq!(c.filter.map(|f| f.1), Some("p > 0.5".to_string())),
        other => panic!("expected a run, got {other:?}"),
    }
    let bad = args(&["--bets", "b", "--start-bankroll", "5", "--sizing", "flat:pct=0.1", "--filter", "é"]);
    assert!(panics_on(&bad, &plain(bad.len())));
    let early = args(&["--filter", "é"]);
    assert!(!panics_on(&early, &plain(early.len())));
}
