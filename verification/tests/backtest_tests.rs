use mc_cli::backtest::parse;

#[test]
fn t_parse_requires_sweep_and_metric() {
    let err = parse(&["m.yaml".into(), "--unit".into(), "Game".into()], &[None, None, None]).unwrap_err();
    assert!(err.contains("--sweep"), "got {err}");
}

#[test]
fn t_parse_best_by_segment_requires_group_by() {
    let args: Vec<String> = vec![
        "m.yaml".into(),
        "--unit".into(),
        "Game".into(),
        "--sweep".into(),
        "param:x=0:1:1".into(),
        "--metric".into(),
        "w=mean(y)".into(),
        "--objective".into(),
        "w".into(),
        "--best-by".into(),
        "segment".into(),
    ];
    let err = parse(&args, &vec![None; args.len()]).unwrap_err();
    assert!(err.contains("--group-by"), "got {err}");
}

fn args(v: &[&str]) -> Vec<String> {
    v.iter().map(|s| s.to_string()).collect()
}

fn plain(n: usize) -> Vec<Option<String>> {
    vec![None; n]
}

#[test]
fn bucket_edges_are_checked_as_text() {
    let e = parse(&args(&["m.yaml", "--bucket", "line", "1: a :3"]), &plain(4)).unwrap_err();
    assert_eq!(e, "--bucket line: invalid edge \" a \" (expected a number)");
    let e = parse(&args(&["m.yaml", "--bucket", "line", "1.5"]), &plain(4)).unwrap_err();
    assert_eq!(e, "--bucket line: need at least 2 edges to define a band");
    let e = mc_cli::grade::parse(&args(&["m.yaml", "--bucket", "x", ""]), &plain(4)).unwrap_err();
    assert_eq!(e, "--bucket x: invalid edge \"\" (expected a number)");
}

#[test]
fn bucket_edges_must_ascend() {
    let mut r = plain(4);
    r[3] = Some("1 then 0".to_string());
    let e = parse(&args(&["m.yaml", "--bucket", "line", "1:0"]), &r).unwrap_err();
    assert_eq!(e, "--bucket line: edges must be strictly ascending, got 1 then 0");
    let mut r = plain(4);
    r[3] = Some("0 then 0".to_string());
    let e = mc_cli::grade::parse(&args(&["m.yaml", "--bucket", "x", "0:0:1"]), &r).unwrap_err();
    assert_eq!(e, "--bucket x: edges must be strictly ascending, got 0 then 0");
    assert_eq!(
        mc_cli::eval_common::check_bucket_edges("0:0.5:1.0", &None),
        Ok(())
    );
    assert!(mc_cli::eval_common::check_bucket_edges("a:b", &None).is_err());
    assert!(mc_cli::eval_common::check_bucket_edges("0", &None).is_err());
}
