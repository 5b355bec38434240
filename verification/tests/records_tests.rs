use mc_cli::coord_map::CoordMap;
use mc_cli::simulate::Outcome;
use mc_cli::simulate_reader::records::{
    jsonl_table, read_panics_on, read_records_plan, resolve_schema, sidecar_overrides, JsonCell, ReadPlan,
    RecordTable, RowReading,
};
use mc_cli::simulate_reader::{DerivePushes, OutcomeMode, OutcomeModeRequest};

fn cell<'a>(row: &'a [(String, JsonCell)], col: &str) -> Option<&'a JsonCell> {
    row.iter().find(|(k, _)| k == col).map(|(_, c)| c)
}

fn num(row: &[(String, JsonCell)], col: &str) -> Option<f64> {
    match cell(row, col) {
        Some(JsonCell::Number(t)) => t.parse::<f64>().ok(),
        Some(JsonCell::Bool(b)) => Some(if *b { 1.0 } else { 0.0 }),
        _ => None,
    }
}

fn format_num(n: f64) -> String {
    if n.fract().abs() < 1e-9 {
        format!("{}", n as i64)
    } else {
        format!("{n}")
    }
}

/// The floating-point reading of each row, as the reader's caller makes it.
fn readings(table: &RecordTable, derive: &Option<DerivePushes>) -> Vec<RowReading> {
    let cols: Vec<String> = match resolve_schema(table, "b.jsonl", &CoordMap::new(), &Ok(CoordMap::new())) {
        Ok(s) => vec![s.bet_id, s.timestamp, s.p_bet_side, s.decimal_odds, s.outcome],
        Err(_) => vec![String::new(); 5],
    };
    let (a, l) = match derive {
        Some(d) => (d.actual_col.clone(), d.line_col.clone()),
        None => ("actual_total".to_string(), "line".to_string()),
    };
    table
        .rows
        .iter()
        .map(|row| {
            let b = num(row, &cols[0]).unwrap_or(0.0);
            let t = num(row, &cols[1]).unwrap_or(0.0);
            let p = num(row, &cols[2]).unwrap_or(0.0);
            let o = num(row, &cols[3]).unwrap_or(0.0);
            let c = num(row, &cols[4]).unwrap_or(f64::NAN);
            let push = match (num(row, &a), num(row, &l)) {
                (Some(x), Some(y)) => (x - y).abs() < 1e-9,
                _ => false,
            };
            RowReading {
                bet_id_shown: format_num(b),
                ts_seconds: t as i64,
                ts_shown: format_num(t),
                p_in_range: (0.0..=1.0).contains(&p),
                p_shown: format!("{p}"),
                odds_above_one: o > 1.0,
                odds_shown: format!("{o}"),
                outcome_near_one: (c - 1.0).abs() < 1e-9,
                outcome_near_zero: c.abs() < 1e-9,
                outcome_shown: format!("{c}"),
                derived_push: push,
            }
        })
        .collect()
}

fn read(lines: &[&str], req: OutcomeModeRequest, derive: Option<DerivePushes>) -> Result<ReadPlan, String> {
    let text = lines.join("\n");
    let table = jsonl_table(&text, "b.jsonl")?;
    let rs = readings(&table, &derive);
    assert!(!read_panics_on(&table, "b.jsonl", &CoordMap::new(), &Ok(CoordMap::new()), req, &derive, false, &rs));
    read_records_plan(&table, "b.jsonl", &CoordMap::new(), &Ok(CoordMap::new()), req, &derive, false, &rs)
}

#[test]
fn t_reader_jsonl_canonical_4state() {
    let plan = read(
        &[
            r#"{ "bet_id": "a", "timestamp": "2025-01-01T00:00:00Z", "p_bet_side": 0.6, "decimal_odds": 2.0, "outcome": "win" }"#,
            r#"{ "bet_id": "b", "timestamp": "2025-01-02T00:00:00Z", "p_bet_side": 0.6, "decimal_odds": 2.0, "outcome": "loss" }"#,
        ],
        OutcomeModeRequest::Canonical,
        None,
    )
    .expect("read");
    assert_eq!(plan.mode, OutcomeMode::Canonical);
    assert_eq!(plan.records.len(), 2);
    assert_eq!(plan.records[0].bet_id, "a");
    assert_eq!(plan.records[0].ts_key, 1_735_689_600);
    assert_eq!(plan.records[1].ts_key, 1_735_776_000);
    assert_eq!(plan.records[0].outcome, Outcome::Win);
    assert_eq!(plan.records[1].outcome, Outcome::Loss);
    assert!(plan.warnings.is_empty());
}

#[test]
fn t_reader_alias_resolution() {
    let plan = read(
        &[
            r#"{ "game_pk": 1, "commence_time": "2025-01-01T00:00:00Z", "p_bet_side": 0.6, "decimal_odds": 2.0, "won": 1 }"#,
        ],
        OutcomeModeRequest::LegacyBinary,
        None,
    )
    .expect("read");
    let m = &plan.schema.mapping;
    assert_eq!(m.get("bet_id").map(|s| s.as_str()), Some("game_pk"));
    assert_eq!(m.get("timestamp").map(|s| s.as_str()), Some("commence_time"));
    assert_eq!(m.get("outcome").map(|s| s.as_str()), Some("won"));
    assert_eq!(plan.mode, OutcomeMode::LegacyBinary);
    assert_eq!(plan.records[0].bet_id, "1");
    assert_eq!(plan.records[0].outcome, Outcome::Win);
    assert_eq!(plan.warnings.len(), 1);
}

#[test]
fn t_reader_missing_required_column_errors() {
    let e = read(
        &[r#"{ "bet_id": "a", "timestamp": "2025-01-01T00:00:00Z", "decimal_odds": 2.0, "outcome": "win" }"#],
        OutcomeModeRequest::Canonical,
        None,
    )
    .err()
    .expect("refused");
    assert!(e.contains("p_bet_side"), "got: {e}");
}

#[test]
fn t_reader_bad_odds_errors() {
    let e = read(
        &[
            r#"{ "bet_id": "a", "timestamp": "2025-01-01T00:00:00Z", "p_bet_side": 0.6, "decimal_odds": 0.9, "outcome": "win" }"#,
        ],
        OutcomeModeRequest::Canonical,
        None,
    )
    .err()
    .expect("refused");
    assert!(e.contains("decimal_odds"), "got: {e}");
    assert_eq!(e, "record 0: decimal_odds=0.9 must be > 1.0 (decimal_odds)");
}

#[test]
fn t_outcome_binary_hard_errors_by_default() {
    let e = read(
        &[r#"{ "bet_id": "a", "timestamp": "2025-01-01T00:00:00Z", "p_bet_side": 0.6, "decimal_odds": 2.0, "won": 1 }"#],
        OutcomeModeRequest::Canonical,
        None,
    )
    .err()
    .expect("refused");
    assert!(e.contains("legacy-binary"), "got: {e}");
}

#[test]
fn t_outcome_derive_pushes_reconstructs_push() {
    let plan = read(
        &[
            r#"{ "bet_id": "a", "timestamp": "2025-01-01T00:00:00Z", "p_bet_side": 0.6, "decimal_odds": 2.0, "won": 1, "actual_total": 8.0, "line": 8.0 }"#,
            r#"{ "bet_id": "b", "timestamp": "2025-01-02T00:00:00Z", "p_bet_side": 0.6, "decimal_odds": 2.0, "won": 1, "actual_total": 9.0, "line": 8.0 }"#,
        ],
        OutcomeModeRequest::Canonical,
        Some(DerivePushes { actual_col: "actual_total".to_string(), line_col: "line".to_string() }),
    )
    .expect("read");
    assert_eq!(plan.mode, OutcomeMode::DerivedPushes);
    assert_eq!(plan.records.iter().filter(|r| r.outcome == Outcome::Push).count(), 1);
    assert_eq!(plan.records.iter().filter(|r| r.outcome == Outcome::Win).count(), 1);
}

#[test]
fn reader_auto_derives_pushes_from_default_columns() {
    let plan = read(
        &[r#"{ "bet_id": "a", "timestamp": 5, "p_bet_side": 0.6, "decimal_odds": 2.0, "won": 0, "actual_total": 8, "line": 8 }"#],
        OutcomeModeRequest::Canonical,
        None,
    )
    .expect("read");
    assert_eq!(plan.mode, OutcomeMode::DerivedPushes);
    assert_eq!(plan.records[0].outcome, Outcome::Push);
    assert_eq!(plan.records[0].ts_key, 5);
    assert_eq!(plan.records[0].timestamp, "5");
    assert_eq!(plan.warnings.len(), 1);
}

#[test]
fn reader_row_refusals_name_the_record() {
    let ok = r#"{ "bet_id": "a", "timestamp": "2025-01-01", "p_bet_side": 0.6, "decimal_odds": 2.0, "outcome": "win" }"#;
    let e = read(
        &[ok, r#"{ "bet_id": "b", "timestamp": "2025-01-01", "p_bet_side": 1.5, "decimal_odds": 2.0, "outcome": "win" }"#],
        OutcomeModeRequest::Canonical,
        None,
    )
    .err()
    .expect("refused");
    assert_eq!(e, "record 1: p_bet_side=1.5 out of range [0,1] (p_bet_side)");
    let e = read(
        &[r#"{ "bet_id": "a", "timestamp": "yesterday", "p_bet_side": 0.5, "decimal_odds": 2.0, "outcome": "win" }"#],
        OutcomeModeRequest::Canonical,
        None,
    )
    .err()
    .expect("refused");
    assert_eq!(e, "record 0: unparseable timestamp in timestamp: Text(\"yesterday\")");
    let e = read(
        &[r#"{ "bet_id": null, "timestamp": "2025-01-01", "p_bet_side": 0.5, "decimal_odds": 2.0, "outcome": "win" }"#],
        OutcomeModeRequest::Canonical,
        None,
    )
    .err()
    .expect("refused");
    assert_eq!(e, "record 0: missing bet_id (bet_id)");
    let e = read(
        &[r#"{ "bet_id": "a", "timestamp": "2025-01-01", "p_bet_side": "x", "decimal_odds": 2.0, "outcome": "win" }"#],
        OutcomeModeRequest::Canonical,
        None,
    )
    .err()
    .expect("refused");
    assert_eq!(e, "record 0: missing/non-numeric p_bet_side (p_bet_side)");
    let e = read(
        &[ok, r#"{ "bet_id": "c", "timestamp": "2025-01-01", "p_bet_side": 0.5, "decimal_odds": 2.0, "outcome": "maybe" }"#],
        OutcomeModeRequest::Canonical,
        None,
    )
    .err()
    .expect("refused");
    assert_eq!(e, "record 1: unknown outcome value \"maybe\"; expected win/loss/push/void");
}

#[test]
fn reader_zero_rows_refused() {
    let table = jsonl_table("\n  \n", "b.jsonl").expect("table");
    assert!(table.rows.is_empty());
    let e = read_records_plan(
        &table,
        "b.jsonl",
        &CoordMap::new(),
        &Ok(CoordMap::new()),
        OutcomeModeRequest::Canonical,
        &None,
        false,
        &[],
    )
    .err()
    .expect("refused");
    assert_eq!(e, "bet-record file b.jsonl has zero rows");
}

#[test]
fn reader_sequence_kept_when_numeric() {
    let plan = read(
        &[
            r#"{ "bet_id": "a", "timestamp": "2025-01-01", "p_bet_side": 0.5, "decimal_odds": 2.0, "outcome": "push", "sequence": 3 }"#,
            r#"{ "bet_id": "b", "timestamp": "2025-01-01", "p_bet_side": 0.5, "decimal_odds": 2.0, "outcome": "void", "sequence": "x" }"#,
        ],
        OutcomeModeRequest::Canonical,
        None,
    )
    .expect("read");
    assert!(matches!(&plan.records[0].sequence, Some(JsonCell::Number(t)) if t == "3"));
    assert!(plan.records[1].sequence.is_none());
    assert_eq!(plan.records[1].file_index, 1);
}

#[test]
fn reader_timestamp_overflow_is_reported() {
    let text = r#"{ "bet_id": "a", "timestamp": "2025-01-01T99999999999999999:00", "p_bet_side": 0.5, "decimal_odds": 2.0, "outcome": "win" }"#;
    let table = jsonl_table(text, "b.jsonl").expect("table");
    let rs = readings(&table, &None);
    assert!(read_panics_on(
        &table,
        "b.jsonl",
        &CoordMap::new(),
        &Ok(CoordMap::new()),
        OutcomeModeRequest::Canonical,
        &None,
        false,
        &rs
    ));
}

#[test]
fn sidecar_keeps_string_members() {
    let m = sidecar_overrides(r#"{"bet_id": "gid", "odds": 2, "outcome": "res"}"#, "b.jsonl.schema.json").expect("ok");
    assert_eq!(m.len(), 2);
    assert_eq!(m.get("bet_id").map(|s| s.as_str()), Some("gid"));
    assert_eq!(m.get("outcome").map(|s| s.as_str()), Some("res"));
    assert!(m.get("odds").is_none());
}

#[test]
fn sidecar_refusals() {
    let e = sidecar_overrides("[1, 2]", "s.json").err().expect("refused");
    assert_eq!(e, "sidecar s.json must be a JSON object of canonical→source");
    let e = sidecar_overrides("{", "s.json").err().expect("refused");
    assert!(e.starts_with("sidecar s.json is not valid JSON: "), "got: {e}");
    assert!(e.len() > "sidecar s.json is not valid JSON: ".len());
}

#[test]
fn sidecar_overrides_lose_to_command_line() {
    let table = jsonl_table(
        r#"{"gid": "a", "id": "z", "when": "2025-01-01", "p": 0.5, "odds": 2.0, "outcome": "win"}"#,
        "b.jsonl",
    )
    .expect("table");
    let side = sidecar_overrides(r#"{"bet_id": "gid", "timestamp": "when"}"#, "b.jsonl.schema.json");
    let mut cli = CoordMap::new();
    cli.insert("bet_id".to_string(), "id".to_string());
    let s = resolve_schema(&table, "b.jsonl", &cli, &side).expect("schema");
    assert_eq!(s.bet_id, "id");
    assert_eq!(s.timestamp, "when");
    assert_eq!(s.p_bet_side, "p");
    assert_eq!(s.decimal_odds, "odds");
    let bad = sidecar_overrides("3", "b.jsonl.schema.json");
    let e = resolve_schema(&table, "b.jsonl", &cli, &bad).err().expect("refused");
    assert_eq!(e, "sidecar b.jsonl.schema.json must be a JSON object of canonical→source");
}

#[test]
fn jsonl_columns_first_seen_and_line_errors() {
    let t = jsonl_table("{\"b\": 1, \"a\": 2}\n\n{\"c\": [1, 2], \"a\": null}\n", "f.jsonl").expect("table");
    assert_eq!(t.columns, vec!["a".to_string(), "b".to_string(), "c".to_string()]);
    assert_eq!(t.rows.len(), 2);
    assert!(matches!(&t.rows[1][1].1, JsonCell::Nested(s) if s == "[1,2]"));
    assert!(matches!(&t.rows[1][0].1, JsonCell::Null));
    let e = jsonl_table("{\"a\": 1}\nnot json", "f.jsonl").err().expect("refused");
    assert!(e.starts_with("f.jsonl:2: invalid JSON: "), "got: {e}");
    let e = jsonl_table("\n[1]", "f.jsonl").err().expect("refused");
    assert_eq!(e, "f.jsonl:2: each jsonl line must be a JSON object");
}
