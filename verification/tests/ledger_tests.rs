use mc_cli::ledger_rows::{render_csv, render_text, select_since, LedgerRow};

fn row(id: &str, period: Option<&str>, severity: &str, text: &str, score: Option<&str>) -> LedgerRow {
    LedgerRow {
        ledger_entry_id: id.to_string(),
        generated_at: "2025-01-02T00:00:00Z".to_string(),
        model: "acme".to_string(),
        model_hash: "abc".to_string(),
        report_period: period.map(|s| s.to_string()),
        severity: severity.to_string(),
        template_id: "t1".to_string(),
        text: text.to_string(),
        notability: score.map(|s| s.to_string()),
    }
}

#[test]
fn ledger_text_listing_badges_and_count() {
    let rows = vec![
        row("e1", Some("2025-Q1"), "critical", "Revenue fell", None),
        row("e2", None, "warning", "Costs rose", None),
        row("e3", Some("2025-Q2"), "other", "Flat", None),
    ];
    assert_eq!(
        render_text(&rows),
        "[CRITICAL] 2025-Q1 | t1 | Revenue fell\n\
         [WARNING]  (no period) | t1 | Costs rose\n\
         [NOTE]     2025-Q2 | t1 | Flat\n\
         \n3 entries.\n"
    );
    assert_eq!(render_text(&vec![]), "No matching ledger entries.\n");
}

#[test]
fn ledger_csv_quotes_fields_that_need_it() {
    let rows = vec![
        row("e1", Some("2025-Q1"), "info", "a, \"b\"", Some("0.75")),
        row("e2", None, "success", "line\nbreak", None),
    ];
    assert_eq!(
        render_csv(&rows),
        "ledger_entry_id,generated_at,model,model_hash,report_period,severity,template_id,text,notability_score\n\
         e1,2025-01-02T00:00:00Z,acme,abc,2025-Q1,info,t1,\"a, \"\"b\"\"\",0.75\n\
         e2,2025-01-02T00:00:00Z,acme,abc,,success,t1,\"line\nbreak\",\n"
    );
}

#[test]
fn ledger_since_keeps_periods_not_before_it() {
    let rows = vec![
        row("a", Some("2024-Q4"), "info", "x", None),
        row("b", Some("2025-Q1"), "info", "x", None),
        row("c", None, "info", "x", None),
        row("d", Some("2025-Q2"), "info", "x", None),
    ];
    let kept: Vec<String> = select_since(&rows, Some("2025-Q1")).into_iter().map(|r| r.ledger_entry_id).collect();
    assert_eq!(kept, vec!["b", "d"]);
    assert_eq!(select_since(&rows, None).len(), 4);
}
