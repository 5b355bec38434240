use mc_cli::narrate::render::{render_json, render_markdown, render_text, NarrativeRow, NarrativeSeverity};
use mc_cli::narrate::{days_to_ymd, utc_iso8601};
use mc_cli::simulate::{days_from_civil, parse_rfc3339_seconds, SplitMix64};

#[test]
fn calendar_conversions_agree() {
    assert_eq!(days_to_ymd(0), (1970, 1, 1));
    assert_eq!(days_to_ymd(59), (1970, 3, 1));
    assert_eq!(days_to_ymd(11016), (2000, 2, 29));
    for days in [0u64, 1, 365, 10957, 11016, 19723, 2932896] {
        let (y, m, d) = days_to_ymd(days);
        assert_eq!(days_from_civil(y as i64, m as i64, d as i64), days as i64);
    }
    assert_eq!(days_from_civil(1969, 12, 31), -1);
}

#[test]
fn utc_timestamps() {
    assert_eq!(utc_iso8601(0), "1970-01-01T00:00:00Z");
    assert_eq!(utc_iso8601(951782400 + 3661), "2000-02-29T01:01:01Z");
}

#[test]
fn rfc3339_seconds_with_zones() {
    assert_eq!(parse_rfc3339_seconds("1970-01-01T00:00:00Z"), Some(0));
    assert_eq!(parse_rfc3339_seconds("1970-01-01T01:00:00+01:00"), Some(0));
    assert_eq!(parse_rfc3339_seconds("2025-01-01"), Some(1735689600));
    assert_eq!(parse_rfc3339_seconds("yesterday"), None);
}

#[test]
fn splitmix_is_a_pure_function_of_the_seed() {
    let mut a = SplitMix64::new(42);
    let mut b = SplitMix64::new(42);
    for _ in 0..5 {
        assert_eq!(a.next_u64(), b.next_u64());
    }
}

fn row(id: &str, sev: NarrativeSeverity, text: &str, evidence: &[(&str, &str)]) -> NarrativeRow {
    NarrativeRow {
        id: id.to_string(),
        template_id: format!("t_{id}"),
        severity: sev,
        text: text.to_string(),
        evidence: evidence.iter().map(|(k, v)| (k.to_string(), v.to_string())).collect(),
    }
}

#[test]
fn narrative_reports_in_three_formats() {
    let v = vec![
        row("a", NarrativeSeverity::Info, "All good", &[]),
        row("b", NarrativeSeverity::Critical, "Revenue \"fell\"", &[("delta", "-0.25"), ("q", "\"Q1\"")]),
        row("c", NarrativeSeverity::Other, "Odd", &[]),
    ];
    assert_eq!(
        render_text(&v),
        "[INFO]     All good\n[CRITICAL] Revenue \"fell\"\n[NOTE]     Odd\n"
    );
    assert_eq!(
        render_markdown(&v),
        "# Narrative Report\n\n## Critical\n\n- **t_b**: Revenue \"fell\"\n\n## Insights\n\n- All good\n\n"
    );
    assert_eq!(
        render_json(&v[1..2].to_vec()),
        "{\n  \"schema_version\": \"1.0\",\n  \"narratives\": [\n    {\n      \"id\": \"b\",\n      \
         \"template_id\": \"t_b\",\n      \"severity\": \"critical\",\n      \"text\": \"Revenue \\\"fell\\\"\",\n      \
         \"evidence\": {\n        \"delta\": -0.25,\n        \"q\": \"Q1\"\n      }\n    }\n  ]\n}\n"
    );
    assert_eq!(render_json(&vec![]), "{\n  \"schema_version\": \"1.0\",\n  \"narratives\": []\n}\n");
}
