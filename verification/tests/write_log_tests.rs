use mc_cli::loader::read_write_log;

#[test]
fn write_log_entries_in_line_order() {
    let log = read_write_log("{\"coord\": \"Region=North\", \"value\": 5}\n\n  {\"value\": 2.5, \"coord\": \"Region=South\"}  \n");
    assert_eq!(log.line_count, 3);
    assert!(log.refused.is_none());
    assert_eq!(log.entries.len(), 2);
    assert_eq!(log.entries[0].line_number, 1);
    assert_eq!(log.entries[0].coord, "Region=North");
    assert_eq!(log.entries[0].value, "5");
    assert_eq!(log.entries[1].line_number, 3);
    assert_eq!(log.entries[1].value, "2.5");
}

#[test]
fn write_log_stops_at_first_bad_line() {
    let log = read_write_log("{\"coord\": \"A=x\", \"value\": 1}\n{\"coord\": 3, \"value\": 1}\nnot json\n");
    assert_eq!(log.entries.len(), 1);
    let (n, m) = log.refused.expect("refused");
    assert_eq!(n, 2);
    assert_eq!(m, "missing or non-string \"coord\" field");
    let log = read_write_log("{\"coord\": \"A=x\", \"value\": \"1\"}");
    assert_eq!(log.refused, Some((1, "missing or non-numeric \"value\" field".to_string())));
    let log = read_write_log("[1]");
    assert_eq!(log.refused, Some((1, "missing or non-string \"coord\" field".to_string())));
    let log = read_write_log("\n{oops");
    let (n, m) = log.refused.expect("refused");
    assert_eq!(n, 2);
    assert!(m.starts_with("malformed JSON: "), "got: {m}");
}

#[test]
fn write_log_line_count() {
    assert_eq!(read_write_log("").line_count, 0);
    assert_eq!(read_write_log("\n").line_count, 1);
    assert_eq!(read_write_log("a\nb").line_count, 2);
}
