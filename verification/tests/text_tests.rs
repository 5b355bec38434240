use mc_cli::tessera::truncate;
use mc_cli::text::{is_float_text, split_whitespace};

#[test]
fn split_whitespace_drops_empty_pieces() {
    assert_eq!(split_whitespace("  a  bc\t\nd\u{3000}e "), vec!["a", "bc", "d", "e"]);
    assert!(split_whitespace(" \t ").is_empty());
}

#[test]
fn float_text_grammar_examples() {
    let yes = ["0", "12.5", "1.", ".5", "-1e-9", "+INF", "nan", "infinity"];
    let no = ["", "-", "+.", "1e+", "1 ", "0x1", "infinite", "1.5.0"];
    for s in yes {
        let v: Vec<char> = s.chars().collect();
        assert!(is_float_text(&v), "{s}");
        assert!(s.parse::<f64>().is_ok(), "{s}");
    }
    for s in no {
        let v: Vec<char> = s.chars().collect();
        assert!(!is_float_text(&v), "{s}");
        assert!(s.parse::<f64>().is_err(), "{s}");
    }
}

#[test]
fn tessera_truncate_marks_a_cut() {
    assert_eq!(truncate("imp-2025-01-01-abcdef", 8), "imp-202…");
    assert_eq!(truncate("short", 8), "short");
    assert_eq!(truncate("exactly8", 8), "exactly8");
    assert_eq!(truncate("héllo-world", 4), "hé…");
}
