use mc_cli::eval_common::guard_filter_f64_equality;
use mc_cli::query::filter::{tokenize_filter, Filter, FilterError, Token};

fn dims(names: &[&str]) -> Vec<String> {
    names.iter().map(|s| s.to_string()).collect()
}

fn message(r: Result<Filter, FilterError>) -> String {
    match r {
        Err(FilterError::Message(m)) => m,
        other => panic!("expected a message error, got {other:?}"),
    }
}

#[test]
fn query_filter_parses_and_or_not_with_precedence() {
    let f = Filter::parse("not Region == \"West\" or revenue > 100 and cost <= 2.5", &dims(&["Region"]))
        .expect("valid filter");
    assert_eq!(
        format!("{f:?}"),
        "Or(Not(Compare(Dimension(\"Region\"), Eq, StringLit(\"West\"))), \
         And(Compare(Measure(\"revenue\"), Gt, Number(\"100\")), \
         Compare(Measure(\"cost\"), Lte, Number(\"2.5\"))))"
    );
}

#[test]
fn query_filter_parentheses_and_names_on_the_right() {
    let f = Filter::parse("(a != b) AND NOT (Time >= '2025')", &dims(&["Time", "b"])).expect("valid");
    assert_eq!(
        format!("{f:?}"),
        "And(Compare(Measure(\"a\"), Neq, Atom(Dimension(\"b\"))), \
         Not(Compare(Dimension(\"Time\"), Gte, StringLit(\"2025\"))))"
    );
}

#[test]
fn query_filter_tokens_keep_number_text_and_escapes() {
    let t = tokenize_filter("x>=-3.5 and y=='a\\'b'").expect("tokens");
    assert_eq!(
        format!("{t:?}"),
        "[Ident(\"x\"), Op(Gte), Number(\"-3.5\"), And, Ident(\"y\"), Op(Eq), StringLit(\"a\\\\'b\")]"
    );
    assert!(matches!(t[2], Token::Number(ref n) if n == "-3.5"));
}

#[test]
fn query_filter_lexical_errors() {
    assert_eq!(message(Filter::parse("x = 3", &[])), "unexpected '=' at position 2 (use '==')");
    assert_eq!(message(Filter::parse("é = 3", &[])), "unexpected character: 'Ã'");
    assert_eq!(message(Filter::parse("ab = 3", &[])), "unexpected '=' at position 3 (use '==')");
    assert_eq!(message(Filter::parse("x > 'abc", &[])), "unterminated string literal");
    assert_eq!(message(Filter::parse("x > 1.2.3", &[])), "invalid number: 1.2.3");
    assert_eq!(message(Filter::parse("x > #", &[])), "unexpected character: '#'");
}

#[test]
fn query_filter_syntax_errors() {
    assert_eq!(message(Filter::parse("", &[])), "expected identifier");
    assert_eq!(message(Filter::parse("(x > 1", &[])), "missing closing parenthesis");
    assert_eq!(message(Filter::parse("x", &[])), "expected comparison operator");
    assert_eq!(message(Filter::parse("x >", &[])), "expected value");
    assert_eq!(message(Filter::parse("x > and", &[])), "expected value, got And");
    assert_eq!(message(Filter::parse("x y", &[])), "expected comparison operator, got Ident(\"y\")");
    assert_eq!(
        message(Filter::parse("x > 1 'z'", &[])),
        "unexpected token at position 3: StringLit(\"z\")"
    );
    match Filter::parse("5 > x", &[]) {
        Err(FilterError::AtNumber(prefix, n)) => {
            assert_eq!(prefix, "expected identifier, got ");
            assert_eq!(n, "5");
        }
        other => panic!("got {other:?}"),
    }
}

#[test]
fn holdout_guard_refuses_number_equality_on_measures_only() {
    let f = Filter::parse("line == 9.0", &dims(&["Time"])).unwrap();
    let err = guard_filter_f64_equality(&f).unwrap_err();
    assert_eq!(
        err,
        "holdout filter uses bare equality on F64 measure \"line\": float `==` is hazardous and \
         no discrete-marking exists. Use a range (line >= LO and line <= HI) or an explicit \
         tolerance instead."
    );
    let ok = Filter::parse("Time == 2025 and line >= 8.99 and line <= 9.01 and name != 'x'", &dims(&["Time"]))
        .unwrap();
    assert!(guard_filter_f64_equality(&ok).is_ok());
    let nested = Filter::parse("not (a > 1 or b != 2)", &[]).unwrap();
    assert!(guard_filter_f64_equality(&nested).unwrap_err().contains("\"b\""));
}
