use mc_cli::tessera::propose::{propose_driver, propose_template};

#[test]
fn propose_driver_from_extension() {
    assert_eq!(propose_driver("data/bets.csv"), "csv");
    assert_eq!(propose_driver("data/bets.sqlite3"), "sqlite");
    assert_eq!(propose_driver("a.db"), "sqlite");
    assert_eq!(propose_driver("./x/warehouse.duckdb"), "duckdb");
    assert_eq!(propose_driver("noext"), "csv");
    assert_eq!(propose_driver(".duckdb"), "csv");
    assert_eq!(propose_driver("dir/b.duckdb/"), "duckdb");
    assert_eq!(propose_driver("dir/x.duckdb/.."), "csv");
}

#[test]
fn propose_template_text() {
    let dims = vec!["Time".to_string(), "Measure".to_string(), "Region".to_string()];
    let measures = vec![
        ("Spend".to_string(), "Input".to_string()),
        ("Revenue".to_string(), "Derived".to_string()),
        ("Price".to_string(), "Input".to_string()),
    ];
    let cols = vec!["date".to_string(), "amount".to_string()];
    let t = propose_template("s.csv", "m.yaml", "csv", &dims, &measures, &cols);
    let expected = "# Tessera recipe template — generated by `mc tessera propose`\n\
# Source: s.csv\n\
# Model:  m.yaml\n\
#\n\
# Model dimensions: Time, Region\n\
# Model input measures: Spend, Price\n\
#\n\
# Source columns: date, amount\n\
#\n\
# TODO: map each source column to a dimension or measure below.\n\
\n\
version: 1\n\
name: TODO-recipe-name\n\
model: m.yaml\n\
\n\
source:\n  driver: csv\n  path: s.csv\n\
\n\
columns:\n  - source: date\n    # TODO: map to dimension or measure\n  - source: amount\n    # TODO: map to dimension or measure\n\
\n\
defaults: {}\n\
\n\
write_disposition: replace\n\
on_error: abort\n\
on_missing_element: error\n\
\n\
batch:\n  size: 50000\n";
    assert_eq!(t, expected);
}
