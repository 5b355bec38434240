use mc_cli::coord_map::CoordMap;
use mc_cli::query::output::{format_csv, format_json, format_text, CellTexts, QueryRow};

fn cell(text: &str, csv: &str, json: &str) -> CellTexts {
    CellTexts { text: text.to_string(), csv: csv.to_string(), json: json.to_string() }
}

fn sample_rows() -> Vec<QueryRow> {
    let mut c1 = CoordMap::new();
    c1.insert("product".to_string(), "A".to_string());
    c1.insert("region".to_string(), "East".to_string());
    let mut c2 = CoordMap::new();
    c2.insert("product".to_string(), "B".to_string());
    vec![
        QueryRow {
            coord: c1,
            values: vec![
                ("margin".to_string(), cell("0.250000", "0.25", "0.25")),
                ("revenue".to_string(), cell("100", "100", "100")),
            ],
        },
        QueryRow { coord: c2, values: vec![("revenue".to_string(), cell("7", "7", "7"))] },
    ]
}

#[test]
fn text_listing_pads_columns_and_marks_missing_cells() {
    let out = format_text(&sample_rows(), 2);
    let expected = format!(
        "{:<15}{:<15}{:<15}{:<15}\n{:<15}{:<15}{:<15}{:<15}\n{:<15}{:<15}{:<15}{:<15}\n\n2 rows\n",
        "product", "region", "margin", "revenue", "A", "East", "0.250000", "100", "B", "-", "-", "7"
    );
    assert_eq!(out, expected);
}

#[test]
fn text_listing_without_rows_reports_count() {
    assert_eq!(format_text(&Vec::new(), 3), "No results (3 rows matched)\n");
}

#[test]
fn csv_listing_leaves_missing_cells_blank() {
    let out = format_csv(&sample_rows());
    assert_eq!(out, "product,region,margin,revenue\nA,East,0.25,100\nB,,,7\n");
    assert_eq!(format_csv(&Vec::new()), "");
}

#[test]
fn json_listing_envelope() {
    let out = format_json("1.0", &sample_rows(), &Some("revenue > 5".to_string()), 2);
    let expected = "{\n  \"schema_version\": \"1.0\",\n  \"query\": \"revenue > 5\",\n  \"results\": [\n    {\"coord\": {\"product\":\"A\",\"region\":\"East\"}, \"values\": {\"margin\":0.25,\"revenue\":100}},\n    {\"coord\": {\"product\":\"B\"}, \"values\": {\"revenue\":7}}\n  ],\n  \"count\": 2,\n  \"aggregates\": null\n}\n";
    assert_eq!(out, expected);
    let empty = format_json("1.0", &Vec::new(), &None, 0);
    assert_eq!(
        empty,
        "{\n  \"schema_version\": \"1.0\",\n  \"query\": null,\n  \"results\": [\n  ],\n  \"count\": 0,\n  \"aggregates\": null\n}\n"
    );
}
