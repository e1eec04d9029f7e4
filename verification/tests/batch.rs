use rzem_ai_inference::batch::{
    batch_parse_csv, batch_parse_data, data_format, generate_combinations, parse_csv, parse_json, parse_json_document,
    render_template, BatchData, BatchError, BatchRow, DataFormat, JsonDocument, JsonValue,
};

fn row(pairs: &[(&str, &str)]) -> BatchRow {
    let mut r = BatchRow::new();
    for (k, v) in pairs {
        r.insert(k.to_string(), v.to_string());
    }
    r
}

fn text(s: &str) -> JsonValue {
    JsonValue::Text(s.to_string())
}

fn object(pairs: &[(&str, &str)]) -> JsonValue {
    let entries: Vec<(String, JsonValue)> = pairs.iter().map(|(k, v)| (k.to_string(), text(v))).collect();
    let body: Vec<String> = pairs.iter().map(|(k, v)| format!("\"{}\":\"{}\"", k, v)).collect();
    JsonValue::Object(entries, format!("{{{}}}", body.join(",")))
}

fn array_of_texts(items: &[&str]) -> JsonValue {
    let values: Vec<JsonValue> = items.iter().map(|s| text(s)).collect();
    let body: Vec<String> = items.iter().map(|s| format!("\"{}\"", s)).collect();
    JsonValue::Array(values, format!("[{}]", body.join(",")))
}

#[test]
fn test_two_columns_two_values_each() {
    let data = BatchData {
        columns: vec!["style".to_string(), "subject".to_string()],
        rows: vec![
            row(&[("style", "watercolor"), ("subject", "cat")]),
            row(&[("style", "oil"), ("subject", "dog")]),
        ],
    };

    let result = generate_combinations(data).unwrap();
    assert_eq!(result.rows.len(), 4);

    let has_combo = |style: &str, subject: &str| {
        result.rows.iter().any(|row| {
            row.get("style") == Some(&style.to_string()) && row.get("subject") == Some(&subject.to_string())
        })
    };

    assert!(has_combo("watercolor", "cat"));
    assert!(has_combo("watercolor", "dog"));
    assert!(has_combo("oil", "cat"));
    assert!(has_combo("oil", "dog"));
}

#[test]
fn test_three_columns_varying_values() {
    let data = BatchData {
        columns: vec!["a".to_string(), "b".to_string(), "c".to_string()],
        rows: vec![
            row(&[("a", "1"), ("b", "x"), ("c", "red")]),
            row(&[("a", "2"), ("b", "y"), ("c", "red")]),
        ],
    };

    let result = generate_combinations(data).unwrap();
    assert_eq!(result.rows.len(), 4);
}

#[test]
fn test_empty_data() {
    let data = BatchData { columns: vec!["col1".to_string()], rows: vec![] };

    let result = generate_combinations(data).unwrap();
    assert_eq!(result.rows.len(), 0);
}

#[test]
fn combinations_keep_first_seen_order() {
    let data = BatchData {
        columns: vec!["a".to_string(), "b".to_string()],
        rows: vec![row(&[("a", "1"), ("b", "x")]), row(&[("a", "2"), ("b", "x")])],
    };
    let result = generate_combinations(data).unwrap();
    assert_eq!(result.rows.len(), 2);
    assert_eq!(result.rows[0].get("a"), Some(&"1".to_string()));
    assert_eq!(result.rows[1].get("a"), Some(&"2".to_string()));
    assert_eq!(result.columns, vec!["a".to_string(), "b".to_string()]);
}

#[test]
fn test_csv_parsing() {
    let csv_content = "style,subject,lighting\nwatercolor,cat,soft\noil painting,dog,dramatic";
    let result = parse_csv(csv_content).unwrap();

    assert_eq!(result.columns.len(), 3);
    assert_eq!(result.rows.len(), 2);
    assert_eq!(result.rows[0].get("style").unwrap(), "watercolor");
    assert_eq!(result.rows[0].get("subject").unwrap(), "cat");
}

#[test]
fn csv_keeps_fields_as_written_and_needs_rows() {
    let result = parse_csv("a,b\n1, 2").unwrap();
    assert_eq!(result.columns, vec!["a".to_string(), "b".to_string()]);
    assert_eq!(result.rows[0].get("b").unwrap(), " 2");
    assert!(matches!(parse_csv("a,b\n"), Err(BatchError::CsvNoRows)));
    assert!(parse_csv("").is_err());
}

#[test]
fn csv_rows_of_the_wrong_length_are_refused() {
    let e = parse_csv("a,b\n1,2\n3").unwrap_err();
    assert!(matches!(e, BatchError::CsvRow(2, _)));
    assert!(e.message().starts_with("Failed to parse CSV row 2"));
}

#[test]
fn csv_error_messages() {
    let e = batch_parse_csv("a,b\n").unwrap_err();
    assert_eq!(e, "CSV parse error: CSV file has no data rows");
}

#[test]
fn json_array_document_parsing() {
    let doc = JsonDocument::Array(vec![
        object(&[("style", "watercolor"), ("subject", "cat")]),
        object(&[("style", "oil painting"), ("subject", "dog")]),
    ]);
    let result = parse_json_document(&doc).unwrap();

    assert_eq!(result.columns.len(), 2);
    assert_eq!(result.rows.len(), 2);
}

#[test]
fn json_object_document_parsing() {
    let doc = JsonDocument::Object(vec![
        ("style".to_string(), array_of_texts(&["watercolor", "oil painting"])),
        ("subject".to_string(), array_of_texts(&["cat", "dog"])),
    ]);
    let result = parse_json_document(&doc).unwrap();

    assert_eq!(result.columns.len(), 2);
    assert_eq!(result.rows.len(), 2);
}

#[test]
fn json_arrays_of_unequal_length_are_refused() {
    let doc = JsonDocument::Object(vec![
        ("style".to_string(), array_of_texts(&["watercolor", "oil"])),
        ("subject".to_string(), array_of_texts(&["cat"])),
    ]);
    let e = parse_json_document(&doc).unwrap_err();
    assert!(matches!(e, BatchError::JsonLengthMismatch(2, 1, ref k) if k == "subject"));
    assert_eq!(e.message(), "All arrays must have the same length. Expected 2, got 1 for key 'subject'");
}

#[test]
fn json_shape_errors() {
    assert!(matches!(parse_json_document(&JsonDocument::Array(vec![])), Err(BatchError::JsonArrayEmpty)));
    assert!(matches!(parse_json_document(&JsonDocument::Object(vec![])), Err(BatchError::JsonObjectEmpty)));
    assert!(matches!(parse_json_document(&JsonDocument::Scalar), Err(BatchError::JsonShape)));
    let not_arrays = JsonDocument::Object(vec![("a".to_string(), text("x"))]);
    assert!(matches!(parse_json_document(&not_arrays), Err(BatchError::JsonValueNotArray)));
}

#[test]
fn json_numbers_and_nulls_become_cell_text() {
    let entries = vec![
        ("n".to_string(), JsonValue::Number("42".to_string())),
        ("z".to_string(), JsonValue::Null),
        ("b".to_string(), JsonValue::Bool(true)),
    ];
    let doc = JsonDocument::Array(vec![JsonValue::Object(entries, "{\"b\":true,\"n\":42,\"z\":null}".to_string())]);
    let result = parse_json_document(&doc).unwrap();
    assert_eq!(result.rows[0].get("n").unwrap(), "42");
    assert_eq!(result.rows[0].get("z").unwrap(), "");
    assert_eq!(result.rows[0].get("b").unwrap(), "true");
}

#[test]
fn test_template_rendering() {
    let rows = vec![
        row(&[("style", "watercolor"), ("subject", "cat")]),
        row(&[("style", "oil painting"), ("subject", "dog")]),
    ];

    let template = "A {{ style }} painting of {{ subject }}";
    let result = render_template(template, rows);

    assert_eq!(result.rendered.len(), 2);
    assert_eq!(result.errors.len(), 0);
    assert_eq!(result.rendered[0], "A watercolor painting of cat");
    // The second row's style is "oil painting", and the template writes
    // "painting" after it, so the word comes twice.
    assert_eq!(result.rendered[1], "A oil painting painting of dog");
}

#[test]
fn test_template_with_filter() {
    let rows = vec![row(&[("subject", "cat")])];

    let template = "{{ subject | upper }}";
    let result = render_template(template, rows);

    assert_eq!(result.rendered.len(), 1);
    assert_eq!(result.errors.len(), 0);
    assert_eq!(result.rendered[0], "CAT");
}

#[test]
fn test_template_with_missing_variable() {
    let rows = vec![row(&[("style", "watercolor")])];

    let template = "A {{ style }} painting of {{ missing_variable }}";
    let result = render_template(template, rows);

    assert_eq!(result.rendered.len(), 1);
    assert_eq!(result.errors.len(), 1);
    assert_eq!(result.errors[0].row, 0);
    assert!(result.errors[0].error.contains("undefined"));
}

#[test]
fn test_template_syntax_error() {
    let rows = vec![row(&[("style", "watercolor")])];

    let template = "A {{ style }} painting of {{ subject";
    let result = render_template(template, rows);

    assert_eq!(result.errors.len(), 1);
    assert!(result.errors[0].error.contains("syntax"));
}

#[test]
fn data_formats() {
    assert!(matches!(data_format("csv"), Ok(DataFormat::Csv)));
    assert!(matches!(data_format("JSON"), Ok(DataFormat::Json)));
    assert_eq!(data_format("xml").unwrap_err(), "Unsupported format: xml. Use 'csv' or 'json'");
}

#[test]
fn template_default_filter_fills_missing_values() {
    let rows = vec![row(&[("style", "ink")])];
    let result = render_template("{{ style }} {{ mood | default(\"calm\") }}", rows);
    assert_eq!(result.errors.len(), 0);
    assert_eq!(result.rendered[0], "ink calm");
}

#[test]
fn test_json_array_parsing() {
    let json_content = r#"[
            {"style": "watercolor", "subject": "cat"},
            {"style": "oil painting", "subject": "dog"}
        ]"#;
    let result = parse_json(json_content).unwrap();

    assert_eq!(result.columns.len(), 2);
    assert_eq!(result.rows.len(), 2);
}

#[test]
fn test_json_object_parsing() {
    let json_content = r#"{
            "style": ["watercolor", "oil painting"],
            "subject": ["cat", "dog"]
        }"#;
    let result = parse_json(json_content).unwrap();

    assert_eq!(result.columns.len(), 2);
    assert_eq!(result.rows.len(), 2);
}

#[test]
fn json_text_cells_and_errors() {
    let data = parse_json(r#"[{"b": 1.5, "a": null, "c": [1, {"x": true}], "d": "t"}]"#).unwrap();
    assert_eq!(data.columns, vec!["a", "b", "c", "d"]);
    assert_eq!(data.rows[0].get("a"), Some(&String::new()));
    assert_eq!(data.rows[0].get("b"), Some(&"1.5".to_string()));
    assert_eq!(data.rows[0].get("c"), Some(&r#"[1,{"x":true}]"#.to_string()));
    assert_eq!(data.rows[0].get("d"), Some(&"t".to_string()));
    let cols = parse_json(r#"{"z": [{"k": 1}], "y": [2]}"#).unwrap();
    assert_eq!(cols.columns, vec!["y", "z"]);
    assert_eq!(cols.rows[0].get("z"), Some(&r#"{"k":1}"#.to_string()));
    assert!(matches!(parse_json("not json"), Err(BatchError::JsonShape)));
    assert!(matches!(parse_json("42"), Err(BatchError::JsonShape)));
    assert!(matches!(parse_json("[1, 2]"), Err(BatchError::JsonShape)));
    assert!(matches!(parse_json("[]"), Err(BatchError::JsonArrayEmpty)));
    assert!(matches!(parse_json(r#"{"a": 1}"#), Err(BatchError::JsonValueNotArray)));
}

#[test]
fn batch_data_by_format_name() {
    assert_eq!(batch_parse_data("a,b\n1,2\n", "CSV").unwrap().rows.len(), 1);
    assert_eq!(batch_parse_data(r#"[{"a": "1"}]"#, "Json").unwrap().columns, vec!["a"]);
    assert_eq!(
        batch_parse_data("{}", "json").unwrap_err(),
        "JSON parse error: JSON object is empty"
    );
    assert_eq!(batch_parse_data("x", "xml").unwrap_err(), "Unsupported format: xml. Use 'csv' or 'json'");
}

#[test]
fn combinations_of_combinations_are_unchanged() {
    let columns = vec!["style".to_string(), "subject".to_string()];
    let data = BatchData {
        columns: columns.clone(),
        rows: vec![
            row(&[("style", "watercolor"), ("subject", "cat")]),
            row(&[("style", "oil"), ("subject", "dog")]),
            row(&[("style", "oil"), ("subject", "cat")]),
        ],
    };
    let once = generate_combinations(data).unwrap();
    let snapshot: Vec<Vec<Option<String>>> =
        once.rows.iter().map(|r| columns.iter().map(|c| r.get(c).cloned()).collect()).collect();
    let twice = generate_combinations(once).unwrap();
    let again: Vec<Vec<Option<String>>> =
        twice.rows.iter().map(|r| columns.iter().map(|c| r.get(c).cloned()).collect()).collect();
    assert_eq!(twice.columns, columns);
    assert_eq!(again, snapshot);
    assert_eq!(again.len(), 4);
}
