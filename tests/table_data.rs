use nibble::error::NibbleError;
use nibble::json::{parse_json, table_from_json_doc, JsonCell, JsonDoc, JsonRow};
use nibble::style::StyleConfig;
use nibble::table::{
    column_count, column_widths, equal_widths, load_table, parse_csv, parse_file_content,
    parse_inline_data, parse_rows, parse_table_data, parse_widths, split_header, TableArgs,
};

fn rows(t: &[&[&str]]) -> Vec<Vec<String>> {
    t.iter().map(|r| r.iter().map(|c| c.to_string()).collect()).collect()
}

fn args() -> TableArgs {
    TableArgs {
        data: None,
        file: None,
        headers: None,
        title: String::new(),
        height: 10,
        widths: None,
        row_separator: ";".to_string(),
        col_separator: ",".to_string(),
        highlight_header: false,
        style: StyleConfig::default(),
    }
}

#[test]
fn inline_data_is_split_and_trimmed() {
    let t = parse_inline_data("Name, Age ,City;Alice,30,NYC; ;Bob,25,LA;", ";", ",").unwrap();
    assert_eq!(
        t,
        rows(&[&["Name", "Age", "City"], &["Alice", "30", "NYC"], &["Bob", "25", "LA"]])
    );
}

#[test]
fn inline_data_with_long_separators() {
    let t = parse_inline_data("a||b::c||d", "::", "||").unwrap();
    assert_eq!(t, rows(&[&["a", "b"], &["c", "d"]]));
}

#[test]
fn empty_separator_splits_every_character() {
    assert_eq!(parse_rows("ab", "", ","), rows(&[&["a"], &["b"]]));
    assert_eq!(parse_rows("a,b", ";", ""), rows(&[&["", "a", ",", "b", ""]]));
}

#[test]
fn blank_inline_data_is_refused() {
    assert_eq!(
        parse_inline_data(" ; ;", ";", ","),
        Err(NibbleError::ConfigError("Inline data is empty".to_string()))
    );
}

#[test]
fn csv_lines_skip_blanks_and_carriage_returns() {
    let t = parse_csv("h1,h2\r\n\n  \nx , y\r\nz,\n").unwrap();
    assert_eq!(t, rows(&[&["h1", "h2"], &["x", "y"], &["z", ""]]));
    assert_eq!(
        parse_csv("\n \n"),
        Err(NibbleError::ConfigError("CSV file is empty".to_string()))
    );
}

#[test]
fn json_array_of_arrays() {
    let t = parse_json(r#"[["a", 1, true, null], [2.5, [1,2], {"k":"v"}], 7]"#).unwrap();
    assert_eq!(
        t,
        rows(&[&["a", "1", "true", "null"], &["2.5", "[1,2]", "{\"k\":\"v\"}"]])
    );
}

#[test]
fn json_array_of_objects_uses_first_objects_keys() {
    let t = parse_json(r#"[{"name":"Al","age":3},{"age":4,"extra":1},{"name":"Bo"},5]"#).unwrap();
    assert_eq!(
        t,
        rows(&[&["age", "name"], &["3", "Al"], &["4", ""], &["", "Bo"]])
    );
}

#[test]
fn json_errors() {
    assert_eq!(
        parse_json("[]"),
        Err(NibbleError::ConfigError("JSON array is empty".to_string()))
    );
    assert_eq!(
        parse_json("{\"a\":1}"),
        Err(NibbleError::ConfigError("JSON root must be an array".to_string()))
    );
    assert_eq!(
        parse_json("[1,2]"),
        Err(NibbleError::ConfigError(
            "JSON must be array of arrays or array of objects".to_string()
        ))
    );
    match parse_json("[1,") {
        Err(NibbleError::ConfigError(m)) => assert!(m.starts_with("Invalid JSON: ")),
        other => panic!("unexpected {:?}", other),
    }
}

#[test]
fn file_content_is_read_by_extension() {
    assert_eq!(
        parse_file_content("data.json", "[[\"x\"]]").unwrap(),
        rows(&[&["x"]])
    );
    assert_eq!(parse_file_content("data.csv", "a,b").unwrap(), rows(&[&["a", "b"]]));
    assert_eq!(parse_file_content("data.txt", "a;b").unwrap(), rows(&[&["a;b"]]));
}

#[test]
fn table_data_prefers_the_file() {
    let mut a = args();
    a.data = Some("p,q".to_string());
    assert_eq!(parse_table_data(&a, "").unwrap(), rows(&[&["p", "q"]]));
    a.file = Some("t.csv".to_string());
    assert_eq!(parse_table_data(&a, "r,s").unwrap(), rows(&[&["r", "s"]]));
    let none = args();
    assert_eq!(
        parse_table_data(&none, ""),
        Err(NibbleError::ConfigError("No data source provided".to_string()))
    );
}

#[test]
fn table_options_are_checked() {
    let mut a = args();
    assert_eq!(
        a.validate(),
        Err(NibbleError::ConfigError(
            "Either --data or --file must be provided".to_string()
        ))
    );
    a.data = Some("x".to_string());
    assert_eq!(a.validate(), Ok(()));
    a.height = 0;
    assert_eq!(
        a.validate(),
        Err(NibbleError::InvalidDimensions(
            "Height must be greater than 0".to_string()
        ))
    );
}

#[test]
fn loaded_table_has_rows() {
    let mut a = args();
    a.data = Some("x,y;z".to_string());
    assert_eq!(load_table(&a, "").unwrap(), rows(&[&["x", "y"], &["z"]]));
    a.data = Some(";;".to_string());
    assert!(load_table(&a, "").is_err());
}

#[test]
fn widths_are_read_and_checked() {
    assert_eq!(parse_widths(" 30, 40 ,+30", 3), Ok(vec![30, 40, 30]));
    assert_eq!(
        parse_widths("30,x", 2),
        Err(NibbleError::ConfigError("Invalid width value: x".to_string()))
    );
    assert_eq!(
        parse_widths("30,70000", 2),
        Err(NibbleError::ConfigError("Invalid width value: 70000".to_string()))
    );
    assert_eq!(
        parse_widths("50,50", 3),
        Err(NibbleError::ConfigError(
            "Number of widths (2) doesn't match number of columns (3)".to_string()
        ))
    );
    assert_eq!(
        parse_widths("60,50", 2),
        Err(NibbleError::ConfigError(
            "Column widths sum to 110%, must be 100% or less".to_string()
        ))
    );
    assert_eq!(
        parse_widths("65535,65535", 2),
        Err(NibbleError::ConfigError(
            "Column widths sum to 131070%, must be 100% or less".to_string()
        ))
    );
}

#[test]
fn equal_widths_share_the_line() {
    assert_eq!(equal_widths(3), vec![33, 33, 33]);
    assert_eq!(equal_widths(1), vec![100]);
    assert_eq!(equal_widths(150).len(), 150);
    assert!(equal_widths(150).iter().all(|w| *w == 1));
    assert!(equal_widths(0).is_empty());
    assert_eq!(column_widths(&None, 4), Ok(vec![25, 25, 25, 25]));
    assert_eq!(column_widths(&Some("10,90".to_string()), 2), Ok(vec![10, 90]));
}

#[test]
fn column_count_is_longest_row() {
    assert_eq!(column_count(&rows(&[&["a"], &["b", "c", "d"], &["e", "f"]])), 3);
    assert_eq!(column_count(&Vec::new()), 0);
}

#[test]
fn header_comes_from_option_or_first_row() {
    let data = rows(&[&["h1", "h2"], &["a", "b"]]);
    let (h, body) = split_header(data.clone(), &None);
    assert_eq!(h, vec!["h1".to_string(), "h2".to_string()]);
    assert_eq!(body, rows(&[&["a", "b"]]));
    let (h, body) = split_header(data.clone(), &Some(" X , Y".to_string()));
    assert_eq!(h, vec!["X".to_string(), "Y".to_string()]);
    assert_eq!(body, data);
    let single = rows(&[&["only"]]);
    let (h, body) = split_header(single.clone(), &None);
    assert!(h.is_empty());
    assert_eq!(body, single);
}

#[test]
fn parsed_documents_give_their_tables() {
    assert_eq!(
        table_from_json_doc(&JsonDoc::Invalid("bad".to_string())),
        Err(NibbleError::ConfigError("Invalid JSON: bad".to_string()))
    );
    assert_eq!(
        table_from_json_doc(&JsonDoc::NotArray),
        Err(NibbleError::ConfigError("JSON root must be an array".to_string()))
    );
    let doc = JsonDoc::Array(vec![
        JsonRow::Object(vec![
            ("a".to_string(), JsonCell::Bool(false)),
            ("b".to_string(), JsonCell::Null),
        ]),
        JsonRow::Other,
        JsonRow::Object(vec![("b".to_string(), JsonCell::Number("-3".to_string()))]),
    ]);
    assert_eq!(
        table_from_json_doc(&doc).unwrap(),
        rows(&[&["a", "b"], &["false", "null"], &["", "-3"]])
    );
}

#[test]
fn json_file_reads_as_its_content() {
    let text = r#"[{"x":1}]"#;
    assert_eq!(parse_file_content("t.json", text), parse_json(text));
    assert_eq!(
        parse_json("{"),
        parse_file_content("a.json", "{")
    );
    assert_eq!(
        parse_json("\"true\""),
        Err(NibbleError::ConfigError("JSON root must be an array".to_string()))
    );
}
