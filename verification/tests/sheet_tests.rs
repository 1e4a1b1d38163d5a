use serde_json::Value;
use sheet_accounts::sheet_helper::{
    sheet_titles_contain, to_json_vec, to_string_vec, AppError, CellRange,
};
use sheet_accounts::sheet_serialize::{SerializeArgs, SerializeError};

fn grid(rows: &[&[&str]]) -> Vec<Vec<String>> {
    rows.iter().map(|r| r.iter().map(|c| c.to_string()).collect()).collect()
}

#[test]
fn json_cells_round_trip() {
    let g = grid(&[&["20"], &["Programming Points"], &[], &["a", "b", "c", "d"]]);
    let json = to_json_vec(g.clone());
    assert_eq!(json[0][0], Value::String("20".to_string()));
    assert_eq!(json[3].len(), 4);
    assert_eq!(to_string_vec(json), g);
}

#[test]
fn non_string_cells_read_as_empty() {
    let json = vec![vec![
        Value::String("x".to_string()),
        Value::from(5),
        Value::Null,
        Value::Bool(true),
    ]];
    assert_eq!(to_string_vec(json), vec![vec!["x".to_string(), String::new(), String::new(), String::new()]]);
}

#[test]
fn a1_notation_of_ranges() {
    let whole = CellRange { sheet: "Bob_ACCOUNT".to_string(), first_column: 0, last_column: 4, row: None };
    assert_eq!(whole.a1_notation(), "Bob_ACCOUNT!A:E");
    let one_row = CellRange { sheet: "Bob_ACCOUNT".to_string(), first_column: 0, last_column: 3, row: Some(5) };
    assert_eq!(one_row.a1_notation(), "Bob_ACCOUNT!A5:D5");
    let wide = CellRange { sheet: "S".to_string(), first_column: 25, last_column: 27, row: Some(120) };
    assert_eq!(wide.a1_notation(), "S!Z120:AB120");
    let far = CellRange { sheet: "S".to_string(), first_column: 701, last_column: 702, row: None };
    assert_eq!(far.a1_notation(), "S!ZZ:AAA");
}

#[test]
fn titles_are_searched_exactly() {
    let titles = vec!["Sheet1".to_string(), "Bob_ACCOUNT".to_string()];
    assert!(sheet_titles_contain(&titles, "Bob_ACCOUNT"));
    assert!(!sheet_titles_contain(&titles, "bob_ACCOUNT"));
    assert!(!sheet_titles_contain(&titles, "Bob"));
    assert!(!sheet_titles_contain(&vec![], "Bob_ACCOUNT"));
}

#[test]
fn serialize_args_start_empty() {
    let args = SerializeArgs::new();
    assert!(args.sheet.is_none());
    assert!(args.start_idx.is_none());
}

#[test]
fn error_texts() {
    assert_eq!(SerializeError::SheetNotProvided.message(), "Sheet name not provided!");
    assert_eq!(SerializeError::IndexNotProvided.message(), "Index not provided!");
    assert_eq!(SerializeError::WriteFailed.message(), "Failed");
    assert_eq!(SerializeError::ReadFailed.message(), "failure");
    assert_eq!(AppError::NotInitialized.name(), "NotInitialized");
    assert_eq!(AppError::NoValues.name(), "NoValues");
}
