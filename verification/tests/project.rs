//! Projection of a raw (all-text) table through a column mapping.

use corporate_nayose::tables::{
    convert_column, count_input, find_column, normalize_text, project, ColType, Column,
    ColumnSpec, RawTable, TableError,
};

fn text(values: &[Option<&str>]) -> Vec<Option<String>> {
    values.iter().map(|v| v.map(str::to_string)).collect()
}

fn raw(names: &[&str], columns: &[Vec<Option<&str>>]) -> RawTable {
    RawTable {
        names: names.iter().map(|n| n.to_string()).collect(),
        columns: columns.iter().map(|c| text(c)).collect(),
    }
}

#[test]
fn project_resolves_bom_prefixed_names_and_casts() {
    let input = raw(
        &["\u{feff}法人番号", "資本金"],
        &[
            vec![Some("1000011000005"), None],
            vec![Some("12345"), Some("67890")],
        ],
    );
    let out = project(
        &input,
        &vec![
            ColumnSpec::new("法人番号", "corporate_number", ColType::Text),
            ColumnSpec::new("資本金", "capital", ColType::U64),
        ],
    )
    .unwrap();
    assert_eq!(out.names, vec!["corporate_number".to_string(), "capital".to_string()]);
    match &out.columns[0] {
        Column::Text(number) => {
            assert_eq!(number.len(), 2);
            assert_eq!(number[0].as_deref(), Some("1000011000005"));
            assert_eq!(number[1], None);
        }
        other => panic!("corporate_number should be text, got {other:?}"),
    }
    match &out.columns[1] {
        Column::U64(capital) => {
            assert_eq!(capital.len(), 2);
            assert_eq!(capital[0], Some(12345));
            assert_eq!(capital[1], Some(67890));
        }
        other => panic!("capital should be u64, got {other:?}"),
    }
}

#[test]
fn project_fails_on_unknown_column() {
    let input = raw(&["法人番号"], &[vec![Some("1")]]);
    let err = project(&input, &vec![ColumnSpec::new("存在しない列", "x", ColType::Text)])
        .err()
        .expect("should fail");
    assert!(matches!(err, TableError::ColumnNotFound(_)));
    assert_eq!(err, TableError::ColumnNotFound("存在しない列".to_string()));
}

#[test]
fn project_reports_the_first_missing_source() {
    let input = raw(&["a"], &[vec![Some("1")]]);
    let err = project(
        &input,
        &vec![
            ColumnSpec::new("a", "a", ColType::Text),
            ColumnSpec::new("b", "b", ColType::Text),
            ColumnSpec::new("c", "c", ColType::Text),
        ],
    )
    .err()
    .unwrap();
    assert_eq!(err, TableError::ColumnNotFound("b".to_string()));
}

#[test]
fn find_column_strips_one_bom_only() {
    let names: Vec<String> = vec!["\u{feff}\u{feff}x".to_string(), "y".to_string(), "\u{feff}x".to_string(), "x".to_string()];
    assert_eq!(find_column(&names, "x"), Some(2));
    assert_eq!(find_column(&names, "\u{feff}x"), Some(0));
    assert_eq!(find_column(&names, "y"), Some(1));
    assert_eq!(find_column(&names, "z"), None);
    assert_eq!(find_column(&names, ""), None);
}

#[test]
fn find_column_takes_the_first_match() {
    let names: Vec<String> = vec!["\u{feff}k".to_string(), "k".to_string()];
    assert_eq!(find_column(&names, "k"), Some(0));
}

#[test]
fn empty_texts_become_null() {
    let out = normalize_text(&text(&[Some(""), None, Some("0310075"), Some(" ")]));
    assert_eq!(out, text(&[None, None, Some("0310075"), Some(" ")]));
}

#[test]
fn integer_columns_parse_or_become_null() {
    let vals = text(&[Some("42"), Some(""), None, Some("abc"), Some("4294967296"), Some("007")]);
    match convert_column(&vals, ColType::U32) {
        Column::U32(v) => assert_eq!(v, vec![Some(42), None, None, None, None, Some(7)]),
        other => panic!("expected u32, got {other:?}"),
    }
    match convert_column(&vals, ColType::U64) {
        Column::U64(v) => {
            assert_eq!(v, vec![Some(42), None, None, None, Some(4294967296), Some(7)])
        }
        other => panic!("expected u64, got {other:?}"),
    }
}

#[test]
fn integer_columns_follow_the_decimal_rule() {
    let vals = text(&[
        Some("+5"),
        Some("+"),
        Some("-1"),
        Some(" 1"),
        Some("1 "),
        Some("00000000000000000000000000042"),
        Some("4294967295"),
        Some("18446744073709551615"),
        Some("18446744073709551616"),
        Some("１２"),
    ]);
    match convert_column(&vals, ColType::U32) {
        Column::U32(v) => assert_eq!(
            v,
            vec![Some(5), None, None, None, None, Some(42), Some(4294967295), None, None, None]
        ),
        other => panic!("expected u32, got {other:?}"),
    }
    match convert_column(&vals, ColType::U64) {
        Column::U64(v) => assert_eq!(
            v,
            vec![
                Some(5),
                None,
                None,
                None,
                None,
                Some(42),
                Some(4294967295),
                Some(18446744073709551615),
                None,
                None
            ]
        ),
        other => panic!("expected u64, got {other:?}"),
    }
}

#[test]
fn date_columns_parse_iso_dates_or_become_null() {
    let vals = text(&[Some("2024-05-01"), Some(""), None, Some("2024-13-01"), Some("1970-01-01")]);
    match convert_column(&vals, ColType::Date) {
        Column::Date(v) => assert_eq!(v, vec![Some(19844), None, None, None, Some(0)]),
        other => panic!("expected date, got {other:?}"),
    }
}

#[test]
fn text_columns_keep_leading_zeros() {
    let vals = text(&[Some("0310075"), Some("")]);
    match convert_column(&vals, ColType::Text) {
        Column::Text(v) => assert_eq!(v, text(&[Some("0310075"), None])),
        other => panic!("expected text, got {other:?}"),
    }
}

#[test]
fn count_input_counts_rows_and_present_keys() {
    let input = raw(
        &["other", "\u{feff}法人番号"],
        &[
            vec![Some("x"), Some("y"), Some("z"), None],
            vec![Some("1"), Some(""), None, Some("1")],
        ],
    );
    assert_eq!(count_input(&input, "法人番号"), Ok((4, 2)));
    assert_eq!(
        count_input(&input, "法人"),
        Err(TableError::KeyColumnNotFound("法人".to_string()))
    );
}
