//! Row selection on a key column.

use corporate_nayose::tables::decimal_string;
use corporate_nayose::tables::rows::{first_rows_exec, present_rows_exec};

fn keys(values: &[Option<&str>]) -> Vec<Option<String>> {
    values.iter().map(|v| v.map(str::to_string)).collect()
}

#[test]
fn present_rows_skip_null_and_empty_keys() {
    let k = keys(&[Some("1"), None, Some(""), Some("2"), Some("1")]);
    assert_eq!(present_rows_exec(&k), vec![0, 3, 4]);
}

#[test]
fn first_rows_keep_the_first_of_each_key() {
    let k = keys(&[Some("b"), Some("a"), None, Some("b"), Some(""), Some("c"), Some("a"), Some("b")]);
    assert_eq!(first_rows_exec(&k), vec![0, 1, 5]);
}

#[test]
fn first_rows_are_idempotent() {
    let k = keys(&[Some("x"), Some("y"), Some("x"), Some("z"), Some("y")]);
    let rows = first_rows_exec(&k);
    let kept: Vec<Option<String>> = rows.iter().map(|&r| k[r].clone()).collect();
    assert_eq!(first_rows_exec(&kept), vec![0, 1, 2]);
}

#[test]
fn first_rows_tell_apart_keys_that_share_bytes() {
    let k = keys(&[Some("ab"), Some("ba"), Some("a"), Some("ab"), Some("法人"), Some("法人")]);
    assert_eq!(first_rows_exec(&k), vec![0, 1, 2, 4]);
}

#[test]
fn decimal_strings() {
    assert_eq!(decimal_string(0), "0");
    assert_eq!(decimal_string(9), "9");
    assert_eq!(decimal_string(10), "10");
    assert_eq!(decimal_string(4294967295), "4294967295");
}
