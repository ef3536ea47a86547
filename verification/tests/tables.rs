//! Building the two tables from raw rows shaped like the registry CSVs.

use corporate_nayose::tables::companies;
use corporate_nayose::tables::establishments;
use corporate_nayose::tables::{Column, RawTable, Table, TableError, TableStats};

/// A raw table from header names and rows of fields ("" for an empty field).
fn raw_from_rows(names: &[&str], rows: &[Vec<&str>]) -> RawTable {
    let columns = (0..names.len())
        .map(|j| rows.iter().map(|r| Some(r[j].to_string())).collect())
        .collect();
    RawTable { names: names.iter().map(|n| n.to_string()).collect(), columns }
}

fn column<'a>(t: &'a Table, name: &str) -> &'a Column {
    let j = t.names.iter().position(|n| n == name).unwrap_or_else(|| panic!("no column {name}"));
    &t.columns[j]
}

fn text_at(t: &Table, name: &str, i: usize) -> Option<String> {
    match column(t, name) {
        Column::Text(v) => v[i].clone(),
        other => panic!("{name} is not text: {other:?}"),
    }
}

fn date_at(t: &Table, name: &str, i: usize) -> Option<i32> {
    match column(t, name) {
        Column::Date(v) => v[i],
        other => panic!("{name} is not a date: {other:?}"),
    }
}

const COMPANY_HEADER: [&str; 27] = [
    "\u{feff}法人番号",
    "商号または名称",
    "商号または名称（カナ）",
    "商号または名称（英字）",
    "登記記録の閉鎖等年月日",
    "登記記録の閉鎖等の事由",
    "登記住所",
    "郵便番号",
    "都道府県",
    "都道府県コード",
    "市区町村（郡）",
    "市区町村コード",
    "番地以下",
    "組織種別",
    "処理区分",
    "訂正区分",
    "状態",
    "代表者名称",
    "資本金",
    "従業員数",
    "事業概要",
    "WebサイトURL",
    "創業年",
    "事業種目",
    "設立年月日",
    "更新年月日",
    "出典元",
];

fn company(number: &str, name: &str, closed: &str, postal: &str, status: &str, capital: &str,
    employees: &str, summary: &str, founded: &str, incorporated: &str, updated: &str) -> Vec<&'static str> {
    let leak = |s: &str| -> &'static str { Box::leak(s.to_string().into_boxed_str()) };
    vec![
        leak(number), leak(name), "", "", leak(closed), "", "東京都", leak(postal), "東京都", "13",
        "千代田区", "101", "1-1", "101", "01", "", leak(status), "", leak(capital), leak(employees),
        leak(summary), "", leak(founded), "", leak(incorporated), leak(updated), "国税庁",
    ]
}

fn companies_fixture() -> RawTable {
    raw_from_rows(
        &COMPANY_HEADER,
        &[
            // (a) active
            company("1000011000005", "国立国会図書館", "", "1000014", "", "", "", "", "", "", "2018-04-02"),
            // (b) closed
            company("2000012010019", "閉鎖会社", "2017-03-31", "1000001", "閉鎖", "", "", "", "", "", "2017-04-01"),
            // (c) duplicates (a), updated later
            company("1000011000005", "国立国会図書館", "", "1000014", "", "", "", "", "", "", "2020-01-01"),
            // (d) numerics and a leading-zero postal code
            company("3000013000001", "青森商事", "", "0310075", "", "10000000", "42", "", "1990", "1990-04-02", "2019-01-01"),
            // (e) quoted comma and embedded newline
            company("4000040000001", "株式会社テスト,商社", "", "1500001", "", "", "", "概要1行目\n概要2行目", "", "", "2019-01-01"),
            // (f) no corporate number
            company("", "番号なし", "", "1000001", "", "", "", "", "", "", "2019-01-01"),
        ],
    )
}

#[test]
fn companies_build_keeps_first_of_each_corporate_number() {
    let (t, stats) = companies::build(&companies_fixture()).unwrap();

    assert_eq!(stats, TableStats { input_rows: 6, null_key_rows: 1, duplicate_rows: 1, output_rows: 4 });
    assert_eq!(t.names.len(), 26);
    assert_eq!(t.names[0], "corporate_number");
    assert!(!t.names.iter().any(|n| n == "出典元"));

    assert!(matches!(column(&t, "corporate_number"), Column::Text(v) if v.len() == 4));
    assert!(matches!(column(&t, "capital"), Column::U64(_)));
    assert!(matches!(column(&t, "employees"), Column::U32(_)));
    assert!(matches!(column(&t, "founded_year"), Column::U32(_)));
    assert!(matches!(column(&t, "closed_date"), Column::Date(_)));

    // keep-first dedup: row (a) wins over (c), updated_date stays 2018-04-02
    assert_eq!(date_at(&t, "updated_date", 0), Some(17623));
    // (a): active, status null
    assert_eq!(text_at(&t, "status", 0), None);
    assert_eq!(text_at(&t, "postal_code", 0).as_deref(), Some("1000014"));
    // (b): closed, kept
    assert_eq!(text_at(&t, "status", 1).as_deref(), Some("閉鎖"));
    assert_eq!(date_at(&t, "closed_date", 1), Some(17256));
    // (d): numerics, leading zero kept
    assert_eq!(text_at(&t, "postal_code", 2).as_deref(), Some("0310075"));
    assert!(matches!(column(&t, "capital"), Column::U64(v) if v[2] == Some(10_000_000) && v[0].is_none()));
    assert!(matches!(column(&t, "employees"), Column::U32(v) if v[2] == Some(42)));
    assert!(matches!(column(&t, "founded_year"), Column::U32(v) if v[2] == Some(1990)));
    assert_eq!(date_at(&t, "incorporation_date", 2), Some(7396));
    // (e): quoted comma and embedded newline survive
    assert_eq!(text_at(&t, "corporate_name", 3).as_deref(), Some("株式会社テスト,商社"));
    assert_eq!(text_at(&t, "business_summary", 3).as_deref(), Some("概要1行目\n概要2行目"));
    assert_eq!(text_at(&t, "corporate_number", 3).as_deref(), Some("4000040000001"));
}

#[test]
fn companies_stats_add_up() {
    let (_, s) = companies::build(&companies_fixture()).unwrap();
    assert_eq!(s.input_rows, s.null_key_rows + s.duplicate_rows + s.output_rows);
}

#[test]
fn companies_build_needs_the_key_column() {
    let mut raw = companies_fixture();
    raw.names[0] = "番号".to_string();
    assert_eq!(
        companies::build(&raw).err(),
        Some(TableError::KeyColumnNotFound("法人番号".to_string()))
    );
}

#[test]
fn companies_build_needs_every_mapped_column() {
    let mut raw = companies_fixture();
    raw.names[18] = "資本".to_string();
    assert_eq!(
        companies::build(&raw).err(),
        Some(TableError::ColumnNotFound("資本金".to_string()))
    );
}

#[test]
fn companies_build_of_an_empty_csv() {
    let raw = raw_from_rows(&COMPANY_HEADER, &[]);
    let (t, s) = companies::build(&raw).unwrap();
    assert_eq!(s, TableStats { input_rows: 0, null_key_rows: 0, duplicate_rows: 0, output_rows: 0 });
    assert_eq!(t.columns.len(), 26);
}

const ESTABLISHMENT_HEADER: [&str; 15] = [
    "法人番号",
    "商号または名称",
    "登記住所",
    "名称",
    "名称(カナ)",
    "事業所住所",
    "事業所住所(カナ)",
    "被保険者数",
    "全喪年月日",
    "事業所番号",
    "都道府県",
    "市区町村",
    "業種",
    "更新年月日",
    "出典元",
];

fn establishment(number: &str, name: &str, insured: &str, end: &str) -> Vec<&'static str> {
    let leak = |s: &str| -> &'static str { Box::leak(s.to_string().into_boxed_str()) };
    vec![
        leak(number), "宮城県後期高齢者医療広域連合", "宮城県仙台市", leak(name), "", "宮城県仙台市", "",
        leak(insured), leak(end), "1", "宮城県", "仙台市", "公務", "2024-06-01", "年金機構",
    ]
}

#[test]
fn establishments_build_keeps_every_establishment() {
    let raw = raw_from_rows(
        &ESTABLISHMENT_HEADER,
        &[
            establishment("1000020049727", "本社", "8", ""),
            establishment("1000020049727", "支店", "", ""),
            establishment("2000020049728", "事務所", "14", "2024-05-01"),
        ],
    );
    let (t, stats) = establishments::build(&raw).unwrap();

    assert_eq!(stats.null_key_rows, 0);
    assert_eq!(stats.duplicate_rows, 0);
    assert_eq!(stats.output_rows, 3);
    assert_eq!(t.names.len(), 9);

    // 本社 and 支店 share the corporate number and both survive
    assert_eq!(text_at(&t, "corporate_number", 0).as_deref(), Some("1000020049727"));
    assert_eq!(text_at(&t, "corporate_number", 1).as_deref(), Some("1000020049727"));

    match column(&t, "insured_employees") {
        Column::U32(v) => assert_eq!(v, &vec![Some(8), None, Some(14)]),
        other => panic!("insured_employees is not u32: {other:?}"),
    }
    assert_eq!(date_at(&t, "coverage_end_date", 2), Some(19844));
    assert_eq!(date_at(&t, "coverage_end_date", 0), None);
}

#[test]
fn establishments_drop_rows_without_corporate_number() {
    let raw = raw_from_rows(
        &ESTABLISHMENT_HEADER,
        &[
            establishment("", "本社", "8", ""),
            establishment("1000020049727", "支店", "3", ""),
        ],
    );
    let (t, stats) = establishments::build(&raw).unwrap();
    assert_eq!(stats, TableStats { input_rows: 2, null_key_rows: 1, duplicate_rows: 0, output_rows: 1 });
    assert_eq!(text_at(&t, "establishment_name", 0).as_deref(), Some("支店"));
}

#[test]
fn stats_log_line() {
    let s = TableStats { input_rows: 6, null_key_rows: 1, duplicate_rows: 1, output_rows: 4 };
    assert_eq!(
        s.log_line("companies"),
        "companies: 6 rows read, 1 without corporate number, 1 duplicates, 4 written"
    );
    let big = TableStats { input_rows: 4294967295, null_key_rows: 0, duplicate_rows: 10, output_rows: 4294967285 };
    assert_eq!(
        big.log_line("x"),
        "x: 4294967295 rows read, 0 without corporate number, 10 duplicates, 4294967285 written"
    );
}

#[test]
fn table_constants() {
    assert_eq!(companies::SOURCE, "Kihonjoho_UTF-8.csv");
    assert_eq!(companies::OUTPUT, "companies.parquet");
    assert_eq!(establishments::SOURCE, "Jigyousyojoho_UTF-8.csv");
    assert_eq!(establishments::OUTPUT, "establishments.parquet");
    assert_eq!(companies::KEY, "法人番号");
}
