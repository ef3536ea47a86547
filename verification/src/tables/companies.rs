//! 企業テーブル: Kihonjoho_UTF-8.csv → companies.parquet

use vstd::prelude::*;

use crate::tables::rows::{
    first_rows, first_rows_exec, key_present, lemma_first_row_of_key, lemma_first_rows,
    lemma_first_rows_distinct, lemma_first_rows_idempotent, lemma_first_rows_len, lemma_present_rows,
    present_rows,
};
use crate::tables::{
    all_sources_found, column_from_source, count_input, first_missing_source, has_source,
    key_column, lemma_projected_column, project_column, source_index, text_keys,
    lemma_projected_key, lemma_selection_fits, mapping_view,
    project, projected, raw_key_column, select_rows, select_table, ColType, Column,
    ColumnSpec, ColumnSpecView, RawTable, Table, TableError, TableStats, TableView,
};

verus! {

pub const SOURCE: &'static str = "Kihonjoho_UTF-8.csv";

pub const OUTPUT: &'static str = "companies.parquet";

pub const KEY: &'static str = "法人番号";

/// 96列のうち名寄せに必要な26列のみ。残りはデータ品質-*/出典元-*/データ取込頻度-* などの
/// 来歴メタデータ列。source 列名は全角括弧に注意(例: 商号または名称(カナ))。
pub open spec fn columns_spec() -> Seq<ColumnSpecView> {
    seq![
        ColumnSpecView { source: KEY@, name: "corporate_number"@, ty: ColType::Text },
        ColumnSpecView { source: "商号または名称"@, name: "corporate_name"@, ty: ColType::Text },
        ColumnSpecView { source: "商号または名称（カナ）"@, name: "corporate_name_kana"@, ty: ColType::Text },
        ColumnSpecView { source: "商号または名称（英字）"@, name: "corporate_name_en"@, ty: ColType::Text },
        ColumnSpecView { source: "登記記録の閉鎖等年月日"@, name: "closed_date"@, ty: ColType::Date },
        ColumnSpecView { source: "登記記録の閉鎖等の事由"@, name: "closed_reason"@, ty: ColType::Text },
        ColumnSpecView { source: "登記住所"@, name: "registered_address"@, ty: ColType::Text },
        ColumnSpecView { source: "郵便番号"@, name: "postal_code"@, ty: ColType::Text },
        ColumnSpecView { source: "都道府県"@, name: "prefecture"@, ty: ColType::Text },
        ColumnSpecView { source: "都道府県コード"@, name: "prefecture_code"@, ty: ColType::Text },
        ColumnSpecView { source: "市区町村（郡）"@, name: "municipality"@, ty: ColType::Text },
        ColumnSpecView { source: "市区町村コード"@, name: "municipality_code"@, ty: ColType::Text },
        ColumnSpecView { source: "番地以下"@, name: "address_detail"@, ty: ColType::Text },
        ColumnSpecView { source: "組織種別"@, name: "organization_type"@, ty: ColType::Text },
        ColumnSpecView { source: "処理区分"@, name: "process_category"@, ty: ColType::Text },
        ColumnSpecView { source: "訂正区分"@, name: "correction_category"@, ty: ColType::Text },
        ColumnSpecView { source: "状態"@, name: "status"@, ty: ColType::Text },
        ColumnSpecView { source: "代表者名称"@, name: "representative_name"@, ty: ColType::Text },
        ColumnSpecView { source: "資本金"@, name: "capital"@, ty: ColType::U64 },
        ColumnSpecView { source: "従業員数"@, name: "employees"@, ty: ColType::U32 },
        ColumnSpecView { source: "事業概要"@, name: "business_summary"@, ty: ColType::Text },
        ColumnSpecView { source: "WebサイトURL"@, name: "website_url"@, ty: ColType::Text },
        ColumnSpecView { source: "創業年"@, name: "founded_year"@, ty: ColType::U32 },
        ColumnSpecView { source: "事業種目"@, name: "business_type"@, ty: ColType::Text },
        ColumnSpecView { source: "設立年月日"@, name: "incorporation_date"@, ty: ColType::Date },
        ColumnSpecView { source: "更新年月日"@, name: "updated_date"@, ty: ColType::Date },
    ]
}

/// The column mapping of the companies table.
pub fn columns() -> (m: Vec<ColumnSpec>)
    ensures
        mapping_view(m@) == columns_spec(),
{
    let m = vec![
        ColumnSpec::new(KEY, "corporate_number", ColType::Text),
        ColumnSpec::new("商号または名称", "corporate_name", ColType::Text),
        ColumnSpec::new("商号または名称（カナ）", "corporate_name_kana", ColType::Text),
        ColumnSpec::new("商号または名称（英字）", "corporate_name_en", ColType::Text),
        ColumnSpec::new("登記記録の閉鎖等年月日", "closed_date", ColType::Date),
        ColumnSpec::new("登記記録の閉鎖等の事由", "closed_reason", ColType::Text),
        ColumnSpec::new("登記住所", "registered_address", ColType::Text),
        ColumnSpec::new("郵便番号", "postal_code", ColType::Text),
        ColumnSpec::new("都道府県", "prefecture", ColType::Text),
        ColumnSpec::new("都道府県コード", "prefecture_code", ColType::Text),
        ColumnSpec::new("市区町村（郡）", "municipality", ColType::Text),
        ColumnSpec::new("市区町村コード", "municipality_code", ColType::Text),
        ColumnSpec::new("番地以下", "address_detail", ColType::Text),
        ColumnSpec::new("組織種別", "organization_type", ColType::Text),
        ColumnSpec::new("処理区分", "process_category", ColType::Text),
        ColumnSpec::new("訂正区分", "correction_category", ColType::Text),
        ColumnSpec::new("状態", "status", ColType::Text),
        ColumnSpec::new("代表者名称", "representative_name", ColType::Text),
        ColumnSpec::new("資本金", "capital", ColType::U64),
        ColumnSpec::new("従業員数", "employees", ColType::U32),
        ColumnSpec::new("事業概要", "business_summary", ColType::Text),
        ColumnSpec::new("WebサイトURL", "website_url", ColType::Text),
        ColumnSpec::new("創業年", "founded_year", ColType::U32),
        ColumnSpec::new("事業種目", "business_type", ColType::Text),
        ColumnSpec::new("設立年月日", "incorporation_date", ColType::Date),
        ColumnSpec::new("更新年月日", "updated_date", ColType::Date),
    ];
    assert(mapping_view(m@) =~= columns_spec());
    m
}

/// The companies table that a raw table yields: the mapped columns of the
/// first row of each corporate number (keep-first deduplication), in input
/// order; rows without a corporate number are dropped, closed companies are
/// kept.
pub open spec fn table_spec(names: Seq<Seq<char>>, cols: Seq<Seq<Option<Seq<char>>>>) -> TableView {
    let p = projected(names, cols, columns_spec());
    select_table(p, first_rows(key_column(p)))
}

/// Builds the companies table from the raw CSV contents, with its counts:
/// rows read, rows without a corporate number, duplicate rows dropped, and
/// rows written.
pub fn build(raw: &RawTable) -> (r: Result<(Table, TableStats), TableError>)
    requires
        raw.well_formed(),
        raw.fits(),
    ensures
        match r {
            Ok((t, s)) => {
                let names = raw.names_view();
                let cols = raw.columns_view();
                let present = present_rows(raw_key_column(names, cols, KEY@)).len();
                let kept = first_rows(key_column(projected(names, cols, columns_spec()))).len();
                &&& has_source(names, KEY@)
                &&& all_sources_found(names, columns_spec())
                &&& t@ == table_spec(names, cols)
                &&& s.input_rows == raw.height()
                &&& s.null_key_rows == raw.height() - present
                &&& s.duplicate_rows == present - kept
                &&& s.output_rows == kept
                &&& t@.has_height(s.output_rows as nat)
                &&& s.input_rows == s.null_key_rows + s.duplicate_rows + s.output_rows
            },
            Err(TableError::KeyColumnNotFound(k)) => {
                &&& !has_source(raw.names_view(), KEY@)
                &&& k@ == KEY@
            },
            Err(TableError::ColumnNotFound(c)) => {
                &&& has_source(raw.names_view(), KEY@)
                &&& first_missing_source(raw.names_view(), columns_spec(), c@)
            },
        },
{
    let ghost names = raw.names_view();
    let ghost cols = raw.columns_view();
    let (input_rows, valid_keys) = count_input(raw, KEY)?;
    let mapping = columns();
    let table = project(raw, &mapping)?;
    let ghost p = projected(names, cols, columns_spec());
    let ghost keys = key_column(p);
    assert(columns_spec().len() > 0);
    assert(table@.columns.len() == columns_spec().len());
    assert(table.columns@.len() > 0);
    assert(table@.columns[0] == table.columns@[0]@);
    assert(keys.len() == raw.height());
    let rows = match &table.columns[0] {
        Column::Text(k) => first_rows_exec(k),
        _ => Vec::new(),
    };
    proof {
        lemma_projected_key(names, cols, columns_spec());
        lemma_first_rows(keys);
        lemma_first_rows_len(keys);
        lemma_present_rows(keys);
        lemma_selection_fits(table@, rows@, first_rows(keys), raw.height());
    }
    let out = select_rows(&table, &rows);
    let output_rows = rows.len() as u32;
    let stats = TableStats {
        input_rows,
        null_key_rows: input_rows - valid_keys,
        duplicate_rows: valid_keys - output_rows,
        output_rows,
    };
    Ok((out, stats))
}

/// Keep-first deduplication on the corporate number: every corporate number
/// of the companies table is present (neither null nor empty), none occurs
/// twice, every corporate number of the input occurs in it, and so
/// deduplicating the table again keeps every row.
pub proof fn lemma_companies_keys(names: Seq<Seq<char>>, cols: Seq<Seq<Option<Seq<char>>>>)
    ensures
        forall|a: int|
            0 <= a < key_column(table_spec(names, cols)).len() ==> key_present(
                #[trigger] key_column(table_spec(names, cols))[a],
            ),
        forall|a: int, b: int|
            0 <= a < b < key_column(table_spec(names, cols)).len() ==> #[trigger] key_column(
                table_spec(names, cols),
            )[a] != #[trigger] key_column(table_spec(names, cols))[b],
        forall|i: int|
            0 <= i < raw_key_column(names, cols, KEY@).len() && key_present(
                #[trigger] raw_key_column(names, cols, KEY@)[i],
            ) ==> exists|a: int|
                0 <= a < key_column(table_spec(names, cols)).len() && #[trigger] key_column(
                    table_spec(names, cols),
                )[a] == raw_key_column(names, cols, KEY@)[i],
        first_rows(key_column(table_spec(names, cols))) == Seq::new(
            key_column(table_spec(names, cols)).len(),
            |i: int| i,
        ),
{
    let p = projected(names, cols, columns_spec());
    let raw = raw_key_column(names, cols, KEY@);
    let pk = key_column(p);
    lemma_projected_key(names, cols, columns_spec());
    let rows = first_rows(pk);
    let keys = key_column(table_spec(names, cols));
    assert(keys =~= rows.map_values(|r: int| pk[r]));
    lemma_first_rows(pk);
    lemma_first_rows_distinct(pk);
    assert forall|i: int| 0 <= i < raw.len() && key_present(#[trigger] raw[i]) implies exists|a: int|
        0 <= a < keys.len() && #[trigger] keys[a] == raw[i] by {
        assert(pk[i] == raw[i]);
        lemma_first_row_of_key(pk, i);
        let a = choose|a: int|
            0 <= a < rows.len() && #[trigger] rows[a] <= i && pk[rows[a]] == pk[i];
        assert(keys[a] == raw[i]);
    }
    assert forall|a: int, b: int| 0 <= a < b < keys.len() implies #[trigger] keys[a]
        != #[trigger] keys[b] by {
        assert(keys[a] == pk[rows[a]] && keys[b] == pk[rows[b]]);
    }
    lemma_first_rows_idempotent(keys);
}

/// The companies table, column by column: each output column is named as
/// in the registry mapping and holds, on the kept rows (the first row of
/// each corporate number), the named source column of Kihonjoho_UTF-8.csv
/// converted by its type.
pub proof fn lemma_companies_columns(names: Seq<Seq<char>>, cols: Seq<Seq<Option<Seq<char>>>>)
    ensures
        table_spec(names, cols).names.len() == 26,
        table_spec(names, cols).columns.len() == 26,
        column_from_source(
            table_spec(names, cols),
            0,
            "corporate_number"@,
            names,
            cols,
            first_rows(text_keys(names, cols, "法人番号"@)),
            "法人番号"@,
            ColType::Text,
        ),
        column_from_source(
            table_spec(names, cols),
            1,
            "corporate_name"@,
            names,
            cols,
            first_rows(text_keys(names, cols, "法人番号"@)),
            "商号または名称"@,
            ColType::Text,
        ),
        column_from_source(
            table_spec(names, cols),
            2,
            "corporate_name_kana"@,
            names,
            cols,
            first_rows(text_keys(names, cols, "法人番号"@)),
            "商号または名称（カナ）"@,
            ColType::Text,
        ),
        column_from_source(
            table_spec(names, cols),
            3,
            "corporate_name_en"@,
            names,
            cols,
            first_rows(text_keys(names, cols, "法人番号"@)),
            "商号または名称（英字）"@,
            ColType::Text,
        ),
        column_from_source(
            table_spec(names, cols),
            4,
            "closed_date"@,
            names,
            cols,
            first_rows(text_keys(names, cols, "法人番号"@)),
            "登記記録の閉鎖等年月日"@,
            ColType::Date,
        ),
        column_from_source(
            table_spec(names, cols),
            5,
            "closed_reason"@,
            names,
            cols,
            first_rows(text_keys(names, cols, "法人番号"@)),
            "登記記録の閉鎖等の事由"@,
            ColType::Text,
        ),
        column_from_source(
            table_spec(names, cols),
            6,
            "registered_address"@,
            names,
            cols,
            first_rows(text_keys(names, cols, "法人番号"@)),
            "登記住所"@,
            ColType::Text,
        ),
        column_from_source(
            table_spec(names, cols),
            7,
            "postal_code"@,
            names,
            cols,
            first_rows(text_keys(names, cols, "法人番号"@)),
            "郵便番号"@,
            ColType::Text,
        ),
        column_from_source(
            table_spec(names, cols),
            8,
            "prefecture"@,
            names,
            cols,
            first_rows(text_keys(names, cols, "法人番号"@)),
            "都道府県"@,
            ColType::Text,
        ),
        column_from_source(
            table_spec(names, cols),
            9,
            "prefecture_code"@,
            names,
            cols,
            first_rows(text_keys(names, cols, "法人番号"@)),
            "都道府県コード"@,
            ColType::Text,
        ),
        column_from_source(
            table_spec(names, cols),
            10,
            "municipality"@,
            names,
            cols,
            first_rows(text_keys(names, cols, "法人番号"@)),
            "市区町村（郡）"@,
            ColType::Text,
        ),
        column_from_source(
            table_spec(names, cols),
            11,
            "municipality_code"@,
            names,
            cols,
            first_rows(text_keys(names, cols, "法人番号"@)),
            "市区町村コード"@,
            ColType::Text,
        ),
        column_from_source(
            table_spec(names, cols),
            12,
            "address_detail"@,
            names,
            cols,
            first_rows(text_keys(names, cols, "法人番号"@)),
            "番地以下"@,
            ColType::Text,
        ),
        column_from_source(
            table_spec(names, cols),
            13,
            "organization_type"@,
            names,
            cols,
            first_rows(text_keys(names, cols, "法人番号"@)),
            "組織種別"@,
            ColType::Text,
        ),
        column_from_source(
            table_spec(names, cols),
            14,
            "process_category"@,
            names,
            cols,
            first_rows(text_keys(names, cols, "法人番号"@)),
            "処理区分"@,
            ColType::Text,
        ),
        column_from_source(
            table_spec(names, cols),
            15,
            "correction_category"@,
            names,
            cols,
            first_rows(text_keys(names, cols, "法人番号"@)),
            "訂正区分"@,
            ColType::Text,
        ),
        column_from_source(
            table_spec(names, cols),
            16,
            "status"@,
            names,
            cols,
            first_rows(text_keys(names, cols, "法人番号"@)),
            "状態"@,
            ColType::Text,
        ),
        column_from_source(
            table_spec(names, cols),
            17,
            "representative_name"@,
            names,
            cols,
            first_rows(text_keys(names, cols, "法人番号"@)),
            "代表者名称"@,
            ColType::Text,
        ),
        column_from_source(
            table_spec(names, cols),
            18,
            "capital"@,
            names,
            cols,
            first_rows(text_keys(names, cols, "法人番号"@)),
            "資本金"@,
            ColType::U64,
        ),
        column_from_source(
            table_spec(names, cols),
            19,
            "employees"@,
            names,
            cols,
            first_rows(text_keys(names, cols, "法人番号"@)),
            "従業員数"@,
            ColType::U32,
        ),
        column_from_source(
            table_spec(names, cols),
            20,
            "business_summary"@,
            names,
            cols,
            first_rows(text_keys(names, cols, "法人番号"@)),
            "事業概要"@,
            ColType::Text,
        ),
        column_from_source(
            table_spec(names, cols),
            21,
            "website_url"@,
            names,
            cols,
            first_rows(text_keys(names, cols, "法人番号"@)),
            "WebサイトURL"@,
            ColType::Text,
        ),
        column_from_source(
            table_spec(names, cols),
            22,
            "founded_year"@,
            names,
            cols,
            first_rows(text_keys(names, cols, "法人番号"@)),
            "創業年"@,
            ColType::U32,
        ),
        column_from_source(
            table_spec(names, cols),
            23,
            "business_type"@,
            names,
            cols,
            first_rows(text_keys(names, cols, "法人番号"@)),
            "事業種目"@,
            ColType::Text,
        ),
        column_from_source(
            table_spec(names, cols),
            24,
            "incorporation_date"@,
            names,
            cols,
            first_rows(text_keys(names, cols, "法人番号"@)),
            "設立年月日"@,
            ColType::Date,
        ),
        column_from_source(
            table_spec(names, cols),
            25,
            "updated_date"@,
            names,
            cols,
            first_rows(text_keys(names, cols, "法人番号"@)),
            "更新年月日"@,
            ColType::Date,
        ),
{
    let m = columns_spec();
    let p = projected(names, cols, m);
    assert(KEY@ == "法人番号"@);
    lemma_projected_key(names, cols, m);
    assert(key_column(p) == text_keys(names, cols, "法人番号"@));
    assert forall|j: int| 0 <= j < m.len() implies #[trigger] p.columns[j] == project_column(
        m[j].ty,
        cols[source_index(names, m[j].source)],
    ) && p.names[j] == m[j].name by {
        lemma_projected_column(names, cols, m, j);
    }
}

} // verus!
