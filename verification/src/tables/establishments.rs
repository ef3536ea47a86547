//! 事業所テーブル: Jigyousyojoho_UTF-8.csv → establishments.parquet

use vstd::prelude::*;

use crate::tables::rows::{
    key_present, lemma_present_rows, present_rows, present_rows_exec,
};
use crate::tables::{
    all_sources_found, column_from_source, count_input, first_missing_source, has_source,
    key_column, lemma_projected_column, project_column, source_index, text_keys,
    lemma_projected_key, lemma_selection_fits, mapping_view,
    project, projected, raw_key_column, select_rows, select_table, ColType, Column,
    ColumnSpec, ColumnSpecView, RawTable, Table, TableError, TableStats, TableView,
};

verus! {

pub const SOURCE: &'static str = "Jigyousyojoho_UTF-8.csv";

pub const OUTPUT: &'static str = "establishments.parquet";

pub const KEY: &'static str = "法人番号";

/// 15列のうち名寄せに必要な9列のみ。source 列名は半角括弧(基本情報とは逆なので注意)。
pub open spec fn columns_spec() -> Seq<ColumnSpecView> {
    seq![
        ColumnSpecView { source: KEY@, name: "corporate_number"@, ty: ColType::Text },
        ColumnSpecView { source: "商号または名称"@, name: "corporate_name"@, ty: ColType::Text },
        ColumnSpecView { source: "登記住所"@, name: "registered_address"@, ty: ColType::Text },
        ColumnSpecView { source: "名称"@, name: "establishment_name"@, ty: ColType::Text },
        ColumnSpecView { source: "名称(カナ)"@, name: "establishment_name_kana"@, ty: ColType::Text },
        ColumnSpecView { source: "事業所住所"@, name: "establishment_address"@, ty: ColType::Text },
        ColumnSpecView { source: "事業所住所(カナ)"@, name: "establishment_address_kana"@, ty: ColType::Text },
        ColumnSpecView { source: "被保険者数"@, name: "insured_employees"@, ty: ColType::U32 },
        ColumnSpecView { source: "全喪年月日"@, name: "coverage_end_date"@, ty: ColType::Date },
    ]
}

/// The column mapping of the establishments table.
pub fn columns() -> (m: Vec<ColumnSpec>)
    ensures
        mapping_view(m@) == columns_spec(),
{
    let m = vec![
        ColumnSpec::new(KEY, "corporate_number", ColType::Text),
        ColumnSpec::new("商号または名称", "corporate_name", ColType::Text),
        ColumnSpec::new("登記住所", "registered_address", ColType::Text),
        ColumnSpec::new("名称", "establishment_name", ColType::Text),
        ColumnSpec::new("名称(カナ)", "establishment_name_kana", ColType::Text),
        ColumnSpec::new("事業所住所", "establishment_address", ColType::Text),
        ColumnSpec::new("事業所住所(カナ)", "establishment_address_kana", ColType::Text),
        ColumnSpec::new("被保険者数", "insured_employees", ColType::U32),
        ColumnSpec::new("全喪年月日", "coverage_end_date", ColType::Date),
    ];
    assert(mapping_view(m@) =~= columns_spec());
    m
}

/// The establishments table that a raw table yields: the mapped columns of
/// the rows that carry a corporate number, in input order. Establishments
/// have no unique id of their own, so nothing is deduplicated (one legal
/// entity may have many establishments).
pub open spec fn table_spec(names: Seq<Seq<char>>, cols: Seq<Seq<Option<Seq<char>>>>) -> TableView {
    let p = projected(names, cols, columns_spec());
    select_table(p, present_rows(key_column(p)))
}

/// Builds the establishments table from the raw CSV contents, with its
/// counts: rows read, rows without a corporate number, duplicates (none:
/// establishments are not deduplicated) and rows written.
pub fn build(raw: &RawTable) -> (r: Result<(Table, TableStats), TableError>)
    requires
        raw.well_formed(),
        raw.fits(),
    ensures
        match r {
            Ok((t, s)) => {
                let names = raw.names_view();
                let cols = raw.columns_view();
                let present = present_rows(raw_key_column(names, cols, KEY@)).len();
                &&& has_source(names, KEY@)
                &&& all_sources_found(names, columns_spec())
                &&& t@ == table_spec(names, cols)
                &&& s.input_rows == raw.height()
                &&& s.null_key_rows == raw.height() - present
                &&& s.duplicate_rows == 0
                &&& s.output_rows == present
                &&& t@.has_height(s.output_rows as nat)
                &&& s.input_rows == s.null_key_rows + s.duplicate_rows + s.output_rows
            },
            Err(TableError::KeyColumnNotFound(k)) => {
                &&& !has_source(raw.names_view(), KEY@)
                &&& k@ == KEY@
            },
            Err(TableError::ColumnNotFound(c)) => {
                &&& has_source(raw.names_view(), KEY@)
                &&& first_missing_source(raw.names_view(), columns_spec(), c@)
            },
        },
{
    let ghost names = raw.names_view();
    let ghost cols = raw.columns_view();
    let (input_rows, valid_keys) = count_input(raw, KEY)?;
    let mapping = columns();
    let table = project(raw, &mapping)?;
    let ghost p = projected(names, cols, columns_spec());
    let ghost keys = key_column(p);
    assert(columns_spec().len() > 0);
    assert(table@.columns.len() == columns_spec().len());
    assert(table.columns@.len() > 0);
    assert(table@.columns[0] == table.columns@[0]@);
    assert(keys.len() == raw.height());
    let rows = match &table.columns[0] {
        Column::Text(k) => present_rows_exec(k),
        _ => Vec::new(),
    };
    proof {
        lemma_projected_key(names, cols, columns_spec());
        lemma_present_rows(keys);
        lemma_selection_fits(table@, rows@, present_rows(keys), raw.height());
    }
    let out = select_rows(&table, &rows);
    let output_rows = rows.len() as u32;
    let stats = TableStats {
        input_rows,
        null_key_rows: input_rows - valid_keys,
        duplicate_rows: 0,
        output_rows,
    };
    Ok((out, stats))
}

/// No deduplication of establishments: every corporate number of the
/// establishments table is present, the table has one row per input row
/// that carries a corporate number, and in input order those rows' numbers.
pub proof fn lemma_establishments_keys(names: Seq<Seq<char>>, cols: Seq<Seq<Option<Seq<char>>>>)
    ensures
        key_column(table_spec(names, cols)).len() == present_rows(
            raw_key_column(names, cols, KEY@),
        ).len(),
        forall|a: int|
            0 <= a < key_column(table_spec(names, cols)).len() ==> {
                let r = present_rows(raw_key_column(names, cols, KEY@))[a];
                &&& key_present(#[trigger] key_column(table_spec(names, cols))[a])
                &&& key_column(table_spec(names, cols))[a] == raw_key_column(names, cols, KEY@)[r]
            },
{
    let p = projected(names, cols, columns_spec());
    let raw = raw_key_column(names, cols, KEY@);
    let pk = key_column(p);
    lemma_projected_key(names, cols, columns_spec());
    lemma_present_rows(raw);
    let rows = present_rows(pk);
    let keys = key_column(table_spec(names, cols));
    assert(keys =~= rows.map_values(|r: int| pk[r]));
    assert forall|a: int| 0 <= a < keys.len() implies {
        let r = present_rows(raw)[a];
        &&& key_present(#[trigger] keys[a])
        &&& keys[a] == raw[r]
    } by {
        let r = rows[a];
        assert(pk[r] == raw[r]);
    }
}

/// The establishments table, column by column: each output column is named
/// as in the registry mapping and holds, on the rows that carry a corporate
/// number, the named source column of Jigyousyojoho_UTF-8.csv converted by
/// its type.
pub proof fn lemma_establishments_columns(names: Seq<Seq<char>>, cols: Seq<Seq<Option<Seq<char>>>>)
    ensures
        table_spec(names, cols).names.len() == 9,
        table_spec(names, cols).columns.len() == 9,
        column_from_source(
            table_spec(names, cols),
            0,
            "corporate_number"@,
            names,
            cols,
            present_rows(text_keys(names, cols, "法人番号"@)),
            "法人番号"@,
            ColType::Text,
        ),
        column_from_source(
            table_spec(names, cols),
            1,
            "corporate_name"@,
            names,
            cols,
            present_rows(text_keys(names, cols, "法人番号"@)),
            "商号または名称"@,
            ColType::Text,
        ),
        column_from_source(
            table_spec(names, cols),
            2,
            "registered_address"@,
            names,
            cols,
            present_rows(text_keys(names, cols, "法人番号"@)),
            "登記住所"@,
            ColType::Text,
        ),
        column_from_source(
            table_spec(names, cols),
            3,
            "establishment_name"@,
            names,
            cols,
            present_rows(text_keys(names, cols, "法人番号"@)),
            "名称"@,
            ColType::Text,
        ),
        column_from_source(
            table_spec(names, cols),
            4,
            "establishment_name_kana"@,
            names,
            cols,
            present_rows(text_keys(names, cols, "法人番号"@)),
            "名称(カナ)"@,
            ColType::Text,
        ),
        column_from_source(
            table_spec(names, cols),
            5,
            "establishment_address"@,
            names,
            cols,
            present_rows(text_keys(names, cols, "法人番号"@)),
            "事業所住所"@,
            ColType::Text,
        ),
        column_from_source(
            table_spec(names, cols),
            6,
            "establishment_address_kana"@,
            names,
            cols,
            present_rows(text_keys(names, cols, "法人番号"@)),
            "事業所住所(カナ)"@,
            ColType::Text,
        ),
        column_from_source(
            table_spec(names, cols),
            7,
            "insured_employees"@,
            names,
            cols,
            present_rows(text_keys(names, cols, "法人番号"@)),
            "被保険者数"@,
            ColType::U32,
        ),
        column_from_source(
            table_spec(names, cols),
            8,
            "coverage_end_date"@,
            names,
            cols,
            present_rows(text_keys(names, cols, "法人番号"@)),
            "全喪年月日"@,
            ColType::Date,
        ),
{
    let m = columns_spec();
    let p = projected(names, cols, m);
    assert(KEY@ == "法人番号"@);
    lemma_projected_key(names, cols, m);
    assert(key_column(p) == text_keys(names, cols, "法人番号"@));
    assert forall|j: int| 0 <= j < m.len() implies #[trigger] p.columns[j] == project_column(
        m[j].ty,
        cols[source_index(names, m[j].source)],
    ) && p.names[j] == m[j].name by {
        lemma_projected_column(names, cols, m, j);
    }
}

} // verus!
