//! Shared plumbing for building the output tables from the raw registry CSVs:
//! the raw and typed table models, column resolution (tolerating a BOM on a
//! header), the per-type value normalisation, and the input counts.

use vstd::prelude::*;

pub mod cast;
pub mod companies;
pub mod establishments;
pub mod rows;

use crate::tables::cast::{
    cast_u32_column, cast_u64_column, column_fits, decimal_u32, decimal_u64, digit_value,
    days_from_civil, days_in_month, digits_value, is_ascii_digit, is_calendar_date,
    is_iso_date_text, is_leap_year, iso_date_value, iso_day, iso_month, iso_year, parse_date_column,
    polars_str_to_date, text_fits,
};
use crate::tables::rows::{lemma_present_rows_map, positions, present_rows, present_rows_exec};

verus! {

/// Output column type, applied in `project`.
#[derive(Debug, Clone, Copy, PartialEq, Eq, Structural)]
pub enum ColType {
    Text,
    U32,
    U64,
    Date,
}

/// One entry of a column mapping: the source CSV column, the output column
/// and the output type.
#[derive(Debug, Clone)]
pub struct ColumnSpec {
    pub source: String,
    pub name: String,
    pub ty: ColType,
}

/// The mathematical model of a `ColumnSpec`.
pub struct ColumnSpecView {
    pub source: Seq<char>,
    pub name: Seq<char>,
    pub ty: ColType,
}

impl View for ColumnSpec {
    type V = ColumnSpecView;

    open spec fn view(&self) -> ColumnSpecView {
        ColumnSpecView { source: self.source@, name: self.name@, ty: self.ty }
    }
}

impl ColumnSpec {
    pub fn new(source: &str, name: &str, ty: ColType) -> (c: ColumnSpec)
        ensures
            c@ == (ColumnSpecView { source: source@, name: name@, ty }),
    {
        ColumnSpec { source: source.to_string(), name: name.to_string(), ty }
    }
}

/// The model of a whole mapping.
pub open spec fn mapping_view(m: Seq<ColumnSpec>) -> Seq<ColumnSpecView> {
    m.map_values(|c: ColumnSpec| c@)
}

/// A CSV as read with every field as (nullable) text: the header names, in
/// file order, and one column of values per header name.
#[derive(Debug, Clone)]
pub struct RawTable {
    pub names: Vec<String>,
    pub columns: Vec<Vec<Option<String>>>,
}

impl RawTable {
    /// One column per name, all of the same length.
    pub open spec fn well_formed(&self) -> bool {
        &&& self.names@.len() == self.columns@.len()
        &&& forall|i: int|
            0 <= i < self.columns@.len() ==> #[trigger] self.columns@[i]@.len() == self.height()
    }

    /// The number of rows.
    pub open spec fn height(&self) -> nat {
        if self.columns@.len() == 0 {
            0
        } else {
            self.columns@[0]@.len()
        }
    }

    /// Within polars' limits: fewer than `u32::MAX` rows, and no text
    /// longer than `u32::MAX` bytes.
    pub open spec fn fits(&self) -> bool {
        &&& self.height() < u32::MAX
        &&& forall|c: int, i: int|
            0 <= c < self.columns_view().len() && 0 <= i < self.columns_view()[c].len()
                ==> text_fits(#[trigger] self.columns_view()[c][i])
    }

    pub open spec fn names_view(&self) -> Seq<Seq<char>> {
        self.names.deep_view()
    }

    pub open spec fn columns_view(&self) -> Seq<Seq<Option<Seq<char>>>> {
        self.columns.deep_view()
    }
}

/// A typed output column.
#[derive(Debug, Clone)]
pub enum Column {
    Text(Vec<Option<String>>),
    U32(Vec<Option<u32>>),
    U64(Vec<Option<u64>>),
    /// Days since 1970-01-01.
    Date(Vec<Option<i32>>),
}

/// The mathematical model of a `Column`.
pub enum ColumnData {
    Text(Seq<Option<Seq<char>>>),
    U32(Seq<Option<u32>>),
    U64(Seq<Option<u64>>),
    Date(Seq<Option<i32>>),
}

impl ColumnData {
    pub open spec fn len(self) -> nat {
        match self {
            ColumnData::Text(v) => v.len(),
            ColumnData::U32(v) => v.len(),
            ColumnData::U64(v) => v.len(),
            ColumnData::Date(v) => v.len(),
        }
    }
}

impl View for Column {
    type V = ColumnData;

    open spec fn view(&self) -> ColumnData {
        match self {
            Column::Text(v) => ColumnData::Text(v.deep_view()),
            Column::U32(v) => ColumnData::U32(v@),
            Column::U64(v) => ColumnData::U64(v@),
            Column::Date(v) => ColumnData::Date(v@),
        }
    }
}

/// A typed output table: the output column names and their columns.
#[derive(Debug, Clone)]
pub struct Table {
    pub names: Vec<String>,
    pub columns: Vec<Column>,
}

/// The mathematical model of a `Table`.
pub struct TableView {
    pub names: Seq<Seq<char>>,
    pub columns: Seq<ColumnData>,
}

impl View for Table {
    type V = TableView;

    open spec fn view(&self) -> TableView {
        TableView { names: self.names.deep_view(), columns: self.columns@.map_values(|c: Column| c@) }
    }
}

impl TableView {
    /// Every column has `height` rows.
    pub open spec fn has_height(self, height: nat) -> bool {
        forall|j: int| 0 <= j < self.columns.len() ==> (#[trigger] self.columns[j]).len() == height
    }
}

/// Why a table could not be built.
#[derive(Debug, Clone, PartialEq, Eq)]
pub enum TableError {
    /// The key column named here is not in the input header (input count).
    KeyColumnNotFound(String),
    /// The source column named here is not in the input header (projection).
    ColumnNotFound(String),
}

// ---------------------------------------------------------------------------
// Table statistics

/// Per-table counts, logged after each build.
#[derive(Debug, Clone, Copy, PartialEq, Eq, Structural)]
pub struct TableStats {
    pub input_rows: u32,
    pub null_key_rows: u32,
    pub duplicate_rows: u32,
    pub output_rows: u32,
}

/// The decimal digit `d` (0 to 9).
pub open spec fn digit_char(d: nat) -> char {
    if d == 0 {
        '0'
    } else if d == 1 {
        '1'
    } else if d == 2 {
        '2'
    } else if d == 3 {
        '3'
    } else if d == 4 {
        '4'
    } else if d == 5 {
        '5'
    } else if d == 6 {
        '6'
    } else if d == 7 {
        '7'
    } else if d == 8 {
        '8'
    } else {
        '9'
    }
}

/// The decimal text of `n`, without leading zeros.
pub open spec fn decimal(n: nat) -> Seq<char>
    decreases n,
{
    if n < 10 {
        seq![digit_char(n)]
    } else {
        decimal(n / 10).push(digit_char(n % 10))
    }
}

fn digit_str(d: u32) -> (s: &'static str)
    requires
        d < 10,
    ensures
        s@ == seq![digit_char(d as nat)],
{
    proof {
        reveal_strlit("0");
        reveal_strlit("1");
        reveal_strlit("2");
        reveal_strlit("3");
        reveal_strlit("4");
        reveal_strlit("5");
        reveal_strlit("6");
        reveal_strlit("7");
        reveal_strlit("8");
        reveal_strlit("9");
    }
    if d == 0 {
        "0"
    } else if d == 1 {
        "1"
    } else if d == 2 {
        "2"
    } else if d == 3 {
        "3"
    } else if d == 4 {
        "4"
    } else if d == 5 {
        "5"
    } else if d == 6 {
        "6"
    } else if d == 7 {
        "7"
    } else if d == 8 {
        "8"
    } else {
        "9"
    }
}

/// The decimal text of a count.
pub fn decimal_string(n: u32) -> (s: String)
    ensures
        s@ == decimal(n as nat),
    decreases n,
{
    if n < 10 {
        digit_str(n).to_string()
    } else {
        let mut s = decimal_string(n / 10);
        s.append(digit_str(n % 10));
        s
    }
}

impl TableStats {
    /// The log line of a build: `{name}: {input_rows} rows read,
    /// {null_key_rows} without corporate number, {duplicate_rows} duplicates,
    /// {output_rows} written`.
    pub open spec fn log_text(self, name: Seq<char>) -> Seq<char> {
        name + ": "@ + decimal(self.input_rows as nat) + " rows read, "@ + decimal(
            self.null_key_rows as nat,
        ) + " without corporate number, "@ + decimal(self.duplicate_rows as nat)
            + " duplicates, "@ + decimal(self.output_rows as nat) + " written"@
    }

    /// The line that a build logs for the table `name`.
    pub fn log_line(&self, name: &str) -> (line: String)
        ensures
            line@ == self.log_text(name@),
    {
        let mut line = name.to_string();
        line.append(": ");
        line.append(decimal_string(self.input_rows).as_str());
        line.append(" rows read, ");
        line.append(decimal_string(self.null_key_rows).as_str());
        line.append(" without corporate number, ");
        line.append(decimal_string(self.duplicate_rows).as_str());
        line.append(" duplicates, ");
        line.append(decimal_string(self.output_rows).as_str());
        line.append(" written");
        line
    }
}

/// The key column of a built table: its first column, `corporate_number`.
pub open spec fn key_column(t: TableView) -> Seq<Option<Seq<char>>> {
    match t.columns[0] {
        ColumnData::Text(v) => v,
        _ => Seq::empty(),
    }
}

/// The key column of a raw table, resolved from its source name.
pub open spec fn raw_key_column(
    names: Seq<Seq<char>>,
    cols: Seq<Seq<Option<Seq<char>>>>,
    key: Seq<char>,
) -> Seq<Option<Seq<char>>> {
    cols[source_index(names, key)]
}

// ---------------------------------------------------------------------------
// Column resolution

/// A header name with one leading byte order mark removed, if it has one.
pub open spec fn strip_bom(name: Seq<char>) -> Seq<char> {
    if name.len() > 0 && name[0] == '\u{feff}' {
        name.drop_first()
    } else {
        name
    }
}

/// The header name `name` stands for the source column `source`.
pub open spec fn names_source(name: Seq<char>, source: Seq<char>) -> bool {
    strip_bom(name) == source
}

pub open spec fn has_source(names: Seq<Seq<char>>, source: Seq<char>) -> bool {
    exists|i: int| 0 <= i < names.len() && names_source(#[trigger] names[i], source)
}

/// `i` is the first header position that stands for `source`.
pub open spec fn is_first_source(names: Seq<Seq<char>>, source: Seq<char>, i: int) -> bool {
    &&& 0 <= i < names.len()
    &&& names_source(names[i], source)
    &&& forall|j: int| 0 <= j < i ==> !names_source(#[trigger] names[j], source)
}

/// The header position that a source column resolves to.
pub open spec fn source_index(names: Seq<Seq<char>>, source: Seq<char>) -> int {
    choose|i: int| is_first_source(names, source, i)
}

/// The first match is unique, so it is the one `source_index` picks.
pub proof fn lemma_source_index(names: Seq<Seq<char>>, source: Seq<char>, i: int)
    requires
        is_first_source(names, source, i),
    ensures
        source_index(names, source) == i,
        has_source(names, source),
{
    let k = source_index(names, source);
    assert(is_first_source(names, source, k));
    if k < i {
        assert(!names_source(names[k], source));
    } else if i < k {
        assert(!names_source(names[i], source));
    }
}

/// Finds the first header name that, with a leading BOM removed, equals
/// `source`.
pub fn find_column(names: &Vec<String>, source: &str) -> (r: Option<usize>)
    ensures
        match r {
            Some(i) => is_first_source(names.deep_view(), source@, i as int),
            None => !has_source(names.deep_view(), source@),
        },
{
    let ghost nv = names.deep_view();
    let plain = source.to_string();
    let mut marked = "\u{feff}".to_string();
    proof {
        reveal_strlit("\u{feff}");
    }
    marked.append(source);
    assert(marked@ == seq!['\u{feff}'] + source@);
    let mut i: usize = 0;
    while i < names.len()
        invariant
            i <= names@.len(),
            nv == names.deep_view(),
            plain@ == source@,
            marked@ == seq!['\u{feff}'] + source@,
            forall|j: int| 0 <= j < i ==> !names_source(#[trigger] nv[j], source@),
        decreases names@.len() - i,
    {
        let name = &names[i];
        assert(nv[i as int] == name@);
        let s = name.as_str();
        let bom = !s.is_empty() && s.get_char(0) == '\u{feff}';
        let hit = if bom {
            name.eq(&marked)
        } else {
            name.eq(&plain)
        };
        proof {
            if bom {
                assert(name@ =~= seq!['\u{feff}'] + name@.drop_first());
                if name@.drop_first() == source@ {
                    assert(name@ =~= marked@);
                }
                if name@ == marked@ {
                    assert(name@.drop_first() =~= source@);
                }
            }
        }
        if hit {
            return Some(i);
        }
        i = i + 1;
    }
    None
}

// ---------------------------------------------------------------------------
// Value normalisation

/// Text values: the empty text is null (quoted CSV fields arrive as "").
pub open spec fn text_value(v: Option<Seq<char>>) -> Option<Seq<char>> {
    match v {
        Some(s) => if s.len() == 0 {
            None
        } else {
            Some(s)
        },
        None => None,
    }
}

pub open spec fn u32_value(v: Option<Seq<char>>) -> Option<u32> {
    match v {
        Some(s) => decimal_u32(s),
        None => None,
    }
}

pub open spec fn u64_value(v: Option<Seq<char>>) -> Option<u64> {
    match v {
        Some(s) => decimal_u64(s),
        None => None,
    }
}

pub open spec fn date_value(v: Option<Seq<char>>) -> Option<i32> {
    match v {
        Some(s) => if s.len() == 0 {
            None
        } else if is_iso_date_text(s) {
            iso_date_value(s)
        } else {
            polars_str_to_date(s)
        },
        None => None,
    }
}

/// A raw cell that holds no value: null, or the empty text.
pub open spec fn is_blank(v: Option<Seq<char>>) -> bool {
    v is None || v == Some(Seq::<char>::empty())
}

/// Row `i` of a column is null.
pub open spec fn cell_is_null(c: ColumnData, i: int) -> bool {
    match c {
        ColumnData::Text(v) => v[i] is None,
        ColumnData::U32(v) => v[i] is None,
        ColumnData::U64(v) => v[i] is None,
        ColumnData::Date(v) => v[i] is None,
    }
}

/// The output column that a raw text column becomes under a type.
pub open spec fn project_column(ty: ColType, raw: Seq<Option<Seq<char>>>) -> ColumnData {
    match ty {
        ColType::Text => ColumnData::Text(raw.map_values(|v| text_value(v))),
        ColType::U32 => ColumnData::U32(raw.map_values(|v| u32_value(v))),
        ColType::U64 => ColumnData::U64(raw.map_values(|v| u64_value(v))),
        ColType::Date => ColumnData::Date(raw.map_values(|v| date_value(v))),
    }
}

/// Maps empty texts to null, keeping every other value.
pub fn normalize_text(vals: &Vec<Option<String>>) -> (r: Vec<Option<String>>)
    ensures
        r.deep_view() == vals.deep_view().map_values(|v| text_value(v)),
{
    let ghost vv = vals.deep_view();
    let mut out: Vec<Option<String>> = Vec::new();
    let mut i: usize = 0;
    while i < vals.len()
        invariant
            i <= vals@.len(),
            vv == vals.deep_view(),
            out@.len() == i,
            forall|j: int| 0 <= j < i ==> (#[trigger] out@[j]).deep_view() == text_value(vv[j]),
        decreases vals@.len() - i,
    {
        let v = match &vals[i] {
            Some(s) => if s.as_str().is_empty() {
                None
            } else {
                Some(s.clone())
            },
            None => None,
        };
        assert(v.deep_view() == text_value(vv[i as int]));
        out.push(v);
        assert(out@[i as int] == v);
        i = i + 1;
    }
    assert(out.deep_view() =~= vv.map_values(|v| text_value(v)));
    out
}

/// Converts one raw text column to the output type.
pub fn convert_column(vals: &Vec<Option<String>>, ty: ColType) -> (c: Column)
    requires
        column_fits(vals.deep_view()),
    ensures
        c@ == project_column(ty, vals.deep_view()),
        c@.len() == vals@.len(),
        forall|i: int|
            0 <= i < vals@.len() && is_blank(#[trigger] vals.deep_view()[i]) ==> cell_is_null(c@, i),
{
    let ghost vv = vals.deep_view();
    match ty {
        ColType::Text => Column::Text(normalize_text(vals)),
        ColType::U32 => {
            let r = cast_u32_column(vals);
            assert(r@ =~= vv.map_values(|v| u32_value(v)));
            Column::U32(r)
        },
        ColType::U64 => {
            let r = cast_u64_column(vals);
            assert(r@ =~= vv.map_values(|v| u64_value(v)));
            Column::U64(r)
        },
        ColType::Date => {
            let r = parse_date_column(vals);
            assert(r@ =~= vv.map_values(|v| date_value(v)));
            Column::Date(r)
        },
    }
}


// ---------------------------------------------------------------------------
// Projection

/// The table that a mapping selects from a raw table: for each entry, its
/// output name, and the raw column that its source resolves to, converted
/// to its type.
pub open spec fn projected(
    names: Seq<Seq<char>>,
    cols: Seq<Seq<Option<Seq<char>>>>,
    m: Seq<ColumnSpecView>,
) -> TableView {
    TableView {
        names: m.map_values(|e: ColumnSpecView| e.name),
        columns: m.map_values(
            |e: ColumnSpecView| project_column(e.ty, cols[source_index(names, e.source)]),
        ),
    }
}

/// Every source column of the mapping is in the header.
pub open spec fn all_sources_found(names: Seq<Seq<char>>, m: Seq<ColumnSpecView>) -> bool {
    forall|j: int| 0 <= j < m.len() ==> has_source(names, #[trigger] m[j].source)
}

/// `c` is the first source column of the mapping that is not in the header.
pub open spec fn first_missing_source(
    names: Seq<Seq<char>>,
    m: Seq<ColumnSpecView>,
    c: Seq<char>,
) -> bool {
    exists|j: int|
        0 <= j < m.len() && !has_source(names, #[trigger] m[j].source) && c == m[j].source
            && forall|k: int| 0 <= k < j ==> has_source(names, #[trigger] m[k].source)
}

/// `select(src AS dst, cast)` for every entry of the mapping, in mapping
/// order; source names are resolved tolerating a BOM prefix on a header.
pub fn project(raw: &RawTable, mapping: &Vec<ColumnSpec>) -> (r: Result<Table, TableError>)
    requires
        raw.well_formed(),
        raw.fits(),
    ensures
        match r {
            Ok(t) => {
                &&& all_sources_found(raw.names_view(), mapping_view(mapping@))
                &&& t@ == projected(raw.names_view(), raw.columns_view(), mapping_view(mapping@))
                &&& t@.has_height(raw.height())
                &&& forall|j: int, i: int|
                    0 <= j < t@.columns.len() && 0 <= i < raw.height() && is_blank(
                        #[trigger] raw.columns_view()[source_index(
                            raw.names_view(),
                            mapping_view(mapping@)[j].source,
                        )][i],
                    ) ==> cell_is_null(#[trigger] t@.columns[j], i)
            },
            Err(TableError::ColumnNotFound(c)) => first_missing_source(
                raw.names_view(),
                mapping_view(mapping@),
                c@,
            ),
            Err(TableError::KeyColumnNotFound(_)) => false,
        },
{
    let ghost nv = raw.names_view();
    let ghost cv = raw.columns_view();
    let ghost m = mapping_view(mapping@);
    let mut names: Vec<String> = Vec::new();
    let mut columns: Vec<Column> = Vec::new();
    let mut j: usize = 0;
    while j < mapping.len()
        invariant
            raw.well_formed(),
            raw.fits(),
            nv == raw.names_view(),
            cv == raw.columns_view(),
            m == mapping_view(mapping@),
            j <= mapping@.len(),
            names@.len() == j,
            columns@.len() == j,
            forall|k: int| 0 <= k < j ==> has_source(nv, #[trigger] m[k].source),
            forall|k: int| 0 <= k < j ==> (#[trigger] names@[k])@ == m[k].name,
            forall|k: int|
                0 <= k < j ==> (#[trigger] columns@[k])@ == project_column(
                    m[k].ty,
                    cv[source_index(nv, m[k].source)],
                ),
            forall|k: int| 0 <= k < j ==> (#[trigger] columns@[k])@.len() == raw.height(),
            forall|k: int, i: int|
                0 <= k < j && 0 <= i < raw.height() && is_blank(
                    #[trigger] cv[source_index(nv, m[k].source)][i],
                ) ==> cell_is_null((#[trigger] columns@[k])@, i),
        decreases mapping@.len() - j,
    {
        let entry = &mapping[j];
        assert(m[j as int] == entry@);
        match find_column(&raw.names, entry.source.as_str()) {
            None => {
                assert(m[j as int].source == entry.source@);
                assert(!has_source(nv, m[j as int].source));
                assert(first_missing_source(nv, m, entry.source@));
                return Err(TableError::ColumnNotFound(entry.source.clone()));
            },
            Some(k) => {
                proof {
                    lemma_source_index(nv, entry.source@, k as int);
                }
                assert(cv[k as int] == raw.columns@[k as int].deep_view());
                assert(column_fits(cv[k as int])) by {
                    assert(cv[k as int].len() == raw.height());
                    assert forall|i: int| 0 <= i < cv[k as int].len() implies text_fits(
                        #[trigger] cv[k as int][i],
                    ) by {
                        assert(text_fits(cv[k as int][i]));
                    }
                }
                let c = convert_column(&raw.columns[k], entry.ty);
                names.push(entry.name.clone());
                columns.push(c);
            },
        }
        j = j + 1;
    }
    let t = Table { names, columns };
    assert(t@.names =~= m.map_values(|e: ColumnSpecView| e.name));
    assert(t@.columns =~= m.map_values(
        |e: ColumnSpecView| project_column(e.ty, cv[source_index(nv, e.source)]),
    ));
    Ok(t)
}

// ---------------------------------------------------------------------------
// Counts and row selection

/// The input counts: the number of rows, and of rows whose key column is
/// neither null nor empty. The key column is resolved as in `project`.
pub fn count_input(raw: &RawTable, key_source: &str) -> (r: Result<(u32, u32), TableError>)
    requires
        raw.well_formed(),
        raw.height() <= u32::MAX,
    ensures
        match r {
            Ok((rows, valid)) => {
                &&& has_source(raw.names_view(), key_source@)
                &&& rows == raw.height()
                &&& valid == present_rows(
                    raw.columns_view()[source_index(raw.names_view(), key_source@)],
                ).len()
            },
            Err(TableError::KeyColumnNotFound(k)) => {
                &&& !has_source(raw.names_view(), key_source@)
                &&& k@ == key_source@
            },
            Err(TableError::ColumnNotFound(_)) => false,
        },
{
    match find_column(&raw.names, key_source) {
        None => Err(TableError::KeyColumnNotFound(key_source.to_string())),
        Some(k) => {
            proof {
                lemma_source_index(raw.names_view(), key_source@, k as int);
                crate::tables::rows::lemma_present_rows(raw.columns_view()[k as int]);
            }
            let col = &raw.columns[k];
            assert(raw.columns_view()[k as int] == col.deep_view());
            let present = present_rows_exec(col);
            assert(present@.len() == positions(present@).len());
            Ok((col.len() as u32, present.len() as u32))
        },
    }
}

/// The rows `rows` of a column, in that order.
pub open spec fn select_column(c: ColumnData, rows: Seq<int>) -> ColumnData {
    match c {
        ColumnData::Text(v) => ColumnData::Text(rows.map_values(|r: int| v[r])),
        ColumnData::U32(v) => ColumnData::U32(rows.map_values(|r: int| v[r])),
        ColumnData::U64(v) => ColumnData::U64(rows.map_values(|r: int| v[r])),
        ColumnData::Date(v) => ColumnData::Date(rows.map_values(|r: int| v[r])),
    }
}

/// The rows `rows` of a table, in that order.
pub open spec fn select_table(t: TableView, rows: Seq<int>) -> TableView {
    TableView { names: t.names, columns: t.columns.map_values(|c: ColumnData| select_column(c, rows)) }
}

fn gather_copy<T: Copy>(v: &Vec<T>, rows: &Vec<usize>) -> (r: Vec<T>)
    requires
        forall|k: int| 0 <= k < rows@.len() ==> #[trigger] rows@[k] < v@.len(),
    ensures
        r@ == positions(rows@).map_values(|p: int| v@[p]),
{
    let mut out: Vec<T> = Vec::new();
    let mut k: usize = 0;
    while k < rows.len()
        invariant
            k <= rows@.len(),
            forall|q: int| 0 <= q < rows@.len() ==> #[trigger] rows@[q] < v@.len(),
            out@.len() == k,
            forall|q: int| 0 <= q < k ==> #[trigger] out@[q] == v@[rows@[q] as int],
        decreases rows@.len() - k,
    {
        out.push(v[rows[k]]);
        k = k + 1;
    }
    assert(out@ =~= positions(rows@).map_values(|p: int| v@[p]));
    out
}

fn gather_text(v: &Vec<Option<String>>, rows: &Vec<usize>) -> (r: Vec<Option<String>>)
    requires
        forall|k: int| 0 <= k < rows@.len() ==> #[trigger] rows@[k] < v@.len(),
    ensures
        r.deep_view() == positions(rows@).map_values(|p: int| v.deep_view()[p]),
{
    let ghost vv = v.deep_view();
    let mut out: Vec<Option<String>> = Vec::new();
    let mut k: usize = 0;
    while k < rows.len()
        invariant
            vv == v.deep_view(),
            k <= rows@.len(),
            forall|q: int| 0 <= q < rows@.len() ==> #[trigger] rows@[q] < v@.len(),
            out@.len() == k,
            forall|q: int| 0 <= q < k ==> (#[trigger] out@[q]).deep_view() == vv[rows@[q] as int],
        decreases rows@.len() - k,
    {
        let x = match &v[rows[k]] {
            Some(s) => Some(s.clone()),
            None => None,
        };
        assert(x.deep_view() == vv[rows@[k as int] as int]);
        out.push(x);
        assert(out@[k as int] == x);
        k = k + 1;
    }
    assert(out.deep_view() =~= positions(rows@).map_values(|p: int| vv[p]));
    out
}

/// The rows `rows` of a column.
pub fn select_column_rows(c: &Column, rows: &Vec<usize>) -> (r: Column)
    requires
        forall|k: int| 0 <= k < rows@.len() ==> #[trigger] rows@[k] < c@.len(),
    ensures
        r@ == select_column(c@, positions(rows@)),
{
    match c {
        Column::Text(v) => Column::Text(gather_text(v, rows)),
        Column::U32(v) => Column::U32(gather_copy(v, rows)),
        Column::U64(v) => Column::U64(gather_copy(v, rows)),
        Column::Date(v) => Column::Date(gather_copy(v, rows)),
    }
}

/// The rows `rows` of a table, in that order.
pub fn select_rows(t: &Table, rows: &Vec<usize>) -> (r: Table)
    requires
        forall|j: int, k: int|
            0 <= j < t@.columns.len() && 0 <= k < rows@.len() ==> #[trigger] rows@[k]
                < (#[trigger] t@.columns[j]).len(),
    ensures
        r@ == select_table(t@, positions(rows@)),
        r@.has_height(rows@.len()),
{
    let ghost tv = t@;
    let mut names: Vec<String> = Vec::new();
    let mut columns: Vec<Column> = Vec::new();
    let mut j: usize = 0;
    while j < t.columns.len()
        invariant
            tv == t@,
            forall|jj: int, k: int|
                0 <= jj < tv.columns.len() && 0 <= k < rows@.len() ==> #[trigger] rows@[k]
                    < (#[trigger] tv.columns[jj]).len(),
            j <= t.columns@.len(),
            columns@.len() == j,
            forall|q: int|
                0 <= q < j ==> (#[trigger] columns@[q])@ == select_column(
                    tv.columns[q],
                    positions(rows@),
                ),
        decreases t.columns@.len() - j,
    {
        assert(tv.columns[j as int] == t.columns@[j as int]@);
        assert(forall|k: int| 0 <= k < rows@.len() ==> #[trigger] rows@[k] < tv.columns[j as int].len());
        let c = select_column_rows(&t.columns[j], rows);
        columns.push(c);
        j = j + 1;
    }
    let mut k: usize = 0;
    while k < t.names.len()
        invariant
            tv == t@,
            k <= t.names@.len(),
            names@.len() == k,
            forall|q: int| 0 <= q < k ==> (#[trigger] names@[q])@ == tv.names[q],
        decreases t.names@.len() - k,
    {
        names.push(t.names[k].clone());
        k = k + 1;
    }
    let r = Table { names, columns };
    assert(r@.names =~= tv.names);
    assert(r@.columns =~= tv.columns.map_values(|c: ColumnData| select_column(c, positions(rows@))));
    r
}

/// The key column of a projection whose first entry is a text column is the
/// raw key column with empty texts as null, and it carries a key on the
/// same rows.
pub proof fn lemma_projected_key(
    names: Seq<Seq<char>>,
    cols: Seq<Seq<Option<Seq<char>>>>,
    m: Seq<ColumnSpecView>,
)
    requires
        m.len() > 0,
        m[0].ty == ColType::Text,
    ensures
        key_column(projected(names, cols, m)) == raw_key_column(names, cols, m[0].source).map_values(
            |v: Option<Seq<char>>| text_value(v),
        ),
        present_rows(key_column(projected(names, cols, m))) == present_rows(
            raw_key_column(names, cols, m[0].source),
        ),
{
    let raw = raw_key_column(names, cols, m[0].source);
    assert(projected(names, cols, m).columns[0] == project_column(ColType::Text, raw));
    assert(key_column(projected(names, cols, m)) =~= raw.map_values(
        |v: Option<Seq<char>>| text_value(v),
    ));
    lemma_present_rows_map(raw, |v: Option<Seq<char>>| text_value(v));
}

/// Row positions below a table's height fit every column of the table.
pub proof fn lemma_selection_fits(t: TableView, rows: Seq<usize>, sel: Seq<int>, height: nat)
    requires
        t.has_height(height),
        positions(rows) == sel,
        forall|a: int| 0 <= a < sel.len() ==> #[trigger] sel[a] < height,
    ensures
        forall|j: int, k: int|
            0 <= j < t.columns.len() && 0 <= k < rows.len() ==> #[trigger] rows[k]
                < (#[trigger] t.columns[j]).len(),
{
    assert forall|j: int, k: int| 0 <= j < t.columns.len() && 0 <= k < rows.len() implies #[trigger] rows[k]
        < (#[trigger] t.columns[j]).len() by {
        assert(sel[k] == rows[k] as int);
    }
}

/// The raw key column with empty texts as null.
pub open spec fn text_keys(
    names: Seq<Seq<char>>,
    cols: Seq<Seq<Option<Seq<char>>>>,
    key: Seq<char>,
) -> Seq<Option<Seq<char>>> {
    raw_key_column(names, cols, key).map_values(|v: Option<Seq<char>>| text_value(v))
}

/// Output column `j` of `t` is named `name` and holds, on the rows `rows`
/// of the raw table, its column `source` converted by `ty`.
pub open spec fn column_from_source(
    t: TableView,
    j: int,
    name: Seq<char>,
    names: Seq<Seq<char>>,
    cols: Seq<Seq<Option<Seq<char>>>>,
    rows: Seq<int>,
    source: Seq<char>,
    ty: ColType,
) -> bool {
    &&& 0 <= j < t.names.len()
    &&& j < t.columns.len()
    &&& t.names[j] == name
    &&& t.columns[j] == select_column(project_column(ty, cols[source_index(names, source)]), rows)
}

// ---------------------------------------------------------------------------
// Laws of the conversions

/// Each decimal digit character has its digit's value.
pub proof fn lemma_digit_char(d: nat)
    requires
        d < 10,
    ensures
        digit_value(digit_char(d)) == Some(d),
{
}

/// The decimal text of `n` reads back as `n`: it is a non-empty run of
/// ASCII digits spelling `n` in base ten, without a leading zero unless
/// `n` is 0.
pub proof fn lemma_decimal_reads_back(n: nat)
    ensures
        decimal(n).len() > 0,
        forall|i: int| 0 <= i < decimal(n).len() ==> is_ascii_digit(#[trigger] decimal(n)[i]),
        digits_value(decimal(n)) == n,
        n > 0 ==> decimal(n)[0] != '0',
        n == 0 ==> decimal(n) == seq!['0'],
    decreases n,
{
    lemma_digit_char(n % 10);
    if n >= 10 {
        lemma_decimal_reads_back(n / 10);
        let s = decimal(n / 10);
        let c = digit_char(n % 10);
        assert(decimal(n) == s.push(c));
        assert(s.push(c).drop_last() =~= s);
        assert(s.push(c).last() == c);
        assert(digits_value(decimal(n)) == digits_value(s) * 10 + n % 10);
        assert(digits_value(s) == n / 10);
        assert((n / 10) * 10 + n % 10 == n);
        assert forall|i: int| 0 <= i < decimal(n).len() implies is_ascii_digit(
            #[trigger] decimal(n)[i],
        ) by {
            if i < s.len() {
                assert(decimal(n)[i] == s[i]);
            }
        }
        assert(decimal(n)[0] == s[0]);
    } else {
        assert(seq![digit_char(n)].drop_last() =~= Seq::<char>::empty());
        assert(seq![digit_char(n)].last() == digit_char(n));
        assert(digits_value(Seq::<char>::empty()) == 0);
        assert(decimal(n) == seq![digit_char(n)]);
    }
}

/// The integer casts read back every count's decimal text: `u32` up to
/// `u32::MAX`, `u64` up to `u64::MAX`.
pub proof fn lemma_integer_casts_read_decimal(n: nat)
    ensures
        n <= u32::MAX ==> decimal_u32(decimal(n)) == Some(n as u32),
        n <= u64::MAX ==> decimal_u64(decimal(n)) == Some(n as u64),
        n > u64::MAX ==> decimal_u64(decimal(n)) is None,
        n > u32::MAX ==> decimal_u32(decimal(n)) is None,
{
    lemma_decimal_reads_back(n);
    assert(decimal(n)[0] != '+');
}

/// A `U64` column holds, on every row whose text is the decimal text of a
/// number up to `u64::MAX`, that number (and likewise a `U32` column up to
/// `u32::MAX`); null and empty texts give null.
pub proof fn lemma_integer_columns(raw: Seq<Option<Seq<char>>>)
    ensures
        project_column(ColType::U64, raw) matches ColumnData::U64(v) && v.len() == raw.len() && (
        forall|i: int, n: u64|
            0 <= i < raw.len() && #[trigger] raw[i] == Some(#[trigger] decimal(n as nat)) ==> v[i]
                == Some(n)) && (forall|i: int|
            0 <= i < raw.len() && is_blank(#[trigger] raw[i]) ==> v[i] is None),
        project_column(ColType::U32, raw) matches ColumnData::U32(w) && w.len() == raw.len() && (
        forall|i: int, n: u32|
            0 <= i < raw.len() && #[trigger] raw[i] == Some(#[trigger] decimal(n as nat)) ==> w[i]
                == Some(n)) && (forall|i: int|
            0 <= i < raw.len() && is_blank(#[trigger] raw[i]) ==> w[i] is None),
{
    assert forall|i: int, n: u64|
        0 <= i < raw.len() && #[trigger] raw[i] == Some(#[trigger] decimal(n as nat)) implies u64_value(
        raw[i],
    ) == Some(n) by {
        lemma_integer_casts_read_decimal(n as nat);
    }
    assert forall|i: int, n: u32|
        0 <= i < raw.len() && #[trigger] raw[i] == Some(#[trigger] decimal(n as nat)) implies u32_value(
        raw[i],
    ) == Some(n) by {
        lemma_integer_casts_read_decimal(n as nat);
    }
}

/// A `Date` column holds, on every row whose text has the form
/// `YYYY-MM-DD`, the number of days from 1970-01-01 to that calendar date
/// (negative before 1970), or null where the text names no date; null and
/// empty texts give null.
pub proof fn lemma_date_column(raw: Seq<Option<Seq<char>>>)
    ensures
        project_column(ColType::Date, raw) matches ColumnData::Date(v) && v.len() == raw.len() && (
        forall|i: int|
            0 <= i < raw.len() && (#[trigger] raw[i] matches Some(s) && is_iso_date_text(s)) ==> v[i]
                == if is_calendar_date(
                iso_year(raw[i]->Some_0),
                iso_month(raw[i]->Some_0),
                iso_day(raw[i]->Some_0),
            ) {
                Some(
                    (days_from_civil(
                        iso_year(raw[i]->Some_0),
                        iso_month(raw[i]->Some_0),
                        iso_day(raw[i]->Some_0),
                    ) - days_from_civil(1970, 1, 1)) as i32,
                )
            } else {
                None
            }) && (forall|i: int|
            0 <= i < raw.len() && is_blank(#[trigger] raw[i]) ==> v[i] is None),
{
}

/// The day numbering of the date columns: 1970-01-01 is day 0, and the day
/// after any calendar date has the next number (within a month, across a
/// month, across February's 28th or 29th, and across a year).
pub proof fn lemma_days_from_civil(y: int, m: int, d: int)
    requires
        is_calendar_date(y, m, d),
    ensures
        days_from_civil(1970, 1, 1) == 0,
        d < days_in_month(y, m) ==> days_from_civil(y, m, d + 1) == days_from_civil(y, m, d) + 1,
        d == days_in_month(y, m) && m < 12 ==> days_from_civil(y, m + 1, 1) == days_from_civil(
            y,
            m,
            d,
        ) + 1,
        d == days_in_month(y, m) && m == 12 ==> days_from_civil(y + 1, 1, 1) == days_from_civil(
            y,
            m,
            d,
        ) + 1,
{
    if d == days_in_month(y, m) && m == 2 {
        lemma_march_year_length(y - 1);
    }
}

/// A year counted from March has 366 days exactly when the February that
/// ends it has a 29th.
proof fn lemma_march_year_length(yy: int)
    ensures
        year_start(yy + 1) - year_start(yy) == if is_leap_year(yy + 1) {
            366int
        } else {
            365int
        },
{
    let q = yy / 400;
    let r = yy % 400;
    assert(yy == 400 * q + r && 0 <= r < 400);
    if r < 399 {
        assert((yy + 1) / 400 == q && (yy + 1) % 400 == r + 1) by (nonlinear_arith)
            requires
                yy == 400 * q + r,
                0 <= r < 399,
        ;
        assert(is_leap_year(yy + 1) == ((r + 1) % 4 == 0 && (r + 1) % 100 != 0)) by (nonlinear_arith)
            requires
                yy == 400 * q + r,
                0 <= r < 399,
        ;
    } else {
        assert((yy + 1) / 400 == q + 1 && (yy + 1) % 400 == 0) by (nonlinear_arith)
            requires
                yy == 400 * q + r,
                r == 399,
        ;
        assert(is_leap_year(yy + 1)) by (nonlinear_arith)
            requires
                yy == 400 * q + 399,
        ;
    }
}

/// The day number of the March 1st that starts the March-based year `yy`,
/// before the epoch shift.
pub open spec fn year_start(yy: int) -> int {
    let era = yy / 400;
    let yoe = yy - era * 400;
    era * 146097 + yoe * 365 + yoe / 4 - yoe / 100
}

/// A `Text` column holds every non-empty text unchanged (leading zeros
/// included), and null for null and empty texts.
pub proof fn lemma_text_column(raw: Seq<Option<Seq<char>>>)
    ensures
        project_column(ColType::Text, raw) matches ColumnData::Text(v) && v.len() == raw.len() && (
        forall|i: int|
            0 <= i < raw.len() && (#[trigger] raw[i] matches Some(s) && s.len() > 0) ==> v[i]
                == raw[i]) && (forall|i: int|
            0 <= i < raw.len() && is_blank(#[trigger] raw[i]) ==> v[i] is None),
{
}

/// Projection converts each mapped column exactly as `convert_column`
/// converts a column of its type: entry `j` of the mapping gives output
/// column `j`, named by the entry, holding the entry's resolved source
/// column under the entry's type.
pub proof fn lemma_projected_column(
    names: Seq<Seq<char>>,
    cols: Seq<Seq<Option<Seq<char>>>>,
    m: Seq<ColumnSpecView>,
    j: int,
)
    requires
        0 <= j < m.len(),
    ensures
        projected(names, cols, m).names.len() == m.len(),
        projected(names, cols, m).columns.len() == m.len(),
        projected(names, cols, m).names[j] == m[j].name,
        projected(names, cols, m).columns[j] == project_column(
            m[j].ty,
            cols[source_index(names, m[j].source)],
        ),
{
}

/// Header names and sources: a name stands for the source it equals when it
/// has no byte order mark, and for the source after exactly one leading
/// byte order mark when it has one.
pub proof fn lemma_names_source(name: Seq<char>, source: Seq<char>)
    ensures
        names_source(seq!['\u{feff}'] + source, source),
        (source.len() == 0 || source[0] != '\u{feff}') ==> names_source(source, source),
        names_source(name, source) ==> name == source || name == seq!['\u{feff}'] + source,
        names_source(name, source) && name.len() > 0 && name[0] == '\u{feff}' ==> name
            == seq!['\u{feff}'] + source,
{
    assert((seq!['\u{feff}'] + source).drop_first() =~= source);
    if name.len() > 0 && name[0] == '\u{feff}' {
        assert(name =~= seq!['\u{feff}'] + name.drop_first());
    }
}

/// The log line of a build: the table name, then each count in decimal
/// (reading back as the count) with its label, in the order rows read,
/// rows without corporate number, duplicates, rows written.
pub proof fn lemma_log_text(s: TableStats, name: Seq<char>)
    ensures
        s.log_text(name) == name + ": "@ + decimal(s.input_rows as nat) + " rows read, "@
            + decimal(s.null_key_rows as nat) + " without corporate number, "@ + decimal(
            s.duplicate_rows as nat,
        ) + " duplicates, "@ + decimal(s.output_rows as nat) + " written"@,
        digits_value(decimal(s.input_rows as nat)) == s.input_rows,
        digits_value(decimal(s.null_key_rows as nat)) == s.null_key_rows,
        digits_value(decimal(s.duplicate_rows as nat)) == s.duplicate_rows,
        digits_value(decimal(s.output_rows as nat)) == s.output_rows,
{
    lemma_decimal_reads_back(s.input_rows as nat);
    lemma_decimal_reads_back(s.null_key_rows as nat);
    lemma_decimal_reads_back(s.duplicate_rows as nat);
    lemma_decimal_reads_back(s.output_rows as nat);
}

} // verus!
