use vstd::prelude::*;

use crate::common;
use crate::error::Error;
use crate::postgres::export_queries;
use crate::postgres::search_path;
use crate::text;
use crate::version::{self, Version};

verus! {

pub const MINIMUM_POSTGRES_MAJOR_VERSION: u16 = 13;

pub const DEFAULT_POSTGRES_SCHEMA: &'static str = "public";

/// One row of the table listing query.
pub struct TableRow {
    pub schema: String,
    pub name: String,
    pub partition_key: Option<String>,
    pub access_method: Option<String>,
    pub tablespace: Option<String>,
}

/// One row of the column listing query.
pub struct ColumnRow {
    pub name: String,
    pub data_type: String,
    pub not_null: bool,
    pub default_expr: Option<String>,
    pub identity_generation: Option<String>,
}

/// One row of the partition-child listing query.
pub struct PartitionChildRow {
    pub schema: String,
    pub name: String,
    pub parent_schema: String,
    pub parent_name: String,
    pub bound: String,
}

/// Wraps an identifier in double quotes, doubling inner double quotes.
pub fn quote_identifier(identifier: &str) -> (r: Vec<char>)
    ensures
        r@ == text::quoted_with(identifier@, '"'),
{
    let v = text::chars_of(identifier);
    text::quote_chars(v.as_slice(), '"')
}

pub open spec fn qualified_name_sql(schema: Seq<char>, name: Seq<char>) -> Seq<char> {
    text::quoted_with(schema, '"') + "."@ + text::quoted_with(name, '"')
}

/// `"schema"."name"` with both parts quoted.
pub fn render_qualified_name(schema: &str, name: &str) -> (r: Vec<char>)
    ensures
        r@ == qualified_name_sql(schema@, name@),
{
    let mut out = quote_identifier(schema);
    text::append_str(&mut out, ".");
    let n = quote_identifier(name);
    text::append_chars(&mut out, n.as_slice());
    out
}

pub open spec fn column_sql(column: ColumnRow) -> Seq<char> {
    text::quoted_with(column.name@, '"') + " "@ + column.data_type@ + (if column.not_null {
        " NOT NULL"@
    } else {
        Seq::empty()
    }) + (match common::nonblank(column.default_expr) {
        Some(d) => " DEFAULT "@ + d,
        None => Seq::empty(),
    }) + (match common::nonblank(column.identity_generation) {
        Some(g) => " GENERATED "@ + g + " AS IDENTITY"@,
        None => Seq::empty(),
    })
}

/// One column definition of an exported `CREATE TABLE`.
pub fn render_column(column: &ColumnRow) -> (r: Vec<char>)
    ensures
        r@ == column_sql(*column),
{
    let mut out = quote_identifier(column.name.as_str());
    text::append_str(&mut out, " ");
    text::append_str(&mut out, column.data_type.as_str());
    let ghost base = out@;
    if column.not_null {
        text::append_str(&mut out, " NOT NULL");
    }
    let ghost after_null = out@;
    assert(after_null == base + (if column.not_null {
        " NOT NULL"@
    } else {
        Seq::<char>::empty()
    }));
    match common::nonblank_value(&column.default_expr) {
        Some(d) => {
            text::append_str(&mut out, " DEFAULT ");
            text::append_chars(&mut out, d.as_slice());
        },
        None => {},
    }
    let ghost after_default = out@;
    assert(after_default =~= after_null + (match common::nonblank(column.default_expr) {
        Some(d) => " DEFAULT "@ + d,
        None => Seq::<char>::empty(),
    }));
    match common::nonblank_value(&column.identity_generation) {
        Some(g) => {
            text::append_str(&mut out, " GENERATED ");
            text::append_chars(&mut out, g.as_slice());
            text::append_str(&mut out, " AS IDENTITY");
        },
        None => {},
    }
    assert(out@ =~= column_sql(*column));
    out
}

/// The column list of an exported table, one indented definition per line.
pub open spec fn column_lines(columns: Seq<ColumnRow>) -> Seq<Seq<char>> {
    columns.map_values(|c: ColumnRow| "  "@ + column_sql(c))
}

pub open spec fn columns_block(columns: Seq<ColumnRow>) -> Seq<char> {
    if columns.len() == 0 {
        " ()"@
    } else {
        " (\n"@ + text::join(column_lines(columns), ",\n"@) + "\n)"@
    }
}

pub open spec fn partition_clause(table: TableRow) -> Seq<char> {
    match common::nonblank(table.partition_key) {
        Some(k) => " PARTITION BY "@ + k,
        None => Seq::empty(),
    }
}

pub open spec fn access_method_clause(table: TableRow) -> Seq<char> {
    match common::nonblank(table.access_method) {
        Some(m) => if m != "heap"@ {
            " USING "@ + text::quoted_with(m, '"')
        } else {
            Seq::empty()
        },
        None => Seq::empty(),
    }
}

pub open spec fn tablespace_clause(table: TableRow) -> Seq<char> {
    match common::nonblank(table.tablespace) {
        Some(t) => " TABLESPACE "@ + text::quoted_with(t, '"'),
        None => Seq::empty(),
    }
}

pub open spec fn create_table_sql(table: TableRow, columns: Seq<ColumnRow>) -> Seq<char> {
    "CREATE TABLE "@ + qualified_name_sql(table.schema@, table.name@) + columns_block(columns)
        + partition_clause(table) + access_method_clause(table) + tablespace_clause(table) + ";"@
}

/// The parenthesised column list of an exported table.
pub fn render_columns_block(columns: &Vec<ColumnRow>) -> (r: Vec<char>)
    ensures
        r@ == columns_block(columns@),
{
    let mut out: Vec<char> = Vec::new();
    if columns.len() == 0 {
        text::append_str(&mut out, " ()");
        return out;
    }
    let mut body: Vec<char> = Vec::new();
    let mut i: usize = 0;
    while i < columns.len()
        invariant
            i <= columns@.len(),
            body@ == text::join(column_lines(columns@.take(i as int)), ",\n"@),
        decreases columns.len() - i,
    {
        let ghost prev = columns@.take(i as int);
        let ghost before = body@;
        if i > 0 {
            text::append_str(&mut body, ",\n");
        }
        let ghost sep_part = body@;
        text::append_str(&mut body, "  ");
        let col = render_column(&columns[i]);
        text::append_chars(&mut body, col.as_slice());
        i += 1;
        proof {
            let cur = columns@.take(i as int);
            assert(column_lines(cur).drop_last() =~= column_lines(prev));
            assert(column_lines(cur).last() == "  "@ + column_sql(columns@[i - 1]));
            assert(body@ =~= sep_part + ("  "@ + column_sql(columns@[i - 1])));
            if i == 1 {
                assert(sep_part == before);
                assert(body@ =~= column_lines(cur)[0]);
            }
        }
    }
    assert(columns@.take(columns@.len() as int) =~= columns@);
    text::append_str(&mut out, " (\n");
    text::append_chars(&mut out, body.as_slice());
    text::append_str(&mut out, "\n)");
    out
}

/// The trailing table options of an exported table.
pub fn render_table_options(table: &TableRow) -> (r: Vec<char>)
    ensures
        r@ == partition_clause(*table) + access_method_clause(*table) + tablespace_clause(*table),
{
    let mut out: Vec<char> = Vec::new();
    match common::nonblank_value(&table.partition_key) {
        Some(k) => {
            text::append_str(&mut out, " PARTITION BY ");
            text::append_chars(&mut out, k.as_slice());
        },
        None => {},
    }
    assert(out@ =~= partition_clause(*table));
    let ghost p1 = out@;
    match common::nonblank_value(&table.access_method) {
        Some(m) => {
            if !text::eq_str(m.as_slice(), "heap") {
                text::append_str(&mut out, " USING ");
                let q = text::quote_chars(m.as_slice(), '"');
                text::append_chars(&mut out, q.as_slice());
            }
        },
        None => {},
    }
    assert(out@ =~= p1 + access_method_clause(*table));
    let ghost p2 = out@;
    match common::nonblank_value(&table.tablespace) {
        Some(t) => {
            text::append_str(&mut out, " TABLESPACE ");
            let q = text::quote_chars(t.as_slice(), '"');
            text::append_chars(&mut out, q.as_slice());
        },
        None => {},
    }
    assert(out@ =~= p2 + tablespace_clause(*table));
    out
}

/// The exported `CREATE TABLE` statement for one table and its columns.
pub fn render_create_table(table: &TableRow, columns: &Vec<ColumnRow>) -> (r: String)
    ensures
        r@ == create_table_sql(*table, columns@),
{
    let mut out: Vec<char> = Vec::new();
    text::append_str(&mut out, "CREATE TABLE ");
    let qn = render_qualified_name(table.schema.as_str(), table.name.as_str());
    text::append_chars(&mut out, qn.as_slice());
    let block = render_columns_block(columns);
    text::append_chars(&mut out, block.as_slice());
    let opts = render_table_options(table);
    text::append_chars(&mut out, opts.as_slice());
    text::append_str(&mut out, ";");
    assert(out@ =~= create_table_sql(*table, columns@));
    text::string_of(out.as_slice())
}

pub open spec fn partition_child_sql(child: PartitionChildRow) -> Seq<char> {
    "CREATE TABLE "@ + qualified_name_sql(child.schema@, child.name@) + " PARTITION OF "@
        + qualified_name_sql(child.parent_schema@, child.parent_name@) + (if text::trim(
        child.bound@,
    ).len() > 0 {
        " "@ + text::trim(child.bound@)
    } else {
        Seq::empty()
    }) + ";"@
}

/// The exported `CREATE TABLE ... PARTITION OF` statement for one partition child.
pub fn render_partition_child_table(child: &PartitionChildRow) -> (r: String)
    ensures
        r@ == partition_child_sql(*child),
{
    let mut out: Vec<char> = Vec::new();
    text::append_str(&mut out, "CREATE TABLE ");
    let a = render_qualified_name(child.schema.as_str(), child.name.as_str());
    text::append_chars(&mut out, a.as_slice());
    text::append_str(&mut out, " PARTITION OF ");
    let b = render_qualified_name(child.parent_schema.as_str(), child.parent_name.as_str());
    text::append_chars(&mut out, b.as_slice());
    let ghost head = out@;
    let bound = text::trim_str(child.bound.as_str());
    if bound.len() > 0 {
        text::append_str(&mut out, " ");
        text::append_chars(&mut out, bound.as_slice());
    }
    text::append_str(&mut out, ";");
    assert(out@ =~= partition_child_sql(*child));
    text::string_of(out.as_slice())
}

/// The exported schema: a `CREATE TABLE` for each table with its columns, then one for
/// each partition child, separated by blank lines.
pub open spec fn export_sql(tables: Seq<(TableRow, Vec<ColumnRow>)>, children: Seq<PartitionChildRow>) -> Seq<char> {
    text::join(
        tables.map_values(|t: (TableRow, Vec<ColumnRow>)| create_table_sql(t.0, t.1@))
            + children.map_values(|c: PartitionChildRow| partition_child_sql(c)),
        "\n\n"@,
    )
}

/// Assembles the exported schema from the rows the export queries returned.
pub fn assemble_export(tables: &Vec<(TableRow, Vec<ColumnRow>)>, children: &Vec<PartitionChildRow>) -> (r:
    String)
    ensures
        r@ == export_sql(tables@, children@),
{
    let mut statements: Vec<String> = Vec::new();
    let ghost ts = tables@.map_values(|t: (TableRow, Vec<ColumnRow>)| create_table_sql(t.0, t.1@));
    let ghost cs = children@.map_values(|c: PartitionChildRow| partition_child_sql(c));
    let mut i: usize = 0;
    while i < tables.len()
        invariant
            i <= tables@.len(),
            ts == tables@.map_values(|t: (TableRow, Vec<ColumnRow>)| create_table_sql(t.0, t.1@)),
            text::views(statements@) == ts.take(i as int),
        decreases tables.len() - i,
    {
        let s = render_create_table(&tables[i].0, &tables[i].1);
        let ghost before = statements@;
        statements.push(s);
        assert(text::views(statements@) =~= text::views(before).push(s@));
        assert(ts.take(i + 1) =~= ts.take(i as int).push(ts[i as int]));
        i += 1;
    }
    let mut k: usize = 0;
    while k < children.len()
        invariant
            k <= children@.len(),
            i == tables@.len(),
            ts == tables@.map_values(|t: (TableRow, Vec<ColumnRow>)| create_table_sql(t.0, t.1@)),
            cs == children@.map_values(|c: PartitionChildRow| partition_child_sql(c)),
            text::views(statements@) == ts + cs.take(k as int),
        decreases children.len() - k,
    {
        let s = render_partition_child_table(&children[k]);
        let ghost before = statements@;
        statements.push(s);
        assert(text::views(statements@) =~= text::views(before).push(s@));
        assert(ts + cs.take(k + 1) =~= (ts + cs.take(k as int)).push(cs[k as int]));
        k += 1;
    }
    assert(ts.take(i as int) =~= ts);
    assert(cs.take(k as int) =~= cs);
    text::join_strings(&statements, "\n\n")
}

/// The search path kept for a connection: the explicit schemas, or `public` when there are none.
pub open spec fn effective_search_path(raw: Seq<char>) -> Seq<Seq<char>> {
    let s = search_path::search_path_schemas(raw);
    if s.len() == 0 {
        seq![DEFAULT_POSTGRES_SCHEMA@]
    } else {
        s
    }
}

pub fn resolve_search_path(raw: &str) -> (r: Vec<String>)
    ensures
        text::views(r@) == effective_search_path(raw@),
{
    let mut path = search_path::parse_search_path(raw);
    if path.len() == 0 {
        path.push(text::owned(DEFAULT_POSTGRES_SCHEMA));
        assert(text::views(path@) =~= seq![DEFAULT_POSTGRES_SCHEMA@]);
    }
    path
}

pub open spec fn unsupported_version_message(raw: Seq<char>) -> Seq<char> {
    "postgres server version `"@ + raw + "` is not supported; requires 13+"@
}

pub open spec fn invalid_server_version_message(raw: Seq<char>) -> Seq<char> {
    "failed to parse postgres server version string: `"@ + raw + "`"@
}

/// Why a server reporting `raw` as its version is refused: its version string does not
/// parse, or it is older than 13. `None` when it is accepted.
pub open spec fn version_refusal(raw: Seq<char>) -> Option<Seq<char>> {
    match version::server_version_of(raw) {
        None => Some(invalid_server_version_message(raw)),
        Some(v) => if v.major >= MINIMUM_POSTGRES_MAJOR_VERSION {
            None
        } else {
            Some(unsupported_version_message(raw))
        },
    }
}

/// Accepts PostgreSQL 13 and later.
pub fn ensure_minimum_version(version: &Version, raw_version: &str) -> (r: Result<(), Error>)
    ensures
        r is Ok <==> version.major >= MINIMUM_POSTGRES_MAJOR_VERSION,
        r matches Err(e) ==> common::is_execution_error(
            e,
            export_queries::SHOW_SERVER_VERSION_QUERY@,
            unsupported_version_message(raw_version@),
        ),
{
    if version.major >= MINIMUM_POSTGRES_MAJOR_VERSION {
        return Ok(());
    }
    let mut m: Vec<char> = Vec::new();
    text::append_str(&mut m, "postgres server version `");
    text::append_str(&mut m, raw_version);
    text::append_str(&mut m, "` is not supported; requires 13+");
    Err(common::execution_error(export_queries::SHOW_SERVER_VERSION_QUERY, &m))
}

pub fn invalid_server_version_error(raw_version: &str) -> (e: Error)
    ensures
        common::is_execution_error(
            e,
            export_queries::SHOW_SERVER_VERSION_QUERY@,
            invalid_server_version_message(raw_version@),
        ),
{
    let mut m: Vec<char> = Vec::new();
    text::append_str(&mut m, "failed to parse postgres server version string: `");
    text::append_str(&mut m, raw_version);
    text::append_str(&mut m, "`");
    common::execution_error(export_queries::SHOW_SERVER_VERSION_QUERY, &m)
}

/// The server version check made on connect: the version string must parse and be 13 or later.
pub fn check_server_version(raw_version: &str) -> (r: Result<Version, Error>)
    ensures
        match version::server_version_of(raw_version@) {
            None => r matches Err(e) && common::is_execution_error(
                e,
                export_queries::SHOW_SERVER_VERSION_QUERY@,
                invalid_server_version_message(raw_version@),
            ),
            Some(v) => if v.major >= MINIMUM_POSTGRES_MAJOR_VERSION {
                r == Ok::<Version, Error>(v)
            } else {
                r matches Err(e) && common::is_execution_error(
                    e,
                    export_queries::SHOW_SERVER_VERSION_QUERY@,
                    unsupported_version_message(raw_version@),
                )
            },
        },
{
    let version = match version::parse_server_version(raw_version) {
        Some(v) => v,
        None => return Err(invalid_server_version_error(raw_version)),
    };
    match ensure_minimum_version(&version, raw_version) {
        Ok(()) => Ok(version),
        Err(e) => Err(e),
    }
}

} // verus!
