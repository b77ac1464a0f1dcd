use vstd::prelude::*;

use crate::annotations;
use crate::common;
use crate::error::Error;
use crate::ir::Column;
use crate::ir::DataType;
use crate::ir::Expr;
use crate::ir::SchemaObject;
use crate::ir::Table;
use crate::ir::TableOptions;
use crate::ir::Value;
use crate::postgres::definitions::TABLE_ACCESS_METHOD_KEY;
use crate::postgres::definitions::TABLE_IF_NOT_EXISTS_KEY;
use crate::postgres::definitions::TABLESPACE_KEY;
use crate::schema::Ident;
use crate::schema::QualifiedName;
use crate::text;
use vstd::string::StringSliceAdditionalSpecFns;
use vstd::utf8::encode_utf8;

verus! {

/// Where a statement stands in the parsed text, as the PostgreSQL parser reports it: its
/// byte offset and byte length, each 0 when the parser does not give one.
#[derive(Clone, Copy)]
pub struct RawStatementSpan {
    pub stmt_location: i32,
    pub stmt_len: i32,
}

/// The byte offset where a statement starts: its reported location when that is positive.
pub open spec fn start_offset(s: RawStatementSpan) -> int {
    if s.stmt_location > 0 {
        s.stmt_location as int
    } else {
        0
    }
}

pub fn statement_start_offset(s: &RawStatementSpan) -> (r: usize)
    ensures
        r == start_offset(*s),
{
    if s.stmt_location > 0 {
        s.stmt_location as usize
    } else {
        0
    }
}

/// A statement that starts at or past the end of the text.
pub open spec fn starts_at_end(len: int, start: int) -> bool {
    start >= len
}

pub fn statement_starts_at_end(sql: &str, start: usize) -> (r: bool)
    ensures
        r == starts_at_end(sql.spec_bytes().len() as int, start as int),
{
    start >= sql.as_bytes().len()
}

/// The byte offset where statement `index` ends: the end of the text when it starts
/// there; else its start plus its reported length when that is positive; else where the
/// next statement starts, when that is after its start; else the end of the text. Never
/// past the end of the text.
pub open spec fn end_offset(len: int, statements: Seq<RawStatementSpan>, index: int, start: int) -> int {
    if starts_at_end(len, start) {
        len
    } else if statements[index].stmt_len > 0 {
        let e = start + statements[index].stmt_len;
        if e < len {
            e
        } else {
            len
        }
    } else if index + 1 < statements.len() && statements[index + 1].stmt_location >= 0
        && statements[index + 1].stmt_location > start {
        let n = statements[index + 1].stmt_location as int;
        if n < len {
            n
        } else {
            len
        }
    } else {
        len
    }
}

pub fn statement_end_offset(sql: &str, statements: &[RawStatementSpan], index: usize, start: usize) -> (r: usize)
    requires
        index < statements@.len(),
    ensures
        r == end_offset(sql.spec_bytes().len() as int, statements@, index as int, start as int),
{
    let len = sql.as_bytes().len();
    if statement_starts_at_end(sql, start) {
        return len;
    }
    if statements[index].stmt_len > 0 {
        let stmt_len = statements[index].stmt_len as usize;
        let e = if start <= usize::MAX - stmt_len {
            start + stmt_len
        } else {
            usize::MAX
        };
        return if e < len {
            e
        } else {
            len
        };
    }
    if index + 1 < statements.len() {
        let next = statements[index + 1].stmt_location;
        if next >= 0 && next as usize > start {
            let n = next as usize;
            return if n < len {
                n
            } else {
                len
            };
        }
    }
    len
}

/// The text of a statement as errors report it: its fragment trimmed, or the whole text
/// trimmed when the fragment is blank.
pub open spec fn metadata_source(sql: Seq<char>, fragment: Seq<char>) -> Seq<char> {
    if text::trim(fragment).len() == 0 {
        text::trim(sql)
    } else {
        text::trim(fragment)
    }
}

/// The text of a statement and the line on which it starts.
pub struct StatementMetadata {
    pub source_sql: String,
    pub line: usize,
}

/// The start and end offsets of statement `index` of `sql`.
pub open spec fn statement_bounds(sql: Seq<char>, statements: Seq<RawStatementSpan>, index: int) -> (int, int) {
    let start = start_offset(statements[index]);
    (start, end_offset(encode_utf8(sql).len() as int, statements, index, start))
}

/// The line of a statement: that of its first non-blank character.
pub open spec fn statement_line(sql: Seq<char>, statements: Seq<RawStatementSpan>, index: int) -> int {
    let (start, end) = statement_bounds(sql, statements, index);
    let offset = start + text::leading_ws_bytes(common::fragment_of(sql, start, end));
    common::line_of(
        encode_utf8(sql),
        if offset <= usize::MAX {
            offset
        } else {
            usize::MAX as int
        },
    )
}

pub fn statement_metadata(sql: &str, statements: &[RawStatementSpan], index: usize) -> (r: StatementMetadata)
    requires
        index < statements@.len(),
        sql.spec_bytes().len() < usize::MAX,
    ensures
        ({
            let (start, end) = statement_bounds(sql@, statements@, index as int);
            r.source_sql@ == metadata_source(sql@, common::fragment_of(sql@, start, end))
        }),
        r.line == statement_line(sql@, statements@, index as int),
{
    let start = statement_start_offset(&statements[index]);
    let end = statement_end_offset(sql, statements, index, start);
    let fragment = common::fragment_between(sql, start, end);
    let trimmed = text::trim_chars(fragment.as_slice());
    let source_sql = if trimmed.len() == 0 {
        text::string_of(text::trim_str(sql).as_slice())
    } else {
        text::string_of(trimmed.as_slice())
    };
    let fragment_text = text::string_of(fragment.as_slice());
    let lead = text::leading_whitespace_len(fragment_text.as_str());
    let line_offset = if start <= usize::MAX - lead {
        start + lead
    } else {
        usize::MAX
    };
    let line = common::offset_to_line(sql, line_offset);
    StatementMetadata { source_sql, line }
}

/// Why a statement could not be converted.
#[derive(Debug)]
pub struct ConversionError {
    pub message: String,
}

pub fn conversion_error(message: &[char]) -> (e: ConversionError)
    ensures
        e.message@ == message@,
{
    ConversionError { message: text::string_of(message) }
}

/// The kinds of statement the PostgreSQL parser reports that errors name.
#[derive(Clone, Copy)]
pub enum NodeKind {
    CreateStmt,
    AlterTableStmt,
    IndexStmt,
    ViewStmt,
    CreateSeqStmt,
    CreateSchemaStmt,
    CreateTrigStmt,
    CreateFunctionStmt,
    CreateDomainStmt,
    CreateEnumStmt,
    CreateExtensionStmt,
    CreatePolicyStmt,
    CommentStmt,
    Other,
}

pub open spec fn kind_name(k: NodeKind) -> Seq<char> {
    match k {
        NodeKind::CreateStmt => "CreateStmt"@,
        NodeKind::AlterTableStmt => "AlterTableStmt"@,
        NodeKind::IndexStmt => "IndexStmt"@,
        NodeKind::ViewStmt => "ViewStmt"@,
        NodeKind::CreateSeqStmt => "CreateSeqStmt"@,
        NodeKind::CreateSchemaStmt => "CreateSchemaStmt"@,
        NodeKind::CreateTrigStmt => "CreateTrigStmt"@,
        NodeKind::CreateFunctionStmt => "CreateFunctionStmt"@,
        NodeKind::CreateDomainStmt => "CreateDomainStmt"@,
        NodeKind::CreateEnumStmt => "CreateEnumStmt"@,
        NodeKind::CreateExtensionStmt => "CreateExtensionStmt"@,
        NodeKind::CreatePolicyStmt => "CreatePolicyStmt"@,
        NodeKind::CommentStmt => "CommentStmt"@,
        NodeKind::Other => "Other"@,
    }
}

pub fn statement_kind(k: &NodeKind) -> (r: &'static str)
    ensures
        r@ == kind_name(*k),
{
    match k {
        NodeKind::CreateStmt => "CreateStmt",
        NodeKind::AlterTableStmt => "AlterTableStmt",
        NodeKind::IndexStmt => "IndexStmt",
        NodeKind::ViewStmt => "ViewStmt",
        NodeKind::CreateSeqStmt => "CreateSeqStmt",
        NodeKind::CreateSchemaStmt => "CreateSchemaStmt",
        NodeKind::CreateTrigStmt => "CreateTrigStmt",
        NodeKind::CreateFunctionStmt => "CreateFunctionStmt",
        NodeKind::CreateDomainStmt => "CreateDomainStmt",
        NodeKind::CreateEnumStmt => "CreateEnumStmt",
        NodeKind::CreateExtensionStmt => "CreateExtensionStmt",
        NodeKind::CreatePolicyStmt => "CreatePolicyStmt",
        NodeKind::CommentStmt => "CommentStmt",
        NodeKind::Other => "Other",
    }
}

/// A relation as the parser reports it: its schema (empty when not written) and name.
pub struct RangeVarModel {
    pub schemaname: String,
    pub relname: String,
}

/// A type name as the parser reports it: the text of each of its name parts that is a
/// string, and whether array bounds follow it.
pub struct TypeNameModel {
    pub names: Vec<Option<String>>,
    pub has_array_bounds: bool,
}

/// A column definition as the parser reports it; the default expression is the text it
/// deparses to, or the reason deparsing failed.
pub struct ColumnDefModel {
    pub colname: String,
    pub column_type: Option<TypeNameModel>,
    pub raw_default: Option<Result<String, String>>,
    pub identity: String,
    pub generated: String,
    pub is_not_null: bool,
}

/// An element of `CREATE TABLE` as the parser reports it.
pub enum TableElementModel {
    ColumnDef(ColumnDefModel),
    Constraint,
    Other(NodeKind),
}

/// A `CREATE TABLE` statement as the parser reports it; an element without a node is
/// `None`.
pub struct CreateStmtModel {
    pub relation: Option<RangeVarModel>,
    pub table_elts: Vec<Option<TableElementModel>>,
    pub if_not_exists: bool,
    pub access_method: String,
    pub tablespacename: String,
}

pub enum StatementNode {
    CreateStmt(CreateStmtModel),
    Other(NodeKind),
}

/// A statement as the parser reports it: where it stands, and its node when it has one.
pub struct RawStatementModel {
    pub span: RawStatementSpan,
    pub node: Option<StatementNode>,
}

/// The texts of the string name parts of a type.
pub open spec fn name_parts(names: Seq<Option<String>>) -> Seq<Seq<char>>
    decreases names.len(),
{
    if names.len() == 0 {
        Seq::empty()
    } else {
        name_parts(names.drop_last()) + match names.last() {
            Some(n) => seq![n@],
            None => Seq::empty(),
        }
    }
}

pub fn type_parts(t: &TypeNameModel) -> (r: Vec<Vec<char>>)
    ensures
        text::char_views(r@) == name_parts(t.names@),
{
    let mut r: Vec<Vec<char>> = Vec::new();
    let mut i: usize = 0;
    assert(t.names@.take(0) =~= Seq::<Option<String>>::empty());
    while i < t.names.len()
        invariant
            i <= t.names@.len(),
            text::char_views(r@) == name_parts(t.names@.take(i as int)),
        decreases t.names.len() - i,
    {
        proof {
            assert(t.names@.take(i + 1).drop_last() =~= t.names@.take(i as int));
        }
        match &t.names[i] {
            Some(n) => {
                let v = text::chars_of(n.as_str());
                proof {
                    text::lemma_char_views_push(r@, v);
                }
                r.push(v);
            },
            None => {
                assert(name_parts(t.names@.take(i + 1)) =~= name_parts(t.names@.take(i as int)));
            },
        }
        i += 1;
    }
    assert(t.names@.take(t.names@.len() as int) =~= t.names@);
    r
}

/// The built-in type a base type name, in lower case, stands for.
pub open spec fn base_type(base: Seq<char>) -> Option<DataType> {
    if base == "bool"@ || base == "boolean"@ {
        Some(DataType::Boolean)
    } else if base == "int2"@ || base == "smallint"@ {
        Some(DataType::SmallInt)
    } else if base == "int"@ || base == "int4"@ || base == "integer"@ {
        Some(DataType::Integer)
    } else if base == "int8"@ || base == "bigint"@ {
        Some(DataType::BigInt)
    } else if base == "float4"@ || base == "real"@ {
        Some(DataType::Real)
    } else if base == "float8"@ || base == "double"@ || base == "double precision"@ {
        Some(DataType::DoublePrecision)
    } else if base == "numeric"@ || base == "decimal"@ {
        Some(DataType::Numeric { precision: None, scale: None })
    } else if base == "text"@ {
        Some(DataType::Text)
    } else if base == "varchar"@ || base == "character varying"@ {
        Some(DataType::Varchar { length: None })
    } else if base == "bpchar"@ || base == "char"@ || base == "character"@ {
        Some(DataType::Char { length: None })
    } else if base == "bytea"@ {
        Some(DataType::Blob)
    } else if base == "date"@ {
        Some(DataType::Date)
    } else if base == "time"@ {
        Some(DataType::Time { with_timezone: false })
    } else if base == "timetz"@ {
        Some(DataType::Time { with_timezone: true })
    } else if base == "timestamp"@ {
        Some(DataType::Timestamp { with_timezone: false })
    } else if base == "timestamptz"@ {
        Some(DataType::Timestamp { with_timezone: true })
    } else if base == "json"@ {
        Some(DataType::Json)
    } else if base == "jsonb"@ {
        Some(DataType::Jsonb)
    } else if base == "uuid"@ {
        Some(DataType::Uuid)
    } else {
        None
    }
}

fn base_type_of(base: &[char]) -> (r: Option<DataType>)
    ensures
        r == base_type(base@),
{
    if text::eq_str(base, "bool") || text::eq_str(base, "boolean") {
        Some(DataType::Boolean)
    } else if text::eq_str(base, "int2") || text::eq_str(base, "smallint") {
        Some(DataType::SmallInt)
    } else if text::eq_str(base, "int") || text::eq_str(base, "int4") || text::eq_str(base, "integer") {
        Some(DataType::Integer)
    } else if text::eq_str(base, "int8") || text::eq_str(base, "bigint") {
        Some(DataType::BigInt)
    } else if text::eq_str(base, "float4") || text::eq_str(base, "real") {
        Some(DataType::Real)
    } else if text::eq_str(base, "float8") || text::eq_str(base, "double") || text::eq_str(
        base,
        "double precision",
    ) {
        Some(DataType::DoublePrecision)
    } else if text::eq_str(base, "numeric") || text::eq_str(base, "decimal") {
        Some(DataType::Numeric { precision: None, scale: None })
    } else if text::eq_str(base, "text") {
        Some(DataType::Text)
    } else if text::eq_str(base, "varchar") || text::eq_str(base, "character varying") {
        Some(DataType::Varchar { length: None })
    } else if text::eq_str(base, "bpchar") || text::eq_str(base, "char") || text::eq_str(
        base,
        "character",
    ) {
        Some(DataType::Char { length: None })
    } else if text::eq_str(base, "bytea") {
        Some(DataType::Blob)
    } else if text::eq_str(base, "date") {
        Some(DataType::Date)
    } else if text::eq_str(base, "time") {
        Some(DataType::Time { with_timezone: false })
    } else if text::eq_str(base, "timetz") {
        Some(DataType::Time { with_timezone: true })
    } else if text::eq_str(base, "timestamp") {
        Some(DataType::Timestamp { with_timezone: false })
    } else if text::eq_str(base, "timestamptz") {
        Some(DataType::Timestamp { with_timezone: true })
    } else if text::eq_str(base, "json") {
        Some(DataType::Json)
    } else if text::eq_str(base, "jsonb") {
        Some(DataType::Jsonb)
    } else if text::eq_str(base, "uuid") {
        Some(DataType::Uuid)
    } else {
        None
    }
}

pub const NO_TYPE_IDENTIFIERS: &'static str = "type name has no identifiers";

/// `r` is the type a type name converts to: the built-in type its last part names (in
/// any case), else a custom type of its parts joined with `.`; an array of it when array
/// bounds follow. A name without string parts is refused.
pub open spec fn data_type_converted(r: Result<DataType, ConversionError>, t: TypeNameModel) -> bool {
    let names = name_parts(t.names@);
    if names.len() == 0 {
        r matches Err(e) && e.message@ == NO_TYPE_IDENTIFIERS@
    } else {
        let element_ok = |d: DataType| match base_type(text::lower(names.last())) {
            Some(b) => d == b,
            None => d matches DataType::Custom(c) && c@ == text::join(names, "."@),
        };
        r matches Ok(d) && if t.has_array_bounds {
            d matches DataType::Array(inner) && element_ok(*inner)
        } else {
            element_ok(d)
        }
    }
}

pub fn convert_data_type(t: &TypeNameModel) -> (r: Result<DataType, ConversionError>)
    ensures
        data_type_converted(r, *t),
{
    let names = type_parts(t);
    if names.len() == 0 {
        let m = text::chars_of(NO_TYPE_IDENTIFIERS);
        return Err(conversion_error(m.as_slice()));
    }
    let base = &names[names.len() - 1];
    let base_lower = text::lower_chars(base.as_slice());
    let data_type = match base_type_of(base_lower.as_slice()) {
        Some(d) => d,
        None => {
            let joined = text::join_char_vecs(&names, ".");
            DataType::Custom(text::string_of(joined.as_slice()))
        },
    };
    if t.has_array_bounds {
        Ok(DataType::Array(Box::new(data_type)))
    } else {
        Ok(data_type)
    }
}

/// An identifier as the parser reports it: unquoted.
pub open spec fn is_unquoted(id: Ident, text: Seq<char>) -> bool {
    id.value@ == text && !id.quoted
}

/// The name a relation converts to: its schema when one is written, and its name.
pub open spec fn name_from_range_var(n: QualifiedName, rel: RangeVarModel) -> bool {
    &&& is_unquoted(n.name, rel.relname@)
    &&& if rel.schemaname@.len() == 0 {
        n.schema is None
    } else {
        n.schema matches Some(s) && is_unquoted(s, rel.schemaname@)
    }
}

pub fn qualified_name_from_range_var(rel: &RangeVarModel) -> (n: QualifiedName)
    ensures
        name_from_range_var(n, *rel),
{
    let schema = if rel.schemaname.as_str().unicode_len() == 0 {
        None
    } else {
        Some(Ident { value: text::owned(rel.schemaname.as_str()), quoted: false })
    };
    QualifiedName { schema, name: Ident { value: text::owned(rel.relname.as_str()), quoted: false } }
}

/// Why a column definition cannot be converted, if it cannot: it has no type, its type
/// has no name, or its default expression did not deparse.
pub open spec fn column_error(c: ColumnDefModel) -> Option<Seq<char>> {
    match c.column_type {
        None => Some("column "@ + c.colname@ + " is missing type information"@),
        Some(t) => if name_parts(t.names@).len() == 0 {
            Some(NO_TYPE_IDENTIFIERS@)
        } else {
            match c.raw_default {
                Some(Err(m)) => Some(
                    "column "@ + c.colname@ + " default expression deparse failed: "@ + m@,
                ),
                _ => None,
            }
        },
    }
}

/// A mode text carried as a hint: absent when empty.
pub open spec fn hint_of(h: Option<Value>, mode: Seq<char>) -> bool {
    if mode.len() == 0 {
        h is None
    } else {
        h matches Some(Value::String(v)) && v@ == mode
    }
}

/// `col` is the column a convertible definition gives: its unquoted name, its converted
/// type, its `NOT NULL`, its deparsed default as raw text, and its identity and
/// generation modes as hints; nothing else.
pub open spec fn column_built(col: Column, c: ColumnDefModel) -> bool {
    &&& is_unquoted(col.name, c.colname@)
    &&& c.column_type matches Some(t) && data_type_converted(Ok(col.data_type), t)
    &&& col.not_null == c.is_not_null
    &&& match c.raw_default {
        None => col.default is None,
        Some(Ok(d)) => col.default matches Some(Expr::Raw(x)) && x@ == d@,
        Some(Err(_)) => false,
    }
    &&& col.identity is None
    &&& col.generated is None
    &&& col.collation is None
    &&& col.auto_increment_hint is None
    &&& hint_of(col.identity_hint, c.identity@)
    &&& hint_of(col.generated_hint, c.generated@)
}

fn mode_hint(mode: &String) -> (h: Option<Value>)
    ensures
        hint_of(h, mode@),
{
    if mode.as_str().unicode_len() == 0 {
        None
    } else {
        Some(Value::String(text::owned(mode.as_str())))
    }
}

pub fn convert_column(c: &ColumnDefModel) -> (r: Result<Column, ConversionError>)
    ensures
        match column_error(*c) {
            Some(m) => r matches Err(e) && e.message@ == m,
            None => r matches Ok(col) && column_built(col, *c),
        },
{
    let t = match &c.column_type {
        Some(t) => t,
        None => {
            let mut m = text::chars_of("column ");
            text::append_str(&mut m, c.colname.as_str());
            text::append_str(&mut m, " is missing type information");
            return Err(conversion_error(m.as_slice()));
        },
    };
    let data_type = convert_data_type(t)?;
    let default = match &c.raw_default {
        None => None,
        Some(Ok(d)) => Some(Expr::Raw(text::owned(d.as_str()))),
        Some(Err(source)) => {
            let mut m = text::chars_of("column ");
            text::append_str(&mut m, c.colname.as_str());
            text::append_str(&mut m, " default expression deparse failed: ");
            text::append_str(&mut m, source.as_str());
            return Err(conversion_error(m.as_slice()));
        },
    };
    Ok(Column {
        name: Ident { value: text::owned(c.colname.as_str()), quoted: false },
        data_type,
        not_null: c.is_not_null,
        default,
        identity: None,
        generated: None,
        collation: None,
        auto_increment_hint: None,
        identity_hint: mode_hint(&c.identity),
        generated_hint: mode_hint(&c.generated),
    })
}

pub const MISSING_RELATION: &'static str = "CREATE TABLE is missing relation";

pub const MISSING_ELEMENT_NODE: &'static str = "CREATE TABLE element is missing node payload";

pub const UNSUPPORTED_ELEMENT: &'static str = "unsupported CREATE TABLE element kind: ";

/// Why an element of `CREATE TABLE` cannot be converted, if it cannot: only column
/// definitions are.
pub open spec fn element_error(e: Option<TableElementModel>) -> Option<Seq<char>> {
    match e {
        None => Some(MISSING_ELEMENT_NODE@),
        Some(TableElementModel::ColumnDef(c)) => column_error(c),
        Some(TableElementModel::Constraint) => Some(UNSUPPORTED_ELEMENT@ + "Constraint"@),
        Some(TableElementModel::Other(k)) => Some(UNSUPPORTED_ELEMENT@ + kind_name(k)),
    }
}

/// The options a `CREATE TABLE` statement carries, in key order: each key with its text,
/// or with no text for the flag that is `true`.
pub open spec fn expected_extra(s: CreateStmtModel) -> Seq<(Seq<char>, Option<Seq<char>>)> {
    (if s.access_method@.len() == 0 {
        Seq::empty()
    } else {
        seq![(TABLE_ACCESS_METHOD_KEY@, Some(s.access_method@))]
    }) + (if s.if_not_exists {
        seq![(TABLE_IF_NOT_EXISTS_KEY@, None)]
    } else {
        Seq::empty()
    }) + (if s.tablespacename@.len() == 0 {
        Seq::empty()
    } else {
        seq![(TABLESPACE_KEY@, Some(s.tablespacename@))]
    })
}

/// An option entry with the given key and text (or `true` when there is no text).
pub open spec fn entry_is(e: (String, Value), x: (Seq<char>, Option<Seq<char>>)) -> bool {
    &&& e.0@ == x.0
    &&& match x.1 {
        Some(v) => e.1 matches Value::String(t) && t@ == v,
        None => e.1 == Value::Bool(true),
    }
}

pub open spec fn entries_are(e: Seq<(String, Value)>, x: Seq<(Seq<char>, Option<Seq<char>>)>) -> bool {
    e.len() == x.len() && forall|k: int| 0 <= k < e.len() ==> entry_is(#[trigger] e[k], x[k])
}

/// `t` is the table a convertible statement gives: the relation's name, a column for each
/// element, and the statement's options; nothing else.
pub open spec fn table_built(t: Table, s: CreateStmtModel) -> bool {
    &&& s.relation matches Some(rel) && name_from_range_var(t.name, rel)
    &&& t.columns@.len() == s.table_elts@.len()
    &&& forall|k: int|
        0 <= k < t.columns@.len() ==> (s.table_elts@[k] matches Some(
            TableElementModel::ColumnDef(c),
        ) && column_built(#[trigger] t.columns@[k], c))
    &&& t.primary_key is None
    &&& t.foreign_keys@.len() == 0
    &&& t.checks@.len() == 0
    &&& t.exclusions@.len() == 0
    &&& t.partition is None
    &&& t.renamed_from is None
    &&& t.options.without_rowid is None
    &&& t.options.strict is None
    &&& t.options.source_sql is None
    &&& t.options.partition_sql is None
    &&& entries_are(t.options.extra@, expected_extra(s))
}

/// The first element of a statement that cannot be converted is at `i`.
pub open spec fn first_bad_element(elts: Seq<Option<TableElementModel>>, i: int) -> bool {
    &&& 0 <= i < elts.len()
    &&& element_error(elts[i]) is Some
    &&& forall|j: int| 0 <= j < i ==> element_error(#[trigger] elts[j]) is None
}

/// Two first elements that cannot be converted are the same.
pub proof fn lemma_first_bad_element_unique(elts: Seq<Option<TableElementModel>>, i: int, j: int)
    requires
        first_bad_element(elts, i),
        first_bad_element(elts, j),
    ensures
        i == j,
{
    if i < j {
        assert(element_error(elts[i]) is None);
    } else if j < i {
        assert(element_error(elts[j]) is None);
    }
}

/// Why a `CREATE TABLE` statement cannot be converted, if it cannot: it names no
/// relation, or the error of its first element that cannot be converted.
pub open spec fn table_error(s: CreateStmtModel) -> Option<Seq<char>> {
    let elts = s.table_elts@;
    if s.relation is None {
        Some(MISSING_RELATION@)
    } else if exists|i: int| first_bad_element(elts, i) {
        element_error(elts[choose|i: int| first_bad_element(elts, i)])
    } else {
        None
    }
}

/// `r` is what converting a `CREATE TABLE` statement gives: its error, else the table.
pub open spec fn table_converted(r: Result<Table, ConversionError>, s: CreateStmtModel) -> bool {
    match table_error(s) {
        Some(m) => r matches Err(e) && e.message@ == m,
        None => r matches Ok(t) && table_built(t, s),
    }
}

fn convert_element(e: &Option<TableElementModel>) -> (r: Result<Column, ConversionError>)
    ensures
        match element_error(*e) {
            Some(m) => r matches Err(x) && x.message@ == m,
            None => r matches Ok(col) && (*e matches Some(TableElementModel::ColumnDef(c))
                && column_built(col, c)),
        },
{
    match e {
        None => Err(conversion_error(text::chars_of(MISSING_ELEMENT_NODE).as_slice())),
        Some(TableElementModel::ColumnDef(c)) => convert_column(c),
        Some(TableElementModel::Constraint) => {
            let mut m = text::chars_of(UNSUPPORTED_ELEMENT);
            text::append_str(&mut m, "Constraint");
            Err(conversion_error(m.as_slice()))
        },
        Some(TableElementModel::Other(k)) => {
            let mut m = text::chars_of(UNSUPPORTED_ELEMENT);
            text::append_str(&mut m, statement_kind(k));
            Err(conversion_error(m.as_slice()))
        },
    }
}

fn push_extra(extra: &mut Vec<(String, Value)>, key: &str, v: Value)
    ensures
        final(extra)@.len() == old(extra)@.len() + 1,
        final(extra)@.take(old(extra)@.len() as int) == old(extra)@,
        final(extra)@.last().0@ == key@,
        final(extra)@.last().1 == v,
{
    extra.push((text::owned(key), v));
}

fn table_extra(s: &CreateStmtModel) -> (extra: Vec<(String, Value)>)
    ensures
        entries_are(extra@, expected_extra(*s)),
{
    let mut extra: Vec<(String, Value)> = Vec::new();
    let ghost x: Seq<(Seq<char>, Option<Seq<char>>)> = Seq::empty();
    if s.access_method.as_str().unicode_len() != 0 {
        push_extra(&mut extra, TABLE_ACCESS_METHOD_KEY, Value::String(text::owned(s.access_method.as_str())));
        proof {
            x = x.push((TABLE_ACCESS_METHOD_KEY@, Some(s.access_method@)));
        }
    }
    assert(entries_are(extra@, x));
    if s.if_not_exists {
        push_extra(&mut extra, TABLE_IF_NOT_EXISTS_KEY, Value::Bool(true));
        proof {
            x = x.push((TABLE_IF_NOT_EXISTS_KEY@, None));
        }
    }
    assert(entries_are(extra@, x));
    if s.tablespacename.as_str().unicode_len() != 0 {
        push_extra(&mut extra, TABLESPACE_KEY, Value::String(text::owned(s.tablespacename.as_str())));
        proof {
            x = x.push((TABLESPACE_KEY@, Some(s.tablespacename@)));
        }
    }
    assert(entries_are(extra@, x));
    assert(x =~= expected_extra(*s));
    extra
}

pub fn convert_create_table(s: &CreateStmtModel) -> (r: Result<Table, ConversionError>)
    ensures
        table_converted(r, *s),
{
    let rel = match &s.relation {
        Some(rel) => rel,
        None => return Err(conversion_error(text::chars_of(MISSING_RELATION).as_slice())),
    };
    let name = qualified_name_from_range_var(rel);
    let mut columns: Vec<Column> = Vec::new();
    let mut i: usize = 0;
    while i < s.table_elts.len()
        invariant
            i <= s.table_elts@.len(),
            s.relation is Some,
            columns@.len() == i,
            forall|j: int| 0 <= j < i ==> element_error(#[trigger] s.table_elts@[j]) is None,
            forall|k: int|
                0 <= k < i ==> (s.table_elts@[k] matches Some(TableElementModel::ColumnDef(c))
                    && column_built(#[trigger] columns@[k], c)),
        decreases s.table_elts.len() - i,
    {
        match convert_element(&s.table_elts[i]) {
            Ok(col) => columns.push(col),
            Err(e) => {
                proof {
                    assert(first_bad_element(s.table_elts@, i as int));
                    let c = choose|j: int| first_bad_element(s.table_elts@, j);
                    lemma_first_bad_element_unique(s.table_elts@, i as int, c);
                }
                return Err(e);
            },
        }
        i += 1;
    }
    proof {
        if exists|j: int| first_bad_element(s.table_elts@, j) {
            let j = choose|j: int| first_bad_element(s.table_elts@, j);
            assert(element_error(s.table_elts@[j]) is None);
        }
    }
    let options = TableOptions {
        without_rowid: None,
        strict: None,
        source_sql: None,
        partition_sql: None,
        extra: table_extra(s),
    };
    Ok(Table {
        name,
        columns,
        primary_key: None,
        foreign_keys: Vec::new(),
        checks: Vec::new(),
        exclusions: Vec::new(),
        partition: None,
        options,
        renamed_from: None,
    })
}

pub const MISSING_STATEMENT_NODE: &'static str = "missing statement node";

pub const UNSUPPORTED_STATEMENT: &'static str = "unsupported PostgreSQL statement kind: ";

/// A converted statement and the line it starts on, where annotations attach.
pub struct ConvertedStatement {
    pub object: SchemaObject,
    pub line: usize,
}

/// Why a statement cannot be converted, if it cannot: only `CREATE TABLE` is.
pub open spec fn statement_error(st: RawStatementModel) -> Option<Seq<char>> {
    match st.node {
        None => Some(MISSING_STATEMENT_NODE@),
        Some(StatementNode::CreateStmt(c)) => table_error(c),
        Some(StatementNode::Other(k)) => Some(UNSUPPORTED_STATEMENT@ + kind_name(k)),
    }
}

/// `o` is the object a convertible statement gives.
pub open spec fn object_built(o: SchemaObject, st: RawStatementModel) -> bool {
    st.node matches Some(StatementNode::CreateStmt(c)) && (o matches SchemaObject::Table(t)
        && table_built(t, c))
}

pub fn convert_statement(st: &RawStatementModel, line: usize) -> (r: Result<
    ConvertedStatement,
    ConversionError,
>)
    ensures
        match statement_error(*st) {
            Some(m) => r matches Err(e) && e.message@ == m,
            None => r matches Ok(c) && object_built(c.object, *st) && c.line == line,
        },
{
    match &st.node {
        None => Err(conversion_error(text::chars_of(MISSING_STATEMENT_NODE).as_slice())),
        Some(StatementNode::CreateStmt(c)) => {
            let table = convert_create_table(c)?;
            Ok(ConvertedStatement { object: SchemaObject::Table(table), line })
        },
        Some(StatementNode::Other(k)) => {
            let mut m = text::chars_of(UNSUPPORTED_STATEMENT);
            text::append_str(&mut m, statement_kind(k));
            Err(conversion_error(m.as_slice()))
        },
    }
}

/// The spans of a list of statements.
pub open spec fn spans_of(stmts: Seq<RawStatementModel>) -> Seq<RawStatementSpan> {
    stmts.map_values(|st: RawStatementModel| st.span)
}

/// The first statement that cannot be converted is at `i`.
pub open spec fn first_bad_statement(stmts: Seq<RawStatementModel>, i: int) -> bool {
    &&& 0 <= i < stmts.len()
    &&& statement_error(stmts[i]) is Some
    &&& forall|j: int| 0 <= j < i ==> statement_error(#[trigger] stmts[j]) is None
}

/// `e` reports that statement `i` of `sql` failed to convert: its index, its text and
/// line, and why.
pub open spec fn reports_statement(e: Error, sql: Seq<char>, stmts: Seq<RawStatementModel>, i: int) -> bool {
    let spans = spans_of(stmts);
    let (start, end) = statement_bounds(sql, spans, i);
    e matches Error::StatementConversion { statement_index, source_sql, line, message }
        && statement_index == i && source_sql@ == metadata_source(sql, common::fragment_of(sql, start, end))
        && line == Some(statement_line(sql, spans, i) as usize) && Some(message@) == statement_error(
        stmts[i],
    )
}

/// `r` is what converting the statements the parser read from `sql` gives: the error of
/// the first one that cannot be converted, else an object for each.
pub open spec fn statements_converted(
    r: Result<Vec<SchemaObject>, Error>,
    sql: Seq<char>,
    stmts: Seq<RawStatementModel>,
) -> bool {
    if exists|i: int| first_bad_statement(stmts, i) {
        exists|i: int| #[trigger]
            first_bad_statement(stmts, i) && (r matches Err(e) && reports_statement(e, sql, stmts, i))
    } else {
        r matches Ok(objects) && objects@.len() == stmts.len() && forall|k: int|
            0 <= k < stmts.len() ==> object_built(#[trigger] objects@[k], stmts[k])
    }
}

fn statement_spans(stmts: &Vec<RawStatementModel>) -> (r: Vec<RawStatementSpan>)
    ensures
        r@ == spans_of(stmts@),
{
    let mut r: Vec<RawStatementSpan> = Vec::new();
    let mut i: usize = 0;
    while i < stmts.len()
        invariant
            i <= stmts@.len(),
            r@ == spans_of(stmts@).take(i as int),
        decreases stmts.len() - i,
    {
        r.push(stmts[i].span);
        i += 1;
        assert(r@ =~= spans_of(stmts@).take(i as int));
    }
    assert(r@ =~= spans_of(stmts@));
    r
}

/// Converts the statements the parser read from `sql`, in order, stopping at the first
/// that cannot be converted.
pub fn convert_statements(sql: &str, stmts: &Vec<RawStatementModel>) -> (r: Result<
    Vec<SchemaObject>,
    Error,
>)
    requires
        sql.spec_bytes().len() < usize::MAX,
    ensures
        statements_converted(r, sql@, stmts@),
{
    let spans = statement_spans(stmts);
    let mut objects: Vec<SchemaObject> = Vec::new();
    let mut i: usize = 0;
    while i < stmts.len()
        invariant
            i <= stmts@.len(),
            spans@ == spans_of(stmts@),
            sql.spec_bytes().len() < usize::MAX,
            objects@.len() == i,
            forall|j: int| 0 <= j < i ==> statement_error(#[trigger] stmts@[j]) is None,
            forall|k: int| 0 <= k < i ==> object_built(#[trigger] objects@[k], stmts@[k]),
        decreases stmts.len() - i,
    {
        let metadata = statement_metadata(sql, spans.as_slice(), i);
        match convert_statement(&stmts[i], metadata.line) {
            Ok(c) => objects.push(c.object),
            Err(e) => {
                let err = Error::StatementConversion {
                    statement_index: i,
                    source_sql: metadata.source_sql,
                    line: Some(metadata.line),
                    message: e.message,
                };
                proof {
                    assert(first_bad_statement(stmts@, i as int));
                    assert(reports_statement(err, sql@, stmts@, i as int));
                }
                return Err(err);
            },
        }
        i += 1;
    }
    proof {
        if exists|j: int| first_bad_statement(stmts@, j) {
            let j = choose|j: int| first_bad_statement(stmts@, j);
            assert(statement_error(stmts@[j]) is None);
        }
    }
    Ok(objects)
}

/// The outcome of parsing a text: its statements, or the text of the parser's error.
pub open spec fn parsed_view(parsed: Result<Vec<RawStatementModel>, String>) -> Result<
    Seq<RawStatementModel>,
    Seq<char>,
> {
    match parsed {
        Err(m) => Err(m@),
        Ok(v) => Ok(v@),
    }
}

/// `r` is what converting the outcome of parsing `sql` gives: a text the parser refused is
/// reported as statement 0 on line 1 with the whole text; else its statements are
/// converted.
pub open spec fn parse_converted(
    r: Result<Vec<SchemaObject>, Error>,
    sql: Seq<char>,
    parsed: Result<Seq<RawStatementModel>, Seq<char>>,
) -> bool {
    match parsed {
        Err(m) => r matches Err(Error::StatementConversion { statement_index, source_sql, line, message })
            && statement_index == 0 && source_sql@ == sql && line == Some(1usize) && message@ == m,
        Ok(stmts) => statements_converted(r, sql, stmts),
    }
}

/// Converts the outcome of parsing `sql`: a text the parser refused is reported as
/// statement 0 on line 1 with the whole text; else its statements are converted.
pub fn parse_schema(sql: &str, parsed: Result<Vec<RawStatementModel>, String>) -> (r: Result<
    Vec<SchemaObject>,
    Error,
>)
    requires
        sql.spec_bytes().len() < usize::MAX,
    ensures
        parse_converted(r, sql@, parsed_view(parsed)),
{
    match parsed {
        Err(m) => Err(
            Error::StatementConversion {
                statement_index: 0,
                source_sql: text::owned(sql),
                line: Some(1),
                message: m,
            },
        ),
        Ok(stmts) => convert_statements(sql, &stmts),
    }
}

/// The lines the statements of `sql` start on.
pub open spec fn statement_lines(sql: Seq<char>, stmts: Seq<RawStatementModel>) -> Seq<int> {
    Seq::new(stmts.len(), |k: int| statement_line(sql, spans_of(stmts), k))
}

fn lines_of_statements(sql: &str, stmts: &Vec<RawStatementModel>) -> (r: Vec<usize>)
    requires
        sql.spec_bytes().len() < usize::MAX,
    ensures
        annotations::line_views(r@) == statement_lines(sql@, stmts@),
{
    let spans = statement_spans(stmts);
    let mut out: Vec<usize> = Vec::new();
    let mut i: usize = 0;
    while i < stmts.len()
        invariant
            i <= stmts@.len(),
            spans@ == spans_of(stmts@),
            sql.spec_bytes().len() < usize::MAX,
            annotations::line_views(out@) == statement_lines(sql@, stmts@).take(i as int),
        decreases stmts.len() - i,
    {
        let metadata = statement_metadata(sql, spans.as_slice(), i);
        let ghost before = annotations::line_views(out@);
        out.push(metadata.line);
        assert(annotations::line_views(out@) =~= before.push(metadata.line as int));
        assert(statement_lines(sql@, stmts@).take(i + 1) =~= statement_lines(sql@, stmts@).take(
            i as int,
        ).push(statement_line(sql@, spans_of(stmts@), i as int)));
        i += 1;
    }
    assert(statement_lines(sql@, stmts@).take(i as int) =~= statement_lines(sql@, stmts@));
    out
}

/// `r` is what reading annotated `sql` gives when the parser read `parsed` from its
/// annotation-free text: the conversion of what was read, with each rename annotation
/// giving the table whose statement starts on its line its former name.
pub open spec fn annotated_parse(
    r: Result<Vec<SchemaObject>, Error>,
    sql: Seq<char>,
    parsed: Result<Seq<RawStatementModel>, Seq<char>>,
) -> bool {
    let clean = annotations::cleaned_text(sql);
    exists|r0: Result<Vec<SchemaObject>, Error>|
        parse_converted(r0, clean, parsed) && match (r0, parsed) {
            (Err(e), _) => r matches Err(e2) && e2 == e,
            (Ok(objects), Ok(stmts)) => annotations::attached(
                r,
                objects@,
                statement_lines(clean, stmts),
                annotations::annotations_of(sql),
            ),
            (Ok(_), Err(_)) => false,
        }
}

/// Reads annotated `sql`, given what the parser read from its annotation-free text: takes
/// the rename annotations out, converts what was read, and attaches the annotations.
pub fn parse_annotated_schema(sql: &str, parsed: Result<Vec<RawStatementModel>, String>) -> (r:
    Result<Vec<SchemaObject>, Error>)
    requires
        encode_utf8(annotations::cleaned_text(sql@)).len() < usize::MAX,
    ensures
        annotated_parse(r, sql@, parsed_view(parsed)),
{
    let (clean, anns) = annotations::extract_annotations(sql);
    let ghost p = parsed_view(parsed);
    let lines = match &parsed {
        Ok(stmts) => lines_of_statements(clean.as_str(), stmts),
        Err(_) => Vec::new(),
    };
    let r0 = parse_schema(clean.as_str(), parsed);
    let ghost g0 = r0;
    let r = match r0 {
        Err(e) => Err(e),
        Ok(objects) => {
            assert(p is Ok);
            assert(annotations::line_views(lines@).len() == lines@.len());
            annotations::attach_annotations(objects, &lines, &anns)
        },
    };
    assert(parse_converted(g0, clean@, p));
    r
}

} // verus!
