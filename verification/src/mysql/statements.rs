use vstd::prelude::*;

use crate::annotations;
use crate::common;
use crate::error::Error;
use crate::ir;
use crate::ir::SchemaObject;
use crate::ir::Table;
use crate::ir::TableOptions;
use crate::ir::Value;
use crate::mysql::parser::{self, CreateViewInfo, TableHints, ViewSecurity};
use crate::schema;
use crate::text;
use vstd::string::StringSliceAdditionalSpecFns;
use vstd::utf8::encode_utf8;

verus! {

/// The text of a statement of the input and the line it starts on.
pub struct StatementMetadata {
    pub source_sql: String,
    pub line: usize,
}

/// The text and line of the statement in a span of `sql`, when the span is not blank.
pub open spec fn span_metadata(sql: Seq<char>, span: (int, int)) -> Option<(Seq<char>, int)> {
    let f = common::fragment_of(sql, span.0, span.1);
    let offset = span.0 + text::leading_ws_bytes(f);
    if text::trim(f).len() == 0 {
        None
    } else {
        Some(
            (
                text::trim(f),
                common::line_of(
                    encode_utf8(sql),
                    if offset <= usize::MAX {
                        offset
                    } else {
                        usize::MAX as int
                    },
                ),
            ),
        )
    }
}

/// The text and line of each statement of `sql` that is not blank, in order.
pub open spec fn metadata_list(sql: Seq<char>, spans: Seq<(int, int)>) -> Seq<(Seq<char>, int)>
    decreases spans.len(),
{
    if spans.len() == 0 {
        Seq::empty()
    } else {
        let prev = metadata_list(sql, spans.drop_last());
        match span_metadata(sql, spans.last()) {
            Some(m) => prev.push(m),
            None => prev,
        }
    }
}

pub open spec fn metadata_views(m: Seq<StatementMetadata>) -> Seq<(Seq<char>, int)> {
    m.map_values(|x: StatementMetadata| (x.source_sql@, x.line as int))
}

/// The text and line of each statement of `sql` that is not blank.
pub fn statement_metadata(sql: &str) -> (r: Vec<StatementMetadata>)
    requires
        sql.spec_bytes().len() < usize::MAX,
    ensures
        metadata_views(r@) == metadata_list(sql@, parser::statement_spans(sql.spec_bytes())),
{
    let spans = parser::split_statement_spans(sql);
    let ghost sv = parser::span_views(spans@);
    let mut out: Vec<StatementMetadata> = Vec::new();
    let mut i: usize = 0;
    assert(sv.take(0) =~= Seq::<(int, int)>::empty());
    assert(metadata_views(out@) =~= Seq::<(Seq<char>, int)>::empty());
    while i < spans.len()
        invariant
            i <= spans@.len(),
            sv == parser::span_views(spans@),
            sql.spec_bytes().len() < usize::MAX,
            metadata_views(out@) == metadata_list(sql@, sv.take(i as int)),
        decreases spans.len() - i,
    {
        let (start, end) = spans[i];
        proof {
            assert(sv.take(i + 1).drop_last() =~= sv.take(i as int));
            assert(sv.take(i + 1).last() == (start as int, end as int));
        }
        let fragment = common::fragment_between(sql, start, end);
        let trimmed = text::trim_chars(fragment.as_slice());
        if trimmed.len() > 0 {
            let fragment_text = text::string_of(fragment.as_slice());
            let lead = text::leading_whitespace_len(fragment_text.as_str());
            let offset = if start <= usize::MAX - lead {
                start + lead
            } else {
                usize::MAX
            };
            let line = common::offset_to_line(sql, offset);
            let ghost before = metadata_views(out@);
            out.push(StatementMetadata { source_sql: text::string_of(trimmed.as_slice()), line });
            assert(metadata_views(out@) =~= before.push((trimmed@, line as int)));
        }
        i += 1;
    }
    assert(sv.take(sv.len() as int) =~= sv);
    out
}

/// A statement as the SQL parser reports it: its text as the parser renders it, and what
/// a `CREATE VIEW` says.
pub enum MysqlStatement {
    CreateTable { sql: String },
    CreateView { sql: String, info: CreateViewInfo },
    Other { sql: String },
}

pub open spec fn statement_text(st: MysqlStatement) -> Seq<char> {
    match st {
        MysqlStatement::CreateTable { sql } => sql@,
        MysqlStatement::CreateView { sql, .. } => sql@,
        MysqlStatement::Other { sql } => sql@,
    }
}

pub const TABLE_NAME_FAILURE: &'static str = "failed to parse CREATE TABLE name";

pub const UNSUPPORTED_STATEMENT: &'static str = "unsupported mysql statement kind: ";

/// Why a statement cannot be converted, if it cannot: a table whose name cannot be read, a
/// view the dialect refuses, or a statement that is neither.
pub open spec fn statement_error(st: MysqlStatement) -> Option<Seq<char>> {
    match st {
        MysqlStatement::CreateTable { sql } => if parser::create_table_name_of(sql@) is None {
            Some(TABLE_NAME_FAILURE@)
        } else {
            None
        },
        MysqlStatement::CreateView { info, .. } => parser::view_rejection(info),
        MysqlStatement::Other { sql } => Some(UNSUPPORTED_STATEMENT@ + parser::kind_of(sql@)),
    }
}

pub const HAS_AFTER_CLAUSE_KEY: &'static str = "mysql.table.has_after_clause";

pub const HAS_AUTO_INCREMENT_KEY: &'static str = "mysql.table.has_auto_increment";

pub const HAS_CHANGE_COLUMN_KEY: &'static str = "mysql.table.has_change_column";

pub const HAS_PARTITIONING_KEY: &'static str = "mysql.table.has_partitioning";

/// The keys of the flags a statement's text raises, in key order.
pub open spec fn flag_keys(h: TableHints) -> Seq<Seq<char>> {
    flag_keys_of(h.has_after_clause, h.has_auto_increment, h.has_change_column, h.has_partitioning)
}

pub open spec fn flag_keys_of(after: bool, auto: bool, change: bool, partitioning: bool) -> Seq<
    Seq<char>,
> {
    (if after {
        seq![HAS_AFTER_CLAUSE_KEY@]
    } else {
        Seq::empty()
    }) + (if auto {
        seq![HAS_AUTO_INCREMENT_KEY@]
    } else {
        Seq::empty()
    }) + (if change {
        seq![HAS_CHANGE_COLUMN_KEY@]
    } else {
        Seq::empty()
    }) + (if partitioning {
        seq![HAS_PARTITIONING_KEY@]
    } else {
        Seq::empty()
    })
}

pub open spec fn flags_are(e: Seq<(String, Value)>, keys: Seq<Seq<char>>) -> bool {
    e.len() == keys.len() && forall|k: int|
        0 <= k < e.len() ==> (#[trigger] e[k]).0@ == keys[k] && e[k].1 == Value::Bool(true)
}

/// `t` is the table a `CREATE TABLE` statement gives: its name, no columns or
/// constraints, its trimmed text, its partition clause when it partitions, and a flag for
/// each of `AFTER`, `AUTO_INCREMENT`, `CHANGE COLUMN` and `PARTITION BY` it mentions
/// (ASCII case ignored).
pub open spec fn table_from_sql(t: Table, sql: Seq<char>) -> bool {
    let up = text::upper(sql);
    let partitioning = text::contains_sub(up, "PARTITION BY"@);
    &&& parser::create_table_name_of(sql) matches Some(name) && parser::qualified_matches(t.name, name)
    &&& t.columns@.len() == 0
    &&& t.primary_key is None
    &&& t.foreign_keys@.len() == 0
    &&& t.checks@.len() == 0
    &&& t.exclusions@.len() == 0
    &&& t.partition is None
    &&& t.options.without_rowid is None
    &&& t.options.strict is None
    &&& t.renamed_from is None
    &&& t.options.source_sql matches Some(Value::String(s)) && s@ == text::trim(sql)
    &&& match parser::partition_clause_of(sql) {
        Some(p) if partitioning => t.options.partition_sql matches Some(Value::String(q)) && q@ == p,
        _ => t.options.partition_sql is None,
    }
    &&& flags_are(
        t.options.extra@,
        flag_keys_of(
            text::contains_sub(up, " AFTER "@),
            text::contains_sub(up, "AUTO_INCREMENT"@),
            text::contains_sub(up, "CHANGE COLUMN"@),
            partitioning,
        ),
    )
}

pub open spec fn security_of(s: Option<ViewSecurity>) -> Option<ir::ViewSecurity> {
    match s {
        None => None,
        Some(ViewSecurity::Definer) => Some(ir::ViewSecurity::Definer),
        Some(ViewSecurity::Invoker) => Some(ir::ViewSecurity::Invoker),
    }
}

/// `v` is the view a `CREATE VIEW` statement describes.
pub open spec fn view_from_info(v: ir::View, info: CreateViewInfo) -> bool {
    &&& v.query@ == info.query@
    &&& v.check_option is None
    &&& v.renamed_from is None
    &&& v.security == security_of(info.security)
    &&& v.columns@.len() == info.columns@.len()
    &&& forall|k: int|
        0 <= k < info.columns@.len() ==> schema::same_ident(#[trigger] v.columns@[k], info.columns@[k])
    &&& if info.name_parts@.len() == 1 {
        v.name.schema is None && schema::same_ident(v.name.name, info.name_parts@[0]->0)
    } else {
        v.name.schema matches Some(s) && schema::same_ident(s, info.name_parts@[0]->0)
            && schema::same_ident(v.name.name, info.name_parts@[1]->0)
    }
}

/// `o` is the object a convertible statement gives.
pub open spec fn object_built(o: SchemaObject, st: MysqlStatement) -> bool {
    match st {
        MysqlStatement::CreateTable { sql } => o matches SchemaObject::Table(t) && table_from_sql(t, sql@),
        MysqlStatement::CreateView { info, .. } => o matches SchemaObject::View(v) && view_from_info(v, info),
        MysqlStatement::Other { .. } => false,
    }
}

/// A table read from a `CREATE TABLE` statement renders back as that statement, trimmed
/// and terminated.
pub proof fn law_table_statement_round_trip(sql: Seq<char>, t: Table)
    requires
        table_from_sql(t, sql),
    ensures
        crate::mysql::to_sql::table_result(t) == Ok::<Seq<char>, Seq<char>>(text::terminate(text::trim(sql))),
{
    text::lemma_trim_blank(sql);
    if text::trim(sql).len() == 0 {
        text::lemma_blank_no_words(sql);
    }
    text::lemma_trim_idempotent(sql);
}

fn push_flag(extra: &mut Vec<(String, Value)>, key: &str, on: bool)
    ensures
        on ==> final(extra)@ == old(extra)@.push((final(extra)@.last().0, Value::Bool(true)))
            && final(extra)@.last().0@ == key@,
        !on ==> final(extra)@ == old(extra)@,
{
    if on {
        extra.push((text::owned(key), Value::Bool(true)));
    }
}

fn flag_entries(h: &TableHints) -> (extra: Vec<(String, Value)>)
    ensures
        flags_are(extra@, flag_keys(*h)),
{
    let mut extra: Vec<(String, Value)> = Vec::new();
    push_flag(&mut extra, HAS_AFTER_CLAUSE_KEY, h.has_after_clause);
    let ghost k1 = if h.has_after_clause {
        seq![HAS_AFTER_CLAUSE_KEY@]
    } else {
        Seq::<Seq<char>>::empty()
    };
    assert(flags_are(extra@, k1));
    push_flag(&mut extra, HAS_AUTO_INCREMENT_KEY, h.has_auto_increment);
    let ghost k2 = k1 + if h.has_auto_increment {
        seq![HAS_AUTO_INCREMENT_KEY@]
    } else {
        Seq::<Seq<char>>::empty()
    };
    assert(flags_are(extra@, k2));
    push_flag(&mut extra, HAS_CHANGE_COLUMN_KEY, h.has_change_column);
    let ghost k3 = k2 + if h.has_change_column {
        seq![HAS_CHANGE_COLUMN_KEY@]
    } else {
        Seq::<Seq<char>>::empty()
    };
    assert(flags_are(extra@, k3));
    push_flag(&mut extra, HAS_PARTITIONING_KEY, h.has_partitioning);
    let ghost k4 = k3 + if h.has_partitioning {
        seq![HAS_PARTITIONING_KEY@]
    } else {
        Seq::<Seq<char>>::empty()
    };
    assert(flags_are(extra@, k4));
    assert(k4 =~= flag_keys(*h));
    extra
}

fn table_of(c: parser::ConvertedTable, Ghost(sql): Ghost<Seq<char>>) -> (t: Table)
    requires
        parser::create_table_name_of(sql) matches Some(v) && parser::qualified_matches(c.name, v),
        parser::hints_hold(sql, c.hints),
    ensures
        table_from_sql(t, sql),
{
    let extra = flag_entries(&c.hints);
    let partition_sql = match c.hints.partition_sql {
        Some(p) => Some(Value::String(p)),
        None => None,
    };
    let options = TableOptions {
        without_rowid: None,
        strict: None,
        source_sql: Some(Value::String(c.hints.source_sql)),
        partition_sql,
        extra,
    };
    Table {
        name: c.name,
        columns: Vec::new(),
        primary_key: None,
        foreign_keys: Vec::new(),
        checks: Vec::new(),
        exclusions: Vec::new(),
        partition: None,
        options,
        renamed_from: None,
    }
}

fn security_to_ir(s: Option<ViewSecurity>) -> (r: Option<ir::ViewSecurity>)
    ensures
        r == security_of(s),
{
    match s {
        None => None,
        Some(ViewSecurity::Definer) => Some(ir::ViewSecurity::Definer),
        Some(ViewSecurity::Invoker) => Some(ir::ViewSecurity::Invoker),
    }
}

/// Converts one statement; `line` is where it starts.
pub fn convert_statement(st: &MysqlStatement, line: usize) -> (r: Result<SchemaObject, Vec<char>>)
    ensures
        match statement_error(*st) {
            Some(m) => r matches Err(e) && e@ == m,
            None => r matches Ok(o) && object_built(o, *st),
        },
{
    match st {
        MysqlStatement::CreateTable { sql } => {
            let v = text::chars_of(sql.as_str());
            let converted = parser::convert_create_table_statement(v.as_slice(), line)?;
            Ok(SchemaObject::Table(table_of(converted, Ghost(sql@))))
        },
        MysqlStatement::CreateView { info, .. } => {
            let v = parser::convert_create_view_statement(info, line)?;
            Ok(
                SchemaObject::View(
                    ir::View {
                        name: v.name,
                        columns: v.columns,
                        query: v.query,
                        check_option: None,
                        security: security_to_ir(v.security),
                        renamed_from: None,
                    },
                ),
            )
        },
        MysqlStatement::Other { sql } => {
            let v = text::chars_of(sql.as_str());
            let mut m = text::chars_of(UNSUPPORTED_STATEMENT);
            let kind = parser::statement_kind(v.as_slice());
            text::append_chars(&mut m, kind.as_slice());
            Err(m)
        },
    }
}

/// The text and line of statement `i` as errors report them: those of the `i`-th
/// non-blank statement of `sql`, or else the parser's rendering of it on line 1.
pub open spec fn metadata_at(sql: Seq<char>, stmts: Seq<MysqlStatement>, i: int) -> (Seq<char>, int) {
    let m = metadata_list(sql, parser::statement_spans(encode_utf8(sql)));
    if i < m.len() {
        m[i]
    } else {
        (statement_text(stmts[i]), 1)
    }
}

/// The first statement that cannot be converted is at `i`.
pub open spec fn first_bad_statement(stmts: Seq<MysqlStatement>, i: int) -> bool {
    &&& 0 <= i < stmts.len()
    &&& statement_error(stmts[i]) is Some
    &&& forall|j: int| 0 <= j < i ==> statement_error(#[trigger] stmts[j]) is None
}

/// `e` reports that statement `i` failed to convert: its index, text and line, and why.
pub open spec fn reports_statement(e: Error, sql: Seq<char>, stmts: Seq<MysqlStatement>, i: int) -> bool {
    let (text, line) = metadata_at(sql, stmts, i);
    e matches Error::StatementConversion { statement_index, source_sql, line: l, message }
        && statement_index == i && source_sql@ == text && l == Some(line as usize) && Some(message@)
        == statement_error(stmts[i])
}

/// `r` is what converting the statements the parser read from `sql` gives: the error of
/// the first one that cannot be converted, else an object for each.
pub open spec fn statements_converted(
    r: Result<Vec<SchemaObject>, Error>,
    sql: Seq<char>,
    stmts: Seq<MysqlStatement>,
) -> bool {
    if exists|i: int| first_bad_statement(stmts, i) {
        exists|i: int| #[trigger]
            first_bad_statement(stmts, i) && (r matches Err(e) && reports_statement(e, sql, stmts, i))
    } else {
        r matches Ok(objects) && objects@.len() == stmts.len() && forall|k: int|
            0 <= k < stmts.len() ==> object_built(#[trigger] objects@[k], stmts[k])
    }
}

fn statement_sql(st: &MysqlStatement) -> (r: String)
    ensures
        r@ == statement_text(*st),
{
    match st {
        MysqlStatement::CreateTable { sql } => text::owned(sql.as_str()),
        MysqlStatement::CreateView { sql, .. } => text::owned(sql.as_str()),
        MysqlStatement::Other { sql } => text::owned(sql.as_str()),
    }
}

/// Converts the statements the parser read from `sql`, in order, stopping at the first
/// that cannot be converted.
pub fn convert_statements(sql: &str, stmts: &Vec<MysqlStatement>) -> (r: Result<
    Vec<SchemaObject>,
    Error,
>)
    requires
        sql.spec_bytes().len() < usize::MAX,
    ensures
        statements_converted(r, sql@, stmts@),
{
    let metadata = statement_metadata(sql);
    let mut objects: Vec<SchemaObject> = Vec::new();
    let mut i: usize = 0;
    while i < stmts.len()
        invariant
            i <= stmts@.len(),
            metadata_views(metadata@) == metadata_list(sql@, parser::statement_spans(sql.spec_bytes())),
            objects@.len() == i,
            forall|j: int| 0 <= j < i ==> statement_error(#[trigger] stmts@[j]) is None,
            forall|k: int| 0 <= k < i ==> object_built(#[trigger] objects@[k], stmts@[k]),
        decreases stmts.len() - i,
    {
        let (source_sql, line) = if i < metadata.len() {
            assert(metadata_views(metadata@)[i as int] == (metadata@[i as int].source_sql@, metadata@[i as int].line as int));
            (text::owned(metadata[i].source_sql.as_str()), metadata[i].line)
        } else {
            (statement_sql(&stmts[i]), 1)
        };
        assert(metadata_at(sql@, stmts@, i as int) == (source_sql@, line as int));
        match convert_statement(&stmts[i], line) {
            Ok(o) => objects.push(o),
            Err(m) => {
                let err = parser::statement_conversion_error(i, source_sql, Some(line), m);
                proof {
                    assert(first_bad_statement(stmts@, i as int));
                    assert(reports_statement(err, sql@, stmts@, i as int));
                }
                return Err(err);
            },
        }
        i += 1;
    }
    proof {
        if exists|j: int| first_bad_statement(stmts@, j) {
            let j = choose|j: int| first_bad_statement(stmts@, j);
            assert(statement_error(stmts@[j]) is None);
        }
    }
    Ok(objects)
}

/// `r` is what converting the outcome of parsing `sql` gives: a text the parser refused
/// is reported as statement 0 on line 1 with the whole text; else its statements are
/// converted.
pub open spec fn parse_outcome(
    r: Result<Vec<SchemaObject>, Error>,
    sql: Seq<char>,
    parsed: Result<Seq<MysqlStatement>, Seq<char>>,
) -> bool {
    match parsed {
        Err(m) => r matches Err(Error::StatementConversion { statement_index, source_sql, line, message })
            && statement_index == 0 && source_sql@ == sql && line == Some(1usize) && message@ == m,
        Ok(stmts) => statements_converted(r, sql, stmts),
    }
}

pub open spec fn parsed_view(parsed: Result<Vec<MysqlStatement>, String>) -> Result<Seq<MysqlStatement>, Seq<char>> {
    match parsed {
        Err(m) => Err(m@),
        Ok(v) => Ok(v@),
    }
}

/// Converts the outcome of parsing `sql`.
pub fn convert_parse_result(sql: &str, parsed: Result<Vec<MysqlStatement>, String>) -> (r: Result<
    Vec<SchemaObject>,
    Error,
>)
    requires
        sql.spec_bytes().len() < usize::MAX,
    ensures
        parse_outcome(r, sql@, parsed_view(parsed)),
{
    match parsed {
        Err(m) => Err(
            Error::StatementConversion {
                statement_index: 0,
                source_sql: text::owned(sql),
                line: Some(1),
                message: m,
            },
        ),
        Ok(stmts) => convert_statements(sql, &stmts),
    }
}

/// A statement read is the one the parser gives: its rendering, a `CREATE TABLE` exactly
/// where the parser says so, and otherwise a `CREATE VIEW` saying what the parser read
/// from it, or a statement of another kind.
pub open spec fn read_one(
    st: MysqlStatement,
    x: (Seq<char>, bool, Option<crate::mysql::syntax::ViewPlain>),
) -> bool {
    &&& statement_text(st) == x.0
    &&& (st is CreateTable) == x.1
    &&& !x.1 ==> match x.2 {
        Some(vm) => st matches MysqlStatement::CreateView { info, .. }
            && crate::mysql::syntax::view_plain(info) == vm,
        None => st is Other,
    }
}

/// The statements read are those the parser gives, one for one.
pub open spec fn read_as(
    stmts: Seq<MysqlStatement>,
    x: Seq<(Seq<char>, bool, Option<crate::mysql::syntax::ViewPlain>)>,
) -> bool {
    &&& stmts.len() == x.len()
    &&& forall|k: int| 0 <= k < stmts.len() ==> read_one(#[trigger] stmts[k], x[k])
}

/// `r` is what parsing `sql`, free of annotations, as MySQL gives: the parser's error as
/// statement 0 on line 1, else the conversion of statements read as the parser gives them.
pub open spec fn clean_schema_parsed(r: Result<Vec<SchemaObject>, Error>, sql: Seq<char>) -> bool {
    match crate::mysql::syntax::mysql_parse(sql) {
        Err(m) => parse_outcome(r, sql, Err(m)),
        Ok(x) => exists|stmts: Seq<MysqlStatement>| read_as(stmts, x) && parse_outcome(r, sql, Ok(stmts)),
    }
}

/// Parses `sql` as MySQL and converts its statements; annotation comments are ordinary
/// comments here.
pub fn parse_clean_schema(sql: &str) -> (r: Result<Vec<SchemaObject>, Error>)
    requires
        sql.spec_bytes().len() < usize::MAX,
    ensures
        clean_schema_parsed(r, sql@),
{
    let parsed = crate::mysql::syntax::parse_statements(sql);
    let ghost p = parsed_view(parsed);
    let ghost stmts = match p {
        Ok(v) => v,
        Err(_) => Seq::empty(),
    };
    let r = convert_parse_result(sql, parsed);
    assert(parse_outcome(r, sql@, p));
    assert(parsed is Ok ==> read_as(stmts, crate::mysql::syntax::mysql_parse(sql@)->Ok_0));
    r
}

/// The line statement `k` of `sql` starts on, as errors and annotations see it.
pub open spec fn statement_line(sql: Seq<char>, k: int) -> int {
    let m = metadata_list(sql, parser::statement_spans(encode_utf8(sql)));
    if k < m.len() {
        m[k].1
    } else {
        1
    }
}

/// The lines the first `n` statements of `sql` start on.
pub open spec fn statement_lines(sql: Seq<char>, n: int) -> Seq<int> {
    Seq::new(n as nat, |k: int| statement_line(sql, k))
}

/// The lines the first `n` statements of `sql` start on.
fn lines_of_statements(sql: &str, n: usize) -> (r: Vec<usize>)
    requires
        sql.spec_bytes().len() < usize::MAX,
    ensures
        annotations::line_views(r@) == statement_lines(sql@, n as int),
{
    let metadata = statement_metadata(sql);
    let mut out: Vec<usize> = Vec::new();
    let mut k: usize = 0;
    while k < n
        invariant
            k <= n,
            metadata_views(metadata@) == metadata_list(sql@, parser::statement_spans(sql.spec_bytes())),
            annotations::line_views(out@) == statement_lines(sql@, k as int),
        decreases n - k,
    {
        let line = if k < metadata.len() {
            assert(metadata_views(metadata@)[k as int] == (metadata@[k as int].source_sql@, metadata@[k as int].line as int));
            metadata[k].line
        } else {
            1
        };
        let ghost before = annotations::line_views(out@);
        out.push(line);
        assert(annotations::line_views(out@) =~= before.push(line as int));
        assert(statement_lines(sql@, k + 1) =~= statement_lines(sql@, k as int).push(statement_line(sql@, k as int)));
        k += 1;
    }
    out
}

/// `r` is what the objects `r0` read from the annotation-free text `clean` become once
/// the annotations `anns` are attached; an error stays as it is.
pub open spec fn annotated(
    r: Result<Vec<SchemaObject>, Error>,
    r0: Result<Vec<SchemaObject>, Error>,
    clean: Seq<char>,
    anns: Seq<(int, Seq<char>)>,
) -> bool {
    match r0 {
        Err(e) => r matches Err(e2) && e2 == e,
        Ok(objects) => annotations::attached(
            r,
            objects@,
            statement_lines(clean, objects@.len() as int),
            anns,
        ),
    }
}

/// `r` is what parsing `sql` as MySQL gives: its rename annotations are taken out, the
/// rest is parsed and converted, and each annotation gives the table or view whose
/// statement starts on its line its former name.
pub open spec fn schema_parsed(r: Result<Vec<SchemaObject>, Error>, sql: Seq<char>) -> bool {
    let clean = annotations::cleaned_text(sql);
    exists|r0: Result<Vec<SchemaObject>, Error>|
        clean_schema_parsed(r0, clean) && annotated(r, r0, clean, annotations::annotations_of(sql))
}

/// Parses `sql` as MySQL: takes its rename annotations out, parses and converts the rest,
/// and attaches the annotations.
pub fn parse_schema(sql: &str) -> (r: Result<Vec<SchemaObject>, Error>)
    requires
        encode_utf8(annotations::cleaned_text(sql@)).len() < usize::MAX,
    ensures
        schema_parsed(r, sql@),
{
    let (clean, anns) = annotations::extract_annotations(sql);
    let r0 = parse_clean_schema(clean.as_str());
    let ghost g0 = r0;
    let r = match r0 {
        Err(e) => Err(e),
        Ok(objects) => {
            let lines = lines_of_statements(clean.as_str(), objects.len());
            assert(annotations::line_views(lines@).len() == lines@.len());
            annotations::attach_annotations(objects, &lines, &anns)
        },
    };
    assert(annotated(r, g0, clean@, annotations::annotations_of(sql@)));
    r
}

} // verus!
