use vstd::prelude::*;

use crate::error;
use crate::error::Error;
use crate::ir;
use crate::ops;
use crate::ir::Column;
use crate::ir::ColumnChange;
use crate::ir::DataType;
use crate::ir::DiffOp;
use crate::ir::Expr;
use crate::ir::IndexOwner;
use crate::ir::SchemaObject;
use crate::ir::SqliteRebuildStep;
use crate::ir::Statement;
use crate::ir::StatementContext;
use crate::schema;
use crate::schema::Ident;
use crate::schema::QualifiedName;
use crate::sqlite::to_sql;
use crate::text;

verus! {

pub const GENERATOR_TARGET: &'static str = "sqlite ddl generator";

pub const SHADOW_TABLE_PREFIX: &'static str = "__stateql_rebuild_";

pub const DEFAULT_EXPR_TARGET: &'static str = "unsupported expression in sqlite default value";

pub const RENAME_ACROSS_SCHEMAS_TARGET: &'static str = "sqlite cannot rename across schemas";

pub const APPEND_ONLY_TARGET: &'static str = "sqlite add-column supports append only";

pub const TABLE_SCOPED_INDEX_TARGET: &'static str = "sqlite indexes are table-scoped";

pub const UNBATCHED_REBUILD_TARGET: &'static str = "sqlite rebuild ops must be batched before emit_simple_op";

pub const MIXED_TABLES_TARGET: &'static str = "sqlite rebuild batch mixed multiple tables";

pub const UNEXPECTED_REBUILD_OP_TARGET: &'static str = "unexpected op in sqlite rebuild batch";

pub const EMPTY_REBUILD_OP: &'static str = "SqliteRebuild";

/// A statement of a plan: its text, and for a table rebuild, the table and the step.
pub struct PlannedStatement {
    pub sql: Seq<char>,
    pub rebuild: Option<(QualifiedName, SqliteRebuildStep)>,
}

/// Why a change cannot be generated: the change's kind and what refused it.
pub struct GenerateFailure {
    pub diff_op: Seq<char>,
    pub target: Seq<char>,
}

/// `s` is the transactional statement that `p` describes.
pub open spec fn statement_matches(s: Statement, p: PlannedStatement) -> bool {
    match s {
        Statement::Sql { sql, transactional, context } => sql@ == p.sql && transactional && match (
            context,
            p.rebuild,
        ) {
            (None, None) => true,
            (Some(StatementContext::SqliteTableRebuild { table, step }), Some((t, st))) => {
                schema::same_name(table, t) && step == st
            },
            _ => false,
        },
    }
}

pub open spec fn statements_match(s: Seq<Statement>, p: Seq<PlannedStatement>) -> bool {
    s.len() == p.len() && forall|i: int| 0 <= i < s.len() ==> statement_matches(#[trigger] s[i], p[i])
}

/// `r` is what the plan `expected` says, in `dialect_name`.
pub open spec fn generated_as(
    r: Result<Vec<Statement>, Error>,
    expected: Result<Seq<PlannedStatement>, GenerateFailure>,
    dialect_name: Seq<char>,
) -> bool {
    match expected {
        Ok(p) => r matches Ok(v) && statements_match(v@, p),
        Err(f) => r matches Err(e) && error::is_unsupported(e, f.diff_op, f.target, dialect_name),
    }
}

pub open spec fn plain(sql: Seq<char>) -> PlannedStatement {
    PlannedStatement { sql, rebuild: None }
}

pub open spec fn failure(op: DiffOp, target: Seq<char>) -> GenerateFailure {
    GenerateFailure { diff_op: ops::diff_op_tag(op), target }
}

/// The table a change rebuilds: SQLite alters columns and constraints by copying the
/// table, so these changes are planned together per table.
pub open spec fn rebuild_table(op: DiffOp) -> Option<QualifiedName> {
    match op {
        DiffOp::AlterColumn { table, .. } => Some(table),
        DiffOp::DropColumn { table, .. } => Some(table),
        DiffOp::AddForeignKey { table, .. } => Some(table),
        DiffOp::DropForeignKey { table, .. } => Some(table),
        DiffOp::AddCheck { table, .. } => Some(table),
        DiffOp::DropCheck { table, .. } => Some(table),
        DiffOp::AddExclusion { table, .. } => Some(table),
        DiffOp::DropExclusion { table, .. } => Some(table),
        DiffOp::SetPrimaryKey { table, .. } => Some(table),
        DiffOp::DropPrimaryKey { table } => Some(table),
        _ => None,
    }
}

pub fn rebuild_table_of(op: &DiffOp) -> (r: Option<&QualifiedName>)
    ensures
        match r {
            Some(t) => rebuild_table(*op) == Some(*t),
            None => rebuild_table(*op) is None,
        },
{
    match op {
        DiffOp::AlterColumn { table, .. } => Some(table),
        DiffOp::DropColumn { table, .. } => Some(table),
        DiffOp::AddForeignKey { table, .. } => Some(table),
        DiffOp::DropForeignKey { table, .. } => Some(table),
        DiffOp::AddCheck { table, .. } => Some(table),
        DiffOp::DropCheck { table, .. } => Some(table),
        DiffOp::AddExclusion { table, .. } => Some(table),
        DiffOp::DropExclusion { table, .. } => Some(table),
        DiffOp::SetPrimaryKey { table, .. } => Some(table),
        DiffOp::DropPrimaryKey { table } => Some(table),
        _ => None,
    }
}

/// The error for a change that `target` refuses.
pub fn unsupported_diff_op(dialect_name: &str, op: &DiffOp, target: &str) -> (e: Error)
    ensures
        error::is_unsupported(e, ops::diff_op_tag(*op), target@, dialect_name@),
{
    let tag = text::chars_of(ops::diff_op_name(op));
    error::unsupported(tag.as_slice(), target, dialect_name)
}

/// A default value as SQLite accepts it: constants, names, casts and parentheses.
pub open spec fn default_expr_sql(e: Expr) -> Option<Seq<char>>
    decreases e,
{
    match e {
        Expr::Literal(l) => Some(to_sql::literal_sql(l)),
        Expr::Raw(r) => Some(text::trim(r@)),
        Expr::Null => Some("NULL"@),
        Expr::Ident(id) => Some(to_sql::ident_sql(id)),
        Expr::QualifiedIdent { qualifier, name } => Some(
            to_sql::ident_sql(qualifier) + "."@ + to_sql::ident_sql(name),
        ),
        Expr::Cast { expr, data_type } => match default_expr_sql(*expr) {
            Some(s) => Some("CAST("@ + s + " AS "@ + to_sql::data_type_sql(data_type) + ")"@),
            None => None,
        },
        Expr::Paren(inner) => match default_expr_sql(*inner) {
            Some(s) => Some("("@ + s + ")"@),
            None => None,
        },
        _ => None,
    }
}

/// Renders a default value; any other expression is refused for `op`.
pub fn render_default_expr(e: &Expr, dialect_name: &str, op: &DiffOp) -> (r: Result<
    Vec<char>,
    Error,
>)
    ensures
        match default_expr_sql(*e) {
            Some(s) => r matches Ok(v) && v@ == s,
            None => r matches Err(err) && error::is_unsupported(
                err,
                ops::diff_op_tag(*op),
                DEFAULT_EXPR_TARGET@,
                dialect_name@,
            ),
        },
    decreases *e,
{
    let mut out: Vec<char> = Vec::new();
    match e {
        Expr::Literal(l) => to_sql::write_literal(&mut out, l),
        Expr::Raw(r) => {
            out = text::trim_str(r.as_str());
        },
        Expr::Null => text::append_str(&mut out, "NULL"),
        Expr::Ident(id) => to_sql::write_ident(&mut out, id),
        Expr::QualifiedIdent { qualifier, name } => {
            to_sql::write_ident(&mut out, qualifier);
            text::append_str(&mut out, ".");
            to_sql::write_ident(&mut out, name);
        },
        Expr::Cast { expr, data_type } => {
            let inner = match render_default_expr(expr, dialect_name, op) {
                Ok(v) => v,
                Err(err) => return Err(err),
            };
            text::append_str(&mut out, "CAST(");
            text::append_chars(&mut out, inner.as_slice());
            text::append_str(&mut out, " AS ");
            to_sql::write_data_type(&mut out, data_type);
            text::append_str(&mut out, ")");
        },
        Expr::Paren(inner) => {
            let inner = match render_default_expr(inner, dialect_name, op) {
                Ok(v) => v,
                Err(err) => return Err(err),
            };
            text::append_str(&mut out, "(");
            text::append_chars(&mut out, inner.as_slice());
            text::append_str(&mut out, ")");
        },
        _ => return Err(unsupported_diff_op(dialect_name, op, DEFAULT_EXPR_TARGET)),
    }
    proof {
        let s = default_expr_sql(*e)->Some_0;
        assert(out@ =~= s);
    }
    Ok(out)
}

/// A column definition for `ADD COLUMN`, when its default can be written.
pub open spec fn column_definition_sql(c: Column) -> Option<Seq<char>> {
    let base = to_sql::ident_sql(c.name) + " "@ + to_sql::data_type_sql(c.data_type)
        + to_sql::not_null_sql(c.not_null);
    match c.default {
        None => Some(base),
        Some(d) => match default_expr_sql(d) {
            Some(s) => Some(base + " DEFAULT "@ + s),
            None => None,
        },
    }
}

pub fn render_column_definition(c: &Column, dialect_name: &str, op: &DiffOp) -> (r: Result<
    Vec<char>,
    Error,
>)
    ensures
        match column_definition_sql(*c) {
            Some(s) => r matches Ok(v) && v@ == s,
            None => r matches Err(err) && error::is_unsupported(
                err,
                ops::diff_op_tag(*op),
                DEFAULT_EXPR_TARGET@,
                dialect_name@,
            ),
        },
{
    let mut out: Vec<char> = Vec::new();
    to_sql::write_ident(&mut out, &c.name);
    text::append_str(&mut out, " ");
    to_sql::write_data_type(&mut out, &c.data_type);
    to_sql::write_not_null(&mut out, c.not_null);
    match &c.default {
        Some(d) => {
            let rendered = match render_default_expr(d, dialect_name, op) {
                Ok(v) => v,
                Err(err) => return Err(err),
            };
            text::append_str(&mut out, " DEFAULT ");
            text::append_chars(&mut out, rendered.as_slice());
        },
        None => {},
    }
    proof {
        let s = column_definition_sql(*c)->Some_0;
        assert(out@ =~= s);
    }
    Ok(out)
}

/// What rendering the object a creating change carries gives.
pub open spec fn op_object_result(op: DiffOp) -> Result<Seq<char>, Seq<char>> {
    match op {
        DiffOp::CreateTable(t) => to_sql::table_result(t),
        DiffOp::AddIndex(i) => to_sql::index_result(i),
        DiffOp::CreateView(v) => Ok(to_sql::view_sql(v)),
        DiffOp::CreateTrigger(t) => to_sql::trigger_result(t),
        _ => Err(Seq::empty()),
    }
}

/// The statement for a creating change, or the refusal reported for the change itself.
pub open spec fn rendered_object(op: DiffOp) -> Result<PlannedStatement, GenerateFailure> {
    match op_object_result(op) {
        Ok(s) => Ok(plain(s)),
        Err(_) => Err(failure(op, to_sql::TO_SQL_TARGET@)),
    }
}

pub open spec fn is_rebuild_op(op: DiffOp) -> bool {
    rebuild_table(op) is Some
}

/// The statement for one change that SQLite runs as it is.
pub open spec fn simple_op_result(op: DiffOp) -> Result<PlannedStatement, GenerateFailure> {
    match op {
        DiffOp::CreateTable(_) => rendered_object(op),
        DiffOp::DropTable(n) => Ok(plain("DROP TABLE "@ + to_sql::qualified_name_sql(n) + ";"@)),
        DiffOp::RenameTable { from, to } => if !schema::same_qualifier(from.schema, to.schema) {
            Err(failure(op, RENAME_ACROSS_SCHEMAS_TARGET@))
        } else {
            Ok(
                plain(
                    "ALTER TABLE "@ + to_sql::qualified_name_sql(from) + " RENAME TO "@
                        + to_sql::ident_sql(to.name) + ";"@,
                ),
            )
        },
        DiffOp::AddColumn { table, column, position } => if position is Some {
            Err(failure(op, APPEND_ONLY_TARGET@))
        } else {
            match column_definition_sql(column) {
                Some(d) => Ok(
                    plain(
                        "ALTER TABLE "@ + to_sql::qualified_name_sql(table) + " ADD COLUMN "@ + d
                            + ";"@,
                    ),
                ),
                None => Err(failure(op, DEFAULT_EXPR_TARGET@)),
            }
        },
        DiffOp::RenameColumn { table, from, to } => Ok(
            plain(
                "ALTER TABLE "@ + to_sql::qualified_name_sql(table) + " RENAME COLUMN "@
                    + to_sql::ident_sql(from) + " TO "@ + to_sql::ident_sql(to) + ";"@,
            ),
        ),
        DiffOp::AddIndex(i) => if !(i.owner is Table) {
            Err(failure(op, TABLE_SCOPED_INDEX_TARGET@))
        } else {
            rendered_object(op)
        },
        DiffOp::DropIndex { owner, name } => if !(owner is Table) {
            Err(failure(op, TABLE_SCOPED_INDEX_TARGET@))
        } else {
            Ok(plain("DROP INDEX "@ + to_sql::ident_sql(name) + ";"@))
        },
        DiffOp::CreateView(_) => rendered_object(op),
        DiffOp::DropView(n) => Ok(plain("DROP VIEW "@ + to_sql::qualified_name_sql(n) + ";"@)),
        DiffOp::CreateTrigger(_) => rendered_object(op),
        DiffOp::DropTrigger { name, .. } => Ok(
            plain("DROP TRIGGER "@ + to_sql::qualified_name_sql(name) + ";"@),
        ),
        _ => if is_rebuild_op(op) {
            Err(failure(op, UNBATCHED_REBUILD_TARGET@))
        } else {
            Err(failure(op, GENERATOR_TARGET@))
        },
    }
}

fn plain_statement(sql: &Vec<char>) -> (s: Statement)
    ensures
        statement_matches(s, plain(sql@)),
{
    Statement::Sql { sql: text::string_of(sql.as_slice()), transactional: true, context: None }
}

/// Renders the object a creating change carries; a refusal of the renderer is reported
/// for the change, with the renderer's target.
pub fn render_schema_object(dialect_name: &str, op: &DiffOp) -> (r: Result<String, Error>)
    requires
        op is CreateTable || op is AddIndex || op is CreateView || op is CreateTrigger,
    ensures
        match op_object_result(*op) {
            Ok(s) => r matches Ok(v) && v@ == s,
            Err(_) => r matches Err(e) && error::is_unsupported(
                e,
                ops::diff_op_tag(*op),
                to_sql::TO_SQL_TARGET@,
                dialect_name@,
            ),
        },
{
    let rendered = match op {
        DiffOp::CreateTable(t) => to_sql::render_table(dialect_name, t),
        DiffOp::AddIndex(i) => to_sql::render_index(dialect_name, i),
        DiffOp::CreateView(v) => Ok(to_sql::render_view(v)),
        DiffOp::CreateTrigger(t) => to_sql::render_trigger(dialect_name, t),
        _ => Ok(String::new()),
    };
    match rendered {
        Ok(sql) => Ok(sql),
        Err(Error::UnsupportedDiffOp { target, .. }) => Err(
            unsupported_diff_op(dialect_name, op, target.as_str()),
        ),
        Err(other) => Err(other),
    }
}

fn push_rendered(out: &mut Vec<Statement>, rendered: Result<String, Error>) -> (r: Result<(), Error>)
    ensures
        match rendered {
            Ok(s) => r is Ok && final(out)@ == old(out)@.push(final(out)@.last())
                && statement_matches(final(out)@.last(), plain(s@)),
            Err(e) => r == Err::<(), Error>(e) && final(out)@ == old(out)@,
        },
{
    match rendered {
        Ok(sql) => {
            let v = text::chars_of(sql.as_str());
            out.push(plain_statement(&v));
            Ok(())
        },
        Err(e) => Err(e),
    }
}

/// Emits the statement for one change that SQLite runs as it is.
pub fn emit_simple_op(dialect_name: &str, op: &DiffOp, out: &mut Vec<Statement>) -> (r: Result<
    (),
    Error,
>)
    ensures
        match simple_op_result(*op) {
            Ok(p) => r is Ok && final(out)@ == old(out)@.push(final(out)@.last())
                && statement_matches(final(out)@.last(), p),
            Err(f) => r matches Err(e) && error::is_unsupported(
                e,
                f.diff_op,
                f.target,
                dialect_name@,
            ) && final(out)@ == old(out)@,
        },
{
    let mut sql: Vec<char> = Vec::new();
    match op {
        DiffOp::CreateTable(_) | DiffOp::CreateView(_) | DiffOp::CreateTrigger(_) => {
            return push_rendered(out, render_schema_object(dialect_name, op));
        },
        DiffOp::AddIndex(index) => {
            match &index.owner {
                IndexOwner::Table(_) => {},
                _ => return Err(unsupported_diff_op(dialect_name, op, TABLE_SCOPED_INDEX_TARGET)),
            }
            return push_rendered(out, render_schema_object(dialect_name, op));
        },
        DiffOp::DropTable(name) => {
            text::append_str(&mut sql, "DROP TABLE ");
            to_sql::write_qualified_name(&mut sql, name);
            text::append_str(&mut sql, ";");
        },
        DiffOp::RenameTable { from, to } => {
            if !schema::qualifiers_equal(&from.schema, &to.schema) {
                return Err(unsupported_diff_op(dialect_name, op, RENAME_ACROSS_SCHEMAS_TARGET));
            }
            text::append_str(&mut sql, "ALTER TABLE ");
            to_sql::write_qualified_name(&mut sql, from);
            text::append_str(&mut sql, " RENAME TO ");
            to_sql::write_ident(&mut sql, &to.name);
            text::append_str(&mut sql, ";");
        },
        DiffOp::AddColumn { table, column, position } => {
            if position.is_some() {
                return Err(unsupported_diff_op(dialect_name, op, APPEND_ONLY_TARGET));
            }
            let definition = match render_column_definition(column, dialect_name, op) {
                Ok(d) => d,
                Err(e) => return Err(e),
            };
            text::append_str(&mut sql, "ALTER TABLE ");
            to_sql::write_qualified_name(&mut sql, table);
            text::append_str(&mut sql, " ADD COLUMN ");
            text::append_chars(&mut sql, definition.as_slice());
            text::append_str(&mut sql, ";");
        },
        DiffOp::RenameColumn { table, from, to } => {
            text::append_str(&mut sql, "ALTER TABLE ");
            to_sql::write_qualified_name(&mut sql, table);
            text::append_str(&mut sql, " RENAME COLUMN ");
            to_sql::write_ident(&mut sql, from);
            text::append_str(&mut sql, " TO ");
            to_sql::write_ident(&mut sql, to);
            text::append_str(&mut sql, ";");
        },
        DiffOp::DropIndex { owner, name } => {
            match owner {
                IndexOwner::Table(_) => {},
                _ => return Err(unsupported_diff_op(dialect_name, op, TABLE_SCOPED_INDEX_TARGET)),
            }
            text::append_str(&mut sql, "DROP INDEX ");
            to_sql::write_ident(&mut sql, name);
            text::append_str(&mut sql, ";");
        },
        DiffOp::DropView(name) => {
            text::append_str(&mut sql, "DROP VIEW ");
            to_sql::write_qualified_name(&mut sql, name);
            text::append_str(&mut sql, ";");
        },
        DiffOp::DropTrigger { name, .. } => {
            text::append_str(&mut sql, "DROP TRIGGER ");
            to_sql::write_qualified_name(&mut sql, name);
            text::append_str(&mut sql, ";");
        },
        _ => {
            if rebuild_table_of(op).is_some() {
                return Err(unsupported_diff_op(dialect_name, op, UNBATCHED_REBUILD_TARGET));
            }
            return Err(unsupported_diff_op(dialect_name, op, GENERATOR_TARGET));
        },
    }
    proof {
        let p = simple_op_result(*op)->Ok_0;
        assert(sql@ =~= p.sql);
    }
    out.push(plain_statement(&sql));
    Ok(())
}

/// What a rebuild sets for one column: a new type, nullability or default, each only
/// when one of the batched changes set it.
pub struct RebuildColumn {
    pub name: Ident,
    pub data_type: Option<DataType>,
    pub not_null: Option<bool>,
    pub default: Option<Option<Expr>>,
}

/// A column of a rebuild as it is collected, borrowing from the changes.
#[derive(Clone, Copy)]
pub struct RebuildColumnSpec<'a> {
    pub name: &'a Ident,
    pub data_type: Option<&'a DataType>,
    pub not_null: Option<bool>,
    pub default: Option<&'a Option<Expr>>,
}

pub open spec fn column_view(c: RebuildColumnSpec) -> RebuildColumn {
    RebuildColumn {
        name: *c.name,
        data_type: match c.data_type {
            Some(d) => Some(*d),
            None => None,
        },
        not_null: c.not_null,
        default: match c.default {
            Some(d) => Some(*d),
            None => None,
        },
    }
}

pub open spec fn column_views(cs: Seq<RebuildColumnSpec>) -> Seq<RebuildColumn> {
    cs.map_values(|c: RebuildColumnSpec| column_view(c))
}

/// The first collected column with the given name.
pub open spec fn find_column(cols: Seq<RebuildColumn>, name: Ident) -> Option<int>
    decreases cols.len(),
{
    if cols.len() == 0 {
        None
    } else {
        match find_column(cols.drop_last(), name) {
            Some(k) => Some(k),
            None => if schema::same_ident(cols.last().name, name) {
                Some(cols.len() - 1)
            } else {
                None
            },
        }
    }
}

pub open spec fn apply_change(c: RebuildColumn, change: ColumnChange) -> RebuildColumn {
    match change {
        ColumnChange::SetType(d) => RebuildColumn { data_type: Some(d), ..c },
        ColumnChange::SetNotNull(b) => RebuildColumn { not_null: Some(b), ..c },
        ColumnChange::SetDefault(d) => RebuildColumn { default: Some(d), ..c },
        _ => c,
    }
}

/// The changes applied in order.
pub open spec fn apply_changes(c: RebuildColumn, changes: Seq<ColumnChange>) -> RebuildColumn
    decreases changes.len(),
{
    if changes.len() == 0 {
        c
    } else {
        apply_change(apply_changes(c, changes.drop_last()), changes.last())
    }
}

pub open spec fn fresh_column(name: Ident) -> RebuildColumn {
    RebuildColumn { name, data_type: None, not_null: None, default: None }
}

/// The columns after one `AlterColumn`: the named column updated, or added at the end.
pub open spec fn alter_column(
    cols: Seq<RebuildColumn>,
    name: Ident,
    changes: Seq<ColumnChange>,
) -> Seq<RebuildColumn> {
    match find_column(cols, name) {
        Some(k) => cols.update(k, apply_changes(cols[k], changes)),
        None => cols.push(apply_changes(fresh_column(name), changes)),
    }
}

/// One change of a rebuild batch for `table`.
pub open spec fn collect_step(table: QualifiedName, cols: Seq<RebuildColumn>, op: DiffOp) -> Result<
    Seq<RebuildColumn>,
    GenerateFailure,
> {
    match rebuild_table(op) {
        None => Err(failure(op, UNEXPECTED_REBUILD_OP_TARGET@)),
        Some(t) => if !schema::same_name(table, t) {
            Err(failure(op, MIXED_TABLES_TARGET@))
        } else {
            match op {
                DiffOp::AlterColumn { column, changes, .. } => Ok(
                    alter_column(cols, column, changes@),
                ),
                _ => Ok(cols),
            }
        },
    }
}

/// The columns a rebuild of `table` redefines, collected over the batch in order.
pub open spec fn collect_columns(table: QualifiedName, batch: Seq<DiffOp>) -> Result<
    Seq<RebuildColumn>,
    GenerateFailure,
>
    decreases batch.len(),
{
    if batch.len() == 0 {
        Ok(Seq::empty())
    } else {
        match collect_columns(table, batch.drop_last()) {
            Err(f) => Err(f),
            Ok(cols) => collect_step(table, cols, batch.last()),
        }
    }
}

/// `op` is a change a rebuild of `table` carries out.
pub open spec fn rebuild_op_of(table: QualifiedName, op: DiffOp) -> bool {
    rebuild_table(op) matches Some(t) && schema::same_name(table, t)
}

/// The changes the batch gives for the column named `name`, in order.
pub open spec fn changes_for(batch: Seq<DiffOp>, name: Ident) -> Seq<ColumnChange>
    decreases batch.len(),
{
    if batch.len() == 0 {
        Seq::empty()
    } else {
        let prev = changes_for(batch.drop_last(), name);
        match batch.last() {
            DiffOp::AlterColumn { column, changes, .. } => if schema::same_ident(column, name) {
                prev + changes@
            } else {
                prev
            },
            _ => prev,
        }
    }
}

proof fn lemma_find_column_spec(cols: Seq<RebuildColumn>, name: Ident)
    ensures
        find_column(cols, name) matches Some(k) ==> 0 <= k < cols.len() && schema::same_ident(
            cols[k].name,
            name,
        ),
        find_column(cols, name) is None ==> forall|k: int|
            0 <= k < cols.len() ==> !schema::same_ident(#[trigger] cols[k].name, name),
    decreases cols.len(),
{
    if cols.len() > 0 {
        lemma_find_column_spec(cols.drop_last(), name);
        if find_column(cols, name) is None {
            assert forall|k: int| 0 <= k < cols.len() implies !schema::same_ident(
                #[trigger] cols[k].name,
                name,
            ) by {
                if k < cols.len() - 1 {
                    assert(cols.drop_last()[k] == cols[k]);
                }
            }
        }
    }
}

proof fn lemma_apply_changes_name(c: RebuildColumn, changes: Seq<ColumnChange>)
    ensures
        apply_changes(c, changes).name == c.name,
    decreases changes.len(),
{
    if changes.len() > 0 {
        lemma_apply_changes_name(c, changes.drop_last());
    }
}

proof fn lemma_apply_changes_concat(c: RebuildColumn, a: Seq<ColumnChange>, b: Seq<ColumnChange>)
    ensures
        apply_changes(c, a + b) == apply_changes(apply_changes(c, a), b),
    decreases b.len(),
{
    if b.len() == 0 {
        assert(a + b =~= a);
    } else {
        lemma_apply_changes_concat(c, a, b.drop_last());
        assert((a + b).drop_last() =~= a + b.drop_last());
        assert((a + b).last() == b.last());
    }
}

/// The columns the batch alters, each once, in the order they are first altered.
pub open spec fn altered_columns(batch: Seq<DiffOp>) -> Seq<Ident>
    decreases batch.len(),
{
    if batch.len() == 0 {
        Seq::empty()
    } else {
        let prev = altered_columns(batch.drop_last());
        match batch.last() {
            DiffOp::AlterColumn { column, .. } => if exists|m: int|
                0 <= m < prev.len() && schema::same_ident(#[trigger] prev[m], column) {
                prev
            } else {
                prev.push(column)
            },
            _ => prev,
        }
    }
}

pub open spec fn column_names(cols: Seq<RebuildColumn>) -> Seq<Ident> {
    cols.map_values(|c: RebuildColumn| c.name)
}

/// What collecting the columns of a batch gives: the columns it alters, each once, in
/// the order they are first altered, each the column with every change the batch gives
/// for it applied in order.
pub open spec fn columns_collected(cols: Seq<RebuildColumn>, batch: Seq<DiffOp>) -> bool {
    &&& column_names(cols) == altered_columns(batch)
    &&& forall|i: int, j: int|
        0 <= i < j < cols.len() ==> !schema::same_ident(#[trigger] cols[i].name, #[trigger] cols[j].name)
    &&& forall|k: int|
        0 <= k < cols.len() ==> #[trigger] cols[k] == apply_changes(
            fresh_column(cols[k].name),
            changes_for(batch, cols[k].name),
        )
    &&& forall|i: int|
        0 <= i < batch.len() && #[trigger] batch[i] is AlterColumn ==> exists|k: int|
            0 <= k < cols.len() && schema::same_ident(#[trigger] cols[k].name, batch[i]->AlterColumn_column)
}

proof fn lemma_changes_for_absent(batch: Seq<DiffOp>, name: Ident)
    requires
        forall|i: int|
            0 <= i < batch.len() && #[trigger] batch[i] is AlterColumn ==> !schema::same_ident(
                batch[i]->AlterColumn_column,
                name,
            ),
    ensures
        changes_for(batch, name) == Seq::<ColumnChange>::empty(),
    decreases batch.len(),
{
    if batch.len() > 0 {
        let d = batch.drop_last();
        assert forall|i: int|
            0 <= i < d.len() && #[trigger] d[i] is AlterColumn implies !schema::same_ident(
                d[i]->AlterColumn_column,
                name,
            ) by {
            assert(d[i] == batch[i]);
        }
        lemma_changes_for_absent(d, name);
        assert(batch[batch.len() - 1] == batch.last());
    }
}

proof fn lemma_collect_columns(table: QualifiedName, batch: Seq<DiffOp>)
    ensures
        collect_columns(table, batch) is Ok <==> forall|i: int|
            0 <= i < batch.len() ==> rebuild_op_of(table, #[trigger] batch[i]),
        collect_columns(table, batch) matches Ok(cols) ==> columns_collected(cols, batch),
    decreases batch.len(),
{
    if batch.len() == 0 {
        assert(column_names(Seq::<RebuildColumn>::empty()) =~= Seq::<Ident>::empty());
    }
    if batch.len() > 0 {
        let d = batch.drop_last();
        let op = batch.last();
        lemma_collect_columns(table, d);
        assert forall|i: int| 0 <= i < d.len() implies #[trigger] d[i] == batch[i] by {}
        if collect_columns(table, batch) is Ok {
            assert(collect_columns(table, d) is Ok);
            assert(rebuild_op_of(table, op));
            assert forall|i: int| 0 <= i < batch.len() implies rebuild_op_of(table, #[trigger] batch[i]) by {
                if i < d.len() {
                    assert(rebuild_op_of(table, d[i]));
                } else {
                    assert(batch[i] == op);
                }
            }
        }
        if forall|i: int| 0 <= i < batch.len() ==> rebuild_op_of(table, #[trigger] batch[i]) {
            assert forall|i: int| 0 <= i < d.len() implies rebuild_op_of(table, #[trigger] d[i]) by {
                assert(rebuild_op_of(table, batch[i]));
            }
            assert(rebuild_op_of(table, batch[batch.len() - 1]));
            assert(collect_columns(table, d) is Ok);
            assert(collect_columns(table, batch) is Ok);
        }
        if collect_columns(table, batch) is Ok {
            let cols = collect_columns(table, d)->Ok_0;
            let r = collect_columns(table, batch)->Ok_0;
            match op {
                DiffOp::AlterColumn { column, changes, .. } => {
                    lemma_find_column_spec(cols, column);
                    match find_column(cols, column) {
                        Some(k) => {
                            assert(r == cols.update(k, apply_changes(cols[k], changes@)));
                            lemma_apply_changes_name(cols[k], changes@);
                            assert(r[k].name == cols[k].name);
                            assert forall|m: int| 0 <= m < r.len() implies #[trigger] r[m].name == cols[m].name by {}
                            assert(column_names(r) =~= column_names(cols));
                            assert(column_names(cols)[k] == cols[k].name);
                            assert(schema::same_ident(altered_columns(d)[k], column));
                            assert(altered_columns(batch) == altered_columns(d));
                            assert forall|m: int| 0 <= m < r.len() implies #[trigger] r[m] == apply_changes(
                                fresh_column(r[m].name),
                                changes_for(batch, r[m].name),
                            ) by {
                                if m == k {
                                    lemma_apply_changes_concat(
                                        fresh_column(cols[k].name),
                                        changes_for(d, cols[k].name),
                                        changes@,
                                    );
                                } else {
                                    if m < k {
                                        assert(!schema::same_ident(cols[m].name, cols[k].name));
                                    } else {
                                        assert(!schema::same_ident(cols[k].name, cols[m].name));
                                    }
                                    assert(!schema::same_ident(column, cols[m].name));
                                    assert(r[m] == cols[m]);
                                }
                            }
                            assert forall|i: int, j: int| 0 <= i < j < r.len() implies !schema::same_ident(
                                #[trigger] r[i].name,
                                #[trigger] r[j].name,
                            ) by {
                                assert(!schema::same_ident(cols[i].name, cols[j].name));
                            }
                            assert forall|i: int|
                                0 <= i < batch.len() && #[trigger] batch[i] is AlterColumn implies exists|m: int|
                                0 <= m < r.len() && schema::same_ident(
                                    #[trigger] r[m].name,
                                    batch[i]->AlterColumn_column,
                                ) by {
                                if i < d.len() {
                                    assert(d[i] is AlterColumn);
                                    let m = choose|m: int|
                                        0 <= m < cols.len() && schema::same_ident(
                                            #[trigger] cols[m].name,
                                            d[i]->AlterColumn_column,
                                        );
                                    assert(r[m].name == cols[m].name);
                                } else {
                                    assert(r[k].name == cols[k].name);
                                }
                            }
                        },
                        None => {
                            let c = apply_changes(fresh_column(column), changes@);
                            assert(r == cols.push(c));
                            lemma_apply_changes_name(fresh_column(column), changes@);
                            assert(r[cols.len() as int].name == column);
                            assert(column_names(r) =~= column_names(cols).push(column));
                            assert(!exists|m: int|
                                0 <= m < altered_columns(d).len() && schema::same_ident(
                                    #[trigger] altered_columns(d)[m],
                                    column,
                                )) by {
                                assert forall|m: int| 0 <= m < altered_columns(d).len() implies !schema::same_ident(
                                    #[trigger] altered_columns(d)[m],
                                    column,
                                ) by {
                                    assert(altered_columns(d)[m] == cols[m].name);
                                }
                            }
                            assert(altered_columns(batch) == altered_columns(d).push(column));
                            assert forall|i: int|
                                0 <= i < d.len() && #[trigger] d[i] is AlterColumn implies !schema::same_ident(
                                d[i]->AlterColumn_column,
                                column,
                            ) by {
                                let m = choose|m: int|
                                    0 <= m < cols.len() && schema::same_ident(
                                        #[trigger] cols[m].name,
                                        d[i]->AlterColumn_column,
                                    );
                                assert(!schema::same_ident(cols[m].name, column));
                            }
                            lemma_changes_for_absent(d, column);
                            assert(Seq::<ColumnChange>::empty() + changes@ =~= changes@);
                            assert forall|m: int| 0 <= m < r.len() implies #[trigger] r[m] == apply_changes(
                                fresh_column(r[m].name),
                                changes_for(batch, r[m].name),
                            ) by {
                                if m < cols.len() {
                                    assert(r[m] == cols[m]);
                                    assert(!schema::same_ident(cols[m].name, column));
                                    assert(!schema::same_ident(column, cols[m].name));
                                } else {
                                    assert(schema::same_ident(column, column));
                                    assert(changes_for(batch, column) == changes_for(d, column) + changes@);
                                }
                            }
                            assert forall|i: int, j: int| 0 <= i < j < r.len() implies !schema::same_ident(
                                #[trigger] r[i].name,
                                #[trigger] r[j].name,
                            ) by {
                                if j < cols.len() {
                                    assert(!schema::same_ident(cols[i].name, cols[j].name));
                                } else {
                                    assert(r[i] == cols[i]);
                                    assert(!schema::same_ident(cols[i].name, column));
                                }
                            }
                            assert forall|i: int|
                                0 <= i < batch.len() && #[trigger] batch[i] is AlterColumn implies exists|m: int|
                                0 <= m < r.len() && schema::same_ident(
                                    #[trigger] r[m].name,
                                    batch[i]->AlterColumn_column,
                                ) by {
                                if i < d.len() {
                                    assert(d[i] is AlterColumn);
                                    let m = choose|m: int|
                                        0 <= m < cols.len() && schema::same_ident(
                                            #[trigger] cols[m].name,
                                            d[i]->AlterColumn_column,
                                        );
                                    assert(r[m] == cols[m]);
                                } else {
                                    assert(r[cols.len() as int].name == column);
                                }
                            }
                        },
                    }
                },
                _ => {
                    assert(r == cols);
                    assert(altered_columns(batch) == altered_columns(d));
                    assert forall|m: int| 0 <= m < r.len() implies #[trigger] r[m] == apply_changes(
                        fresh_column(r[m].name),
                        changes_for(batch, r[m].name),
                    ) by {
                        assert(changes_for(batch, r[m].name) == changes_for(d, r[m].name));
                    }
                    assert forall|i: int|
                        0 <= i < batch.len() && #[trigger] batch[i] is AlterColumn implies exists|m: int|
                        0 <= m < r.len() && schema::same_ident(#[trigger] r[m].name, batch[i]->AlterColumn_column) by {
                        assert(i < d.len());
                        assert(d[i] is AlterColumn);
                    }
                },
            }
        }
    }
}

/// A batch can be rebuilt exactly when each of its changes is a rebuild change of the
/// table; the columns it collects are then the columns it alters, each once, in the order
/// they are first altered, each the column with every change the batch gives for it
/// (type, nullability, default) applied in order, so the last of each kind wins.
pub proof fn law_rebuild_columns_collected(table: QualifiedName, batch: Seq<DiffOp>)
    ensures
        collect_columns(table, batch) is Ok <==> forall|i: int|
            0 <= i < batch.len() ==> rebuild_op_of(table, #[trigger] batch[i]),
        collect_columns(table, batch) matches Ok(cols) ==> columns_collected(cols, batch),
{
    lemma_collect_columns(table, batch);
}

proof fn lemma_find_column_push(cols: Seq<RebuildColumn>, c: RebuildColumn, name: Ident)
    ensures
        find_column(cols.push(c), name) == match find_column(cols, name) {
            Some(k) => Some(k),
            None => if schema::same_ident(c.name, name) {
                Some(cols.len() as int)
            } else {
                None
            },
        },
{
    assert(cols.push(c).drop_last() =~= cols);
}

proof fn lemma_find_column_bounds(cols: Seq<RebuildColumn>, name: Ident)
    ensures
        find_column(cols, name) matches Some(k) ==> 0 <= k < cols.len() && schema::same_ident(
            cols[k].name,
            name,
        ),
        find_column(cols, name) is None ==> forall|k: int|
            0 <= k < cols.len() ==> !schema::same_ident(#[trigger] cols[k].name, name),
    decreases cols.len(),
{
    if cols.len() > 0 {
        lemma_find_column_bounds(cols.drop_last(), name);
        assert forall|k: int| 0 <= k < cols.len() - 1 implies #[trigger] cols[k] == cols.drop_last()[k] by {}
    }
}

/// The index of the column named `name`, added when it is not there yet
/// (the first one that has the name, as `position` finds it).
fn upsert_rebuild_column<'a>(columns: &mut Vec<RebuildColumnSpec<'a>>, name: &'a Ident) -> (k: usize)
    ensures
        k < final(columns)@.len(),
        column_views(final(columns)@)[k as int] == match find_column(column_views(old(columns)@), *name) {
            Some(j) => column_views(old(columns)@)[j],
            None => fresh_column(*name),
        },
        column_views(final(columns)@) == match find_column(column_views(old(columns)@), *name) {
            Some(j) => column_views(old(columns)@),
            None => column_views(old(columns)@).push(fresh_column(*name)),
        },
        find_column(column_views(old(columns)@), *name) matches Some(j) ==> k == j,
        find_column(column_views(old(columns)@), *name) is None ==> k == old(columns)@.len(),
{
    let ghost views = column_views(columns@);
    let mut i: usize = 0;
    while i < columns.len()
        invariant
            i <= columns@.len(),
            views == column_views(columns@),
            columns@ == old(columns)@,
            find_column(views.take(i as int), *name) is None,
        decreases columns.len() - i,
    {
        proof {
            lemma_find_column_push(views.take(i as int), views[i as int], *name);
            assert(views.take(i + 1) =~= views.take(i as int).push(views[i as int]));
        }
        if schema::idents_equal(columns[i].name, name) {
            proof {
                lemma_find_column_prefix(views, i as int + 1, *name);
            }
            return i;
        }
        i += 1;
    }
    assert(views.take(views.len() as int) =~= views);
    columns.push(RebuildColumnSpec { name, data_type: None, not_null: None, default: None });
    proof {
        assert(column_views(columns@) =~= views.push(fresh_column(*name)));
    }
    columns.len() - 1
}

proof fn lemma_find_column_prefix(cols: Seq<RebuildColumn>, i: int, name: Ident)
    requires
        0 <= i <= cols.len(),
        find_column(cols.take(i), name) is Some,
    ensures
        find_column(cols, name) == find_column(cols.take(i), name),
    decreases cols.len(),
{
    if i == cols.len() {
        assert(cols.take(i) =~= cols);
    } else {
        assert(cols.drop_last().take(i) =~= cols.take(i));
        lemma_find_column_prefix(cols.drop_last(), i, name);
    }
}

proof fn lemma_collect_error_prefix(table: QualifiedName, batch: Seq<DiffOp>, i: int)
    requires
        0 <= i <= batch.len(),
        collect_columns(table, batch.take(i)) is Err,
    ensures
        collect_columns(table, batch) == collect_columns(table, batch.take(i)),
    decreases batch.len(),
{
    if i == batch.len() {
        assert(batch.take(i) =~= batch);
    } else {
        assert(batch.drop_last().take(i) =~= batch.take(i));
        lemma_collect_error_prefix(table, batch.drop_last(), i);
    }
}

/// Applies the changes of one `AlterColumn` to the collected column at `k`.
fn apply_column_changes<'a>(
    columns: &mut Vec<RebuildColumnSpec<'a>>,
    k: usize,
    changes: &'a Vec<ColumnChange>,
)
    requires
        k < old(columns)@.len(),
    ensures
        column_views(final(columns)@) == column_views(old(columns)@).update(
            k as int,
            apply_changes(column_views(old(columns)@)[k as int], changes@),
        ),
{
    let ghost before = column_views(columns@);
    let ghost base = before[k as int];
    let mut j: usize = 0;
    assert(before.update(k as int, apply_changes(base, changes@.take(0))) =~= before);
    while j < changes.len()
        invariant
            k < columns@.len(),
            columns@.len() == before.len(),
            j <= changes@.len(),
            column_views(columns@) == before.update(
                k as int,
                apply_changes(base, changes@.take(j as int)),
            ),
        decreases changes.len() - j,
    {
        let ghost prev = columns@;
        proof {
            assert(column_views(prev).len() == prev.len());
            assert(before.len() == prev.len());
            assert(column_views(prev)[k as int] == before.update(
                k as int,
                apply_changes(base, changes@.take(j as int)),
            )[k as int]);
        }
        let mut c = columns[k];
        match &changes[j] {
            ColumnChange::SetType(d) => {
                c.data_type = Some(d);
            },
            ColumnChange::SetNotNull(b) => {
                c.not_null = Some(*b);
            },
            ColumnChange::SetDefault(d) => {
                c.default = Some(d);
            },
            _ => {},
        }
        columns.set(k, c);
        proof {
            assert(changes@.take(j + 1).drop_last() =~= changes@.take(j as int));
            assert(column_view(c) == apply_change(column_view(prev[k as int]), changes@[j as int]));
            assert(column_views(columns@) =~= column_views(prev).update(k as int, column_view(c)));
            assert(column_views(prev)[k as int] == apply_changes(base, changes@.take(j as int)));
            assert(column_views(columns@) =~= before.update(
                k as int,
                apply_changes(base, changes@.take(j + 1)),
            ));
        }
        j += 1;
    }
    assert(changes@.take(changes@.len() as int) =~= changes@);
}

/// Collects what a batch of rebuild changes sets for each column; every change of the
/// batch must be a rebuild change of `table`.
pub fn collect_rebuild_columns<'a>(
    dialect_name: &str,
    table: &QualifiedName,
    ops: &'a [DiffOp],
) -> (r: Result<Vec<RebuildColumnSpec<'a>>, Error>)
    ensures
        match collect_columns(*table, ops@) {
            Ok(cols) => r matches Ok(v) && column_views(v@) == cols,
            Err(f) => r matches Err(e) && error::is_unsupported(
                e,
                f.diff_op,
                f.target,
                dialect_name@,
            ),
        },
{
    let mut columns: Vec<RebuildColumnSpec<'a>> = Vec::new();
    let mut i: usize = 0;
    assert(column_views(columns@) =~= Seq::<RebuildColumn>::empty());
    assert(ops@.take(0) =~= Seq::<DiffOp>::empty());
    while i < ops.len()
        invariant
            i <= ops@.len(),
            collect_columns(*table, ops@.take(i as int)) == Ok::<
                Seq<RebuildColumn>,
                GenerateFailure,
            >(column_views(columns@)),
        decreases ops.len() - i,
    {
        let op: &'a DiffOp = &ops[i];
        let ghost cols = column_views(columns@);
        proof {
            assert(ops@.take(i + 1).drop_last() =~= ops@.take(i as int));
            assert(ops@.take(i + 1).last() == ops@[i as int]);
        }
        match rebuild_table_of(op) {
            None => {
                proof {
                    lemma_collect_error_prefix(*table, ops@, i + 1);
                }
                return Err(unsupported_diff_op(dialect_name, op, UNEXPECTED_REBUILD_OP_TARGET));
            },
            Some(t) => {
                if !schema::names_equal(table, t) {
                    proof {
                        lemma_collect_error_prefix(*table, ops@, i + 1);
                    }
                    return Err(unsupported_diff_op(dialect_name, op, MIXED_TABLES_TARGET));
                }
            },
        }
        match op {
            DiffOp::AlterColumn { column, changes, .. } => {
                let k = upsert_rebuild_column(&mut columns, column);
                apply_column_changes(&mut columns, k, changes);
                proof {
                    lemma_find_column_bounds(cols, *column);
                    let after = column_views(columns@);
                    match find_column(cols, *column) {
                        Some(j) => {
                            assert(after =~= alter_column(cols, *column, changes@));
                        },
                        None => {
                            assert(after =~= alter_column(cols, *column, changes@));
                        },
                    }
                }
            },
            _ => {},
        }
        i += 1;
    }
    assert(ops@.take(ops@.len() as int) =~= ops@);
    Ok(columns)
}

/// A column as the shadow table declares it; a column without a new type is `TEXT`.
pub open spec fn rebuild_column_sql(c: RebuildColumn) -> Option<Seq<char>> {
    let data_type = match c.data_type {
        Some(d) => d,
        None => DataType::Text,
    };
    let base = to_sql::ident_sql(c.name) + " "@ + to_sql::data_type_sql(data_type)
        + to_sql::not_null_sql(c.not_null == Some(true));
    match c.default {
        Some(Some(d)) => match default_expr_sql(d) {
            Some(s) => Some(base + " DEFAULT "@ + s),
            None => None,
        },
        _ => Some(base),
    }
}

/// The declarations of all rebuilt columns, when every default can be written.
pub open spec fn rebuild_columns_sql(cols: Seq<RebuildColumn>) -> Option<Seq<Seq<char>>>
    decreases cols.len(),
{
    if cols.len() == 0 {
        Some(Seq::empty())
    } else {
        match (rebuild_columns_sql(cols.drop_last()), rebuild_column_sql(cols.last())) {
            (Some(p), Some(x)) => Some(p.push(x)),
            _ => None,
        }
    }
}

/// How the copy reads a column: cast to its new type when it has one.
pub open spec fn copy_projection_sql(c: RebuildColumn) -> Seq<char> {
    match c.data_type {
        Some(d) => "CAST("@ + to_sql::ident_sql(c.name) + " AS "@ + to_sql::data_type_sql(d) + ")"@,
        None => to_sql::ident_sql(c.name),
    }
}

/// The shadow table a rebuild fills: same schema, name prefixed.
pub open spec fn shadow_table_sql(t: QualifiedName) -> Seq<char> {
    let name = text::quoted_with(SHADOW_TABLE_PREFIX@ + t.name.value@, '"');
    match t.schema {
        Some(s) => to_sql::ident_sql(s) + "."@ + name,
        None => name,
    }
}

pub open spec fn rebuild_step(table: QualifiedName, sql: Seq<char>, step: SqliteRebuildStep) -> PlannedStatement {
    PlannedStatement { sql, rebuild: Some((table, step)) }
}

pub open spec fn create_shadow_sql(table: QualifiedName, cols: Seq<RebuildColumn>) -> Option<Seq<char>> {
    if cols.len() == 0 {
        Some(
            "CREATE TABLE "@ + shadow_table_sql(table) + " AS SELECT * FROM "@
                + to_sql::qualified_name_sql(table) + " WHERE 0;"@,
        )
    } else {
        match rebuild_columns_sql(cols) {
            Some(defs) => Some(
                "CREATE TABLE "@ + shadow_table_sql(table) + " ("@ + text::join(defs, ", "@) + ");"@,
            ),
            None => None,
        }
    }
}

pub open spec fn copy_data_sql(table: QualifiedName, cols: Seq<RebuildColumn>) -> Seq<char> {
    if cols.len() == 0 {
        "INSERT INTO "@ + shadow_table_sql(table) + " SELECT * FROM "@ + to_sql::qualified_name_sql(
            table,
        ) + ";"@
    } else {
        "INSERT INTO "@ + shadow_table_sql(table) + " ("@ + text::join(
            cols.map_values(|c: RebuildColumn| to_sql::ident_sql(c.name)),
            ", "@,
        ) + ") SELECT "@ + text::join(
            cols.map_values(|c: RebuildColumn| copy_projection_sql(c)),
            ", "@,
        ) + " FROM "@ + to_sql::qualified_name_sql(table) + ";"@
    }
}

/// The plan of a table rebuild: create a shadow table, copy the rows into it, drop the
/// old table, rename the shadow table, then recreate indexes and triggers.
pub open spec fn rebuild_plan(table: QualifiedName, batch: Seq<DiffOp>) -> Result<
    Seq<PlannedStatement>,
    GenerateFailure,
> {
    if batch.len() == 0 {
        Err(GenerateFailure { diff_op: EMPTY_REBUILD_OP@, target: GENERATOR_TARGET@ })
    } else {
        match collect_columns(table, batch) {
            Err(f) => Err(f),
            Ok(cols) => match create_shadow_sql(table, cols) {
                None => Err(failure(batch[0], DEFAULT_EXPR_TARGET@)),
                Some(create_sql) => {
                    let name = to_sql::qualified_name_sql(table);
                    Ok(
                        seq![
                            rebuild_step(table, create_sql, SqliteRebuildStep::CreateShadowTable),
                            rebuild_step(table, copy_data_sql(table, cols), SqliteRebuildStep::CopyData),
                            rebuild_step(table, "DROP TABLE "@ + name + ";"@, SqliteRebuildStep::DropOldTable),
                            rebuild_step(
                                table,
                                "ALTER TABLE "@ + shadow_table_sql(table) + " RENAME TO "@
                                    + to_sql::ident_sql(table.name) + ";"@,
                                SqliteRebuildStep::RenameShadowTable,
                            ),
                            rebuild_step(
                                table,
                                "-- sqlite rebuild: recreate indexes for "@ + name,
                                SqliteRebuildStep::RecreateIndexes,
                            ),
                            rebuild_step(
                                table,
                                "-- sqlite rebuild: recreate triggers for "@ + name,
                                SqliteRebuildStep::RecreateTriggers,
                            ),
                        ],
                    )
                },
            },
        }
    }
}

/// A table rebuild runs its steps in order on the table it rebuilds: the shadow table is
/// created and filled before the old table is dropped, and renamed after it.
pub proof fn law_rebuild_steps_in_order(table: QualifiedName, batch: Seq<DiffOp>)
    ensures
        rebuild_plan(table, batch) matches Ok(p) ==> {
            &&& p.len() == 6
            &&& p[0].rebuild == Some((table, SqliteRebuildStep::CreateShadowTable))
            &&& p[1].rebuild == Some((table, SqliteRebuildStep::CopyData))
            &&& p[2].rebuild == Some((table, SqliteRebuildStep::DropOldTable))
            &&& p[3].rebuild == Some((table, SqliteRebuildStep::RenameShadowTable))
            &&& p[4].rebuild == Some((table, SqliteRebuildStep::RecreateIndexes))
            &&& p[5].rebuild == Some((table, SqliteRebuildStep::RecreateTriggers))
        },
{
}

/// Declares one column of the shadow table.
pub fn render_rebuild_column(column: &RebuildColumnSpec, dialect_name: &str, op: &DiffOp) -> (r:
    Result<Vec<char>, Error>)
    ensures
        match rebuild_column_sql(column_view(*column)) {
            Some(s) => r matches Ok(v) && v@ == s,
            None => r matches Err(e) && error::is_unsupported(
                e,
                ops::diff_op_tag(*op),
                DEFAULT_EXPR_TARGET@,
                dialect_name@,
            ),
        },
{
    let mut out: Vec<char> = Vec::new();
    to_sql::write_ident(&mut out, column.name);
    text::append_str(&mut out, " ");
    match column.data_type {
        Some(d) => to_sql::write_data_type(&mut out, d),
        None => text::append_str(&mut out, "TEXT"),
    }
    let not_null = match column.not_null {
        Some(b) => b,
        None => false,
    };
    to_sql::write_not_null(&mut out, not_null);
    match column.default {
        Some(Some(d)) => {
            let rendered = match render_default_expr(d, dialect_name, op) {
                Ok(v) => v,
                Err(e) => return Err(e),
            };
            text::append_str(&mut out, " DEFAULT ");
            text::append_chars(&mut out, rendered.as_slice());
        },
        _ => {},
    }
    proof {
        let s = rebuild_column_sql(column_view(*column))->Some_0;
        assert(out@ =~= s);
    }
    Ok(out)
}

/// Reads one column in the copy.
pub fn render_copy_projection(column: &RebuildColumnSpec) -> (r: Vec<char>)
    ensures
        r@ == copy_projection_sql(column_view(*column)),
{
    let mut out: Vec<char> = Vec::new();
    match column.data_type {
        Some(d) => {
            text::append_str(&mut out, "CAST(");
            to_sql::write_ident(&mut out, column.name);
            text::append_str(&mut out, " AS ");
            to_sql::write_data_type(&mut out, d);
            text::append_str(&mut out, ")");
        },
        None => to_sql::write_ident(&mut out, column.name),
    }
    assert(out@ =~= copy_projection_sql(column_view(*column)));
    out
}

fn write_shadow_table_name(out: &mut Vec<char>, table: &QualifiedName)
    ensures
        final(out)@ == old(out)@ + shadow_table_sql(*table),
{
    match &table.schema {
        Some(s) => {
            to_sql::write_ident(out, s);
            text::append_str(out, ".");
        },
        None => {},
    }
    let mut name: Vec<char> = Vec::new();
    text::append_str(&mut name, SHADOW_TABLE_PREFIX);
    text::append_str(&mut name, table.name.value.as_str());
    let q = text::quote_chars(name.as_slice(), '"');
    text::append_chars(out, q.as_slice());
    assert(out@ =~= old(out)@ + shadow_table_sql(*table));
}

fn rebuild_statement(sql: &Vec<char>, table: &QualifiedName, step: SqliteRebuildStep) -> (s: Statement)
    ensures
        statement_matches(s, rebuild_step(*table, sql@, step)),
{
    Statement::Sql {
        sql: text::string_of(sql.as_slice()),
        transactional: true,
        context: Some(StatementContext::SqliteTableRebuild { table: schema::copy_name(table), step }),
    }
}

proof fn lemma_rebuild_columns_prefix(cols: Seq<RebuildColumn>, i: int)
    requires
        0 <= i <= cols.len(),
        rebuild_columns_sql(cols.take(i)) is None,
    ensures
        rebuild_columns_sql(cols) is None,
    decreases cols.len(),
{
    if i == cols.len() {
        assert(cols.take(i) =~= cols);
    } else {
        assert(cols.drop_last().take(i) =~= cols.take(i));
        lemma_rebuild_columns_prefix(cols.drop_last(), i);
    }
}

fn shadow_column_definitions(columns: &Vec<RebuildColumnSpec>, dialect_name: &str, op: &DiffOp) -> (r:
    Result<Vec<Vec<char>>, Error>)
    ensures
        match rebuild_columns_sql(column_views(columns@)) {
            Some(defs) => r matches Ok(v) && text::char_views(v@) == defs,
            None => r matches Err(e) && error::is_unsupported(
                e,
                ops::diff_op_tag(*op),
                DEFAULT_EXPR_TARGET@,
                dialect_name@,
            ),
        },
{
    let ghost views = column_views(columns@);
    let mut defs: Vec<Vec<char>> = Vec::new();
    let mut i: usize = 0;
    assert(views.take(0) =~= Seq::<RebuildColumn>::empty());
    assert(text::char_views(defs@) =~= Seq::<Seq<char>>::empty());
    while i < columns.len()
        invariant
            i <= columns@.len(),
            views == column_views(columns@),
            rebuild_columns_sql(views.take(i as int)) == Some(text::char_views(defs@)),
        decreases columns.len() - i,
    {
        proof {
            assert(views.take(i + 1).drop_last() =~= views.take(i as int));
            assert(views.take(i + 1).last() == column_view(columns@[i as int]));
        }
        let d = match render_rebuild_column(&columns[i], dialect_name, op) {
            Ok(d) => d,
            Err(e) => {
                proof {
                    lemma_rebuild_columns_prefix(views, i + 1);
                }
                return Err(e);
            },
        };
        proof {
            text::lemma_char_views_push(defs@, d);
        }
        defs.push(d);
        i += 1;
    }
    assert(views.take(views.len() as int) =~= views);
    Ok(defs)
}

fn copy_column_lists(columns: &Vec<RebuildColumnSpec>) -> (r: (Vec<Vec<char>>, Vec<Vec<char>>))
    ensures
        text::char_views(r.0@) == column_views(columns@).map_values(
            |c: RebuildColumn| to_sql::ident_sql(c.name),
        ),
        text::char_views(r.1@) == column_views(columns@).map_values(
            |c: RebuildColumn| copy_projection_sql(c),
        ),
{
    let ghost views = column_views(columns@);
    let mut names: Vec<Vec<char>> = Vec::new();
    let mut projections: Vec<Vec<char>> = Vec::new();
    let mut i: usize = 0;
    while i < columns.len()
        invariant
            i <= columns@.len(),
            views == column_views(columns@),
            text::char_views(names@) == views.take(i as int).map_values(
                |c: RebuildColumn| to_sql::ident_sql(c.name),
            ),
            text::char_views(projections@) == views.take(i as int).map_values(
                |c: RebuildColumn| copy_projection_sql(c),
            ),
        decreases columns.len() - i,
    {
        let mut n: Vec<char> = Vec::new();
        to_sql::write_ident(&mut n, columns[i].name);
        let p = render_copy_projection(&columns[i]);
        proof {
            text::lemma_char_views_push(names@, n);
            text::lemma_char_views_push(projections@, p);
            assert(views.take(i + 1) =~= views.take(i as int).push(views[i as int]));
            assert(views.take(i + 1).map_values(|c: RebuildColumn| to_sql::ident_sql(c.name))
                =~= views.take(i as int).map_values(|c: RebuildColumn| to_sql::ident_sql(c.name)).push(n@));
            assert(views.take(i + 1).map_values(|c: RebuildColumn| copy_projection_sql(c))
                =~= views.take(i as int).map_values(|c: RebuildColumn| copy_projection_sql(c)).push(p@));
        }
        names.push(n);
        projections.push(p);
        i += 1;
    }
    assert(views.take(views.len() as int) =~= views);
    (names, projections)
}

/// Plans the rebuild of `table` for a batch of changes to it.
pub fn build_sqlite_rebuild_plan(dialect_name: &str, table: &QualifiedName, ops: &[DiffOp]) -> (r:
    Result<Vec<Statement>, Error>)
    ensures
        generated_as(r, rebuild_plan(*table, ops@), dialect_name@),
{
    if ops.len() == 0 {
        let op_name = text::chars_of(EMPTY_REBUILD_OP);
        return Err(error::unsupported(op_name.as_slice(), GENERATOR_TARGET, dialect_name));
    }
    let first_op = &ops[0];
    let columns = match collect_rebuild_columns(dialect_name, table, ops) {
        Ok(c) => c,
        Err(e) => return Err(e),
    };
    let ghost cols = column_views(columns@);
    let mut create_sql: Vec<char> = Vec::new();
    let mut copy_sql: Vec<char> = Vec::new();
    text::append_str(&mut create_sql, "CREATE TABLE ");
    write_shadow_table_name(&mut create_sql, table);
    text::append_str(&mut copy_sql, "INSERT INTO ");
    write_shadow_table_name(&mut copy_sql, table);
    if columns.len() == 0 {
        text::append_str(&mut create_sql, " AS SELECT * FROM ");
        to_sql::write_qualified_name(&mut create_sql, table);
        text::append_str(&mut create_sql, " WHERE 0;");
        text::append_str(&mut copy_sql, " SELECT * FROM ");
        to_sql::write_qualified_name(&mut copy_sql, table);
        text::append_str(&mut copy_sql, ";");
    } else {
        let defs = match shadow_column_definitions(&columns, dialect_name, first_op) {
            Ok(d) => d,
            Err(e) => return Err(e),
        };
        text::append_str(&mut create_sql, " (");
        let joined = text::join_char_vecs(&defs, ", ");
        text::append_chars(&mut create_sql, joined.as_slice());
        text::append_str(&mut create_sql, ");");
        let (names, projections) = copy_column_lists(&columns);
        text::append_str(&mut copy_sql, " (");
        let joined = text::join_char_vecs(&names, ", ");
        text::append_chars(&mut copy_sql, joined.as_slice());
        text::append_str(&mut copy_sql, ") SELECT ");
        let joined = text::join_char_vecs(&projections, ", ");
        text::append_chars(&mut copy_sql, joined.as_slice());
        text::append_str(&mut copy_sql, " FROM ");
        to_sql::write_qualified_name(&mut copy_sql, table);
        text::append_str(&mut copy_sql, ";");
    }
    let mut drop_sql: Vec<char> = Vec::new();
    text::append_str(&mut drop_sql, "DROP TABLE ");
    to_sql::write_qualified_name(&mut drop_sql, table);
    text::append_str(&mut drop_sql, ";");
    let mut rename_sql: Vec<char> = Vec::new();
    text::append_str(&mut rename_sql, "ALTER TABLE ");
    write_shadow_table_name(&mut rename_sql, table);
    text::append_str(&mut rename_sql, " RENAME TO ");
    to_sql::write_ident(&mut rename_sql, &table.name);
    text::append_str(&mut rename_sql, ";");
    let mut indexes_sql: Vec<char> = Vec::new();
    text::append_str(&mut indexes_sql, "-- sqlite rebuild: recreate indexes for ");
    to_sql::write_qualified_name(&mut indexes_sql, table);
    let mut triggers_sql: Vec<char> = Vec::new();
    text::append_str(&mut triggers_sql, "-- sqlite rebuild: recreate triggers for ");
    to_sql::write_qualified_name(&mut triggers_sql, table);
    let mut plan: Vec<Statement> = Vec::new();
    plan.push(rebuild_statement(&create_sql, table, SqliteRebuildStep::CreateShadowTable));
    plan.push(rebuild_statement(&copy_sql, table, SqliteRebuildStep::CopyData));
    plan.push(rebuild_statement(&drop_sql, table, SqliteRebuildStep::DropOldTable));
    plan.push(rebuild_statement(&rename_sql, table, SqliteRebuildStep::RenameShadowTable));
    plan.push(rebuild_statement(&indexes_sql, table, SqliteRebuildStep::RecreateIndexes));
    plan.push(rebuild_statement(&triggers_sql, table, SqliteRebuildStep::RecreateTriggers));
    proof {
        let expected = rebuild_plan(*table, ops@)->Ok_0;
        assert(create_sql@ =~= create_shadow_sql(*table, cols)->Some_0);
        assert(copy_sql@ =~= copy_data_sql(*table, cols));
        assert(statements_match(plan@, expected));
    }
    Ok(plan)
}

/// How many changes from the start of `ops` rebuild `table`.
pub open spec fn run_length(ops: Seq<DiffOp>, table: QualifiedName) -> nat
    decreases ops.len(),
{
    if ops.len() > 0 && (rebuild_table(ops[0]) matches Some(t) && schema::same_name(t, table)) {
        1 + run_length(ops.drop_first(), table)
    } else {
        0
    }
}

pub proof fn lemma_run_length_bound(ops: Seq<DiffOp>, table: QualifiedName)
    ensures
        run_length(ops, table) <= ops.len(),
    decreases ops.len(),
{
    if ops.len() > 0 {
        lemma_run_length_bound(ops.drop_first(), table);
    }
}

pub open spec fn prepend(
    p: Seq<PlannedStatement>,
    r: Result<Seq<PlannedStatement>, GenerateFailure>,
) -> Result<Seq<PlannedStatement>, GenerateFailure> {
    match r {
        Ok(rest) => Ok(p + rest),
        Err(f) => Err(f),
    }
}

/// The statements for a list of changes: each run of rebuild changes to one table is
/// planned as one rebuild, every other change on its own; the first refusal is reported.
#[verifier::opaque]
pub open spec fn ddl_plan(ops: Seq<DiffOp>) -> Result<Seq<PlannedStatement>, GenerateFailure>
    decreases ops.len(),
{
    if ops.len() == 0 {
        Ok(Seq::empty())
    } else {
        match rebuild_table(ops[0]) {
            Some(t) => {
                let n = 1 + run_length(ops.drop_first(), t);
                proof {
                    lemma_run_length_bound(ops.drop_first(), t);
                }
                match rebuild_plan(t, ops.take(n as int)) {
                    Err(f) => Err(f),
                    Ok(p) => prepend(p, ddl_plan(ops.skip(n as int))),
                }
            },
            None => match simple_op_result(ops[0]) {
                Err(f) => Err(f),
                Ok(st) => prepend(seq![st], ddl_plan(ops.skip(1))),
            },
        }
    }
}

/// Renaming a column gives one statement that renames the column named `from` to `to`:
/// the old name before `TO`, the new name after it.
pub proof fn law_rename_column_statement(table: QualifiedName, from: Ident, to: Ident)
    ensures
        ddl_plan(seq![DiffOp::RenameColumn { table, from, to }]) == Ok::<
            Seq<PlannedStatement>,
            GenerateFailure,
        >(
            seq![
                PlannedStatement {
                    sql: "ALTER TABLE "@ + to_sql::qualified_name_sql(table) + " RENAME COLUMN "@
                        + to_sql::ident_sql(from) + " TO "@ + to_sql::ident_sql(to) + ";"@,
                    rebuild: None,
                },
            ],
        ),
{
    let ops = seq![DiffOp::RenameColumn { table, from, to }];
    assert(ops.skip(1) =~= Seq::<DiffOp>::empty());
    assert(ddl_plan(Seq::<DiffOp>::empty()) == Ok::<Seq<PlannedStatement>, GenerateFailure>(
        Seq::empty(),
    )) by {
        reveal_with_fuel(ddl_plan, 1);
    }
    let st = PlannedStatement {
        sql: "ALTER TABLE "@ + to_sql::qualified_name_sql(table) + " RENAME COLUMN "@
            + to_sql::ident_sql(from) + " TO "@ + to_sql::ident_sql(to) + ";"@,
        rebuild: None,
    };
    assert(ddl_plan(ops) == prepend(seq![st], ddl_plan(ops.skip(1)))) by {
        reveal_with_fuel(ddl_plan, 1);
    }
    assert(seq![st] + Seq::<PlannedStatement>::empty() =~= seq![st]);
}

/// Every change on its own is either refused, with an error that names it, or carried
/// out by at least one statement.
pub proof fn law_each_change_is_generated_or_refused(op: DiffOp)
    ensures
        match ddl_plan(seq![op]) {
            Ok(p) => p.len() >= 1,
            Err(f) => f.diff_op == ops::diff_op_tag(op),
        },
{
    let ops = seq![op];
    reveal_with_fuel(ddl_plan, 2);
    assert(ops.skip(1) =~= Seq::<DiffOp>::empty());
    assert(ops.drop_first() =~= Seq::<DiffOp>::empty());
    assert(ops.take(1) =~= ops);
    match rebuild_table(op) {
        Some(t) => {
            assert(run_length(ops.drop_first(), t) == 0);
            reveal_with_fuel(collect_columns, 2);
            assert(ops.drop_last() =~= Seq::<DiffOp>::empty());
            match rebuild_plan(t, ops) {
                Ok(p) => {
                    assert(p + Seq::<PlannedStatement>::empty() =~= p);
                },
                Err(f) => {},
            }
        },
        None => {
            match simple_op_result(op) {
                Ok(st) => {
                    assert(seq![st] + Seq::<PlannedStatement>::empty() =~= seq![st]);
                },
                Err(f) => {},
            }
        },
    }
}

proof fn lemma_run_length_exact(ops: Seq<DiffOp>, table: QualifiedName, n: int)
    requires
        0 <= n <= ops.len(),
        forall|k: int|
            0 <= k < n ==> (rebuild_table(#[trigger] ops[k]) matches Some(t) && schema::same_name(
                t,
                table,
            )),
        n == ops.len() || !(rebuild_table(ops[n]) matches Some(t) && schema::same_name(t, table)),
    ensures
        run_length(ops, table) == n,
    decreases n,
{
    if n > 0 {
        assert forall|k: int| 0 <= k < n - 1 implies (rebuild_table(
            #[trigger] ops.drop_first()[k],
        ) matches Some(t) && schema::same_name(t, table)) by {
            assert(ops.drop_first()[k] == ops[k + 1]);
        }
        if n < ops.len() {
            assert(ops.drop_first()[n - 1] == ops[n]);
        }
        lemma_run_length_exact(ops.drop_first(), table, n - 1);
    }
}

proof fn lemma_statements_append(
    s: Seq<Statement>,
    p: Seq<PlannedStatement>,
    s2: Seq<Statement>,
    p2: Seq<PlannedStatement>,
)
    requires
        statements_match(s, p),
        statements_match(s2, p2),
    ensures
        statements_match(s + s2, p + p2),
{
    assert forall|i: int| 0 <= i < (s + s2).len() implies statement_matches(
        #[trigger] (s + s2)[i],
        (p + p2)[i],
    ) by {
        if i < s.len() {
            assert(statement_matches(s[i], p[i]));
        } else {
            assert(statement_matches(s2[i - s.len()], p2[i - p.len()]));
        }
    }
}

proof fn lemma_prepend_assoc(
    a: Seq<PlannedStatement>,
    b: Seq<PlannedStatement>,
    r: Result<Seq<PlannedStatement>, GenerateFailure>,
)
    ensures
        prepend(a, prepend(b, r)) == prepend(a + b, r),
        prepend(Seq::empty(), r) == r,
{
    match r {
        Ok(x) => {
            assert(a + (b + x) =~= (a + b) + x);
            assert(Seq::<PlannedStatement>::empty() + x =~= x);
        },
        Err(_) => {},
    }
}

/// One step of the plan at a run of rebuild changes `[start, end)` to one table.
proof fn lemma_ddl_rebuild_step(ops: Seq<DiffOp>, start: int, end: int, table: QualifiedName)
    requires
        0 <= start < end <= ops.len(),
        rebuild_table(ops[start]) == Some(table),
        forall|k: int|
            start < k < end ==> (rebuild_table(#[trigger] ops[k]) matches Some(t)
                && schema::same_name(t, table)),
        end == ops.len() || !(rebuild_table(ops[end]) matches Some(t) && schema::same_name(
            t,
            table,
        )),
    ensures
        ddl_plan(ops.skip(start)) == match rebuild_plan(table, ops.subrange(start, end)) {
            Err(f) => Err(f),
            Ok(p) => prepend(p, ddl_plan(ops.skip(end))),
        },
{
    let rest = ops.skip(start);
    let tail = rest.drop_first();
    let n = end - start - 1;
    assert(rest[0] == ops[start]);
    assert forall|k: int| 0 <= k < n implies (rebuild_table(#[trigger] tail[k]) matches Some(t)
        && schema::same_name(t, table)) by {
        assert(tail[k] == ops[start + 1 + k]);
    }
    if n < tail.len() {
        assert(tail[n] == ops[end]);
    }
    lemma_run_length_exact(tail, table, n);
    assert(rest.take(n + 1) =~= ops.subrange(start, end));
    assert(rest.skip(n + 1) =~= ops.skip(end));
    reveal(ddl_plan);
}

/// One step of the plan at a change that is not a rebuild change.
proof fn lemma_ddl_simple_step(ops: Seq<DiffOp>, index: int)
    requires
        0 <= index < ops.len(),
        rebuild_table(ops[index]) is None,
    ensures
        ddl_plan(ops.skip(index)) == match simple_op_result(ops[index]) {
            Err(f) => Err(f),
            Ok(st) => prepend(seq![st], ddl_plan(ops.skip(index + 1))),
        },
{
    let rest = ops.skip(index);
    assert(rest[0] == ops[index]);
    assert(rest.skip(1) =~= ops.skip(index + 1));
    reveal(ddl_plan);
}

proof fn lemma_ddl_empty(ops: Seq<DiffOp>)
    ensures
        ddl_plan(ops.skip(ops.len() as int)) == Ok::<Seq<PlannedStatement>, GenerateFailure>(
            Seq::empty(),
        ),
{
    assert(ops.skip(ops.len() as int) =~= Seq::<DiffOp>::empty());
    reveal(ddl_plan);
}

/// Finds the end of the run of rebuild changes to `table` that starts at `start`.
fn rebuild_run_end(ops: &[DiffOp], start: usize, table: &QualifiedName) -> (end: usize)
    requires
        start < ops@.len(),
        rebuild_table(ops@[start as int]) == Some(*table),
    ensures
        start < end <= ops@.len(),
        forall|k: int|
            start < k < end ==> (rebuild_table(#[trigger] ops@[k]) matches Some(t)
                && schema::same_name(t, *table)),
        end == ops@.len() || !(rebuild_table(ops@[end as int]) matches Some(t)
            && schema::same_name(t, *table)),
{
    let n = ops.len();
    let mut index = start + 1;
    while index < n
        invariant
            start < index <= ops@.len(),
            n == ops@.len(),
            forall|k: int|
                start < k < index ==> (rebuild_table(#[trigger] ops@[k]) matches Some(t)
                    && schema::same_name(t, *table)),
        decreases n - index,
    {
        let same = match rebuild_table_of(&ops[index]) {
            Some(t) => schema::names_equal(t, table),
            None => false,
        };
        if !same {
            return index;
        }
        index += 1;
    }
    index
}

/// The statements that carry out a list of changes in SQLite.
pub fn generate_ddl(dialect_name: &str, ops: &[DiffOp]) -> (r: Result<Vec<Statement>, Error>)
    ensures
        generated_as(r, ddl_plan(ops@), dialect_name@),
{
    let mut statements: Vec<Statement> = Vec::new();
    let mut index: usize = 0;
    let ghost mut planned: Seq<PlannedStatement> = Seq::empty();
    proof {
        assert(ops@.skip(0) =~= ops@);
        lemma_prepend_assoc(planned, planned, ddl_plan(ops@));
    }
    while index < ops.len()
        invariant
            index <= ops@.len(),
            statements_match(statements@, planned),
            ddl_plan(ops@) == prepend(planned, ddl_plan(ops@.skip(index as int))),
        decreases ops.len() - index,
    {
        match rebuild_table_of(&ops[index]) {
            Some(table) => {
                let start = index;
                index = rebuild_run_end(ops, start, table);
                proof {
                    lemma_ddl_rebuild_step(ops@, start as int, index as int, *table);
                }
                let batch = &ops[start..index];
                let mut plan = match build_sqlite_rebuild_plan(dialect_name, table, batch) {
                    Ok(p) => p,
                    Err(e) => return Err(e),
                };
                proof {
                    let p = rebuild_plan(*table, batch@)->Ok_0;
                    lemma_statements_append(statements@, planned, plan@, p);
                    lemma_prepend_assoc(planned, p, ddl_plan(ops@.skip(index as int)));
                    planned = planned + p;
                }
                statements.append(&mut plan);
            },
            None => {
                proof {
                    lemma_ddl_simple_step(ops@, index as int);
                }
                let ghost before = statements@;
                match emit_simple_op(dialect_name, &ops[index], &mut statements) {
                    Ok(()) => {},
                    Err(e) => return Err(e),
                }
                proof {
                    let st = simple_op_result(ops@[index as int])->Ok_0;
                    assert(statements_match(seq![statements@.last()], seq![st]));
                    lemma_statements_append(before, planned, seq![statements@.last()], seq![st]);
                    assert(before + seq![statements@.last()] =~= statements@);
                    lemma_prepend_assoc(planned, seq![st], ddl_plan(ops@.skip(index + 1)));
                    planned = planned + seq![st];
                }
                index += 1;
            },
        }
    }
    proof {
        lemma_ddl_empty(ops@);
        assert(planned + Seq::<PlannedStatement>::empty() =~= planned);
    }
    Ok(statements)
}

} // verus!
