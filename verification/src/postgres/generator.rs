use vstd::prelude::*;

use crate::error;
use crate::error::Error;
use crate::ir;
use crate::ir::DiffOp;
use crate::ir::Statement;
use crate::ops;
use crate::postgres::definitions as defs;
use crate::postgres::objects as objs;
use crate::postgres::render;
use crate::postgres::render::ident_sql;
use crate::postgres::render::qualified_name_sql;
use crate::schema;
use crate::schema::Ident;
use crate::schema::QualifiedName;
use crate::text;

verus! {

/// What refuses moving a table to another schema when the target schema is not named.
pub const TARGET_SCHEMA_TARGET: &'static str = "target schema must be explicit";

/// What refuses a rename of a table to the name it already has.
pub const NO_EFFECTIVE_CHANGE_TARGET: &'static str = "rename table op has no effective change";

/// What refuses dropping a trigger without its table.
pub const TRIGGER_TABLE_TARGET: &'static str = "trigger drop requires table context";

/// What refuses granting or revoking no privilege.
pub const PRIVILEGE_OPS_TARGET: &'static str = "privilege operation list must not be empty";

/// What refuses setting no table option.
pub const TABLE_OPTIONS_TARGET: &'static str = "table options must include at least one extra key";

/// Why a change cannot be generated: the change's kind, what refused it, and the dialect
/// named in the error.
pub struct GenerateFailure {
    pub diff_op: Seq<char>,
    pub target: Seq<char>,
    pub dialect: Seq<char>,
}

pub open spec fn refused(op: DiffOp, target: Seq<char>, dialect: Seq<char>) -> GenerateFailure {
    GenerateFailure { diff_op: ops::diff_op_tag(op), target, dialect }
}

/// The failure for a view whose query is blank.
pub open spec fn empty_view_failure() -> GenerateFailure {
    GenerateFailure {
        diff_op: "CreateView"@,
        target: defs::EMPTY_VIEW_QUERY_TARGET@,
        dialect: "postgres"@,
    }
}

pub open spec fn is_failure(e: Error, f: GenerateFailure) -> bool {
    error::is_unsupported(e, f.diff_op, f.target, f.dialect)
}

/// `s` is the statement `sql` with no context, run in a transaction when `transactional`.
pub open spec fn statement_matches(s: Statement, p: (Seq<char>, bool)) -> bool {
    s matches Statement::Sql { sql, transactional, context } && sql@ == p.0 && transactional == p.1
        && context is None
}

pub open spec fn statements_match(s: Seq<Statement>, p: Seq<(Seq<char>, bool)>) -> bool {
    s.len() == p.len() && forall|i: int| 0 <= i < s.len() ==> statement_matches(#[trigger] s[i], p[i])
}

/// `new` is `old` followed by the statements `p` describes.
pub open spec fn appended(new: Seq<Statement>, old: Seq<Statement>, p: Seq<(Seq<char>, bool)>) -> bool {
    &&& new.len() == old.len() + p.len()
    &&& forall|i: int| 0 <= i < old.len() ==> #[trigger] new[i] == old[i]
    &&& forall|j: int| 0 <= j < p.len() ==> statement_matches(new[old.len() + j], #[trigger] p[j])
}

/// Each statement run in a transaction.
pub open spec fn transactional(sqls: Seq<Seq<char>>) -> Seq<(Seq<char>, bool)> {
    sqls.map_values(|s: Seq<char>| (s, true))
}

/// The statements that move and rename a table: a rename when the name changes, then a
/// move when the schema changes, which needs the target schema.
pub open spec fn rename_table_plan(from: QualifiedName, to: QualifiedName) -> Result<
    Seq<Seq<char>>,
    Seq<char>,
> {
    let renamed = !schema::same_ident(from.name, to.name);
    let rename = if renamed {
        seq!["ALTER TABLE "@ + qualified_name_sql(from) + " RENAME TO "@ + ident_sql(to.name)]
    } else {
        Seq::empty()
    };
    if !schema::same_qualifier(from.schema, to.schema) {
        match to.schema {
            None => Err(TARGET_SCHEMA_TARGET@),
            Some(target) => {
                let current = if renamed {
                    to.name
                } else {
                    from.name
                };
                Ok(
                    rename.push(
                        "ALTER TABLE "@ + qualified_name_sql(
                            QualifiedName { schema: from.schema, name: current },
                        ) + " SET SCHEMA "@ + ident_sql(target),
                    ),
                )
            },
        }
    } else if !renamed {
        Err(NO_EFFECTIVE_CHANGE_TARGET@)
    } else {
        Ok(rename)
    }
}

pub open spec fn add_column_sql(
    table: QualifiedName,
    column: ir::Column,
    position: Option<ir::ColumnPosition>,
) -> Seq<char> {
    "ALTER TABLE "@ + qualified_name_sql(table) + " ADD COLUMN "@ + defs::column_definition_sql(
        column,
    ) + match position {
        Some(p) => " /* requested position: "@ + defs::column_position_sql(p) + " */"@,
        None => Seq::empty(),
    }
}

pub open spec fn drop_constraint_sql(table: QualifiedName, name: Ident) -> Seq<char> {
    "ALTER TABLE "@ + qualified_name_sql(table) + " DROP CONSTRAINT "@ + ident_sql(name)
}

pub open spec fn drop_sql(kind: Seq<char>, n: QualifiedName) -> Seq<char> {
    kind + qualified_name_sql(n)
}

/// The statement of a change that renders as one transactional statement.
pub open spec fn single_sql(dialect: Seq<char>, op: DiffOp) -> Result<Seq<char>, GenerateFailure> {
    match op {
        DiffOp::CreateTable(t) => Ok(defs::create_table_sql(t)),
        DiffOp::DropTable(n) => Ok(drop_sql("DROP TABLE "@, n)),
        DiffOp::AddColumn { table, column, position } => Ok(add_column_sql(table, column, position)),
        DiffOp::DropColumn { table, column } => Ok(
            "ALTER TABLE "@ + qualified_name_sql(table) + " DROP COLUMN "@ + ident_sql(column),
        ),
        DiffOp::RenameColumn { table, from, to } => Ok(
            "ALTER TABLE "@ + qualified_name_sql(table) + " RENAME COLUMN "@ + ident_sql(from)
                + " TO "@ + ident_sql(to),
        ),
        DiffOp::DropIndex { owner, name } => Ok(
            "DROP INDEX "@ + defs::owner_scoped_name_sql(owner, name),
        ),
        DiffOp::RenameIndex { owner, from, to } => Ok(
            "ALTER INDEX "@ + defs::owner_scoped_name_sql(owner, from) + " RENAME TO "@ + ident_sql(
                to,
            ),
        ),
        DiffOp::AddForeignKey { table, fk } => Ok(defs::add_foreign_key_sql(table, fk)),
        DiffOp::DropForeignKey { table, name } => Ok(drop_constraint_sql(table, name)),
        DiffOp::AddCheck { table, check } => Ok(
            defs::add_constraint_sql(table, defs::check_clause_sql(check)),
        ),
        DiffOp::DropCheck { table, name } => Ok(drop_constraint_sql(table, name)),
        DiffOp::AddExclusion { table, exclusion } => Ok(
            defs::add_constraint_sql(table, defs::exclusion_clause_sql(exclusion)),
        ),
        DiffOp::DropExclusion { table, name } => Ok(drop_constraint_sql(table, name)),
        DiffOp::SetPrimaryKey { table, pk } => Ok(
            defs::add_constraint_sql(table, defs::primary_key_clause_sql(pk)),
        ),
        DiffOp::DropPrimaryKey { table } => Ok(defs::drop_primary_key_sql(table)),
        DiffOp::DropPartition { table, name } => Ok(defs::drop_partition_sql(table, name)),
        DiffOp::AlterTableOptions { table, options } => if options.extra@.len() == 0 {
            Err(refused(op, TABLE_OPTIONS_TARGET@, dialect))
        } else {
            Ok(
                "ALTER TABLE "@ + qualified_name_sql(table) + " SET ("@
                    + defs::option_assignments_sql(options.extra@) + ")"@,
            )
        },
        DiffOp::CreateView(v) => if text::trim(v.query@).len() == 0 {
            Err(empty_view_failure())
        } else {
            Ok(defs::create_view_sql(v, false))
        },
        DiffOp::DropView(n) => Ok(drop_sql("DROP VIEW "@, n)),
        DiffOp::CreateMaterializedView(v) => Ok(defs::create_materialized_view_sql(v)),
        DiffOp::DropMaterializedView(n) => Ok(drop_sql("DROP MATERIALIZED VIEW "@, n)),
        DiffOp::CreateSequence(s) => Ok(objs::create_sequence_sql(s)),
        DiffOp::DropSequence(n) => Ok(drop_sql("DROP SEQUENCE "@, n)),
        DiffOp::AlterSequence { name, changes } => Ok(objs::alter_sequence_sql(name, changes@)),
        DiffOp::CreateTrigger(t) => Ok(objs::create_trigger_sql(t)),
        DiffOp::DropTrigger { name, table } => match table {
            Some(t) => Ok(
                "DROP TRIGGER "@ + ident_sql(name.name) + " ON "@ + qualified_name_sql(t),
            ),
            None => Err(refused(op, TRIGGER_TABLE_TARGET@, dialect)),
        },
        DiffOp::CreateFunction(f) => Ok(objs::create_function_sql(f)),
        DiffOp::DropFunction(n) => Ok(drop_sql("DROP FUNCTION "@, n)),
        DiffOp::CreateType(t) => Ok(objs::create_type_sql(t)),
        DiffOp::DropType(n) => Ok(drop_sql("DROP TYPE "@, n)),
        DiffOp::AlterType { name, change } => Ok(objs::alter_type_sql(name, change)),
        DiffOp::CreateDomain(d) => Ok(objs::create_domain_sql(d)),
        DiffOp::DropDomain(n) => Ok(drop_sql("DROP DOMAIN "@, n)),
        DiffOp::AlterDomain { name, change } => Ok(objs::alter_domain_sql(name, change)),
        DiffOp::CreateExtension(e) => Ok(objs::create_extension_sql(e)),
        DiffOp::DropExtension(n) => Ok(drop_sql("DROP EXTENSION "@, n)),
        DiffOp::CreateSchema(s) => Ok(objs::create_schema_sql(s.name)),
        DiffOp::DropSchema(n) => Ok(drop_sql("DROP SCHEMA "@, n)),
        DiffOp::SetComment(c) => Ok(objs::set_comment_sql(c)),
        DiffOp::DropComment { target } => Ok(objs::drop_comment_sql(target)),
        DiffOp::Grant(p) => if p.operations@.len() == 0 {
            Err(refused(op, PRIVILEGE_OPS_TARGET@, dialect))
        } else {
            Ok(objs::grant_sql(p))
        },
        DiffOp::Revoke(p) => if p.operations@.len() == 0 {
            Err(refused(op, PRIVILEGE_OPS_TARGET@, dialect))
        } else {
            Ok(objs::revoke_sql(p))
        },
        DiffOp::CreatePolicy(p) => Ok(objs::create_policy_sql(p)),
        DiffOp::DropPolicy { name, table } => Ok(
            "DROP POLICY "@ + ident_sql(name) + " ON "@ + qualified_name_sql(table),
        ),
        _ => Ok(Seq::empty()),
    }
}

/// The statements of one change, each with whether it runs in a transaction.
pub open spec fn op_plan(dialect: Seq<char>, op: DiffOp) -> Result<
    Seq<(Seq<char>, bool)>,
    GenerateFailure,
> {
    match op {
        DiffOp::RenameTable { from, to } => match rename_table_plan(from, to) {
            Ok(s) => Ok(transactional(s)),
            Err(t) => Err(refused(op, t, dialect)),
        },
        DiffOp::AlterColumn { table, column, changes } => Ok(
            transactional(
                changes@.map_values(
                    |c: ir::ColumnChange| defs::alter_column_change_sql(table, column, c),
                ),
            ),
        ),
        DiffOp::AddIndex(i) => match i.name {
            Some(n) => Ok(seq![(defs::add_index_sql(i, n), !i.concurrent)]),
            None => Err(refused(op, defs::INDEX_NAME_TARGET@, dialect)),
        },
        DiffOp::AddPartition { table, partition } => Ok(
            transactional(defs::add_partition_sql(table, partition)),
        ),
        _ => match single_sql(dialect, op) {
            Ok(s) => Ok(seq![(s, true)]),
            Err(f) => Err(f),
        },
    }
}


fn sql_statement(sql: String, transactional: bool) -> (s: Statement)
    ensures
        statement_matches(s, (sql@, transactional)),
{
    Statement::Sql { sql, transactional, context: None }
}

proof fn lemma_appended_one(new: Seq<Statement>, old: Seq<Statement>, s: Statement, p: (Seq<char>, bool))
    requires
        new == old.push(s),
        statement_matches(s, p),
    ensures
        appended(new, old, seq![p]),
{
    assert forall|j: int| 0 <= j < seq![p].len() implies statement_matches(
        new[old.len() + j],
        #[trigger] seq![p][j],
    ) by {
        assert(j == 0);
    }
}

fn push_sql(out: &mut Vec<Statement>, sql: String, transactional: bool)
    ensures
        appended(final(out)@, old(out)@, seq![(sql@, transactional)]),
{
    let ghost p = (sql@, transactional);
    let s = sql_statement(sql, transactional);
    out.push(s);
    proof {
        lemma_appended_one(out@, old(out)@, s, p);
    }
}

/// Pushes each statement, in a transaction.
fn push_all(out: &mut Vec<Statement>, sqls: &Vec<String>)
    ensures
        appended(final(out)@, old(out)@, transactional(text::views(sqls@))),
{
    let ghost all = transactional(text::views(sqls@));
    let mut i: usize = 0;
    assert(all.take(0) =~= Seq::<(Seq<char>, bool)>::empty());
    while i < sqls.len()
        invariant
            i <= sqls@.len(),
            all == transactional(text::views(sqls@)),
            appended(out@, old(out)@, all.take(i as int)),
        decreases sqls.len() - i,
    {
        let ghost before = out@;
        let st = sql_statement(text::owned(sqls[i].as_str()), true);
        out.push(st);
        proof {
            let p = all[i as int];
            assert(all.take(i + 1) =~= all.take(i as int).push(p));
            assert forall|j: int| 0 <= j < all.take(i + 1).len() implies statement_matches(
                out@[old(out)@.len() + j],
                #[trigger] all.take(i + 1)[j],
            ) by {
                if j < i {
                    assert(all.take(i as int)[j] == all.take(i + 1)[j]);
                    assert(out@[old(out)@.len() + j] == before[old(out)@.len() + j]);
                }
            }
        }
        i += 1;
    }
    assert(all.take(all.len() as int) =~= all);
}

/// The statements that move and rename a table; the change `op` is named in the error.
pub fn render_rename_table(from: &QualifiedName, to: &QualifiedName, dialect_name: &str, op: &DiffOp) -> (r:
    Result<Vec<String>, Error>)
    ensures
        match rename_table_plan(*from, *to) {
            Ok(s) => r matches Ok(v) && text::views(v@) == s,
            Err(t) => r matches Err(e) && error::is_unsupported(
                e,
                ops::diff_op_tag(*op),
                t,
                dialect_name@,
            ),
        },
{
    let mut sql: Vec<String> = Vec::new();
    let renamed = !schema::idents_equal(&from.name, &to.name);
    if renamed {
        let mut s: Vec<char> = Vec::new();
        text::append_str(&mut s, "ALTER TABLE ");
        render::write_qualified_name(&mut s, from);
        text::append_str(&mut s, " RENAME TO ");
        render::write_ident(&mut s, &to.name);
        sql.push(text::string_of(s.as_slice()));
    }
    let ghost after_rename = text::views(sql@);
    if !schema::qualifiers_equal(&from.schema, &to.schema) {
        let target = match &to.schema {
            Some(t) => t,
            None => return Err(defs::unsupported_diff_op(dialect_name, op, TARGET_SCHEMA_TARGET)),
        };
        let current = if renamed {
            &to.name
        } else {
            &from.name
        };
        let mut s: Vec<char> = Vec::new();
        text::append_str(&mut s, "ALTER TABLE ");
        render::write_name_in(&mut s, &from.schema, current);
        text::append_str(&mut s, " SET SCHEMA ");
        render::write_ident(&mut s, target);
        let ghost prev = sql@;
        sql.push(text::string_of(s.as_slice()));
        assert(text::views(sql@) =~= text::views(prev).push(s@));
    }
    if sql.len() == 0 {
        return Err(defs::unsupported_diff_op(dialect_name, op, NO_EFFECTIVE_CHANGE_TARGET));
    }
    assert(text::views(sql@) =~= rename_table_plan(*from, *to)->Ok_0);
    Ok(sql)
}


/// `r` is the text, or the failure, that `expected` says.
pub open spec fn rendered_as(r: Result<String, Error>, expected: Result<Seq<char>, GenerateFailure>) -> bool {
    match expected {
        Ok(s) => r matches Ok(v) && v@ == s,
        Err(f) => r matches Err(e) && is_failure(e, f),
    }
}

fn finish(out: Vec<char>) -> (r: Result<String, Error>)
    ensures
        r matches Ok(v) && v@ == out@,
{
    Ok(text::string_of(out.as_slice()))
}

fn write_drop(out: &mut Vec<char>, kind: &str, n: &QualifiedName)
    ensures
        final(out)@ == old(out)@ + drop_sql(kind@, *n),
{
    text::append_str(out, kind);
    render::write_qualified_name(out, n);
}

fn write_drop_constraint(out: &mut Vec<char>, table: &QualifiedName, name: &Ident)
    ensures
        final(out)@ == old(out)@ + drop_constraint_sql(*table, *name),
{
    let ghost start = out@;
    text::append_str(out, "ALTER TABLE ");
    render::write_qualified_name(out, table);
    text::append_str(out, " DROP CONSTRAINT ");
    render::write_ident(out, name);
    assert(out@ =~= start + drop_constraint_sql(*table, *name));
}

fn render_add_column(table: &QualifiedName, column: &ir::Column, position: &Option<ir::ColumnPosition>) -> (r:
    String)
    ensures
        r@ == add_column_sql(*table, *column, *position),
{
    let mut out: Vec<char> = Vec::new();
    text::append_str(&mut out, "ALTER TABLE ");
    render::write_qualified_name(&mut out, table);
    text::append_str(&mut out, " ADD COLUMN ");
    defs::write_column_definition(&mut out, column);
    match position {
        Some(p) => {
            text::append_str(&mut out, " /* requested position: ");
            defs::write_column_position(&mut out, p);
            text::append_str(&mut out, " */");
        },
        None => {},
    }
    assert(out@ =~= add_column_sql(*table, *column, *position));
    text::string_of(out.as_slice())
}

/// The statement of a change to a table's columns and constraints.
fn render_table_statement(dialect_name: &str, op: &DiffOp) -> (r: Result<String, Error>)
    requires
        op is CreateTable || op is DropTable || op is AddColumn || op is DropColumn
            || op is RenameColumn || op is DropIndex || op is RenameIndex || op is AddForeignKey
            || op is DropForeignKey || op is AddCheck || op is DropCheck || op is AddExclusion
            || op is DropExclusion || op is SetPrimaryKey || op is DropPrimaryKey
            || op is DropPartition || op is AlterTableOptions,
    ensures
        rendered_as(r, single_sql(dialect_name@, *op)),
{
    let mut out: Vec<char> = Vec::new();
    match op {
        DiffOp::CreateTable(t) => return Ok(defs::render_create_table(t)),
        DiffOp::DropTable(n) => write_drop(&mut out, "DROP TABLE ", n),
        DiffOp::AddColumn { table, column, position } => return Ok(
            render_add_column(table, column, position),
        ),
        DiffOp::DropColumn { table, column } => {
            text::append_str(&mut out, "ALTER TABLE ");
            render::write_qualified_name(&mut out, table);
            text::append_str(&mut out, " DROP COLUMN ");
            render::write_ident(&mut out, column);
        },
        DiffOp::RenameColumn { table, from, to } => {
            text::append_str(&mut out, "ALTER TABLE ");
            render::write_qualified_name(&mut out, table);
            text::append_str(&mut out, " RENAME COLUMN ");
            render::write_ident(&mut out, from);
            text::append_str(&mut out, " TO ");
            render::write_ident(&mut out, to);
        },
        DiffOp::DropIndex { owner, name } => {
            text::append_str(&mut out, "DROP INDEX ");
            defs::write_owner_scoped_name(&mut out, owner, name);
        },
        DiffOp::RenameIndex { owner, from, to } => {
            text::append_str(&mut out, "ALTER INDEX ");
            defs::write_owner_scoped_name(&mut out, owner, from);
            text::append_str(&mut out, " RENAME TO ");
            render::write_ident(&mut out, to);
        },
        DiffOp::AddForeignKey { table, fk } => return Ok(defs::render_add_foreign_key(table, fk)),
        DiffOp::DropForeignKey { table, name } => write_drop_constraint(&mut out, table, name),
        DiffOp::AddCheck { table, check } => return Ok(defs::render_add_check(table, check)),
        DiffOp::DropCheck { table, name } => write_drop_constraint(&mut out, table, name),
        DiffOp::AddExclusion { table, exclusion } => return Ok(
            defs::render_add_exclusion(table, exclusion),
        ),
        DiffOp::DropExclusion { table, name } => write_drop_constraint(&mut out, table, name),
        DiffOp::SetPrimaryKey { table, pk } => return Ok(defs::render_set_primary_key(table, pk)),
        DiffOp::DropPrimaryKey { table } => return Ok(defs::render_drop_primary_key(table)),
        DiffOp::DropPartition { table, name } => return Ok(defs::render_drop_partition(table, name)),
        DiffOp::AlterTableOptions { table, options } => {
            if options.extra.len() == 0 {
                return Err(defs::unsupported_diff_op(dialect_name, op, TABLE_OPTIONS_TARGET));
            }
            text::append_str(&mut out, "ALTER TABLE ");
            render::write_qualified_name(&mut out, table);
            text::append_str(&mut out, " SET (");
            defs::write_option_assignments(&mut out, &options.extra);
            text::append_str(&mut out, ")");
        },
        _ => {},
    }
    proof {
        assert(out@ =~= single_sql(dialect_name@, *op)->Ok_0);
    }
    finish(out)
}


/// The statement of a change to a view, sequence, trigger or function.
fn render_routine_statement(dialect_name: &str, op: &DiffOp) -> (r: Result<String, Error>)
    requires
        op is CreateView || op is DropView || op is CreateMaterializedView
            || op is DropMaterializedView || op is CreateSequence || op is DropSequence
            || op is AlterSequence || op is CreateTrigger || op is DropTrigger
            || op is CreateFunction || op is DropFunction,
    ensures
        rendered_as(r, single_sql(dialect_name@, *op)),
{
    let mut out: Vec<char> = Vec::new();
    match op {
        DiffOp::CreateView(v) => return defs::render_create_view(v, false),
        DiffOp::DropView(n) => write_drop(&mut out, "DROP VIEW ", n),
        DiffOp::CreateMaterializedView(v) => return Ok(defs::render_create_materialized_view(v)),
        DiffOp::DropMaterializedView(n) => write_drop(&mut out, "DROP MATERIALIZED VIEW ", n),
        DiffOp::CreateSequence(sq) => return Ok(objs::render_create_sequence(sq)),
        DiffOp::DropSequence(n) => write_drop(&mut out, "DROP SEQUENCE ", n),
        DiffOp::AlterSequence { name, changes } => return Ok(
            objs::render_alter_sequence(name, changes),
        ),
        DiffOp::CreateTrigger(t) => return Ok(objs::render_create_trigger(t)),
        DiffOp::DropTrigger { name, table } => {
            let t = match table {
                Some(t) => t,
                None => return Err(defs::unsupported_diff_op(dialect_name, op, TRIGGER_TABLE_TARGET)),
            };
            text::append_str(&mut out, "DROP TRIGGER ");
            render::write_ident(&mut out, &name.name);
            text::append_str(&mut out, " ON ");
            render::write_qualified_name(&mut out, t);
        },
        DiffOp::CreateFunction(f) => return Ok(objs::render_create_function(f)),
        DiffOp::DropFunction(n) => write_drop(&mut out, "DROP FUNCTION ", n),
        _ => {},
    }
    proof {
        assert(out@ =~= single_sql(dialect_name@, *op)->Ok_0);
    }
    finish(out)
}

/// The statement of a change to a type, domain, extension, schema, comment, privilege or
/// policy.
fn render_object_statement(dialect_name: &str, op: &DiffOp) -> (r: Result<String, Error>)
    requires
        op is CreateType || op is DropType || op is AlterType || op is CreateDomain
            || op is DropDomain || op is AlterDomain || op is CreateExtension
            || op is DropExtension || op is CreateSchema || op is DropSchema || op is SetComment
            || op is DropComment || op is Grant || op is Revoke || op is CreatePolicy
            || op is DropPolicy,
    ensures
        rendered_as(r, single_sql(dialect_name@, *op)),
{
    let mut out: Vec<char> = Vec::new();
    match op {
        DiffOp::CreateType(t) => return Ok(objs::render_create_type(t)),
        DiffOp::DropType(n) => write_drop(&mut out, "DROP TYPE ", n),
        DiffOp::AlterType { name, change } => return Ok(objs::render_alter_type(name, change)),
        DiffOp::CreateDomain(d) => return Ok(objs::render_create_domain(d)),
        DiffOp::DropDomain(n) => write_drop(&mut out, "DROP DOMAIN ", n),
        DiffOp::AlterDomain { name, change } => return Ok(objs::render_alter_domain(name, change)),
        DiffOp::CreateExtension(e) => return Ok(objs::render_create_extension(e)),
        DiffOp::DropExtension(n) => write_drop(&mut out, "DROP EXTENSION ", n),
        DiffOp::CreateSchema(sd) => return Ok(objs::render_create_schema(&sd.name)),
        DiffOp::DropSchema(n) => write_drop(&mut out, "DROP SCHEMA ", n),
        DiffOp::SetComment(c) => return Ok(objs::render_set_comment(c)),
        DiffOp::DropComment { target } => return Ok(objs::render_drop_comment(target)),
        DiffOp::Grant(p) => {
            if p.operations.len() == 0 {
                return Err(defs::unsupported_diff_op(dialect_name, op, PRIVILEGE_OPS_TARGET));
            }
            return Ok(objs::render_privilege(p, false));
        },
        DiffOp::Revoke(p) => {
            if p.operations.len() == 0 {
                return Err(defs::unsupported_diff_op(dialect_name, op, PRIVILEGE_OPS_TARGET));
            }
            return Ok(objs::render_privilege(p, true));
        },
        DiffOp::CreatePolicy(p) => return Ok(objs::render_create_policy(p)),
        DiffOp::DropPolicy { name, table } => {
            text::append_str(&mut out, "DROP POLICY ");
            render::write_ident(&mut out, name);
            text::append_str(&mut out, " ON ");
            render::write_qualified_name(&mut out, table);
        },
        _ => {},
    }
    proof {
        assert(out@ =~= single_sql(dialect_name@, *op)->Ok_0);
    }
    finish(out)
}

/// `r` and `out` are what `expected` says: on success the statements are appended to the
/// ones before, on failure the error is the one it describes and the statements are left
/// as they were.
pub open spec fn emitted_as(
    r: Result<(), Error>,
    new: Seq<Statement>,
    old: Seq<Statement>,
    expected: Result<Seq<(Seq<char>, bool)>, GenerateFailure>,
) -> bool {
    match expected {
        Ok(p) => r is Ok && appended(new, old, p),
        Err(f) => r matches Err(e) && is_failure(e, f) && new == old,
    }
}

/// Appends the statements of one change.
pub fn emit_op(dialect_name: &str, op: &DiffOp, out: &mut Vec<Statement>) -> (r: Result<(), Error>)
    ensures
        emitted_as(r, final(out)@, old(out)@, op_plan(dialect_name@, *op)),
{
    match op {
        DiffOp::RenameTable { from, to } => {
            match render_rename_table(from, to, dialect_name, op) {
                Ok(sqls) => {
                    push_all(out, &sqls);
                    Ok(())
                },
                Err(e) => Err(e),
            }
        },
        DiffOp::AlterColumn { table, column, changes } => {
            let mut sqls: Vec<String> = Vec::new();
            let ghost all = changes@.map_values(
                |c: ir::ColumnChange| defs::alter_column_change_sql(*table, *column, c),
            );
            let mut i: usize = 0;
            while i < changes.len()
                invariant
                    i <= changes@.len(),
                    all == changes@.map_values(
                        |c: ir::ColumnChange| defs::alter_column_change_sql(*table, *column, c),
                    ),
                    text::views(sqls@) == all.take(i as int),
                decreases changes.len() - i,
            {
                let ghost prev = sqls@;
                sqls.push(defs::render_alter_column_change(table, column, &changes[i]));
                i += 1;
                assert(text::views(sqls@) =~= text::views(prev).push(sqls@.last()@));
                assert(all.take(i as int) =~= all.take(i - 1).push(all[i - 1]));
            }
            assert(all.take(all.len() as int) =~= all);
            push_all(out, &sqls);
            Ok(())
        },
        DiffOp::AddIndex(index) => {
            match defs::render_add_index(index, dialect_name, op) {
                Ok(sql) => {
                    push_sql(out, sql, !index.concurrent);
                    Ok(())
                },
                Err(e) => Err(e),
            }
        },
        DiffOp::AddPartition { table, partition } => {
            let sqls = defs::render_add_partition(table, partition);
            push_all(out, &sqls);
            Ok(())
        },
        DiffOp::CreateTable(_) | DiffOp::DropTable(_) | DiffOp::AddColumn { .. }
        | DiffOp::DropColumn { .. } | DiffOp::RenameColumn { .. } | DiffOp::DropIndex { .. }
        | DiffOp::RenameIndex { .. } | DiffOp::AddForeignKey { .. } | DiffOp::DropForeignKey {
            ..
        } | DiffOp::AddCheck { .. } | DiffOp::DropCheck { .. } | DiffOp::AddExclusion { .. }
        | DiffOp::DropExclusion { .. } | DiffOp::SetPrimaryKey { .. } | DiffOp::DropPrimaryKey {
            ..
        } | DiffOp::DropPartition { .. } | DiffOp::AlterTableOptions { .. } => push_rendered(
            out,
            render_table_statement(dialect_name, op),
        ),
        DiffOp::CreateView(_) | DiffOp::DropView(_) | DiffOp::CreateMaterializedView(_)
        | DiffOp::DropMaterializedView(_) | DiffOp::CreateSequence(_) | DiffOp::DropSequence(_)
        | DiffOp::AlterSequence { .. } | DiffOp::CreateTrigger(_) | DiffOp::DropTrigger { .. }
        | DiffOp::CreateFunction(_) | DiffOp::DropFunction(_) => push_rendered(
            out,
            render_routine_statement(dialect_name, op),
        ),
        _ => push_rendered(out, render_object_statement(dialect_name, op)),
    }
}

fn push_rendered(out: &mut Vec<Statement>, rendered: Result<String, Error>) -> (r: Result<(), Error>)
    ensures
        match rendered {
            Ok(s) => r is Ok && appended(final(out)@, old(out)@, seq![(s@, true)]),
            Err(e) => r == Err::<(), Error>(e) && final(out)@ == old(out)@,
        },
{
    match rendered {
        Ok(sql) => {
            push_sql(out, sql, true);
            Ok(())
        },
        Err(e) => Err(e),
    }
}


/// A view that `CREATE OR REPLACE` may recreate: without the old view's shape at hand,
/// only one with no column list, check option or security setting.
pub open spec fn replaceable_view(v: ir::View) -> bool {
    v.columns@.len() == 0 && v.check_option is None && v.security is None
}

pub fn is_create_or_replace_view_compatible(v: &ir::View) -> (r: bool)
    ensures
        r == replaceable_view(*v),
{
    v.columns.len() == 0 && v.check_option.is_none() && v.security.is_none()
}

/// The changes start with dropping a view and creating a replaceable one of that name.
pub open spec fn view_pair(ops: Seq<DiffOp>) -> bool {
    &&& ops.len() >= 2
    &&& ops[0] matches DiffOp::DropView(n)
    &&& ops[1] matches DiffOp::CreateView(v)
    &&& schema::same_name(n, v.name)
    &&& replaceable_view(v)
}

pub open spec fn prepend(
    p: Seq<(Seq<char>, bool)>,
    r: Result<Seq<(Seq<char>, bool)>, GenerateFailure>,
) -> Result<Seq<(Seq<char>, bool)>, GenerateFailure> {
    match r {
        Ok(rest) => Ok(p + rest),
        Err(f) => Err(f),
    }
}

/// The `CREATE OR REPLACE VIEW` that stands for a view pair, or the refusal of its view.
pub open spec fn view_pair_sql(v: ir::View) -> Result<Seq<char>, GenerateFailure> {
    if text::trim(v.query@).len() == 0 {
        Err(empty_view_failure())
    } else {
        Ok(defs::create_view_sql(v, true))
    }
}

/// The statements for a list of changes: a view dropped and created again becomes one
/// `CREATE OR REPLACE`, every other change is planned on its own; the first refusal is
/// reported.
#[verifier::opaque]
pub open spec fn ddl_plan(dialect: Seq<char>, ops: Seq<DiffOp>) -> Result<
    Seq<(Seq<char>, bool)>,
    GenerateFailure,
>
    decreases ops.len(),
{
    if ops.len() == 0 {
        Ok(Seq::empty())
    } else if view_pair(ops) {
        match view_pair_sql(ops[1]->CreateView_0) {
            Ok(sql) => prepend(seq![(sql, true)], ddl_plan(dialect, ops.skip(2))),
            Err(f) => Err(f),
        }
    } else {
        match op_plan(dialect, ops[0]) {
            Ok(p) => prepend(p, ddl_plan(dialect, ops.skip(1))),
            Err(f) => Err(f),
        }
    }
}

/// `r` is the statements, or the failure, that `expected` says.
pub open spec fn generated_as(
    r: Result<Vec<Statement>, Error>,
    expected: Result<Seq<(Seq<char>, bool)>, GenerateFailure>,
) -> bool {
    match expected {
        Ok(p) => r matches Ok(v) && statements_match(v@, p),
        Err(f) => r matches Err(e) && is_failure(e, f),
    }
}

proof fn lemma_prepend_assoc(
    a: Seq<(Seq<char>, bool)>,
    b: Seq<(Seq<char>, bool)>,
    r: Result<Seq<(Seq<char>, bool)>, GenerateFailure>,
)
    ensures
        prepend(a, prepend(b, r)) == prepend(a + b, r),
        prepend(Seq::empty(), r) == r,
{
    match r {
        Ok(x) => {
            assert(a + (b + x) =~= (a + b) + x);
            assert(Seq::<(Seq<char>, bool)>::empty() + x =~= x);
        },
        Err(_) => {},
    }
}

proof fn lemma_ddl_view_step(dialect: Seq<char>, ops: Seq<DiffOp>, index: int)
    requires
        0 <= index <= ops.len(),
        view_pair(ops.skip(index)),
    ensures
        ddl_plan(dialect, ops.skip(index)) == match view_pair_sql(ops[index + 1]->CreateView_0) {
            Ok(sql) => prepend(seq![(sql, true)], ddl_plan(dialect, ops.skip(index + 2))),
            Err(f) => Err(f),
        },
{
    let rest = ops.skip(index);
    assert(rest[1] == ops[index + 1]);
    assert(rest.skip(2) =~= ops.skip(index + 2));
    reveal(ddl_plan);
}

proof fn lemma_ddl_single_step(dialect: Seq<char>, ops: Seq<DiffOp>, index: int)
    requires
        0 <= index < ops.len(),
        !view_pair(ops.skip(index)),
    ensures
        ddl_plan(dialect, ops.skip(index)) == match op_plan(dialect, ops[index]) {
            Ok(p) => prepend(p, ddl_plan(dialect, ops.skip(index + 1))),
            Err(f) => Err(f),
        },
{
    let rest = ops.skip(index);
    assert(rest[0] == ops[index]);
    assert(rest.skip(1) =~= ops.skip(index + 1));
    reveal(ddl_plan);
}

proof fn lemma_ddl_empty(dialect: Seq<char>, ops: Seq<DiffOp>)
    ensures
        ddl_plan(dialect, ops.skip(ops.len() as int)) == Ok::<
            Seq<(Seq<char>, bool)>,
            GenerateFailure,
        >(Seq::empty()),
{
    assert(ops.skip(ops.len() as int) =~= Seq::<DiffOp>::empty());
    reveal(ddl_plan);
}

/// Renaming a column gives one statement that renames the column named `from` to `to`:
/// the old name before `TO`, the new name after it.
pub proof fn law_rename_column_statement(dialect: Seq<char>, table: QualifiedName, from: Ident, to: Ident)
    ensures
        ddl_plan(dialect, seq![DiffOp::RenameColumn { table, from, to }]) == Ok::<
            Seq<(Seq<char>, bool)>,
            GenerateFailure,
        >(
            seq![
                (
                    "ALTER TABLE "@ + qualified_name_sql(table) + " RENAME COLUMN "@ + ident_sql(from)
                        + " TO "@ + ident_sql(to),
                    true,
                ),
            ],
        ),
{
    let ops = seq![DiffOp::RenameColumn { table, from, to }];
    let st = (
        "ALTER TABLE "@ + qualified_name_sql(table) + " RENAME COLUMN "@ + ident_sql(from) + " TO "@
            + ident_sql(to),
        true,
    );
    assert(ops.skip(1) =~= Seq::<DiffOp>::empty());
    assert(ddl_plan(dialect, Seq::<DiffOp>::empty()) == Ok::<Seq<(Seq<char>, bool)>, GenerateFailure>(
        Seq::empty(),
    )) by {
        reveal_with_fuel(ddl_plan, 1);
    }
    assert(ddl_plan(dialect, ops) == prepend(seq![st], ddl_plan(dialect, ops.skip(1)))) by {
        reveal_with_fuel(ddl_plan, 1);
        assert(!view_pair(ops));
    }
    assert(seq![st] + Seq::<(Seq<char>, bool)>::empty() =~= seq![st]);
}

/// Changing a column gives one `ALTER TABLE ... ALTER COLUMN` statement per change, in
/// order: `SET NOT NULL` when the column becomes required and `DROP NOT NULL` when it no
/// longer is, `TYPE` with the new type, `SET DEFAULT` with the new default or
/// `DROP DEFAULT` when it is removed.
pub proof fn law_alter_column_statements(
    dialect: Seq<char>,
    table: QualifiedName,
    column: Ident,
    changes: Vec<ir::ColumnChange>,
)
    ensures
        ddl_plan(dialect, seq![DiffOp::AlterColumn { table, column, changes }]) matches Ok(p)
            && p.len() == changes@.len() && forall|k: int|
            0 <= k < p.len() ==> {
                let head = "ALTER TABLE "@ + qualified_name_sql(table) + " ALTER COLUMN "@ + ident_sql(
                    column,
                );
                &&& (#[trigger] p[k]).1
                &&& match changes@[k] {
                    ir::ColumnChange::SetNotNull(b) => p[k].0 == head + if b {
                        " SET NOT NULL"@
                    } else {
                        " DROP NOT NULL"@
                    },
                    ir::ColumnChange::SetType(d) => p[k].0 == head + " TYPE "@ + render::data_type_sql(d),
                    ir::ColumnChange::SetDefault(None) => p[k].0 == head + " DROP DEFAULT"@,
                    ir::ColumnChange::SetDefault(Some(e)) => p[k].0 == head + " SET DEFAULT "@
                        + render::expr_sql(e),
                    _ => true,
                }
            },
{
    let op = DiffOp::AlterColumn { table, column, changes };
    let ops = seq![op];
    let p = transactional(
        changes@.map_values(|c: ir::ColumnChange| defs::alter_column_change_sql(table, column, c)),
    );
    assert(ops.skip(1) =~= Seq::<DiffOp>::empty());
    assert(ddl_plan(dialect, Seq::<DiffOp>::empty()) == Ok::<Seq<(Seq<char>, bool)>, GenerateFailure>(
        Seq::empty(),
    )) by {
        reveal_with_fuel(ddl_plan, 1);
    }
    assert(ddl_plan(dialect, ops) == prepend(p, ddl_plan(dialect, ops.skip(1)))) by {
        reveal_with_fuel(ddl_plan, 1);
        assert(!view_pair(ops));
    }
    assert(p + Seq::<(Seq<char>, bool)>::empty() =~= p);
}

/// A view dropped and created again under the same name becomes a single
/// `CREATE OR REPLACE VIEW` when the new view is replaceable; otherwise the drop and the
/// create stay two statements, in that order.
pub proof fn law_view_pair_replacement(dialect: Seq<char>, n: QualifiedName, v: ir::View)
    requires
        schema::same_name(n, v.name),
        text::trim(v.query@).len() > 0,
    ensures
        ddl_plan(dialect, seq![DiffOp::DropView(n), DiffOp::CreateView(v)]) == if replaceable_view(v) {
            Ok::<Seq<(Seq<char>, bool)>, GenerateFailure>(seq![(defs::create_view_sql(v, true), true)])
        } else {
            Ok::<Seq<(Seq<char>, bool)>, GenerateFailure>(
                seq![(drop_sql("DROP VIEW "@, n), true), (defs::create_view_sql(v, false), true)],
            )
        },
{
    let ops = seq![DiffOp::DropView(n), DiffOp::CreateView(v)];
    reveal_with_fuel(ddl_plan, 3);
    assert(ops.skip(2) =~= Seq::<DiffOp>::empty());
    assert(ops.skip(1) =~= seq![DiffOp::CreateView(v)]);
    assert(ops.skip(1).skip(1) =~= Seq::<DiffOp>::empty());
    if replaceable_view(v) {
        assert(view_pair(ops));
        assert(seq![(defs::create_view_sql(v, true), true)] + Seq::<(Seq<char>, bool)>::empty()
            =~= seq![(defs::create_view_sql(v, true), true)]);
    } else {
        assert(!view_pair(ops));
        assert(!view_pair(ops.skip(1)));
        let d = (drop_sql("DROP VIEW "@, n), true);
        let c = (defs::create_view_sql(v, false), true);
        assert(seq![c] + Seq::<(Seq<char>, bool)>::empty() =~= seq![c]);
        assert(seq![d] + seq![c] =~= seq![d, c]);
    }
}

/// Every change on its own is either refused, with an error that names it, or carried
/// out by at least one statement; only a column change with no changes and a partition
/// addition with no partitions carry out nothing.
pub proof fn law_each_change_is_generated_or_refused(dialect: Seq<char>, op: DiffOp)
    requires
        !(op matches DiffOp::AlterColumn { changes, .. } && changes@.len() == 0),
        !(op matches DiffOp::AddPartition { partition, .. } && partition.partitions@.len() == 0),
    ensures
        match ddl_plan(dialect, seq![op]) {
            Ok(p) => p.len() >= 1,
            Err(f) => f.diff_op == ops::diff_op_tag(op),
        },
{
    let ops = seq![op];
    reveal_with_fuel(ddl_plan, 2);
    assert(!view_pair(ops));
    assert(ops.skip(1) =~= Seq::<DiffOp>::empty());
    match op_plan(dialect, op) {
        Ok(p) => {
            assert(p + Seq::<(Seq<char>, bool)>::empty() =~= p);
            match op {
                DiffOp::RenameTable { from, to } => {
                    let r = rename_table_plan(from, to);
                    assert(r matches Ok(x) ==> x.len() >= 1);
                },
                DiffOp::AlterColumn { table, column, changes } => {},
                DiffOp::AddIndex(i) => {},
                DiffOp::AddPartition { table, partition } => {},
                _ => {},
            }
        },
        Err(f) => {},
    }
}

proof fn lemma_appended_match(
    old: Seq<Statement>,
    planned: Seq<(Seq<char>, bool)>,
    new: Seq<Statement>,
    p: Seq<(Seq<char>, bool)>,
)
    requires
        statements_match(old, planned),
        appended(new, old, p),
    ensures
        statements_match(new, planned + p),
{
    assert forall|i: int| 0 <= i < new.len() implies statement_matches(
        #[trigger] new[i],
        (planned + p)[i],
    ) by {
        if i < old.len() {
            assert(new[i] == old[i]);
            assert(statement_matches(old[i], planned[i]));
        } else {
            let j = i - old.len();
            assert(p[j] == (planned + p)[i]);
            assert(statement_matches(new[old.len() + j], p[j]));
        }
    }
}

/// The `CREATE OR REPLACE VIEW` for changes that drop a view and create a replaceable one
/// of that name; `None` when they do not start so.
pub fn optimize_drop_create_view(ops: &[DiffOp]) -> (r: Option<Result<String, Error>>)
    ensures
        view_pair(ops@) <==> r is Some,
        r matches Some(x) ==> match view_pair_sql(ops@[1]->CreateView_0) {
            Ok(sql) => x matches Ok(v) && v@ == sql,
            Err(f) => x matches Err(e) && is_failure(e, f),
        },
{
    if ops.len() < 2 {
        return None;
    }
    match (&ops[0], &ops[1]) {
        (DiffOp::DropView(dropped), DiffOp::CreateView(view)) => {
            if !schema::names_equal(dropped, &view.name) {
                return None;
            }
            if !is_create_or_replace_view_compatible(view) {
                return None;
            }
            Some(defs::render_create_view(view, true))
        },
        _ => None,
    }
}

/// The statements that carry out a list of changes in PostgreSQL.
pub fn generate_ddl(dialect_name: &str, ops: &[DiffOp]) -> (r: Result<Vec<Statement>, Error>)
    ensures
        generated_as(r, ddl_plan(dialect_name@, ops@)),
{
    let mut statements: Vec<Statement> = Vec::new();
    let mut index: usize = 0;
    let ghost mut planned: Seq<(Seq<char>, bool)> = Seq::empty();
    proof {
        assert(ops@.skip(0) =~= ops@);
        lemma_prepend_assoc(planned, planned, ddl_plan(dialect_name@, ops@));
    }
    while index < ops.len()
        invariant
            index <= ops@.len(),
            statements_match(statements@, planned),
            ddl_plan(dialect_name@, ops@) == prepend(
                planned,
                ddl_plan(dialect_name@, ops@.skip(index as int)),
            ),
        decreases ops.len() - index,
    {
        let rest = &ops[index..ops.len()];
        proof {
            assert(rest@ =~= ops@.skip(index as int));
        }
        match optimize_drop_create_view(rest) {
            Some(Ok(sql)) => {
                proof {
                    lemma_ddl_view_step(dialect_name@, ops@, index as int);
                }
                let ghost before = statements@;
                let ghost p = seq![(sql@, true)];
                push_sql(&mut statements, sql, true);
                proof {
                    lemma_appended_match(before, planned, statements@, p);
                    lemma_prepend_assoc(planned, p, ddl_plan(dialect_name@, ops@.skip(index + 2)));
                    planned = planned + p;
                }
                index += 2;
                continue;
            },
            Some(Err(e)) => {
                proof {
                    lemma_ddl_view_step(dialect_name@, ops@, index as int);
                }
                return Err(e);
            },
            None => {},
        }
        proof {
            lemma_ddl_single_step(dialect_name@, ops@, index as int);
        }
        let ghost before = statements@;
        match emit_op(dialect_name, &ops[index], &mut statements) {
            Ok(()) => {},
            Err(e) => return Err(e),
        }
        proof {
            let p = op_plan(dialect_name@, ops@[index as int])->Ok_0;
            lemma_appended_match(before, planned, statements@, p);
            lemma_prepend_assoc(planned, p, ddl_plan(dialect_name@, ops@.skip(index + 1)));
            planned = planned + p;
        }
        index += 1;
    }
    proof {
        lemma_ddl_empty(dialect_name@, ops@);
        assert(planned + Seq::<(Seq<char>, bool)>::empty() =~= planned);
    }
    Ok(statements)
}

} // verus!
