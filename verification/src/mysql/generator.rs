use vstd::prelude::*;

use crate::common;
use crate::error;
use crate::error::Error;
use crate::ir::Column;
use crate::ir::ColumnChange;
use crate::ir::ColumnPosition;
use crate::ir::DataType;
use crate::ir::DiffOp;
use crate::ir::Expr;
use crate::ir::GeneratedColumn;
use crate::ir::Identity;
use crate::ir::IndexOwner;
use crate::ir::Partition;
use crate::ir::PartitionBound;
use crate::ir::PartitionElement;
use crate::ir::PartitionStrategy;
use crate::ir::Statement;
use crate::ir::Value;
use crate::mysql::to_sql;
use crate::ops;
use crate::schema;
use crate::schema::Ident;
use crate::schema::QualifiedName;
use crate::text;

verus! {

pub const GENERATOR_TARGET: &'static str = "mysql ddl generator";

pub const MIXED_TABLES_TARGET: &'static str = "table batch contained mixed table targets";

pub const TABLE_SCOPED_INDEX_TARGET: &'static str = "mysql indexes must be table-scoped";

pub const EMPTY_ALTER_TARGET: &'static str = "ALTER COLUMN requires at least one change";

pub const DEFERRABLE_TARGET: &'static str = "mysql does not support DEFERRABLE foreign keys";

pub const NO_INHERIT_TARGET: &'static str = "mysql does not support CHECK NO INHERIT";

pub const CHANGE_COLUMN_TARGET: &'static str = "mysql ddl generator: CHANGE COLUMN requires SetType";

/// Why a change cannot be generated: the change's kind and what refused it.
pub struct GenerateFailure {
    pub diff_op: Seq<char>,
    pub target: Seq<char>,
}

pub open spec fn failure(op: DiffOp, target: Seq<char>) -> GenerateFailure {
    GenerateFailure { diff_op: ops::diff_op_tag(op), target }
}

/// The text of a statement as it is emitted: trimmed and terminated.
pub open spec fn statement_sql(sql: Seq<char>) -> Seq<char> {
    text::terminate(text::trim(sql))
}

/// `s` is the transactional statement for the text `sql`.
pub open spec fn statement_matches(s: Statement, sql: Seq<char>) -> bool {
    s matches Statement::Sql { sql: x, transactional, context } && x@ == statement_sql(sql)
        && transactional && context is None
}

pub open spec fn statements_match(s: Seq<Statement>, p: Seq<Seq<char>>) -> bool {
    s.len() == p.len() && forall|i: int| 0 <= i < s.len() ==> statement_matches(#[trigger] s[i], p[i])
}

/// `r` is what the plan `expected` says, in `dialect_name`.
pub open spec fn generated_as(
    r: Result<Vec<Statement>, Error>,
    expected: Result<Seq<Seq<char>>, GenerateFailure>,
    dialect_name: Seq<char>,
) -> bool {
    match expected {
        Ok(p) => r matches Ok(v) && statements_match(v@, p),
        Err(f) => r matches Err(e) && error::is_unsupported(e, f.diff_op, f.target, dialect_name),
    }
}

/// An identity that makes a column `AUTO_INCREMENT`.
pub open spec fn is_auto_increment(i: Identity) -> bool {
    i.always || i.start is Some || i.increment is Some || i.min_value is Some || i.max_value is Some
        || i.cache is Some || i.cycle
}

pub fn identity_is_auto_increment(i: &Identity) -> (b: bool)
    ensures
        b == is_auto_increment(*i),
{
    i.always || i.start.is_some() || i.increment.is_some() || i.min_value.is_some()
        || i.max_value.is_some() || i.cache.is_some() || i.cycle
}

/// A column definition for `ADD COLUMN`.
pub open spec fn column_definition_sql(c: Column) -> Seq<char> {
    to_sql::ident_sql(c.name) + " "@ + to_sql::data_type_sql(c.data_type) + to_sql::not_null_sql(
        c.not_null,
    ) + to_sql::default_sql(c.default) + (if (c.identity matches Some(i) && is_auto_increment(i))
        || to_sql::is_true_flag(c.auto_increment_hint) {
        " AUTO_INCREMENT"@
    } else {
        Seq::empty()
    }) + to_sql::generated_sql(c.generated) + to_sql::collation_sql(c.collation)
}

pub open spec fn position_sql(position: Option<ColumnPosition>) -> Seq<char> {
    match position {
        Some(ColumnPosition::First) => " FIRST"@,
        Some(ColumnPosition::After(c)) => " AFTER "@ + to_sql::ident_sql(c),
        None => Seq::empty(),
    }
}

pub open spec fn strategy_sql(s: PartitionStrategy) -> Seq<char> {
    match s {
        PartitionStrategy::Range => "RANGE"@,
        PartitionStrategy::List => "LIST"@,
        PartitionStrategy::Hash => "HASH"@,
        PartitionStrategy::Key => "KEY"@,
    }
}

pub open spec fn bound_sql(bound: Option<PartitionBound>) -> Seq<char> {
    match bound {
        None => Seq::empty(),
        Some(PartitionBound::LessThan(vs)) => " VALUES LESS THAN ("@ + to_sql::list_sql(vs@) + ")"@,
        Some(PartitionBound::In(vs)) => " VALUES IN ("@ + to_sql::list_sql(vs@) + ")"@,
        Some(PartitionBound::FromTo { from, to }) => " VALUES FROM ("@ + to_sql::list_sql(from@)
            + ") TO ("@ + to_sql::list_sql(to@) + ")"@,
        Some(PartitionBound::MaxValue) => " VALUES LESS THAN (MAXVALUE)"@,
    }
}

pub open spec fn subpartitions_sql(v: Option<Value>) -> Seq<char> {
    match to_sql::nonblank_text(v) {
        Some(s) => " "@ + text::trim(s),
        None => Seq::empty(),
    }
}

pub open spec fn partition_element_sql(e: PartitionElement) -> Seq<char> {
    "PARTITION "@ + to_sql::ident_sql(e.name) + bound_sql(e.bound) + subpartitions_sql(
        e.subpartitions,
    )
}

/// `ALTER TABLE ... PARTITION BY ...` with the partitions listed.
pub open spec fn add_partition_sql(table: QualifiedName, p: Partition) -> Seq<char> {
    "ALTER TABLE "@ + to_sql::qualified_name_sql(table) + " PARTITION BY "@ + strategy_sql(
        p.strategy,
    ) + " ("@ + to_sql::idents_sql(p.columns@) + ")"@ + (if p.partitions@.len() > 0 {
        " ("@ + text::join(
            p.partitions@.map_values(|e: PartitionElement| partition_element_sql(e)),
            ", "@,
        ) + ")"@
    } else {
        Seq::empty()
    }) + ";"@
}

/// Where a change of a table batch goes.
pub enum BatchEffect {
    /// A statement that runs before any primary key change.
    PrePk(Seq<char>),
    /// A statement that changes the primary key.
    Pk(Seq<char>),
    /// Changes to a column, merged into one `CHANGE COLUMN`.
    Alter(Ident, Seq<ColumnChange>),
}

/// The table an index change is scoped to, when it is a table.
pub open spec fn owner_table(owner: IndexOwner) -> Option<QualifiedName> {
    match owner {
        IndexOwner::Table(t) => Some(t),
        _ => None,
    }
}

/// The table a change is planned with: changes to one table are batched.
pub open spec fn table_scoped_target(op: DiffOp) -> Option<QualifiedName> {
    match op {
        DiffOp::AddColumn { table, .. } => Some(table),
        DiffOp::DropColumn { table, .. } => Some(table),
        DiffOp::AlterColumn { table, .. } => Some(table),
        DiffOp::RenameColumn { table, .. } => Some(table),
        DiffOp::AddForeignKey { table, .. } => Some(table),
        DiffOp::DropForeignKey { table, .. } => Some(table),
        DiffOp::AddCheck { table, .. } => Some(table),
        DiffOp::DropCheck { table, .. } => Some(table),
        DiffOp::SetPrimaryKey { table, .. } => Some(table),
        DiffOp::DropPrimaryKey { table } => Some(table),
        DiffOp::AddPartition { table, .. } => Some(table),
        DiffOp::DropPartition { table, .. } => Some(table),
        DiffOp::AlterTableOptions { table, .. } => Some(table),
        DiffOp::AddIndex(index) => owner_table(index.owner),
        DiffOp::DropIndex { owner, .. } => owner_table(owner),
        DiffOp::RenameIndex { owner, .. } => owner_table(owner),
        _ => None,
    }
}

pub fn table_scoped_target_of(op: &DiffOp) -> (r: Option<&QualifiedName>)
    ensures
        match r {
            Some(t) => table_scoped_target(*op) == Some(*t),
            None => table_scoped_target(*op) is None,
        },
{
    match op {
        DiffOp::AddColumn { table, .. } => Some(table),
        DiffOp::DropColumn { table, .. } => Some(table),
        DiffOp::AlterColumn { table, .. } => Some(table),
        DiffOp::RenameColumn { table, .. } => Some(table),
        DiffOp::AddForeignKey { table, .. } => Some(table),
        DiffOp::DropForeignKey { table, .. } => Some(table),
        DiffOp::AddCheck { table, .. } => Some(table),
        DiffOp::DropCheck { table, .. } => Some(table),
        DiffOp::SetPrimaryKey { table, .. } => Some(table),
        DiffOp::DropPrimaryKey { table } => Some(table),
        DiffOp::AddPartition { table, .. } => Some(table),
        DiffOp::DropPartition { table, .. } => Some(table),
        DiffOp::AlterTableOptions { table, .. } => Some(table),
        DiffOp::AddIndex(index) => match &index.owner {
            IndexOwner::Table(t) => Some(t),
            _ => None,
        },
        DiffOp::DropIndex { owner, .. } => match owner {
            IndexOwner::Table(t) => Some(t),
            _ => None,
        },
        DiffOp::RenameIndex { owner, .. } => match owner {
            IndexOwner::Table(t) => Some(t),
            _ => None,
        },
        _ => None,
    }
}

/// The table of a change, checked against the batch's table.
pub open spec fn same_table_check(op: DiffOp, table: QualifiedName, target: QualifiedName) -> Option<
    GenerateFailure,
> {
    if schema::same_name(table, target) {
        None
    } else {
        Some(failure(op, MIXED_TABLES_TARGET@))
    }
}

pub open spec fn owner_check(op: DiffOp, table: QualifiedName, owner: IndexOwner) -> Option<
    GenerateFailure,
> {
    match owner {
        IndexOwner::Table(t) => same_table_check(op, table, t),
        _ => Some(failure(op, TABLE_SCOPED_INDEX_TARGET@)),
    }
}

pub open spec fn checked(check: Option<GenerateFailure>, effect: Result<BatchEffect, GenerateFailure>) -> Result<
    BatchEffect,
    GenerateFailure,
> {
    match check {
        Some(f) => Err(f),
        None => effect,
    }
}

/// What one change of a batch for `table` contributes.
pub open spec fn batch_effect(table: QualifiedName, op: DiffOp) -> Result<BatchEffect, GenerateFailure> {
    let qn = to_sql::qualified_name_sql(table);
    match op {
        DiffOp::AddColumn { table: t, column, position } => checked(
            same_table_check(op, table, t),
            Ok(
                BatchEffect::PrePk(
                    "ALTER TABLE "@ + to_sql::qualified_name_sql(t) + " ADD COLUMN "@
                        + column_definition_sql(column) + position_sql(position) + ";"@,
                ),
            ),
        ),
        DiffOp::DropColumn { table: t, column } => checked(
            same_table_check(op, table, t),
            Ok(
                BatchEffect::PrePk(
                    "ALTER TABLE "@ + to_sql::qualified_name_sql(t) + " DROP COLUMN "@
                        + to_sql::ident_sql(column) + ";"@,
                ),
            ),
        ),
        DiffOp::AlterColumn { table: t, column, changes } => checked(
            same_table_check(op, table, t),
            if changes@.len() == 0 {
                Err(failure(op, EMPTY_ALTER_TARGET@))
            } else {
                Ok(BatchEffect::Alter(column, changes@))
            },
        ),
        DiffOp::RenameColumn { table: t, from, to } => checked(
            same_table_check(op, table, t),
            Ok(
                BatchEffect::PrePk(
                    "ALTER TABLE "@ + to_sql::qualified_name_sql(t) + " RENAME COLUMN "@
                        + to_sql::ident_sql(from) + " TO "@ + to_sql::ident_sql(to) + ";"@,
                ),
            ),
        ),
        DiffOp::AddIndex(index) => checked(
            owner_check(op, table, index.owner),
            match to_sql::index_result(index) {
                Ok(s) => Ok(BatchEffect::PrePk(s)),
                Err(_) => Err(failure(op, to_sql::TO_SQL_TARGET@)),
            },
        ),
        DiffOp::DropIndex { owner, name } => checked(
            owner_check(op, table, owner),
            Ok(BatchEffect::PrePk("DROP INDEX "@ + to_sql::ident_sql(name) + " ON "@ + qn + ";"@)),
        ),
        DiffOp::RenameIndex { owner, from, to } => checked(
            owner_check(op, table, owner),
            Ok(
                BatchEffect::PrePk(
                    "ALTER TABLE "@ + qn + " RENAME INDEX "@ + to_sql::ident_sql(from) + " TO "@
                        + to_sql::ident_sql(to) + ";"@,
                ),
            ),
        ),
        DiffOp::AddForeignKey { table: t, fk } => checked(
            same_table_check(op, table, t),
            if fk.deferrable is Some {
                Err(failure(op, DEFERRABLE_TARGET@))
            } else {
                Ok(
                    BatchEffect::PrePk(
                        "ALTER TABLE "@ + to_sql::qualified_name_sql(t) + " ADD "@
                            + to_sql::foreign_key_sql(fk) + ";"@,
                    ),
                )
            },
        ),
        DiffOp::DropForeignKey { table: t, name } => checked(
            same_table_check(op, table, t),
            Ok(
                BatchEffect::PrePk(
                    "ALTER TABLE "@ + to_sql::qualified_name_sql(t) + " DROP FOREIGN KEY "@
                        + to_sql::ident_sql(name) + ";"@,
                ),
            ),
        ),
        DiffOp::AddCheck { table: t, check } => checked(
            same_table_check(op, table, t),
            if check.no_inherit {
                Err(failure(op, NO_INHERIT_TARGET@))
            } else {
                Ok(
                    BatchEffect::PrePk(
                        "ALTER TABLE "@ + to_sql::qualified_name_sql(t) + " ADD "@
                            + to_sql::check_sql(check) + ";"@,
                    ),
                )
            },
        ),
        DiffOp::DropCheck { table: t, name } => checked(
            same_table_check(op, table, t),
            Ok(
                BatchEffect::PrePk(
                    "ALTER TABLE "@ + to_sql::qualified_name_sql(t) + " DROP CHECK "@
                        + to_sql::ident_sql(name) + ";"@,
                ),
            ),
        ),
        DiffOp::SetPrimaryKey { table: t, pk } => checked(
            same_table_check(op, table, t),
            Ok(
                BatchEffect::Pk(
                    "ALTER TABLE "@ + to_sql::qualified_name_sql(t) + " ADD PRIMARY KEY ("@
                        + to_sql::idents_sql(pk.columns@) + ");"@,
                ),
            ),
        ),
        DiffOp::DropPrimaryKey { table: t } => checked(
            same_table_check(op, table, t),
            Ok(
                BatchEffect::Pk(
                    "ALTER TABLE "@ + to_sql::qualified_name_sql(t) + " DROP PRIMARY KEY;"@,
                ),
            ),
        ),
        DiffOp::AddPartition { table: t, partition } => checked(
            same_table_check(op, table, t),
            Ok(BatchEffect::PrePk(add_partition_sql(t, partition))),
        ),
        DiffOp::DropPartition { table: t, name } => checked(
            same_table_check(op, table, t),
            Ok(
                BatchEffect::PrePk(
                    "ALTER TABLE "@ + to_sql::qualified_name_sql(t) + " DROP PARTITION "@
                        + to_sql::ident_sql(name) + ";"@,
                ),
            ),
        ),
        _ => Err(failure(op, GENERATOR_TARGET@)),
    }
}

/// The error for a change that `target` refuses.
pub fn unsupported_diff_op(dialect_name: &str, op: &DiffOp, target: &str) -> (e: Error)
    ensures
        error::is_unsupported(e, ops::diff_op_tag(*op), target@, dialect_name@),
{
    let tag = text::chars_of(ops::diff_op_name(op));
    error::unsupported(tag.as_slice(), target, dialect_name)
}

pub open spec fn check_holds(r: Result<(), Error>, check: Option<GenerateFailure>, dialect_name: Seq<char>) -> bool {
    match check {
        None => r is Ok,
        Some(f) => r matches Err(e) && error::is_unsupported(e, f.diff_op, f.target, dialect_name),
    }
}

fn ensure_same_table(op: &DiffOp, expected: &QualifiedName, actual: &QualifiedName, dialect_name: &str) -> (r: Result<(), Error>)
    ensures
        check_holds(r, same_table_check(*op, *expected, *actual), dialect_name@),
{
    if schema::names_equal(expected, actual) {
        Ok(())
    } else {
        Err(unsupported_diff_op(dialect_name, op, MIXED_TABLES_TARGET))
    }
}

fn ensure_same_owner_table(op: &DiffOp, expected: &QualifiedName, owner: &IndexOwner, dialect_name: &str) -> (r: Result<(), Error>)
    ensures
        check_holds(r, owner_check(*op, *expected, *owner), dialect_name@),
{
    match owner {
        IndexOwner::Table(actual) => ensure_same_table(op, expected, actual, dialect_name),
        _ => Err(unsupported_diff_op(dialect_name, op, TABLE_SCOPED_INDEX_TARGET)),
    }
}

/// Renders a column definition for `ADD COLUMN`.
pub fn render_column_definition(c: &Column) -> (r: Vec<char>)
    ensures
        r@ == column_definition_sql(*c),
{
    let mut out: Vec<char> = Vec::new();
    to_sql::write_ident(&mut out, &c.name);
    text::append_str(&mut out, " ");
    to_sql::write_data_type(&mut out, &c.data_type);
    to_sql::write_not_null(&mut out, c.not_null);
    to_sql::write_default(&mut out, &c.default);
    let auto = match &c.identity {
        Some(i) => identity_is_auto_increment(i),
        None => false,
    } || to_sql::is_true_value(&c.auto_increment_hint);
    let ghost a = out@;
    if auto {
        text::append_str(&mut out, " AUTO_INCREMENT");
    }
    let ghost b = out@;
    to_sql::write_generated(&mut out, &c.generated);
    to_sql::write_collation(&mut out, &c.collation);
    assert(out@ =~= column_definition_sql(*c));
    out
}

/// `ALTER TABLE ... ADD COLUMN ...`, placed first or after a column when asked.
pub fn render_add_column(table: &QualifiedName, column: &Column, position: &Option<ColumnPosition>) -> (r: Vec<char>)
    ensures
        r@ == "ALTER TABLE "@ + to_sql::qualified_name_sql(*table) + " ADD COLUMN "@
            + column_definition_sql(*column) + position_sql(*position) + ";"@,
{
    let mut out: Vec<char> = Vec::new();
    text::append_str(&mut out, "ALTER TABLE ");
    to_sql::write_qualified_name(&mut out, table);
    text::append_str(&mut out, " ADD COLUMN ");
    let d = render_column_definition(column);
    text::append_chars(&mut out, d.as_slice());
    let ghost a = out@;
    match position {
        Some(ColumnPosition::First) => text::append_str(&mut out, " FIRST"),
        Some(ColumnPosition::After(c)) => {
            text::append_str(&mut out, " AFTER ");
            to_sql::write_ident(&mut out, c);
        },
        None => {},
    }
    assert(out@ =~= a + position_sql(*position));
    text::append_str(&mut out, ";");
    out
}

fn write_bound(out: &mut Vec<char>, bound: &Option<PartitionBound>)
    ensures
        final(out)@ == old(out)@ + bound_sql(*bound),
{
    let ghost start = out@;
    match bound {
        None => {},
        Some(PartitionBound::LessThan(vs)) => {
            text::append_str(out, " VALUES LESS THAN (");
            to_sql::write_list(out, vs);
            text::append_str(out, ")");
        },
        Some(PartitionBound::In(vs)) => {
            text::append_str(out, " VALUES IN (");
            to_sql::write_list(out, vs);
            text::append_str(out, ")");
        },
        Some(PartitionBound::FromTo { from, to }) => {
            text::append_str(out, " VALUES FROM (");
            to_sql::write_list(out, from);
            text::append_str(out, ") TO (");
            to_sql::write_list(out, to);
            text::append_str(out, ")");
        },
        Some(PartitionBound::MaxValue) => text::append_str(out, " VALUES LESS THAN (MAXVALUE)"),
    }
    assert(out@ =~= start + bound_sql(*bound));
}

fn render_partition_element(e: &PartitionElement) -> (r: Vec<char>)
    ensures
        r@ == partition_element_sql(*e),
{
    let mut out: Vec<char> = Vec::new();
    text::append_str(&mut out, "PARTITION ");
    to_sql::write_ident(&mut out, &e.name);
    write_bound(&mut out, &e.bound);
    let ghost a = out@;
    match &e.subpartitions {
        Some(Value::String(s)) => {
            let t = text::trim_str(s.as_str());
            if t.len() > 0 {
                text::append_str(&mut out, " ");
                text::append_chars(&mut out, t.as_slice());
                proof {
                    text::lemma_trim_idempotent(s@);
                }
            }
        },
        _ => {},
    }
    assert(out@ =~= a + subpartitions_sql(e.subpartitions));
    out
}

/// `ALTER TABLE ... PARTITION BY ...` with the partitions listed.
pub fn render_add_partition(table: &QualifiedName, p: &Partition) -> (r: Vec<char>)
    ensures
        r@ == add_partition_sql(*table, *p),
{
    let mut out: Vec<char> = Vec::new();
    text::append_str(&mut out, "ALTER TABLE ");
    to_sql::write_qualified_name(&mut out, table);
    text::append_str(&mut out, " PARTITION BY ");
    match p.strategy {
        PartitionStrategy::Range => text::append_str(&mut out, "RANGE"),
        PartitionStrategy::List => text::append_str(&mut out, "LIST"),
        PartitionStrategy::Hash => text::append_str(&mut out, "HASH"),
        PartitionStrategy::Key => text::append_str(&mut out, "KEY"),
    }
    text::append_str(&mut out, " (");
    to_sql::write_idents(&mut out, &p.columns);
    text::append_str(&mut out, ")");
    let ghost a = out@;
    if p.partitions.len() > 0 {
        let ghost all = p.partitions@.map_values(|e: PartitionElement| partition_element_sql(e));
        let mut parts: Vec<Vec<char>> = Vec::new();
        let mut i: usize = 0;
        assert(text::char_views(parts@) =~= all.take(0));
        while i < p.partitions.len()
            invariant
                i <= p.partitions@.len(),
                all == p.partitions@.map_values(|e: PartitionElement| partition_element_sql(e)),
                text::char_views(parts@) == all.take(i as int),
            decreases p.partitions.len() - i,
        {
            let x = render_partition_element(&p.partitions[i]);
            proof {
                text::lemma_char_views_push(parts@, x);
                assert(all.take(i + 1) =~= all.take(i as int).push(x@));
            }
            parts.push(x);
            i += 1;
        }
        assert(all.take(all.len() as int) =~= all);
        text::append_str(&mut out, " (");
        let joined = text::join_char_vecs(&parts, ", ");
        text::append_chars(&mut out, joined.as_slice());
        text::append_str(&mut out, ")");
    }
    text::append_str(&mut out, ";");
    assert(out@ =~= add_partition_sql(*table, *p));
    out
}

/// Where a change of a table batch goes, with the statement text already rendered.
pub enum BatchEffectExec<'a> {
    PrePk(Vec<char>),
    Pk(Vec<char>),
    Alter(&'a Ident, &'a Vec<ColumnChange>),
}

pub open spec fn effect_matches(e: BatchEffectExec, s: BatchEffect) -> bool {
    match (e, s) {
        (BatchEffectExec::PrePk(v), BatchEffect::PrePk(x)) => v@ == x,
        (BatchEffectExec::Pk(v), BatchEffect::Pk(x)) => v@ == x,
        (BatchEffectExec::Alter(c, ch), BatchEffect::Alter(c2, ch2)) => *c == c2 && ch@ == ch2,
        _ => false,
    }
}

pub open spec fn effect_as(
    r: Result<BatchEffectExec, Error>,
    expected: Result<BatchEffect, GenerateFailure>,
    dialect_name: Seq<char>,
) -> bool {
    match expected {
        Ok(s) => r matches Ok(e) && effect_matches(e, s),
        Err(f) => r matches Err(e) && error::is_unsupported(e, f.diff_op, f.target, dialect_name),
    }
}

fn column_effect<'a>(dialect_name: &str, table: &QualifiedName, op: &'a DiffOp) -> (r: Result<
    BatchEffectExec<'a>,
    Error,
>)
    requires
        op is AddColumn || op is DropColumn || op is AlterColumn || op is RenameColumn,
    ensures
        effect_as(r, batch_effect(*table, *op), dialect_name@),
{
    let mut sql: Vec<char> = Vec::new();
    match op {
        DiffOp::AddColumn { table: t, column, position } => {
            match ensure_same_table(op, table, t, dialect_name) {
                Ok(()) => {},
                Err(e) => return Err(e),
            }
            sql = render_add_column(t, column, position);
        },
        DiffOp::DropColumn { table: t, column } => {
            match ensure_same_table(op, table, t, dialect_name) {
                Ok(()) => {},
                Err(e) => return Err(e),
            }
            text::append_str(&mut sql, "ALTER TABLE ");
            to_sql::write_qualified_name(&mut sql, t);
            text::append_str(&mut sql, " DROP COLUMN ");
            to_sql::write_ident(&mut sql, column);
            text::append_str(&mut sql, ";");
        },
        DiffOp::AlterColumn { table: t, column, changes } => {
            match ensure_same_table(op, table, t, dialect_name) {
                Ok(()) => {},
                Err(e) => return Err(e),
            }
            if changes.len() == 0 {
                return Err(unsupported_diff_op(dialect_name, op, EMPTY_ALTER_TARGET));
            }
            return Ok(BatchEffectExec::Alter(column, changes));
        },
        DiffOp::RenameColumn { table: t, from, to } => {
            match ensure_same_table(op, table, t, dialect_name) {
                Ok(()) => {},
                Err(e) => return Err(e),
            }
            text::append_str(&mut sql, "ALTER TABLE ");
            to_sql::write_qualified_name(&mut sql, t);
            text::append_str(&mut sql, " RENAME COLUMN ");
            to_sql::write_ident(&mut sql, from);
            text::append_str(&mut sql, " TO ");
            to_sql::write_ident(&mut sql, to);
            text::append_str(&mut sql, ";");
        },
        _ => {},
    }
    proof {
        let expected = batch_effect(*table, *op)->Ok_0->PrePk_0;
        assert(sql@ =~= expected);
    }
    Ok(BatchEffectExec::PrePk(sql))
}

fn index_effect<'a>(dialect_name: &str, table: &QualifiedName, op: &'a DiffOp) -> (r: Result<
    BatchEffectExec<'a>,
    Error,
>)
    requires
        op is AddIndex || op is DropIndex || op is RenameIndex,
    ensures
        effect_as(r, batch_effect(*table, *op), dialect_name@),
{
    let mut sql: Vec<char> = Vec::new();
    match op {
        DiffOp::AddIndex(index) => {
            match ensure_same_owner_table(op, table, &index.owner, dialect_name) {
                Ok(()) => {},
                Err(e) => return Err(e),
            }
            match to_sql::render_index(dialect_name, index) {
                Ok(s) => {
                    sql = text::chars_of(s.as_str());
                },
                Err(_) => return Err(unsupported_diff_op(dialect_name, op, to_sql::TO_SQL_TARGET)),
            }
        },
        DiffOp::DropIndex { owner, name } => {
            match ensure_same_owner_table(op, table, owner, dialect_name) {
                Ok(()) => {},
                Err(e) => return Err(e),
            }
            text::append_str(&mut sql, "DROP INDEX ");
            to_sql::write_ident(&mut sql, name);
            text::append_str(&mut sql, " ON ");
            to_sql::write_qualified_name(&mut sql, table);
            text::append_str(&mut sql, ";");
        },
        DiffOp::RenameIndex { owner, from, to } => {
            match ensure_same_owner_table(op, table, owner, dialect_name) {
                Ok(()) => {},
                Err(e) => return Err(e),
            }
            text::append_str(&mut sql, "ALTER TABLE ");
            to_sql::write_qualified_name(&mut sql, table);
            text::append_str(&mut sql, " RENAME INDEX ");
            to_sql::write_ident(&mut sql, from);
            text::append_str(&mut sql, " TO ");
            to_sql::write_ident(&mut sql, to);
            text::append_str(&mut sql, ";");
        },
        _ => {},
    }
    proof {
        let expected = batch_effect(*table, *op)->Ok_0->PrePk_0;
        assert(sql@ =~= expected);
    }
    Ok(BatchEffectExec::PrePk(sql))
}

fn constraint_effect<'a>(dialect_name: &str, table: &QualifiedName, op: &'a DiffOp) -> (r: Result<
    BatchEffectExec<'a>,
    Error,
>)
    requires
        op is AddForeignKey || op is DropForeignKey || op is AddCheck || op is DropCheck,
    ensures
        effect_as(r, batch_effect(*table, *op), dialect_name@),
{
    let mut sql: Vec<char> = Vec::new();
    match op {
        DiffOp::AddForeignKey { table: t, fk } => {
            match ensure_same_table(op, table, t, dialect_name) {
                Ok(()) => {},
                Err(e) => return Err(e),
            }
            if fk.deferrable.is_some() {
                return Err(unsupported_diff_op(dialect_name, op, DEFERRABLE_TARGET));
            }
            text::append_str(&mut sql, "ALTER TABLE ");
            to_sql::write_qualified_name(&mut sql, t);
            text::append_str(&mut sql, " ADD ");
            to_sql::write_constraint_name(&mut sql, &fk.name);
            to_sql::write_foreign_key_clause(&mut sql, fk);
            text::append_str(&mut sql, ";");
            assert(sql@ =~= "ALTER TABLE "@ + to_sql::qualified_name_sql(*t) + " ADD "@
                + to_sql::foreign_key_sql(*fk) + ";"@);
        },
        DiffOp::DropForeignKey { table: t, name } => {
            match ensure_same_table(op, table, t, dialect_name) {
                Ok(()) => {},
                Err(e) => return Err(e),
            }
            text::append_str(&mut sql, "ALTER TABLE ");
            to_sql::write_qualified_name(&mut sql, t);
            text::append_str(&mut sql, " DROP FOREIGN KEY ");
            to_sql::write_ident(&mut sql, name);
            text::append_str(&mut sql, ";");
        },
        DiffOp::AddCheck { table: t, check } => {
            match ensure_same_table(op, table, t, dialect_name) {
                Ok(()) => {},
                Err(e) => return Err(e),
            }
            if check.no_inherit {
                return Err(unsupported_diff_op(dialect_name, op, NO_INHERIT_TARGET));
            }
            text::append_str(&mut sql, "ALTER TABLE ");
            to_sql::write_qualified_name(&mut sql, t);
            text::append_str(&mut sql, " ADD ");
            to_sql::write_constraint_name(&mut sql, &check.name);
            text::append_str(&mut sql, "CHECK (");
            to_sql::write_expr(&mut sql, &check.expr);
            text::append_str(&mut sql, ")");
            text::append_str(&mut sql, ";");
            assert(sql@ =~= "ALTER TABLE "@ + to_sql::qualified_name_sql(*t) + " ADD "@
                + to_sql::check_sql(*check) + ";"@);
        },
        DiffOp::DropCheck { table: t, name } => {
            match ensure_same_table(op, table, t, dialect_name) {
                Ok(()) => {},
                Err(e) => return Err(e),
            }
            text::append_str(&mut sql, "ALTER TABLE ");
            to_sql::write_qualified_name(&mut sql, t);
            text::append_str(&mut sql, " DROP CHECK ");
            to_sql::write_ident(&mut sql, name);
            text::append_str(&mut sql, ";");
        },
        _ => {},
    }
    proof {
        let expected = batch_effect(*table, *op)->Ok_0->PrePk_0;
        assert(sql@ =~= expected);
    }
    Ok(BatchEffectExec::PrePk(sql))
}

fn key_and_partition_effect<'a>(dialect_name: &str, table: &QualifiedName, op: &'a DiffOp) -> (r: Result<
    BatchEffectExec<'a>,
    Error,
>)
    requires
        op is SetPrimaryKey || op is DropPrimaryKey || op is AddPartition || op is DropPartition,
    ensures
        effect_as(r, batch_effect(*table, *op), dialect_name@),
{
    let mut sql: Vec<char> = Vec::new();
    match op {
        DiffOp::SetPrimaryKey { table: t, pk } => {
            match ensure_same_table(op, table, t, dialect_name) {
                Ok(()) => {},
                Err(e) => return Err(e),
            }
            text::append_str(&mut sql, "ALTER TABLE ");
            to_sql::write_qualified_name(&mut sql, t);
            text::append_str(&mut sql, " ADD PRIMARY KEY (");
            to_sql::write_idents(&mut sql, &pk.columns);
            text::append_str(&mut sql, ");");
            proof {
                let expected = batch_effect(*table, *op)->Ok_0->Pk_0;
                assert(sql@ =~= expected);
            }
            return Ok(BatchEffectExec::Pk(sql));
        },
        DiffOp::DropPrimaryKey { table: t } => {
            match ensure_same_table(op, table, t, dialect_name) {
                Ok(()) => {},
                Err(e) => return Err(e),
            }
            text::append_str(&mut sql, "ALTER TABLE ");
            to_sql::write_qualified_name(&mut sql, t);
            text::append_str(&mut sql, " DROP PRIMARY KEY;");
            proof {
                let expected = batch_effect(*table, *op)->Ok_0->Pk_0;
                assert(sql@ =~= expected);
            }
            return Ok(BatchEffectExec::Pk(sql));
        },
        DiffOp::AddPartition { table: t, partition } => {
            match ensure_same_table(op, table, t, dialect_name) {
                Ok(()) => {},
                Err(e) => return Err(e),
            }
            sql = render_add_partition(t, partition);
        },
        DiffOp::DropPartition { table: t, name } => {
            match ensure_same_table(op, table, t, dialect_name) {
                Ok(()) => {},
                Err(e) => return Err(e),
            }
            text::append_str(&mut sql, "ALTER TABLE ");
            to_sql::write_qualified_name(&mut sql, t);
            text::append_str(&mut sql, " DROP PARTITION ");
            to_sql::write_ident(&mut sql, name);
            text::append_str(&mut sql, ";");
        },
        _ => {},
    }
    proof {
        let expected = batch_effect(*table, *op)->Ok_0->PrePk_0;
        assert(sql@ =~= expected);
    }
    Ok(BatchEffectExec::PrePk(sql))
}

/// What one change of a table batch contributes.
pub fn batch_op_effect<'a>(dialect_name: &str, table: &QualifiedName, op: &'a DiffOp) -> (r: Result<
    BatchEffectExec<'a>,
    Error,
>)
    ensures
        effect_as(r, batch_effect(*table, *op), dialect_name@),
{
    match op {
        DiffOp::AddColumn { .. } | DiffOp::DropColumn { .. } | DiffOp::AlterColumn { .. }
        | DiffOp::RenameColumn { .. } => column_effect(dialect_name, table, op),
        DiffOp::AddIndex(_) | DiffOp::DropIndex { .. } | DiffOp::RenameIndex { .. } => index_effect(
            dialect_name,
            table,
            op,
        ),
        DiffOp::AddForeignKey { .. } | DiffOp::DropForeignKey { .. } | DiffOp::AddCheck { .. }
        | DiffOp::DropCheck { .. } => constraint_effect(dialect_name, table, op),
        DiffOp::SetPrimaryKey { .. } | DiffOp::DropPrimaryKey { .. } | DiffOp::AddPartition { .. }
        | DiffOp::DropPartition { .. } => key_and_partition_effect(dialect_name, table, op),
        _ => Err(unsupported_diff_op(dialect_name, op, GENERATOR_TARGET)),
    }
}

/// The changes to one column of a batch, merged; each part is set when a change set it.
pub struct MergedChange {
    pub column: Ident,
    pub data_type: Option<DataType>,
    pub not_null: Option<bool>,
    pub default: Option<Option<Expr>>,
    pub identity: Option<Option<Identity>>,
    pub generated: Option<Option<GeneratedColumn>>,
    pub collation: Option<Option<String>>,
}

pub open spec fn fresh_merged(column: Ident) -> MergedChange {
    MergedChange {
        column,
        data_type: None,
        not_null: None,
        default: None,
        identity: None,
        generated: None,
        collation: None,
    }
}

pub open spec fn merged_apply(m: MergedChange, change: ColumnChange) -> MergedChange {
    match change {
        ColumnChange::SetType(d) => MergedChange { data_type: Some(d), ..m },
        ColumnChange::SetNotNull(b) => MergedChange { not_null: Some(b), ..m },
        ColumnChange::SetDefault(d) => MergedChange { default: Some(d), ..m },
        ColumnChange::SetIdentity(i) => MergedChange { identity: Some(i), ..m },
        ColumnChange::SetGenerated(g) => MergedChange { generated: Some(g), ..m },
        ColumnChange::SetCollation(c) => MergedChange { collation: Some(c), ..m },
    }
}

pub open spec fn merged_apply_all(m: MergedChange, changes: Seq<ColumnChange>) -> MergedChange
    decreases changes.len(),
{
    if changes.len() == 0 {
        m
    } else {
        merged_apply(merged_apply_all(m, changes.drop_last()), changes.last())
    }
}

/// The first merged entry for the given column.
pub open spec fn find_merged(ms: Seq<MergedChange>, name: Ident) -> Option<int>
    decreases ms.len(),
{
    if ms.len() == 0 {
        None
    } else {
        match find_merged(ms.drop_last(), name) {
            Some(k) => Some(k),
            None => if schema::same_ident(ms.last().column, name) {
                Some(ms.len() - 1)
            } else {
                None
            },
        }
    }
}

pub open spec fn alter_merged(ms: Seq<MergedChange>, name: Ident, changes: Seq<ColumnChange>) -> Seq<
    MergedChange,
> {
    match find_merged(ms, name) {
        Some(k) => ms.update(k, merged_apply_all(ms[k], changes)),
        None => ms.push(merged_apply_all(fresh_merged(name), changes)),
    }
}

/// No two merged changes are for the same column.
pub open spec fn one_per_column(ms: Seq<MergedChange>) -> bool {
    forall|i: int, j: int|
        0 <= i < j < ms.len() ==> !schema::same_ident(#[trigger] ms[i].column, #[trigger] ms[j].column)
}

proof fn lemma_find_merged(ms: Seq<MergedChange>, name: Ident)
    ensures
        match find_merged(ms, name) {
            Some(k) => 0 <= k < ms.len() && schema::same_ident(ms[k].column, name),
            None => forall|i: int| 0 <= i < ms.len() ==> !schema::same_ident(#[trigger] ms[i].column, name),
        },
    decreases ms.len(),
{
    if ms.len() > 0 {
        let init = ms.drop_last();
        lemma_find_merged(init, name);
        if find_merged(ms, name) is None {
            assert forall|i: int| 0 <= i < ms.len() implies !schema::same_ident(
                #[trigger] ms[i].column,
                name,
            ) by {
                if i < init.len() {
                    assert(ms[i] == init[i]);
                }
            }
        }
    }
}

proof fn lemma_apply_all_keeps_column(m: MergedChange, changes: Seq<ColumnChange>)
    ensures
        merged_apply_all(m, changes).column == m.column,
    decreases changes.len(),
{
    if changes.len() > 0 {
        lemma_apply_all_keeps_column(m, changes.drop_last());
    }
}

proof fn lemma_alter_keeps_one_per_column(ms: Seq<MergedChange>, name: Ident, changes: Seq<ColumnChange>)
    requires
        one_per_column(ms),
    ensures
        one_per_column(alter_merged(ms, name, changes)),
{
    lemma_find_merged(ms, name);
    match find_merged(ms, name) {
        Some(k) => {
            lemma_apply_all_keeps_column(ms[k], changes);
            let r = alter_merged(ms, name, changes);
            assert forall|i: int, j: int| 0 <= i < j < r.len() implies !schema::same_ident(
                #[trigger] r[i].column,
                #[trigger] r[j].column,
            ) by {
                assert(r[i].column == ms[i].column);
                assert(r[j].column == ms[j].column);
            }
        },
        None => {
            lemma_apply_all_keeps_column(fresh_merged(name), changes);
            let r = alter_merged(ms, name, changes);
            assert forall|i: int, j: int| 0 <= i < j < r.len() implies !schema::same_ident(
                #[trigger] r[i].column,
                #[trigger] r[j].column,
            ) by {
                assert(r[i] == ms[i]);
                if j < ms.len() {
                    assert(r[j] == ms[j]);
                } else {
                    assert(r[j].column == name);
                }
            }
        },
    }
}

/// A batch of changes to one table gathers at most one merged change per column, so each
/// column gets at most one `CHANGE COLUMN` statement however many changes name it.
pub proof fn law_one_change_column_per_column(table: QualifiedName, ops: Seq<DiffOp>)
    ensures
        batch_fold(table, ops) matches Ok(st) ==> one_per_column(st.merged),
    decreases ops.len(),
{
    if ops.len() > 0 {
        law_one_change_column_per_column(table, ops.drop_last());
        match batch_fold(table, ops.drop_last()) {
            Ok(st) => match batch_effect(table, ops.last()) {
                Ok(BatchEffect::Alter(c, ch)) => lemma_alter_keeps_one_per_column(st.merged, c, ch),
                _ => {},
            },
            Err(_) => {},
        }
    }
}

/// The merged change makes the column `AUTO_INCREMENT`.
pub open spec fn has_auto_increment_change(m: MergedChange) -> bool {
    m.identity matches Some(Some(i)) && is_auto_increment(i)
}

pub open spec fn change_not_null_sql(not_null: Option<bool>) -> Seq<char> {
    match not_null {
        Some(true) => " NOT NULL"@,
        Some(false) => " NULL"@,
        None => Seq::empty(),
    }
}

pub open spec fn change_default_sql(default: Option<Option<Expr>>) -> Seq<char> {
    match default {
        Some(Some(e)) => " DEFAULT "@ + to_sql::expr_sql(e),
        Some(None) => " DEFAULT NULL"@,
        None => Seq::empty(),
    }
}

pub open spec fn change_generated_sql(generated: Option<Option<GeneratedColumn>>) -> Seq<char> {
    match generated {
        Some(Some(g)) => to_sql::generated_sql(Some(g)),
        _ => Seq::empty(),
    }
}

pub open spec fn change_collation_sql(collation: Option<Option<String>>) -> Seq<char> {
    match collation {
        Some(Some(k)) => " COLLATE "@ + text::trim(k@),
        _ => Seq::empty(),
    }
}

/// `ALTER TABLE ... CHANGE COLUMN` for a merged change; a change without a new type
/// cannot be written this way.
pub open spec fn change_column_sql(table: QualifiedName, m: MergedChange) -> Option<Seq<char>> {
    match m.data_type {
        None => None,
        Some(d) => Some(
            "ALTER TABLE "@ + to_sql::qualified_name_sql(table) + " CHANGE COLUMN "@
                + to_sql::ident_sql(m.column) + " "@ + to_sql::ident_sql(m.column) + " "@
                + to_sql::data_type_sql(d) + change_not_null_sql(m.not_null) + change_default_sql(
                m.default,
            ) + (if has_auto_increment_change(m) {
                " AUTO_INCREMENT"@
            } else {
                Seq::empty()
            }) + change_generated_sql(m.generated) + change_collation_sql(m.collation) + ";"@,
        ),
    }
}

pub open spec fn change_column_failure() -> GenerateFailure {
    GenerateFailure { diff_op: "AlterColumn"@, target: CHANGE_COLUMN_TARGET@ }
}

/// What a batch has gathered so far.
pub struct BatchState {
    pub pre_pk: Seq<Seq<char>>,
    pub pk: Seq<Seq<char>>,
    pub merged: Seq<MergedChange>,
}

pub open spec fn batch_step(table: QualifiedName, st: BatchState, op: DiffOp) -> Result<
    BatchState,
    GenerateFailure,
> {
    match batch_effect(table, op) {
        Err(f) => Err(f),
        Ok(BatchEffect::PrePk(s)) => Ok(BatchState { pre_pk: st.pre_pk.push(s), ..st }),
        Ok(BatchEffect::Pk(s)) => Ok(BatchState { pk: st.pk.push(s), ..st }),
        Ok(BatchEffect::Alter(c, ch)) => Ok(
            BatchState { merged: alter_merged(st.merged, c, ch), ..st },
        ),
    }
}

pub open spec fn batch_fold(table: QualifiedName, ops: Seq<DiffOp>) -> Result<BatchState, GenerateFailure>
    decreases ops.len(),
{
    if ops.len() == 0 {
        Ok(BatchState { pre_pk: Seq::empty(), pk: Seq::empty(), merged: Seq::empty() })
    } else {
        match batch_fold(table, ops.drop_last()) {
            Err(f) => Err(f),
            Ok(st) => batch_step(table, st, ops.last()),
        }
    }
}

/// The `CHANGE COLUMN` statements, split into those that do not and those that do make a
/// column `AUTO_INCREMENT`, each in the order the columns were first changed.
pub open spec fn split_changes(table: QualifiedName, ms: Seq<MergedChange>) -> Result<
    (Seq<Seq<char>>, Seq<Seq<char>>),
    GenerateFailure,
>
    decreases ms.len(),
{
    if ms.len() == 0 {
        Ok((Seq::empty(), Seq::empty()))
    } else {
        match split_changes(table, ms.drop_last()) {
            Err(f) => Err(f),
            Ok((regular, auto)) => match change_column_sql(table, ms.last()) {
                None => Err(change_column_failure()),
                Some(s) => if has_auto_increment_change(ms.last()) {
                    Ok((regular, auto.push(s)))
                } else {
                    Ok((regular.push(s), auto))
                },
            },
        }
    }
}

/// The statements for a batch of changes to one table: other changes first, then column
/// changes, then primary key changes, then column changes that add `AUTO_INCREMENT`
/// (which needs the key in place).
pub open spec fn batch_result(table: QualifiedName, ops: Seq<DiffOp>) -> Result<
    Seq<Seq<char>>,
    GenerateFailure,
> {
    match batch_fold(table, ops) {
        Err(f) => Err(f),
        Ok(st) => match split_changes(table, st.merged) {
            Err(f) => Err(f),
            Ok((regular, auto)) => Ok(st.pre_pk + regular + st.pk + auto),
        },
    }
}

/// The statements of the changes among `ops` that run before any primary key change,
/// in the order of the changes.
pub open spec fn pre_pk_statements(table: QualifiedName, ops: Seq<DiffOp>) -> Seq<Seq<char>>
    decreases ops.len(),
{
    if ops.len() == 0 {
        Seq::empty()
    } else {
        let prev = pre_pk_statements(table, ops.drop_last());
        match batch_effect(table, ops.last()) {
            Ok(BatchEffect::PrePk(s)) => prev.push(s),
            _ => prev,
        }
    }
}

/// The statements of the primary key changes among `ops`, in the order of the changes.
pub open spec fn pk_statements(table: QualifiedName, ops: Seq<DiffOp>) -> Seq<Seq<char>>
    decreases ops.len(),
{
    if ops.len() == 0 {
        Seq::empty()
    } else {
        let prev = pk_statements(table, ops.drop_last());
        match batch_effect(table, ops.last()) {
            Ok(BatchEffect::Pk(s)) => prev.push(s),
            _ => prev,
        }
    }
}

proof fn lemma_batch_fold_parts(table: QualifiedName, ops: Seq<DiffOp>)
    ensures
        batch_fold(table, ops) matches Ok(st) ==> st.pre_pk == pre_pk_statements(table, ops)
            && st.pk == pk_statements(table, ops),
    decreases ops.len(),
{
    if ops.len() > 0 {
        lemma_batch_fold_parts(table, ops.drop_last());
    }
}

/// The order of a batch: the statements of the other changes in the order of the
/// changes, then one `CHANGE COLUMN` per changed column (in the order the columns were
/// first changed) that does not add `AUTO_INCREMENT`, then the primary key statements in
/// the order of the changes, then the `CHANGE COLUMN`s that add `AUTO_INCREMENT`.
pub proof fn law_batch_order(table: QualifiedName, ops: Seq<DiffOp>)
    requires
        batch_result(table, ops) is Ok,
    ensures
        batch_fold(table, ops) matches Ok(st) && split_changes(table, st.merged) matches Ok(
            (regular, auto),
        ) && batch_result(table, ops) == Ok::<Seq<Seq<char>>, GenerateFailure>(
            pre_pk_statements(table, ops) + regular + pk_statements(table, ops) + auto,
        ),
{
    lemma_batch_fold_parts(table, ops);
}

/// The changes to one column of a batch as they are collected, borrowing from the changes.
#[derive(Clone, Copy)]
pub struct MergedColumnChange<'a> {
    pub column: &'a Ident,
    pub data_type: Option<&'a DataType>,
    pub not_null: Option<bool>,
    pub default: Option<&'a Option<Expr>>,
    pub identity: Option<&'a Option<Identity>>,
    pub generated: Option<&'a Option<GeneratedColumn>>,
    pub collation: Option<&'a Option<String>>,
}

pub open spec fn merged_view(m: MergedColumnChange) -> MergedChange {
    MergedChange {
        column: *m.column,
        data_type: match m.data_type {
            Some(d) => Some(*d),
            None => None,
        },
        not_null: m.not_null,
        default: match m.default {
            Some(d) => Some(*d),
            None => None,
        },
        identity: match m.identity {
            Some(i) => Some(*i),
            None => None,
        },
        generated: match m.generated {
            Some(g) => Some(*g),
            None => None,
        },
        collation: match m.collation {
            Some(c) => Some(*c),
            None => None,
        },
    }
}

pub open spec fn merged_views(ms: Seq<MergedColumnChange>) -> Seq<MergedChange> {
    ms.map_values(|m: MergedColumnChange| merged_view(m))
}

proof fn lemma_find_merged_push(ms: Seq<MergedChange>, m: MergedChange, name: Ident)
    ensures
        find_merged(ms.push(m), name) == match find_merged(ms, name) {
            Some(k) => Some(k),
            None => if schema::same_ident(m.column, name) {
                Some(ms.len() as int)
            } else {
                None
            },
        },
{
    assert(ms.push(m).drop_last() =~= ms);
}

proof fn lemma_find_merged_bounds(ms: Seq<MergedChange>, name: Ident)
    ensures
        find_merged(ms, name) matches Some(k) ==> 0 <= k < ms.len(),
    decreases ms.len(),
{
    if ms.len() > 0 {
        lemma_find_merged_bounds(ms.drop_last(), name);
    }
}

proof fn lemma_find_merged_prefix(ms: Seq<MergedChange>, i: int, name: Ident)
    requires
        0 <= i <= ms.len(),
        find_merged(ms.take(i), name) is Some,
    ensures
        find_merged(ms, name) == find_merged(ms.take(i), name),
    decreases ms.len(),
{
    if i == ms.len() {
        assert(ms.take(i) =~= ms);
    } else {
        assert(ms.drop_last().take(i) =~= ms.take(i));
        lemma_find_merged_prefix(ms.drop_last(), i, name);
    }
}

/// The index of the merged entry for `column`, added when there is none yet.
fn upsert_column_change<'a>(changes: &mut Vec<MergedColumnChange<'a>>, column: &'a Ident) -> (k: usize)
    ensures
        k < final(changes)@.len(),
        merged_views(final(changes)@) == match find_merged(merged_views(old(changes)@), *column) {
            Some(j) => merged_views(old(changes)@),
            None => merged_views(old(changes)@).push(fresh_merged(*column)),
        },
        find_merged(merged_views(old(changes)@), *column) matches Some(j) ==> k == j,
        find_merged(merged_views(old(changes)@), *column) is None ==> k == old(changes)@.len(),
{
    let ghost views = merged_views(changes@);
    let mut i: usize = 0;
    while i < changes.len()
        invariant
            i <= changes@.len(),
            views == merged_views(changes@),
            changes@ == old(changes)@,
            find_merged(views.take(i as int), *column) is None,
        decreases changes.len() - i,
    {
        proof {
            lemma_find_merged_push(views.take(i as int), views[i as int], *column);
            assert(views.take(i + 1) =~= views.take(i as int).push(views[i as int]));
        }
        if schema::idents_equal(changes[i].column, column) {
            proof {
                lemma_find_merged_prefix(views, i as int + 1, *column);
            }
            return i;
        }
        i += 1;
    }
    assert(views.take(views.len() as int) =~= views);
    changes.push(
        MergedColumnChange {
            column,
            data_type: None,
            not_null: None,
            default: None,
            identity: None,
            generated: None,
            collation: None,
        },
    );
    proof {
        assert(merged_views(changes@) =~= views.push(fresh_merged(*column)));
    }
    changes.len() - 1
}

/// Applies the changes of one `AlterColumn` to the merged entry at `k`.
fn apply_column_changes<'a>(
    merged: &mut Vec<MergedColumnChange<'a>>,
    k: usize,
    changes: &'a Vec<ColumnChange>,
)
    requires
        k < old(merged)@.len(),
    ensures
        merged_views(final(merged)@) == merged_views(old(merged)@).update(
            k as int,
            merged_apply_all(merged_views(old(merged)@)[k as int], changes@),
        ),
{
    let ghost before = merged_views(merged@);
    let ghost base = before[k as int];
    let mut j: usize = 0;
    assert(before.update(k as int, merged_apply_all(base, changes@.take(0))) =~= before);
    while j < changes.len()
        invariant
            k < merged@.len(),
            merged@.len() == before.len(),
            j <= changes@.len(),
            merged_views(merged@) == before.update(
                k as int,
                merged_apply_all(base, changes@.take(j as int)),
            ),
        decreases changes.len() - j,
    {
        let ghost prev = merged@;
        proof {
            assert(merged_views(prev)[k as int] == before.update(
                k as int,
                merged_apply_all(base, changes@.take(j as int)),
            )[k as int]);
        }
        let mut m = merged[k];
        match &changes[j] {
            ColumnChange::SetType(d) => {
                m.data_type = Some(d);
            },
            ColumnChange::SetNotNull(b) => {
                m.not_null = Some(*b);
            },
            ColumnChange::SetDefault(d) => {
                m.default = Some(d);
            },
            ColumnChange::SetIdentity(i) => {
                m.identity = Some(i);
            },
            ColumnChange::SetGenerated(g) => {
                m.generated = Some(g);
            },
            ColumnChange::SetCollation(c) => {
                m.collation = Some(c);
            },
        }
        merged.set(k, m);
        proof {
            assert(changes@.take(j + 1).drop_last() =~= changes@.take(j as int));
            assert(merged_view(m) == merged_apply(merged_view(prev[k as int]), changes@[j as int]));
            assert(merged_views(merged@) =~= merged_views(prev).update(k as int, merged_view(m)));
            assert(merged_views(merged@) =~= before.update(
                k as int,
                merged_apply_all(base, changes@.take(j + 1)),
            ));
        }
        j += 1;
    }
    assert(changes@.take(changes@.len() as int) =~= changes@);
}

pub fn has_auto_increment_change_exec(m: &MergedColumnChange) -> (b: bool)
    ensures
        b == has_auto_increment_change(merged_view(*m)),
{
    match m.identity {
        Some(Some(i)) => identity_is_auto_increment(i),
        _ => false,
    }
}

fn write_change_not_null(out: &mut Vec<char>, not_null: Option<bool>)
    ensures
        final(out)@ == old(out)@ + change_not_null_sql(not_null),
{
    match not_null {
        Some(true) => text::append_str(out, " NOT NULL"),
        Some(false) => text::append_str(out, " NULL"),
        None => {
            assert(old(out)@ + change_not_null_sql(not_null) =~= old(out)@);
        },
    }
}

fn write_change_default(out: &mut Vec<char>, m: &MergedColumnChange)
    ensures
        final(out)@ == old(out)@ + change_default_sql(merged_view(*m).default),
{
    match m.default {
        Some(Some(e)) => {
            text::append_str(out, " DEFAULT ");
            to_sql::write_expr(out, e);
            assert(out@ =~= old(out)@ + change_default_sql(merged_view(*m).default));
        },
        Some(None) => text::append_str(out, " DEFAULT NULL"),
        None => {
            assert(old(out)@ + change_default_sql(merged_view(*m).default) =~= old(out)@);
        },
    }
}

fn write_change_auto_increment(out: &mut Vec<char>, m: &MergedColumnChange)
    ensures
        final(out)@ == old(out)@ + (if has_auto_increment_change(merged_view(*m)) {
            " AUTO_INCREMENT"@
        } else {
            Seq::empty()
        }),
{
    if has_auto_increment_change_exec(m) {
        text::append_str(out, " AUTO_INCREMENT");
    } else {
        assert(old(out)@ + Seq::<char>::empty() =~= old(out)@);
    }
}

fn write_change_generated(out: &mut Vec<char>, m: &MergedColumnChange)
    ensures
        final(out)@ == old(out)@ + change_generated_sql(merged_view(*m).generated),
{
    match m.generated {
        Some(g) => match g {
            Some(_) => to_sql::write_generated(out, g),
            None => {
                assert(old(out)@ + change_generated_sql(merged_view(*m).generated) =~= old(out)@);
            },
        },
        None => {
            assert(old(out)@ + change_generated_sql(merged_view(*m).generated) =~= old(out)@);
        },
    }
}

fn write_change_collation(out: &mut Vec<char>, m: &MergedColumnChange)
    ensures
        final(out)@ == old(out)@ + change_collation_sql(merged_view(*m).collation),
{
    match m.collation {
        Some(Some(k)) => {
            text::append_str(out, " COLLATE ");
            let t = text::trim_str(k.as_str());
            text::append_chars(out, t.as_slice());
            assert(out@ =~= old(out)@ + change_collation_sql(merged_view(*m).collation));
        },
        _ => {
            assert(old(out)@ + change_collation_sql(merged_view(*m).collation) =~= old(out)@);
        },
    }
}

/// Renders the `CHANGE COLUMN` statement for a merged change.
pub fn render_change_column(m: &MergedColumnChange, table: &QualifiedName, dialect_name: &str) -> (r:
    Result<Vec<char>, Error>)
    ensures
        match change_column_sql(*table, merged_view(*m)) {
            Some(s) => r matches Ok(v) && v@ == s,
            None => r matches Err(e) && error::is_unsupported(
                e,
                change_column_failure().diff_op,
                change_column_failure().target,
                dialect_name@,
            ),
        },
{
    let data_type = match m.data_type {
        Some(d) => d,
        None => {
            let op = text::chars_of("AlterColumn");
            return Err(error::unsupported(op.as_slice(), CHANGE_COLUMN_TARGET, dialect_name));
        },
    };
    let mut out: Vec<char> = Vec::new();
    text::append_str(&mut out, "ALTER TABLE ");
    to_sql::write_qualified_name(&mut out, table);
    text::append_str(&mut out, " CHANGE COLUMN ");
    to_sql::write_ident(&mut out, m.column);
    text::append_str(&mut out, " ");
    to_sql::write_ident(&mut out, m.column);
    text::append_str(&mut out, " ");
    to_sql::write_data_type(&mut out, data_type);
    write_change_not_null(&mut out, m.not_null);
    write_change_default(&mut out, m);
    write_change_auto_increment(&mut out, m);
    write_change_generated(&mut out, m);
    write_change_collation(&mut out, m);
    text::append_str(&mut out, ";");
    assert(out@ =~= change_column_sql(*table, merged_view(*m))->Some_0);
    Ok(out)
}

/// The statement for a text: trimmed, terminated, transactional.
pub fn sql_statement(sql: &Vec<char>) -> (s: Statement)
    ensures
        statement_matches(s, sql@),
{
    let s = text::string_of(sql.as_slice());
    Statement::Sql { sql: common::ensure_sql_terminated(s.as_str()), transactional: true, context: None }
}

proof fn lemma_batch_fold_error_prefix(table: QualifiedName, ops: Seq<DiffOp>, i: int)
    requires
        0 <= i <= ops.len(),
        batch_fold(table, ops.take(i)) is Err,
    ensures
        batch_fold(table, ops) == batch_fold(table, ops.take(i)),
    decreases ops.len(),
{
    if i == ops.len() {
        assert(ops.take(i) =~= ops);
    } else {
        assert(ops.drop_last().take(i) =~= ops.take(i));
        lemma_batch_fold_error_prefix(table, ops.drop_last(), i);
    }
}

proof fn lemma_split_error_prefix(table: QualifiedName, ms: Seq<MergedChange>, i: int)
    requires
        0 <= i <= ms.len(),
        split_changes(table, ms.take(i)) is Err,
    ensures
        split_changes(table, ms) == split_changes(table, ms.take(i)),
    decreases ms.len(),
{
    if i == ms.len() {
        assert(ms.take(i) =~= ms);
    } else {
        assert(ms.drop_last().take(i) =~= ms.take(i));
        lemma_split_error_prefix(table, ms.drop_last(), i);
    }
}

proof fn lemma_statements_push(s: Seq<Statement>, p: Seq<Seq<char>>, x: Statement, y: Seq<char>)
    requires
        statements_match(s, p),
        statement_matches(x, y),
    ensures
        statements_match(s.push(x), p.push(y)),
{
    assert forall|i: int| 0 <= i < s.push(x).len() implies statement_matches(
        #[trigger] s.push(x)[i],
        p.push(y)[i],
    ) by {
        if i < s.len() {
            assert(statement_matches(s[i], p[i]));
        }
    }
}

proof fn lemma_statements_append(s: Seq<Statement>, p: Seq<Seq<char>>, s2: Seq<Statement>, p2: Seq<Seq<char>>)
    requires
        statements_match(s, p),
        statements_match(s2, p2),
    ensures
        statements_match(s + s2, p + p2),
{
    assert forall|i: int| 0 <= i < (s + s2).len() implies statement_matches(
        #[trigger] (s + s2)[i],
        (p + p2)[i],
    ) by {
        if i < s.len() {
            assert(statement_matches(s[i], p[i]));
        } else {
            assert(statement_matches(s2[i - s.len()], p2[i - p.len()]));
        }
    }
}

/// The `CHANGE COLUMN` statements of the merged changes, split as `split_changes` says.
fn render_merged_changes(merged: &Vec<MergedColumnChange>, table: &QualifiedName, dialect_name: &str) -> (r:
    Result<(Vec<Statement>, Vec<Statement>), Error>)
    ensures
        match split_changes(*table, merged_views(merged@)) {
            Ok((regular, auto)) => r matches Ok((a, b)) && statements_match(a@, regular)
                && statements_match(b@, auto),
            Err(f) => r matches Err(e) && error::is_unsupported(e, f.diff_op, f.target, dialect_name@),
        },
{
    let ghost views = merged_views(merged@);
    let mut regular: Vec<Statement> = Vec::new();
    let mut auto: Vec<Statement> = Vec::new();
    let ghost mut reg_spec: Seq<Seq<char>> = Seq::empty();
    let ghost mut auto_spec: Seq<Seq<char>> = Seq::empty();
    let mut j: usize = 0;
    assert(views.take(0) =~= Seq::<MergedChange>::empty());
    while j < merged.len()
        invariant
            j <= merged@.len(),
            views == merged_views(merged@),
            split_changes(*table, views.take(j as int)) == Ok::<
                (Seq<Seq<char>>, Seq<Seq<char>>),
                GenerateFailure,
            >((reg_spec, auto_spec)),
            statements_match(regular@, reg_spec),
            statements_match(auto@, auto_spec),
        decreases merged.len() - j,
    {
        proof {
            assert(views.take(j + 1).drop_last() =~= views.take(j as int));
            assert(views.take(j + 1).last() == merged_view(merged@[j as int]));
        }
        let sql = match render_change_column(&merged[j], table, dialect_name) {
            Ok(v) => v,
            Err(e) => {
                proof {
                    lemma_split_error_prefix(*table, views, j + 1);
                }
                return Err(e);
            },
        };
        let st = sql_statement(&sql);
        if has_auto_increment_change_exec(&merged[j]) {
            proof {
                lemma_statements_push(auto@, auto_spec, st, sql@);
                auto_spec = auto_spec.push(sql@);
            }
            auto.push(st);
        } else {
            proof {
                lemma_statements_push(regular@, reg_spec, st, sql@);
                reg_spec = reg_spec.push(sql@);
            }
            regular.push(st);
        }
        j += 1;
    }
    assert(views.take(views.len() as int) =~= views);
    Ok((regular, auto))
}

/// Emits the statements for a batch of changes to one table, in the order that MySQL
/// needs: other changes, column changes, primary key changes, then columns made
/// `AUTO_INCREMENT`.
pub fn emit_table_batch(
    dialect_name: &str,
    table: &QualifiedName,
    ops: &[DiffOp],
    out: &mut Vec<Statement>,
) -> (r: Result<(), Error>)
    ensures
        match batch_result(*table, ops@) {
            Ok(p) => r is Ok && final(out)@.len() == old(out)@.len() + p.len() && final(out)@.take(
                old(out)@.len() as int,
            ) == old(out)@ && statements_match(final(out)@.skip(old(out)@.len() as int), p),
            Err(f) => r matches Err(e) && error::is_unsupported(e, f.diff_op, f.target, dialect_name@)
                && final(out)@ == old(out)@,
        },
{
    let mut pre_pk: Vec<Statement> = Vec::new();
    let mut pk: Vec<Statement> = Vec::new();
    let mut merged: Vec<MergedColumnChange> = Vec::new();
    let ghost mut st = BatchState { pre_pk: Seq::empty(), pk: Seq::empty(), merged: Seq::empty() };
    let mut i: usize = 0;
    assert(ops@.take(0) =~= Seq::<DiffOp>::empty());
    assert(merged_views(merged@) =~= Seq::<MergedChange>::empty());
    while i < ops.len()
        invariant
            i <= ops@.len(),
            batch_fold(*table, ops@.take(i as int)) == Ok::<BatchState, GenerateFailure>(st),
            statements_match(pre_pk@, st.pre_pk),
            statements_match(pk@, st.pk),
            merged_views(merged@) == st.merged,
            out@ == old(out)@,
        decreases ops.len() - i,
    {
        proof {
            assert(ops@.take(i + 1).drop_last() =~= ops@.take(i as int));
            assert(ops@.take(i + 1).last() == ops@[i as int]);
        }
        match batch_op_effect(dialect_name, table, &ops[i]) {
            Err(e) => {
                proof {
                    lemma_batch_fold_error_prefix(*table, ops@, i + 1);
                }
                return Err(e);
            },
            Ok(BatchEffectExec::PrePk(sql)) => {
                let s = sql_statement(&sql);
                proof {
                    lemma_statements_push(pre_pk@, st.pre_pk, s, sql@);
                    st = BatchState { pre_pk: st.pre_pk.push(sql@), ..st };
                }
                pre_pk.push(s);
            },
            Ok(BatchEffectExec::Pk(sql)) => {
                let s = sql_statement(&sql);
                proof {
                    lemma_statements_push(pk@, st.pk, s, sql@);
                    st = BatchState { pk: st.pk.push(sql@), ..st };
                }
                pk.push(s);
            },
            Ok(BatchEffectExec::Alter(column, changes)) => {
                let ghost ms = merged_views(merged@);
                let k = upsert_column_change(&mut merged, column);
                apply_column_changes(&mut merged, k, changes);
                proof {
                    lemma_find_merged_bounds(ms, *column);
                    assert(merged_views(merged@) =~= alter_merged(ms, *column, changes@));
                    st = BatchState { merged: alter_merged(st.merged, *column, changes@), ..st };
                }
            },
        }
        i += 1;
    }
    assert(ops@.take(ops@.len() as int) =~= ops@);
    let (mut regular, mut auto) = match render_merged_changes(&merged, table, dialect_name) {
        Ok(x) => x,
        Err(e) => return Err(e),
    };
    let ghost before = out@;
    proof {
        let (reg_spec, auto_spec) = split_changes(*table, st.merged)->Ok_0;
        lemma_statements_append(pre_pk@, st.pre_pk, regular@, reg_spec);
        lemma_statements_append(pre_pk@ + regular@, st.pre_pk + reg_spec, pk@, st.pk);
        lemma_statements_append(
            pre_pk@ + regular@ + pk@,
            st.pre_pk + reg_spec + st.pk,
            auto@,
            auto_spec,
        );
    }
    let ghost added = pre_pk@ + regular@ + pk@ + auto@;
    out.append(&mut pre_pk);
    out.append(&mut regular);
    out.append(&mut pk);
    out.append(&mut auto);
    proof {
        assert(out@ =~= before + added);
        assert(out@.take(before.len() as int) =~= before);
        assert(out@.skip(before.len() as int) =~= added);
    }
    Ok(())
}

/// A `CREATE ...` statement turned into `CREATE OR REPLACE ...`.
pub open spec fn promote_sql(sql: Seq<char>) -> Seq<char> {
    let t = text::trim(text::strip_trailing(text::trim(sql), ';'));
    if text::starts_with(t, "CREATE "@) {
        "CREATE OR REPLACE "@ + t.skip(7) + ";"@
    } else {
        "CREATE OR REPLACE "@ + t + ";"@
    }
}

pub fn promote_to_create_or_replace(sql: &str) -> (r: Vec<char>)
    ensures
        r@ == promote_sql(sql@),
{
    let t = text::trim_str(sql);
    let t = text::strip_trailing_chars(t.as_slice(), ';');
    let t = text::trim_chars(t.as_slice());
    let mut out: Vec<char> = Vec::new();
    text::append_str(&mut out, "CREATE OR REPLACE ");
    proof {
        reveal_strlit("CREATE ");
    }
    if text::starts_with_str(t.as_slice(), "CREATE ") {
        let rest = text::slice_copy(t.as_slice(), 7, t.len());
        text::append_chars(&mut out, rest.as_slice());
        assert(rest@ =~= t@.skip(7));
    } else {
        text::append_chars(&mut out, t.as_slice());
    }
    text::append_str(&mut out, ";");
    out
}

/// The statement for a change that is not batched per table.
pub open spec fn non_table_result(op: DiffOp) -> Result<Seq<char>, GenerateFailure> {
    match op {
        DiffOp::CreateTable(t) => match to_sql::table_result(t) {
            Ok(s) => Ok(s),
            Err(_) => Err(failure(op, to_sql::TO_SQL_TARGET@)),
        },
        DiffOp::DropTable(n) => Ok("DROP TABLE "@ + to_sql::qualified_name_sql(n) + ";"@),
        DiffOp::RenameTable { from, to } => Ok(
            "RENAME TABLE "@ + to_sql::qualified_name_sql(from) + " TO "@
                + to_sql::qualified_name_sql(to) + ";"@,
        ),
        DiffOp::CreateView(v) => Ok(to_sql::view_sql(v)),
        DiffOp::DropView(n) => Ok("DROP VIEW "@ + to_sql::qualified_name_sql(n) + ";"@),
        DiffOp::CreateTrigger(t) => match to_sql::trigger_result(t) {
            Ok(s) => Ok(s),
            Err(_) => Err(failure(op, to_sql::TO_SQL_TARGET@)),
        },
        DiffOp::DropTrigger { name, .. } => Ok(
            "DROP TRIGGER "@ + to_sql::qualified_name_sql(name) + ";"@,
        ),
        DiffOp::CreateFunction(f) => match to_sql::function_result(f) {
            Ok(s) => Ok(s),
            Err(_) => Err(failure(op, to_sql::TO_SQL_TARGET@)),
        },
        DiffOp::DropFunction(n) => Ok("DROP FUNCTION "@ + to_sql::qualified_name_sql(n) + ";"@),
        _ => Err(failure(op, GENERATOR_TARGET@)),
    }
}

fn render_object_result(dialect_name: &str, op: &DiffOp, rendered: Result<String, Error>) -> (r: Result<
    Vec<char>,
    Error,
>)
    ensures
        match rendered {
            Ok(s) => r matches Ok(v) && v@ == s@,
            Err(_) => r matches Err(e) && error::is_unsupported(
                e,
                ops::diff_op_tag(*op),
                to_sql::TO_SQL_TARGET@,
                dialect_name@,
            ),
        },
{
    match rendered {
        Ok(s) => Ok(text::chars_of(s.as_str())),
        Err(_) => Err(unsupported_diff_op(dialect_name, op, to_sql::TO_SQL_TARGET)),
    }
}

/// Emits the statement for a change that is not batched per table.
pub fn emit_non_table_op(dialect_name: &str, op: &DiffOp, out: &mut Vec<Statement>) -> (r: Result<
    (),
    Error,
>)
    ensures
        match non_table_result(*op) {
            Ok(sql) => r is Ok && final(out)@ == old(out)@.push(final(out)@.last())
                && statement_matches(final(out)@.last(), sql),
            Err(f) => r matches Err(e) && error::is_unsupported(e, f.diff_op, f.target, dialect_name@)
                && final(out)@ == old(out)@,
        },
{
    let mut sql: Vec<char> = Vec::new();
    match op {
        DiffOp::CreateTable(t) => {
            sql = match render_object_result(dialect_name, op, to_sql::render_table(dialect_name, t)) {
                Ok(v) => v,
                Err(e) => return Err(e),
            };
        },
        DiffOp::CreateTrigger(t) => {
            sql = match render_object_result(dialect_name, op, to_sql::render_trigger(dialect_name, t)) {
                Ok(v) => v,
                Err(e) => return Err(e),
            };
        },
        DiffOp::CreateFunction(f) => {
            sql = match render_object_result(dialect_name, op, to_sql::render_function(dialect_name, f)) {
                Ok(v) => v,
                Err(e) => return Err(e),
            };
        },
        DiffOp::CreateView(v) => {
            let s = to_sql::render_view(v);
            sql = text::chars_of(s.as_str());
        },
        DiffOp::DropTable(n) => {
            text::append_str(&mut sql, "DROP TABLE ");
            to_sql::write_qualified_name(&mut sql, n);
            text::append_str(&mut sql, ";");
        },
        DiffOp::RenameTable { from, to } => {
            text::append_str(&mut sql, "RENAME TABLE ");
            to_sql::write_qualified_name(&mut sql, from);
            text::append_str(&mut sql, " TO ");
            to_sql::write_qualified_name(&mut sql, to);
            text::append_str(&mut sql, ";");
        },
        DiffOp::DropView(n) => {
            text::append_str(&mut sql, "DROP VIEW ");
            to_sql::write_qualified_name(&mut sql, n);
            text::append_str(&mut sql, ";");
        },
        DiffOp::DropTrigger { name, .. } => {
            text::append_str(&mut sql, "DROP TRIGGER ");
            to_sql::write_qualified_name(&mut sql, name);
            text::append_str(&mut sql, ";");
        },
        DiffOp::DropFunction(n) => {
            text::append_str(&mut sql, "DROP FUNCTION ");
            to_sql::write_qualified_name(&mut sql, n);
            text::append_str(&mut sql, ";");
        },
        _ => return Err(unsupported_diff_op(dialect_name, op, GENERATOR_TARGET)),
    }
    proof {
        let expected = non_table_result(*op)->Ok_0;
        assert(sql@ =~= expected);
    }
    out.push(sql_statement(&sql));
    Ok(())
}

/// A `DROP VIEW` directly followed by a `CREATE VIEW` of the same name.
pub open spec fn view_pair(ops: Seq<DiffOp>) -> bool {
    &&& ops.len() >= 2
    &&& ops[0] matches DiffOp::DropView(n)
    &&& ops[1] matches DiffOp::CreateView(v)
    &&& schema::same_name(n, v.name)
}

/// How many changes from the start of `ops` are batched with `table`.
pub open spec fn run_length(ops: Seq<DiffOp>, table: QualifiedName) -> nat
    decreases ops.len(),
{
    if ops.len() > 0 && (table_scoped_target(ops[0]) matches Some(t) && schema::same_name(t, table)) {
        1 + run_length(ops.drop_first(), table)
    } else {
        0
    }
}

pub proof fn lemma_run_length_bound(ops: Seq<DiffOp>, table: QualifiedName)
    ensures
        run_length(ops, table) <= ops.len(),
    decreases ops.len(),
{
    if ops.len() > 0 {
        lemma_run_length_bound(ops.drop_first(), table);
    }
}

pub open spec fn prepend(p: Seq<Seq<char>>, r: Result<Seq<Seq<char>>, GenerateFailure>) -> Result<
    Seq<Seq<char>>,
    GenerateFailure,
> {
    match r {
        Ok(rest) => Ok(p + rest),
        Err(f) => Err(f),
    }
}

/// The statements for a list of changes: a view dropped and created again becomes one
/// `CREATE OR REPLACE`, each run of changes to one table is one batch, every other
/// change is planned on its own; the first refusal is reported.
#[verifier::opaque]
pub open spec fn ddl_plan(ops: Seq<DiffOp>) -> Result<Seq<Seq<char>>, GenerateFailure>
    decreases ops.len(),
{
    if ops.len() == 0 {
        Ok(Seq::empty())
    } else if view_pair(ops) {
        prepend(seq![promote_sql(to_sql::view_sql(ops[1]->CreateView_0))], ddl_plan(ops.skip(2)))
    } else {
        match table_scoped_target(ops[0]) {
            Some(t) => {
                let n = 1 + run_length(ops.drop_first(), t);
                proof {
                    lemma_run_length_bound(ops.drop_first(), t);
                }
                match batch_result(t, ops.take(n as int)) {
                    Err(f) => Err(f),
                    Ok(p) => prepend(p, ddl_plan(ops.skip(n as int))),
                }
            },
            None => match non_table_result(ops[0]) {
                Err(f) => Err(f),
                Ok(s) => prepend(seq![s], ddl_plan(ops.skip(1))),
            },
        }
    }
}

/// A view dropped and created again under the same name becomes one statement: the
/// view's `CREATE` promoted to `CREATE OR REPLACE`.
pub proof fn law_view_pair_replacement(n: QualifiedName, v: crate::ir::View)
    requires
        schema::same_name(n, v.name),
    ensures
        ddl_plan(seq![DiffOp::DropView(n), DiffOp::CreateView(v)]) == Ok::<
            Seq<Seq<char>>,
            GenerateFailure,
        >(seq![promote_sql(to_sql::view_sql(v))]),
{
    let ops = seq![DiffOp::DropView(n), DiffOp::CreateView(v)];
    reveal_with_fuel(ddl_plan, 2);
    assert(view_pair(ops));
    assert(ops.skip(2) =~= Seq::<DiffOp>::empty());
    let s = promote_sql(to_sql::view_sql(v));
    assert(seq![s] + Seq::<Seq<char>>::empty() =~= seq![s]);
}

pub open spec fn rename_column_sql(t: QualifiedName, from: Ident, to: Ident) -> Seq<char> {
    "ALTER TABLE "@ + to_sql::qualified_name_sql(t) + " RENAME COLUMN "@ + to_sql::ident_sql(from)
        + " TO "@ + to_sql::ident_sql(to) + ";"@
}

proof fn lemma_rename_batch(t: QualifiedName, from: Ident, to: Ident)
    ensures
        batch_result(t, seq![DiffOp::RenameColumn { table: t, from, to }]) == Ok::<
            Seq<Seq<char>>,
            GenerateFailure,
        >(seq![rename_column_sql(t, from, to)]),
{
    let op = DiffOp::RenameColumn { table: t, from, to };
    let ops = seq![op];
    let s = rename_column_sql(t, from, to);
    assert(schema::same_name(t, t));
    assert(batch_effect(t, op) == Ok::<BatchEffect, GenerateFailure>(BatchEffect::PrePk(s)));
    assert(ops.drop_last() =~= Seq::<DiffOp>::empty());
    assert(ops.last() == op);
    let st0 = BatchState { pre_pk: Seq::empty(), pk: Seq::empty(), merged: Seq::empty() };
    assert(batch_fold(t, ops.drop_last()) == Ok::<BatchState, GenerateFailure>(st0));
    assert(batch_fold(t, ops) == batch_step(t, st0, op));
    assert(batch_step(t, st0, op) == Ok::<BatchState, GenerateFailure>(
        BatchState { pre_pk: st0.pre_pk.push(s), ..st0 },
    ));
    let st = batch_fold(t, ops)->Ok_0;
    assert(st.pre_pk =~= seq![s]);
    assert(st.pk =~= Seq::<Seq<char>>::empty());
    assert(st.merged =~= Seq::<MergedChange>::empty());
    assert(split_changes(t, st.merged) == Ok::<(Seq<Seq<char>>, Seq<Seq<char>>), GenerateFailure>(
        (Seq::empty(), Seq::empty()),
    ));
    assert(seq![s] + Seq::<Seq<char>>::empty() + Seq::<Seq<char>>::empty() + Seq::<Seq<char>>::empty()
        =~= seq![s]);
}

/// Renaming a column renames the column named `from` to `to`: the change alone gives
/// one statement, `ALTER TABLE` with the table, then `RENAME COLUMN` with the old name
/// before `TO` and the new name after it.
pub proof fn law_rename_column_statement(t: QualifiedName, from: Ident, to: Ident)
    ensures
        ddl_plan(seq![DiffOp::RenameColumn { table: t, from, to }]) == Ok::<Seq<Seq<char>>, GenerateFailure>(
            seq![
                "ALTER TABLE "@ + to_sql::qualified_name_sql(t) + " RENAME COLUMN "@
                    + to_sql::ident_sql(from) + " TO "@ + to_sql::ident_sql(to) + ";"@,
            ],
        ),
{
    let op = DiffOp::RenameColumn { table: t, from, to };
    let ops = seq![op];
    let s = rename_column_sql(t, from, to);
    lemma_rename_batch(t, from, to);
    assert(schema::same_name(t, t));
    assert(ops.drop_first() =~= Seq::<DiffOp>::empty());
    assert(run_length(ops.drop_first(), t) == 0);
    assert(ops.take(1) =~= ops);
    assert(ops.skip(1) =~= Seq::<DiffOp>::empty());
    assert(ddl_plan(Seq::<DiffOp>::empty()) == Ok::<Seq<Seq<char>>, GenerateFailure>(Seq::empty())) by {
        reveal_with_fuel(ddl_plan, 1);
    }
    assert(ddl_plan(ops) == prepend(seq![s], ddl_plan(ops.skip(1)))) by {
        reveal_with_fuel(ddl_plan, 1);
        assert(!view_pair(ops));
        assert(table_scoped_target(ops[0]) == Some(t));
    }
    assert(seq![s] + Seq::<Seq<char>>::empty() =~= seq![s]);
}

/// A promoted statement is a `CREATE OR REPLACE` statement with its terminator.
pub proof fn law_promoted_statement_shape(sql: Seq<char>)
    ensures
        text::starts_with(promote_sql(sql), "CREATE OR REPLACE "@),
        promote_sql(sql).last() == ';',
{
    reveal_strlit("CREATE OR REPLACE ");
    reveal_strlit("CREATE ");
    reveal_strlit(";");
    let p = promote_sql(sql);
    assert(p.take(18) =~= "CREATE OR REPLACE "@);
}

/// Every change on its own is either refused, with an error that names it, or carried
/// out by at least one statement.
pub proof fn law_each_change_is_generated_or_refused(op: DiffOp)
    ensures
        match ddl_plan(seq![op]) {
            Ok(p) => p.len() >= 1,
            Err(f) => f.diff_op == ops::diff_op_tag(op),
        },
{
    let ops = seq![op];
    reveal_with_fuel(ddl_plan, 2);
    reveal_with_fuel(batch_fold, 2);
    reveal_with_fuel(split_changes, 2);
    assert(!view_pair(ops));
    assert(ops.skip(1) =~= Seq::<DiffOp>::empty());
    assert(ops.drop_first() =~= Seq::<DiffOp>::empty());
    assert(ops.take(1) =~= ops);
    match table_scoped_target(op) {
        Some(t) => {
            assert(run_length(ops.drop_first(), t) == 0);
            assert(ops.drop_last() =~= Seq::<DiffOp>::empty());
            let init = BatchState { pre_pk: Seq::empty(), pk: Seq::empty(), merged: Seq::empty() };
            assert(batch_fold(t, ops) == batch_step(t, init, op));
            match batch_effect(t, op) {
                Ok(BatchEffect::Alter(c, ch)) => {
                    let merged = alter_merged(Seq::<MergedChange>::empty(), c, ch);
                    assert(merged.drop_last() =~= Seq::<MergedChange>::empty());
                },
                _ => {},
            }
            match batch_result(t, ops) {
                Ok(p) => {
                    assert(p + Seq::<Seq<char>>::empty() =~= p);
                },
                Err(f) => {},
            }
        },
        None => {
            match non_table_result(op) {
                Ok(s) => {
                    assert(seq![s] + Seq::<Seq<char>>::empty() =~= seq![s]);
                },
                Err(f) => {},
            }
        },
    }
}

proof fn lemma_prepend_assoc(a: Seq<Seq<char>>, b: Seq<Seq<char>>, r: Result<Seq<Seq<char>>, GenerateFailure>)
    ensures
        prepend(a, prepend(b, r)) == prepend(a + b, r),
        prepend(Seq::empty(), r) == r,
{
    match r {
        Ok(x) => {
            assert(a + (b + x) =~= (a + b) + x);
            assert(Seq::<Seq<char>>::empty() + x =~= x);
        },
        Err(_) => {},
    }
}

proof fn lemma_run_length_exact(ops: Seq<DiffOp>, table: QualifiedName, n: int)
    requires
        0 <= n <= ops.len(),
        forall|k: int|
            0 <= k < n ==> (table_scoped_target(#[trigger] ops[k]) matches Some(t)
                && schema::same_name(t, table)),
        n == ops.len() || !(table_scoped_target(ops[n]) matches Some(t) && schema::same_name(
            t,
            table,
        )),
    ensures
        run_length(ops, table) == n,
    decreases n,
{
    if n > 0 {
        assert forall|k: int| 0 <= k < n - 1 implies (table_scoped_target(
            #[trigger] ops.drop_first()[k],
        ) matches Some(t) && schema::same_name(t, table)) by {
            assert(ops.drop_first()[k] == ops[k + 1]);
        }
        if n < ops.len() {
            assert(ops.drop_first()[n - 1] == ops[n]);
        }
        lemma_run_length_exact(ops.drop_first(), table, n - 1);
    }
}

proof fn lemma_ddl_view_step(ops: Seq<DiffOp>, index: int)
    requires
        0 <= index <= ops.len(),
        view_pair(ops.skip(index)),
    ensures
        ddl_plan(ops.skip(index)) == prepend(
            seq![promote_sql(to_sql::view_sql(ops[index + 1]->CreateView_0))],
            ddl_plan(ops.skip(index + 2)),
        ),
{
    let rest = ops.skip(index);
    assert(rest[1] == ops[index + 1]);
    assert(rest.skip(2) =~= ops.skip(index + 2));
    reveal(ddl_plan);
}

proof fn lemma_ddl_batch_step(ops: Seq<DiffOp>, start: int, end: int, table: QualifiedName)
    requires
        0 <= start < end <= ops.len(),
        !view_pair(ops.skip(start)),
        table_scoped_target(ops[start]) == Some(table),
        forall|k: int|
            start < k < end ==> (table_scoped_target(#[trigger] ops[k]) matches Some(t)
                && schema::same_name(t, table)),
        end == ops.len() || !(table_scoped_target(ops[end]) matches Some(t) && schema::same_name(
            t,
            table,
        )),
    ensures
        ddl_plan(ops.skip(start)) == match batch_result(table, ops.subrange(start, end)) {
            Err(f) => Err(f),
            Ok(p) => prepend(p, ddl_plan(ops.skip(end))),
        },
{
    let rest = ops.skip(start);
    let tail = rest.drop_first();
    let n = end - start - 1;
    assert(rest[0] == ops[start]);
    assert forall|k: int| 0 <= k < n implies (table_scoped_target(#[trigger] tail[k]) matches Some(t)
        && schema::same_name(t, table)) by {
        assert(tail[k] == ops[start + 1 + k]);
    }
    if n < tail.len() {
        assert(tail[n] == ops[end]);
    }
    lemma_run_length_exact(tail, table, n);
    assert(rest.take(n + 1) =~= ops.subrange(start, end));
    assert(rest.skip(n + 1) =~= ops.skip(end));
    reveal(ddl_plan);
}

proof fn lemma_ddl_single_step(ops: Seq<DiffOp>, index: int)
    requires
        0 <= index < ops.len(),
        !view_pair(ops.skip(index)),
        table_scoped_target(ops[index]) is None,
    ensures
        ddl_plan(ops.skip(index)) == match non_table_result(ops[index]) {
            Err(f) => Err(f),
            Ok(s) => prepend(seq![s], ddl_plan(ops.skip(index + 1))),
        },
{
    let rest = ops.skip(index);
    assert(rest[0] == ops[index]);
    assert(rest.skip(1) =~= ops.skip(index + 1));
    reveal(ddl_plan);
}

proof fn lemma_ddl_empty(ops: Seq<DiffOp>)
    ensures
        ddl_plan(ops.skip(ops.len() as int)) == Ok::<Seq<Seq<char>>, GenerateFailure>(Seq::empty()),
{
    assert(ops.skip(ops.len() as int) =~= Seq::<DiffOp>::empty());
    reveal(ddl_plan);
}

fn batch_end(ops: &[DiffOp], start: usize, table: &QualifiedName) -> (end: usize)
    requires
        start < ops@.len(),
        table_scoped_target(ops@[start as int]) == Some(*table),
    ensures
        start < end <= ops@.len(),
        forall|k: int|
            start < k < end ==> (table_scoped_target(#[trigger] ops@[k]) matches Some(t)
                && schema::same_name(t, *table)),
        end == ops@.len() || !(table_scoped_target(ops@[end as int]) matches Some(t)
            && schema::same_name(t, *table)),
{
    let n = ops.len();
    let mut index = start + 1;
    while index < n
        invariant
            start < index <= ops@.len(),
            n == ops@.len(),
            forall|k: int|
                start < k < index ==> (table_scoped_target(#[trigger] ops@[k]) matches Some(t)
                    && schema::same_name(t, *table)),
        decreases n - index,
    {
        let same = match table_scoped_target_of(&ops[index]) {
            Some(t) => schema::names_equal(t, table),
            None => false,
        };
        if !same {
            return index;
        }
        index += 1;
    }
    index
}

/// The `CREATE OR REPLACE VIEW` for a view dropped and created again, when `ops` starts so.
pub fn optimize_drop_create_view(ops: &[DiffOp]) -> (r: Option<Vec<char>>)
    ensures
        view_pair(ops@) <==> r is Some,
        r matches Some(v) ==> v@ == promote_sql(to_sql::view_sql(ops@[1]->CreateView_0)),
{
    if ops.len() < 2 {
        return None;
    }
    match (&ops[0], &ops[1]) {
        (DiffOp::DropView(dropped), DiffOp::CreateView(view)) => {
            if !schema::names_equal(dropped, &view.name) {
                return None;
            }
            let sql = to_sql::render_view(view);
            Some(promote_to_create_or_replace(sql.as_str()))
        },
        _ => None,
    }
}

/// The statements that carry out a list of changes in MySQL.
#[verifier::rlimit(60)]
pub fn generate_ddl(dialect_name: &str, ops: &[DiffOp]) -> (r: Result<Vec<Statement>, Error>)
    ensures
        generated_as(r, ddl_plan(ops@), dialect_name@),
{
    let mut statements: Vec<Statement> = Vec::new();
    let mut index: usize = 0;
    let ghost mut planned: Seq<Seq<char>> = Seq::empty();
    proof {
        assert(ops@.skip(0) =~= ops@);
        lemma_prepend_assoc(planned, planned, ddl_plan(ops@));
    }
    while index < ops.len()
        invariant
            index <= ops@.len(),
            statements_match(statements@, planned),
            ddl_plan(ops@) == prepend(planned, ddl_plan(ops@.skip(index as int))),
        decreases ops.len() - index,
    {
        let rest = &ops[index..ops.len()];
        proof {
            assert(rest@ =~= ops@.skip(index as int));
        }
        match optimize_drop_create_view(rest) {
            Some(sql) => {
                proof {
                    lemma_ddl_view_step(ops@, index as int);
                }
                let s = sql_statement(&sql);
                proof {
                    lemma_statements_push(statements@, planned, s, sql@);
                    lemma_prepend_assoc(planned, seq![sql@], ddl_plan(ops@.skip(index + 2)));
                    assert(planned.push(sql@) =~= planned + seq![sql@]);
                    planned = planned + seq![sql@];
                }
                statements.push(s);
                index += 2;
                continue;
            },
            None => {},
        }
        match table_scoped_target_of(&ops[index]) {
            Some(table) => {
                let start = index;
                index = batch_end(ops, start, table);
                proof {
                    lemma_ddl_batch_step(ops@, start as int, index as int, *table);
                }
                let batch = &ops[start..index];
                let ghost before = statements@;
                match emit_table_batch(dialect_name, table, batch, &mut statements) {
                    Ok(()) => {},
                    Err(e) => return Err(e),
                }
                proof {
                    let p = batch_result(*table, batch@)->Ok_0;
                    assert(statements@ =~= before + statements@.skip(before.len() as int));
                    lemma_statements_append(before, planned, statements@.skip(before.len() as int), p);
                    lemma_prepend_assoc(planned, p, ddl_plan(ops@.skip(index as int)));
                    planned = planned + p;
                }
            },
            None => {
                proof {
                    lemma_ddl_single_step(ops@, index as int);
                }
                let ghost before = statements@;
                match emit_non_table_op(dialect_name, &ops[index], &mut statements) {
                    Ok(()) => {},
                    Err(e) => return Err(e),
                }
                proof {
                    let sql = non_table_result(ops@[index as int])->Ok_0;
                    lemma_statements_push(before, planned, statements@.last(), sql);
                    assert(before.push(statements@.last()) =~= statements@);
                    lemma_prepend_assoc(planned, seq![sql], ddl_plan(ops@.skip(index + 1)));
                    assert(planned.push(sql) =~= planned + seq![sql]);
                    planned = planned + seq![sql];
                }
                index += 1;
            },
        }
    }
    proof {
        lemma_ddl_empty(ops@);
        assert(planned + Seq::<Seq<char>>::empty() =~= planned);
    }
    Ok(statements)
}

} // verus!
