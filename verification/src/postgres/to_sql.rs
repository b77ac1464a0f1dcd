use vstd::prelude::*;

use crate::error;
use crate::error::Error;
use crate::ir;
use crate::ir::DiffOp;
use crate::ir::SchemaObject;
use crate::ir::Statement;
use crate::postgres::definitions as defs;
use crate::postgres::generator;
use crate::postgres::generator::GenerateFailure;
use crate::postgres::objects as objs;
use crate::text;

verus! {

/// The changes that create an object: a table's partitions, when it lists any, are
/// created after it; a comment is set and a privilege granted.
pub open spec fn create_ops(o: SchemaObject) -> Seq<DiffOp> {
    match o {
        SchemaObject::Table(t) => match t.partition {
            Some(p) => if p.partitions@.len() > 0 {
                seq![DiffOp::CreateTable(t), DiffOp::AddPartition { table: t.name, partition: p }]
            } else {
                seq![DiffOp::CreateTable(t)]
            },
            None => seq![DiffOp::CreateTable(t)],
        },
        SchemaObject::View(v) => seq![DiffOp::CreateView(v)],
        SchemaObject::MaterializedView(v) => seq![DiffOp::CreateMaterializedView(v)],
        SchemaObject::Index(i) => seq![DiffOp::AddIndex(i)],
        SchemaObject::Sequence(s) => seq![DiffOp::CreateSequence(s)],
        SchemaObject::Trigger(t) => seq![DiffOp::CreateTrigger(t)],
        SchemaObject::Function(f) => seq![DiffOp::CreateFunction(f)],
        SchemaObject::Type(t) => seq![DiffOp::CreateType(t)],
        SchemaObject::Domain(d) => seq![DiffOp::CreateDomain(d)],
        SchemaObject::Extension(e) => seq![DiffOp::CreateExtension(e)],
        SchemaObject::Schema(s) => seq![DiffOp::CreateSchema(s)],
        SchemaObject::Comment(c) => seq![DiffOp::SetComment(c)],
        SchemaObject::Privilege(p) => seq![DiffOp::Grant(p)],
        SchemaObject::Policy(p) => seq![DiffOp::CreatePolicy(p)],
    }
}

/// The statements, each ended by `;`, one per line.
pub open spec fn statements_text(p: Seq<(Seq<char>, bool)>) -> Seq<char> {
    text::join(p.map_values(|x: (Seq<char>, bool)| x.0 + ";"@), "\n"@)
}

/// An object as the SQL that creates it: the statements of its creating changes.
pub open spec fn object_sql(dialect: Seq<char>, o: SchemaObject) -> Result<Seq<char>, GenerateFailure> {
    match generator::ddl_plan(dialect, create_ops(o)) {
        Ok(p) => Ok(statements_text(p)),
        Err(f) => Err(f),
    }
}

pub open spec fn statement_sql(s: Statement) -> Seq<char> {
    match s {
        Statement::Sql { sql, .. } => sql@,
    }
}

/// The statements, each ended by `;`, one per line.
pub fn render_statements(statements: &Vec<Statement>) -> (r: String)
    ensures
        r@ == text::join(statements@.map_values(|s: Statement| statement_sql(s) + ";"@), "\n"@),
{
    let ghost all = statements@.map_values(|s: Statement| statement_sql(s) + ";"@);
    let mut out: Vec<char> = Vec::new();
    let mut i: usize = 0;
    assert(all.take(0) =~= Seq::<Seq<char>>::empty());
    while i < statements.len()
        invariant
            i <= statements@.len(),
            all == statements@.map_values(|s: Statement| statement_sql(s) + ";"@),
            out@ == text::join(all.take(i as int), "\n"@),
        decreases statements.len() - i,
    {
        if i > 0 {
            text::append_str(&mut out, "\n");
        }
        match &statements[i] {
            Statement::Sql { sql, .. } => {
                text::append_str(&mut out, sql.as_str());
                text::append_str(&mut out, ";");
            },
        }
        proof {
            text::lemma_join_push(all.take(i as int), "\n"@, all[i as int]);
            assert(all.take(i + 1) =~= all.take(i as int).push(all[i as int]));
        }
        i += 1;
    }
    assert(all.take(all.len() as int) =~= all);
    text::string_of(out.as_slice())
}


proof fn lemma_single_op_plan(dialect: Seq<char>, op: DiffOp)
    requires
        !(op is DropView),
    ensures
        generator::ddl_plan(dialect, seq![op]) == generator::op_plan(dialect, op),
{
    reveal(generator::ddl_plan);
    let ops = seq![op];
    assert(ops.skip(1) =~= Seq::<DiffOp>::empty());
    assert(generator::ddl_plan(dialect, ops.skip(1)) == Ok::<
        Seq<(Seq<char>, bool)>,
        GenerateFailure,
    >(Seq::empty()));
    match generator::op_plan(dialect, op) {
        Ok(p) => {
            assert(p + Seq::<(Seq<char>, bool)>::empty() =~= p);
        },
        Err(_) => {},
    }
}

proof fn lemma_table_plan(dialect: Seq<char>, t: ir::Table, p: ir::Partition)
    ensures
        generator::ddl_plan(
            dialect,
            seq![DiffOp::CreateTable(t), DiffOp::AddPartition { table: t.name, partition: p }],
        ) == Ok::<Seq<(Seq<char>, bool)>, GenerateFailure>(
            seq![(defs::create_table_sql(t), true)] + generator::transactional(
                defs::add_partition_sql(t.name, p),
            ),
        ),
{
    let second = DiffOp::AddPartition { table: t.name, partition: p };
    let ops = seq![DiffOp::CreateTable(t), second];
    reveal(generator::ddl_plan);
    assert(ops.skip(1) =~= seq![second]);
    lemma_single_op_plan(dialect, second);
}

proof fn lemma_statements_text(stmts: Seq<Statement>, p: Seq<(Seq<char>, bool)>)
    requires
        generator::statements_match(stmts, p),
    ensures
        stmts.map_values(|s: Statement| statement_sql(s) + ";"@) == p.map_values(
            |x: (Seq<char>, bool)| x.0 + ";"@,
        ),
{
    let a = stmts.map_values(|s: Statement| statement_sql(s) + ";"@);
    let b = p.map_values(|x: (Seq<char>, bool)| x.0 + ";"@);
    assert forall|i: int| 0 <= i < stmts.len() implies #[trigger] a[i] == b[i] by {
        assert(generator::statement_matches(stmts[i], p[i]));
    }
    assert(stmts.map_values(|s: Statement| statement_sql(s) + ";"@) =~= p.map_values(
        |x: (Seq<char>, bool)| x.0 + ";"@,
    ));
}

fn sql_statement(sql: String, transactional: bool) -> (s: Statement)
    ensures
        generator::statement_matches(s, (sql@, transactional)),
{
    Statement::Sql { sql, transactional, context: None }
}

/// The statement that creates an object other than a table, or the refusal of its change.
fn object_statement(dialect_name: &str, object: &SchemaObject) -> (r: Result<Statement, Error>)
    requires
        !(object is Table),
    ensures
        match generator::op_plan(dialect_name@, create_ops(*object)[0]) {
            Ok(p) => r matches Ok(s) && p.len() == 1 && generator::statement_matches(s, p[0]),
            Err(f) => r matches Err(e) && generator::is_failure(e, f),
        },
{
    match object {
        SchemaObject::View(v) => match defs::render_create_view(v, false) {
            Ok(sql) => Ok(sql_statement(sql, true)),
            Err(e) => Err(e),
        },
        SchemaObject::MaterializedView(v) => Ok(
            sql_statement(defs::render_create_materialized_view(v), true),
        ),
        SchemaObject::Index(i) => match &i.name {
            Some(n) => Ok(sql_statement(defs::render_index_statement(i, n), !i.concurrent)),
            None => {
                let tag = text::chars_of("AddIndex");
                Err(error::unsupported(tag.as_slice(), defs::INDEX_NAME_TARGET, dialect_name))
            },
        },
        SchemaObject::Sequence(s) => Ok(sql_statement(objs::render_create_sequence(s), true)),
        SchemaObject::Trigger(t) => Ok(sql_statement(objs::render_create_trigger(t), true)),
        SchemaObject::Function(f) => Ok(sql_statement(objs::render_create_function(f), true)),
        SchemaObject::Type(t) => Ok(sql_statement(objs::render_create_type(t), true)),
        SchemaObject::Domain(d) => Ok(sql_statement(objs::render_create_domain(d), true)),
        SchemaObject::Extension(e) => Ok(sql_statement(objs::render_create_extension(e), true)),
        SchemaObject::Schema(sd) => Ok(sql_statement(objs::render_create_schema(&sd.name), true)),
        SchemaObject::Comment(c) => Ok(sql_statement(objs::render_set_comment(c), true)),
        SchemaObject::Privilege(p) => {
            if p.operations.len() == 0 {
                let tag = text::chars_of("Grant");
                return Err(
                    error::unsupported(tag.as_slice(), generator::PRIVILEGE_OPS_TARGET, dialect_name),
                );
            }
            Ok(sql_statement(objs::render_privilege(p, false), true))
        },
        SchemaObject::Policy(p) => Ok(sql_statement(objs::render_create_policy(p), true)),
        SchemaObject::Table(_) => Err(error::unsupported(&[], "", "")),
    }
}

/// The statements that create a table and then its partitions.
fn table_statements(t: &ir::Table) -> (r: Vec<Statement>)
    ensures
        match t.partition {
            Some(p) => p.partitions@.len() > 0 ==> generator::statements_match(
                r@,
                seq![(defs::create_table_sql(*t), true)] + generator::transactional(
                    defs::add_partition_sql(t.name, p),
                ),
            ),
            None => true,
        },
        (t.partition is None || t.partition->0.partitions@.len() == 0) ==> generator::statements_match(
            r@,
            seq![(defs::create_table_sql(*t), true)],
        ),
{
    let mut stmts: Vec<Statement> = Vec::new();
    let first = sql_statement(defs::render_create_table(t), true);
    stmts.push(first);
    match &t.partition {
        Some(p) => {
            if p.partitions.len() > 0 {
                let sqls = defs::render_add_partition(&t.name, p);
                let ghost all = generator::transactional(text::views(sqls@));
                let mut i: usize = 0;
                while i < sqls.len()
                    invariant
                        i <= sqls@.len(),
                        all == generator::transactional(text::views(sqls@)),
                        text::views(sqls@) == defs::add_partition_sql(t.name, *p),
                        generator::statements_match(
                            stmts@,
                            seq![(defs::create_table_sql(*t), true)] + all.take(i as int),
                        ),
                    decreases sqls.len() - i,
                {
                    let ghost before = stmts@;
                    let st = sql_statement(text::owned(sqls[i].as_str()), true);
                    stmts.push(st);
                    proof {
                        let planned = seq![(defs::create_table_sql(*t), true)] + all.take(
                            i as int,
                        );
                        assert(seq![(defs::create_table_sql(*t), true)] + all.take(i + 1)
                            =~= planned.push(all[i as int]));
                        assert forall|k: int| 0 <= k < stmts@.len() implies generator::statement_matches(
                            #[trigger] stmts@[k],
                            planned.push(all[i as int])[k],
                        ) by {
                            if k < before.len() {
                                assert(generator::statement_matches(before[k], planned[k]));
                            }
                        }
                    }
                    i += 1;
                }
                assert(all.take(all.len() as int) =~= all);
            }
        },
        None => {},
    }
    stmts
}

/// The SQL that creates an object: the statements of its creating changes, each ended by
/// `;`, one per line; the refusal of a change is reported.
pub fn render_object(dialect_name: &str, object: &SchemaObject) -> (r: Result<String, Error>)
    ensures
        generator::rendered_as(r, object_sql(dialect_name@, *object)),
{
    let stmts: Vec<Statement> = match object {
        SchemaObject::Table(t) => {
            let stmts = table_statements(t);
            proof {
                let tt = *t;
                if tt.partition is Some && tt.partition->0.partitions@.len() > 0 {
                    lemma_table_plan(dialect_name@, tt, tt.partition->0);
                } else {
                    lemma_single_op_plan(dialect_name@, DiffOp::CreateTable(tt));
                }
            }
            stmts
        },
        _ => {
            proof {
                lemma_single_op_plan(dialect_name@, create_ops(*object)[0]);
                assert(create_ops(*object) == seq![create_ops(*object)[0]]);
            }
            match object_statement(dialect_name, object) {
                Ok(s) => {
                    let mut v: Vec<Statement> = Vec::new();
                    v.push(s);
                    v
                },
                Err(e) => return Err(e),
            }
        },
    };
    proof {
        let p = generator::ddl_plan(dialect_name@, create_ops(*object))->Ok_0;
        lemma_statements_text(stmts@, p);
    }
    Ok(render_statements(&stmts))
}

} // verus!
