use std::collections::BTreeSet;

use stateql::error::Error;
use stateql::ir::{
    CheckConstraint, Column, ColumnChange, ColumnPosition, DataType, DiffOp, Exclusion,
    ExclusionElement, Expr, ForeignKey, Function, Partition, PartitionStrategy, IndexColumn, IndexDef, IndexOwner, Literal, PrimaryKey,
    SqliteRebuildStep, Statement, StatementContext, Table, TableOptions, Trigger, TriggerEvent,
    TriggerForEach, TriggerTiming, View,
};
use stateql::schema::{Ident, QualifiedName};
use stateql::ops::diff_op_name;
use stateql::sqlite::generator::generate_ddl;

const DIALECT: &str = "sqlite";

fn ident(value: &str) -> Ident {
    Ident { value: value.to_string(), quoted: false }
}

fn qualified(schema: Option<&str>, name: &str) -> QualifiedName {
    QualifiedName { schema: schema.map(ident), name: ident(name) }
}

fn sample_column(name: &str) -> Column {
    Column {
        name: ident(name),
        data_type: DataType::Text,
        not_null: false,
        default: None,
        identity: None,
        generated: None,
        collation: None,
        auto_increment_hint: None,
        identity_hint: None,
        generated_hint: None,
    }
}

fn no_options() -> TableOptions {
    TableOptions { without_rowid: None, strict: None, source_sql: None, partition_sql: None, extra: Vec::new() }
}

fn sample_table() -> Table {
    Table {
        name: qualified(None, "users"),
        columns: vec![sample_column("id")],
        primary_key: None,
        foreign_keys: Vec::new(),
        checks: Vec::new(),
        exclusions: Vec::new(),
        partition: None,
        options: no_options(),
        renamed_from: None,
    }
}

fn sample_index() -> IndexDef {
    IndexDef {
        name: Some(ident("idx_users_id")),
        owner: IndexOwner::Table(qualified(None, "users")),
        columns: vec![IndexColumn { expr: Expr::Ident(ident("id")) }],
        unique: false,
        method: None,
        concurrent: false,
        where_clause: None,
    }
}

fn sample_trigger() -> Trigger {
    Trigger {
        name: qualified(None, "users_insert_log"),
        table: qualified(None, "users"),
        timing: TriggerTiming::After,
        events: vec![TriggerEvent::Insert],
        for_each: TriggerForEach::Row,
        when_clause: None,
        body: "BEGIN SELECT 1; END".to_string(),
    }
}

fn sample_function() -> Function {
    Function {
        name: qualified(None, "f"),
        params: vec![],
        return_type: Some(DataType::Integer),
        language: "sql".to_string(),
        body: "SELECT 1".to_string(),
        volatility: None,
        security: None,
    }
}

fn all_diffop_variants() -> Vec<DiffOp> {
    let users = || qualified(None, "users");
    vec![
        DiffOp::CreateTable(sample_table()),
        DiffOp::DropTable(users()),
        DiffOp::RenameTable { from: users(), to: qualified(None, "members") },
        DiffOp::AddColumn { table: users(), column: sample_column("nickname"), position: None },
        DiffOp::DropColumn { table: users(), column: ident("nickname") },
        DiffOp::AlterColumn {
            table: users(),
            column: ident("age"),
            changes: vec![ColumnChange::SetNotNull(true)],
        },
        DiffOp::RenameColumn { table: users(), from: ident("a"), to: ident("b") },
        DiffOp::AddIndex(sample_index()),
        DiffOp::DropIndex { owner: IndexOwner::Table(users()), name: ident("idx_users_id") },
        DiffOp::RenameIndex { owner: IndexOwner::Table(users()), from: ident("a"), to: ident("b") },
        DiffOp::AddForeignKey {
            table: users(),
            fk: ForeignKey {
                name: None,
                columns: vec![ident("team_id")],
                referenced_table: qualified(None, "teams"),
                referenced_columns: vec![ident("id")],
                on_delete: None,
                on_update: None,
                deferrable: None,
            },
        },
        DiffOp::DropForeignKey { table: users(), name: ident("fk_team") },
        DiffOp::AddCheck {
            table: users(),
            check: CheckConstraint { name: None, expr: Expr::Raw("age > 0".to_string()), no_inherit: false },
        },
        DiffOp::DropCheck { table: users(), name: ident("ck_age") },
        DiffOp::AddExclusion {
            table: users(),
            exclusion: Exclusion {
                name: None,
                index_method: "gist".to_string(),
                elements: vec![ExclusionElement {
                    expr: Expr::Ident(ident("id")),
                    operator: "=".to_string(),
                    opclass: None,
                    order: None,
                    nulls: None,
                }],
                where_clause: None,
                deferrable: None,
            },
        },
        DiffOp::DropExclusion { table: users(), name: ident("ex_id") },
        DiffOp::SetPrimaryKey { table: users(), pk: PrimaryKey { name: None, columns: vec![ident("id")] } },
        DiffOp::DropPrimaryKey { table: users() },
        DiffOp::AddPartition {
            table: users(),
            partition: Partition { strategy: PartitionStrategy::Hash, columns: vec![ident("id")], partitions: vec![] },
        },
        DiffOp::DropPartition { table: users(), name: ident("p0") },
        DiffOp::CreateView(View {
            name: qualified(None, "users_view"),
            columns: vec![ident("id")],
            query: "SELECT id FROM users".to_string(),
        check_option: None,
        security: None,
        renamed_from: None,
        }),
        DiffOp::DropView(qualified(None, "users_view")),
        DiffOp::CreateMaterializedView(fx_materialized_view()),
        DiffOp::DropMaterializedView(fx_name("mv")),
        DiffOp::CreateSequence(fx_sequence()),
        DiffOp::DropSequence(fx_name("seq")),
        DiffOp::AlterSequence { name: fx_name("seq"), changes: vec![stateql::ir::SequenceChange::SetCycle(true)] },
        DiffOp::CreateTrigger(sample_trigger()),
        DiffOp::DropTrigger { name: qualified(None, "users_insert_log"), table: None },
        DiffOp::CreateFunction(sample_function()),
        DiffOp::DropFunction(qualified(None, "f")),
        DiffOp::CreateType(fx_type()),
        DiffOp::DropType(fx_name("mood")),
        DiffOp::AlterType { name: fx_name("mood"), change: stateql::ir::TypeChange::AddValue { value: "sad".to_string(), position: None } },
        DiffOp::CreateDomain(fx_domain()),
        DiffOp::DropDomain(fx_name("positive")),
        DiffOp::AlterDomain { name: fx_name("positive"), change: stateql::ir::DomainChange::SetNotNull(true) },
        DiffOp::CreateExtension(fx_extension()),
        DiffOp::DropExtension(fx_name("pgcrypto")),
        DiffOp::CreateSchema(fx_schema()),
        DiffOp::DropSchema(fx_name("app")),
        DiffOp::SetComment(fx_comment()),
        DiffOp::DropComment { target: stateql::ir::CommentTarget::Table(fx_name("users")) },
        DiffOp::Grant(fx_privilege()),
        DiffOp::Revoke(fx_privilege()),
        DiffOp::CreatePolicy(fx_policy()),
        DiffOp::DropPolicy { name: fx_ident("own_rows"), table: fx_name("users") },
        DiffOp::AlterTableOptions { table: users(), options: no_options() },
    ]
}

fn is_supported_diffop(op: &DiffOp) -> bool {
    match op {
        DiffOp::CreateTable(table) => table.exclusions.is_empty() && table.partition.is_none(),
        DiffOp::DropTable(_) => true,
        DiffOp::RenameTable { from, to } => from.schema == to.schema,
        DiffOp::AddColumn { position, .. } => position.is_none(),
        DiffOp::DropColumn { .. } => true,
        DiffOp::AlterColumn { changes, .. } => !changes.is_empty(),
        DiffOp::RenameColumn { .. } => true,
        DiffOp::AddIndex(index) => {
            index.name.is_some() && matches!(index.owner, IndexOwner::Table(_))
        }
        DiffOp::DropIndex { owner, .. } => matches!(owner, IndexOwner::Table(_)),
        DiffOp::AddForeignKey { .. }
        | DiffOp::DropForeignKey { .. }
        | DiffOp::AddCheck { .. }
        | DiffOp::DropCheck { .. }
        | DiffOp::AddExclusion { .. }
        | DiffOp::DropExclusion { .. }
        | DiffOp::SetPrimaryKey { .. }
        | DiffOp::DropPrimaryKey { .. } => true,
        DiffOp::CreateView(_) | DiffOp::DropView(_) => true,
        DiffOp::CreateTrigger(trigger) => !trigger.events.is_empty(),
        DiffOp::DropTrigger { .. } => true,
        _ => false,
    }
}

fn assert_unsupported_diffop_error(error: Error, expected_diff_op: &str) {
    match error {
        Error::UnsupportedDiffOp { diff_op, .. } => assert_eq!(diff_op, expected_diff_op),
        other => panic!("expected unsupported diff op error, got {other:?}"),
    }
}

#[test]
fn all_diffop_variants_are_exhaustively_classified() {
    let variants = all_diffop_variants();
    let tags = variants.iter().map(diff_op_name).collect::<BTreeSet<_>>();

    assert_eq!(variants.len(), 48, "every DiffOp variant should be listed");
    assert_eq!(tags.len(), variants.len(), "no variant should be listed twice");

    for op in &variants {
        let _ = is_supported_diffop(op);
    }
}

#[test]
fn every_diffop_variant_matches_sqlite_support_contract() {
    for op in &all_diffop_variants() {
        if is_supported_diffop(op) {
            let statements = generate_ddl(DIALECT, std::slice::from_ref(op))
                .unwrap_or_else(|error| panic!("expected supported op to generate SQL: {error:?}"));
            assert!(!statements.is_empty(), "supported op should emit at least one statement");
        } else {
            let error = generate_ddl(DIALECT, std::slice::from_ref(op))
                .expect_err("unsupported op should return an error");
            assert_unsupported_diffop_error(error, diff_op_name(op));
        }
    }
}

#[test]
fn add_column_without_position_generates_simple_alter_statement() {
    let add_column = DiffOp::AddColumn {
        table: qualified(None, "users"),
        column: sample_column("nickname"),
        position: None,
    };

    let statements = generate_ddl(DIALECT, &[add_column]).expect("sqlite add-column should generate SQL");

    assert_eq!(statements.len(), 1);
    let Statement::Sql { sql, transactional, context } = &statements[0];
    assert!(sql.starts_with("ALTER TABLE"));
    assert!(sql.contains("ADD COLUMN"));
    assert!(*transactional);
    assert!(context.is_none());
}

#[test]
fn alter_column_rewrites_to_sqlite_rebuild_steps_with_context() {
    let table = qualified(None, "users");
    let alter_column = DiffOp::AlterColumn {
        table: table.clone(),
        column: ident("age"),
        changes: vec![ColumnChange::SetNotNull(true)],
    };

    let statements = generate_ddl(DIALECT, &[alter_column]).expect("sqlite rebuild should generate SQL");

    assert!(statements.len() >= 4, "rebuild should emit a multi-step statement sequence");

    let mut saw_copy_step = false;
    for statement in &statements {
        let Statement::Sql { transactional, context, .. } = statement;
        assert!(transactional, "rebuild statements must be transactional");
        let Some(StatementContext::SqliteTableRebuild { table: context_table, step }) = context else {
            panic!("rebuild statements must include sqlite rebuild context");
        };
        assert_eq!(context_table, &table);
        saw_copy_step |= *step == SqliteRebuildStep::CopyData;
    }

    assert!(saw_copy_step, "rebuild must include a copy-data step");
}

fn sqls(statements: &[Statement]) -> Vec<String> {
    statements.iter().map(|s| match s { Statement::Sql { sql, .. } => sql.clone() }).collect()
}

#[test]
fn rebuild_plan_renders_every_step_exactly() {
    let ops = vec![
        DiffOp::AlterColumn {
            table: qualified(None, "users"),
            column: ident("age"),
            changes: vec![
                ColumnChange::SetType(DataType::BigInt),
                ColumnChange::SetNotNull(true),
                ColumnChange::SetDefault(Some(Expr::Literal(Literal::Integer(-1)))),
            ],
        },
        DiffOp::AlterColumn {
            table: qualified(None, "users"),
            column: ident("name"),
            changes: vec![ColumnChange::SetNotNull(false)],
        },
    ];
    let statements = generate_ddl(DIALECT, &ops).expect("rebuild should generate");
    assert_eq!(
        sqls(&statements),
        vec![
            "CREATE TABLE \"__stateql_rebuild_users\" (\"age\" INTEGER NOT NULL DEFAULT -1, \"name\" TEXT);".to_string(),
            "INSERT INTO \"__stateql_rebuild_users\" (\"age\", \"name\") SELECT CAST(\"age\" AS INTEGER), \"name\" FROM \"users\";".to_string(),
            "DROP TABLE \"users\";".to_string(),
            "ALTER TABLE \"__stateql_rebuild_users\" RENAME TO \"users\";".to_string(),
            "-- sqlite rebuild: recreate indexes for \"users\"".to_string(),
            "-- sqlite rebuild: recreate triggers for \"users\"".to_string(),
        ]
    );
    let steps: Vec<SqliteRebuildStep> = statements
        .iter()
        .map(|s| match s {
            Statement::Sql { context: Some(StatementContext::SqliteTableRebuild { step, .. }), .. } => *step,
            _ => panic!("missing rebuild context"),
        })
        .collect();
    assert_eq!(
        steps,
        vec![
            SqliteRebuildStep::CreateShadowTable,
            SqliteRebuildStep::CopyData,
            SqliteRebuildStep::DropOldTable,
            SqliteRebuildStep::RenameShadowTable,
            SqliteRebuildStep::RecreateIndexes,
            SqliteRebuildStep::RecreateTriggers,
        ]
    );
}

#[test]
fn rebuild_without_column_changes_copies_the_whole_table() {
    let ops = vec![DiffOp::DropCheck { table: qualified(Some("main"), "users"), name: ident("ck") }];
    let statements = generate_ddl(DIALECT, &ops).expect("rebuild should generate");
    let sql = sqls(&statements);
    assert_eq!(
        sql[0],
        "CREATE TABLE \"main\".\"__stateql_rebuild_users\" AS SELECT * FROM \"main\".\"users\" WHERE 0;"
    );
    assert_eq!(
        sql[1],
        "INSERT INTO \"main\".\"__stateql_rebuild_users\" SELECT * FROM \"main\".\"users\";"
    );
    assert_eq!(sql[3], "ALTER TABLE \"main\".\"__stateql_rebuild_users\" RENAME TO \"users\";");
}

#[test]
fn consecutive_changes_to_one_table_share_one_rebuild() {
    let ops = vec![
        DiffOp::DropColumn { table: qualified(None, "a"), column: ident("x") },
        DiffOp::AlterColumn {
            table: qualified(None, "a"),
            column: ident("y"),
            changes: vec![ColumnChange::SetNotNull(true)],
        },
        DiffOp::DropColumn { table: qualified(None, "b"), column: ident("z") },
        DiffOp::DropTable(qualified(None, "c")),
    ];
    let statements = generate_ddl(DIALECT, &ops).expect("plan should generate");
    assert_eq!(statements.len(), 6 + 6 + 1);
    assert_eq!(sqls(&statements)[12], "DROP TABLE \"c\";");
}

#[test]
fn repeated_alterations_of_one_column_are_merged_in_order() {
    let ops = vec![
        DiffOp::AlterColumn {
            table: qualified(None, "t"),
            column: ident("c"),
            changes: vec![ColumnChange::SetNotNull(true)],
        },
        DiffOp::AlterColumn {
            table: qualified(None, "t"),
            column: ident("c"),
            changes: vec![ColumnChange::SetNotNull(false), ColumnChange::SetType(DataType::Real)],
        },
    ];
    let statements = generate_ddl(DIALECT, &ops).expect("plan should generate");
    assert_eq!(sqls(&statements)[0], "CREATE TABLE \"__stateql_rebuild_t\" (\"c\" REAL);");
}

#[test]
fn unsupported_default_in_rebuild_is_reported_for_the_first_change() {
    let ops = vec![
        DiffOp::DropColumn { table: qualified(None, "t"), column: ident("x") },
        DiffOp::AlterColumn {
            table: qualified(None, "t"),
            column: ident("c"),
            changes: vec![ColumnChange::SetDefault(Some(Expr::Not(Box::new(Expr::Null))))],
        },
    ];
    let error = generate_ddl(DIALECT, &ops).expect_err("the default cannot be written");
    assert_eq!(
        error,
        Error::UnsupportedDiffOp {
            diff_op: "DropColumn".to_string(),
            target: "unsupported expression in sqlite default value".to_string(),
            dialect: "sqlite".to_string(),
        }
    );
}

#[test]
fn rename_across_schemas_and_positioned_add_column_are_refused() {
    let rename = DiffOp::RenameTable { from: qualified(Some("a"), "t"), to: qualified(Some("b"), "t") };
    let error = generate_ddl(DIALECT, &[rename]).expect_err("cross-schema rename");
    assert_eq!(
        error,
        Error::UnsupportedDiffOp {
            diff_op: "RenameTable".to_string(),
            target: "sqlite cannot rename across schemas".to_string(),
            dialect: "sqlite".to_string(),
        }
    );
    let add = DiffOp::AddColumn {
        table: qualified(None, "t"),
        column: sample_column("c"),
        position: Some(ColumnPosition::First),
    };
    let error = generate_ddl(DIALECT, &[add]).expect_err("positioned add column");
    assert_eq!(
        error,
        Error::UnsupportedDiffOp {
            diff_op: "AddColumn".to_string(),
            target: "sqlite add-column supports append only".to_string(),
            dialect: "sqlite".to_string(),
        }
    );
}

#[test]
fn simple_statements_are_rendered_exactly() {
    let ops = vec![
        DiffOp::RenameTable { from: qualified(None, "old"), to: qualified(None, "new") },
        DiffOp::RenameColumn { table: qualified(None, "t"), from: ident("a"), to: ident("b") },
        DiffOp::DropIndex { owner: IndexOwner::Table(qualified(None, "t")), name: ident("i") },
        DiffOp::AddColumn {
            table: qualified(None, "t"),
            column: Column {
                default: Some(Expr::Cast {
                    expr: Box::new(Expr::Literal(Literal::String("it's".to_string()))),
                    data_type: DataType::Text,
                }),
                not_null: true,
                ..sample_column("c")
            },
            position: None,
        },
    ];
    let statements = generate_ddl(DIALECT, &ops).expect("plan should generate");
    assert_eq!(
        sqls(&statements),
        vec![
            "ALTER TABLE \"old\" RENAME TO \"new\";".to_string(),
            "ALTER TABLE \"t\" RENAME COLUMN \"a\" TO \"b\";".to_string(),
            "DROP INDEX \"i\";".to_string(),
            "ALTER TABLE \"t\" ADD COLUMN \"c\" TEXT NOT NULL DEFAULT CAST('it''s' AS TEXT);".to_string(),
        ]
    );
}

fn fx_ident(value: &str) -> Ident {
    Ident { value: value.to_string(), quoted: false }
}

fn fx_name(name: &str) -> QualifiedName {
    QualifiedName { schema: None, name: fx_ident(name) }
}

fn fx_options() -> stateql::ir::TableOptions {
    stateql::ir::TableOptions {
        without_rowid: None,
        strict: None,
        source_sql: None,
        partition_sql: None,
        extra: Vec::new(),
    }
}

fn fx_materialized_view() -> stateql::ir::MaterializedView {
    stateql::ir::MaterializedView {
        name: fx_name("mv"),
        columns: Vec::new(),
        query: "SELECT 1".to_string(),
        options: fx_options(),
    }
}

fn fx_sequence() -> stateql::ir::Sequence {
    stateql::ir::Sequence {
        name: fx_name("seq"),
        data_type: None,
        increment: None,
        min_value: None,
        max_value: None,
        start: None,
        cache: None,
        cycle: false,
        owned_by: None,
    }
}

fn fx_type() -> stateql::ir::TypeDef {
    stateql::ir::TypeDef {
        name: fx_name("mood"),
        kind: stateql::ir::TypeKind::Enum { labels: vec!["happy".to_string()] },
    }
}

fn fx_domain() -> stateql::ir::Domain {
    stateql::ir::Domain {
        name: fx_name("positive"),
        data_type: stateql::ir::DataType::Integer,
        default: None,
        not_null: false,
        checks: Vec::new(),
    }
}

fn fx_extension() -> stateql::ir::Extension {
    stateql::ir::Extension { name: fx_ident("pgcrypto"), schema: None, version: None }
}

fn fx_schema() -> stateql::ir::SchemaDef {
    stateql::ir::SchemaDef { name: fx_ident("app") }
}

fn fx_comment() -> stateql::ir::Comment {
    stateql::ir::Comment {
        target: stateql::ir::CommentTarget::Table(fx_name("users")),
        text: Some("people".to_string()),
    }
}

fn fx_privilege() -> stateql::ir::Privilege {
    stateql::ir::Privilege {
        operations: vec![stateql::ir::PrivilegeOp::Select],
        on: stateql::ir::PrivilegeObject::Table(fx_name("users")),
        grantee: fx_ident("reader"),
        with_grant_option: false,
    }
}

fn fx_policy() -> stateql::ir::Policy {
    stateql::ir::Policy {
        name: fx_ident("own_rows"),
        table: fx_name("users"),
        permissive: true,
        command: None,
        roles: Vec::new(),
        using_expr: None,
        check_expr: None,
    }
}
