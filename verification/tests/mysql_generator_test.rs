use stateql::error::Error;
use stateql::ir::{
    Column, ColumnChange, ColumnPosition, DataType, DiffOp, Expr, Function, FunctionParam,
    FunctionSecurity, Identity, IndexColumn, IndexDef, IndexOwner, Literal, Partition,
    PartitionBound, PartitionElement, PartitionStrategy, PrimaryKey, SchemaObject, Statement,
    Table, TableOptions, Trigger, TriggerEvent, TriggerForEach, TriggerTiming, Value, View,
};
use stateql::mysql::adapter::check_server_version;
use stateql::mysql::generator::promote_to_create_or_replace;
use stateql::mysql::MysqlDialect;
use stateql::schema::{Ident, QualifiedName};

fn ident(value: &str) -> Ident {
    Ident { value: value.to_string(), quoted: false }
}

fn qualified_name(name: &str) -> QualifiedName {
    QualifiedName { schema: None, name: ident(name) }
}

fn sql_only(statements: &[Statement]) -> Vec<String> {
    statements.iter().map(|statement| match statement { Statement::Sql { sql, .. } => sql.clone() }).collect()
}

fn joined_sql(statements: &[Statement]) -> String {
    sql_only(statements).join("\n")
}

fn auto_increment_identity() -> Identity {
    Identity {
        always: true,
        start: Some(1),
        increment: Some(1),
        min_value: None,
        max_value: None,
        cache: None,
        cycle: false,
    }
}

fn sample_column(name: &str) -> Column {
    Column {
        name: ident(name),
        data_type: DataType::Varchar { length: Some(255) },
        not_null: false,
        default: None,
        identity: None,
        generated: None,
        collation: None,
        auto_increment_hint: None,
        identity_hint: None,
        generated_hint: None,
    }
}

fn no_options() -> TableOptions {
    TableOptions { without_rowid: None, strict: None, source_sql: None, partition_sql: None, extra: Vec::new() }
}

#[test]
fn auto_increment_change_runs_after_primary_key_changes() {
    let dialect = MysqlDialect;
    let table = qualified_name("users");

    let ops = vec![
        DiffOp::AlterColumn {
            table: table.clone(),
            column: ident("id"),
            changes: vec![
                ColumnChange::SetType(DataType::BigInt),
                ColumnChange::SetNotNull(true),
                ColumnChange::SetDefault(None),
                ColumnChange::SetIdentity(Some(auto_increment_identity())),
                ColumnChange::SetGenerated(None),
                ColumnChange::SetCollation(None),
            ],
        },
        DiffOp::DropPrimaryKey { table: table.clone() },
        DiffOp::SetPrimaryKey { table, pk: PrimaryKey { name: None, columns: vec![ident("id")] } },
    ];

    let statements = dialect
        .generate_ddl(&ops)
        .expect("mysql generator should support PK + AUTO_INCREMENT sequencing");

    let sql_statements = sql_only(&statements);
    let drop_pk_index = sql_statements
        .iter()
        .position(|sql| sql.contains("DROP PRIMARY KEY"))
        .expect("DROP PRIMARY KEY statement should exist");
    let add_pk_index = sql_statements
        .iter()
        .position(|sql| sql.contains("ADD PRIMARY KEY"))
        .expect("ADD PRIMARY KEY statement should exist");
    let auto_increment_index = sql_statements
        .iter()
        .position(|sql| sql.contains("AUTO_INCREMENT"))
        .expect("AUTO_INCREMENT change statement should exist");

    assert!(drop_pk_index < add_pk_index, "primary key drop must happen before primary key set: {sql_statements:?}");
    assert!(
        add_pk_index < auto_increment_index,
        "AUTO_INCREMENT column rewrite must happen after PK change: {sql_statements:?}"
    );
}

#[test]
fn merges_same_column_alterations_into_single_change_column_statement() {
    let dialect = MysqlDialect;
    let table = qualified_name("users");

    let ops = vec![
        DiffOp::AlterColumn {
            table: table.clone(),
            column: ident("age"),
            changes: vec![ColumnChange::SetType(DataType::BigInt), ColumnChange::SetNotNull(true)],
        },
        DiffOp::AlterColumn {
            table,
            column: ident("age"),
            changes: vec![
                ColumnChange::SetDefault(Some(Expr::Literal(Literal::Integer(0)))),
                ColumnChange::SetCollation(Some("utf8mb4_bin".to_string())),
            ],
        },
    ];

    let statements = dialect
        .generate_ddl(&ops)
        .expect("mysql generator should merge compatible ALTER COLUMN ops");

    let sql = joined_sql(&statements);
    let uppercase = sql.to_ascii_uppercase();
    assert_eq!(uppercase.matches("CHANGE COLUMN").count(), 1, "expected one merged CHANGE COLUMN statement, got: {sql}");
    assert!(
        uppercase.contains(
            "ALTER TABLE `USERS` CHANGE COLUMN `AGE` `AGE` BIGINT NOT NULL DEFAULT 0 COLLATE UTF8MB4_BIN"
        ),
        "merged CHANGE COLUMN definition is missing expected clauses: {sql}"
    );
}

#[test]
fn add_column_after_position_is_preserved() {
    let dialect = MysqlDialect;
    let table = qualified_name("users");

    let ops = vec![
        DiffOp::AddColumn {
            table: table.clone(),
            column: sample_column("nickname"),
            position: Some(ColumnPosition::After(ident("email"))),
        },
        DiffOp::AddColumn {
            table,
            column: sample_column("initials"),
            position: Some(ColumnPosition::After(ident("nickname"))),
        },
    ];

    let statements = dialect.generate_ddl(&ops).expect("mysql generator should preserve AFTER positioning");

    let sql = joined_sql(&statements);
    assert!(sql.contains("ADD COLUMN `nickname`"), "first add-column statement is missing: {sql}");
    assert!(sql.contains("AFTER `email`"), "first AFTER position is missing: {sql}");
    assert!(sql.contains("ADD COLUMN `initials`"), "second add-column statement is missing: {sql}");
    assert!(sql.contains("AFTER `nickname`"), "second AFTER position is missing: {sql}");

    let first_index = sql.find("`nickname`").expect("nickname column token should be present");
    let second_index = sql.find("`initials`").expect("initials column token should be present");
    assert!(first_index < second_index, "column-position order must remain stable across emitted SQL: {sql}");
}

#[test]
fn add_partition_renders_partition_sql() {
    let dialect = MysqlDialect;

    let ops = vec![DiffOp::AddPartition {
        table: qualified_name("orders"),
        partition: Partition {
            strategy: PartitionStrategy::Range,
            columns: vec![ident("tenant_id")],
            partitions: vec![PartitionElement {
                name: ident("p0"),
                bound: Some(PartitionBound::LessThan(vec![Expr::Literal(Literal::Integer(1000))])),
                subpartitions: None,
            }],
        },
    }];

    let statements = dialect.generate_ddl(&ops).expect("mysql partition add should generate SQL");
    let sql = joined_sql(&statements);

    assert!(sql.contains("PARTITION BY RANGE (`tenant_id`)"), "expected partition strategy clause: {sql}");
    assert!(sql.contains("PARTITION `p0` VALUES LESS THAN (1000)"), "expected partition element clause: {sql}");
}

fn active_users_view() -> View {
    View {
        name: qualified_name("active_users"),
        columns: vec![ident("id")],
        query: "SELECT id FROM users WHERE active = 1".to_string(),
        check_option: None,
        security: None,
        renamed_from: None,
    }
}

#[test]
fn drop_and_create_view_uses_create_or_replace_for_same_view_name() {
    let dialect = MysqlDialect;

    let statements = dialect
        .generate_ddl(&[DiffOp::DropView(qualified_name("active_users")), DiffOp::CreateView(active_users_view())])
        .expect("drop+create view pair should be optimizable");

    assert_eq!(statements.len(), 1, "expected merged CREATE OR REPLACE");
    let Statement::Sql { sql, .. } = &statements[0];
    let upper = sql.to_ascii_uppercase();
    assert!(upper.contains("CREATE OR REPLACE VIEW"), "expected CREATE OR REPLACE VIEW optimization: {sql}");

    let roundtrip = dialect.to_sql(&SchemaObject::View(active_users_view())).expect("to_sql should render view");
    assert!(roundtrip.contains("CREATE VIEW"), "baseline renderer should still emit view SQL: {roundtrip}");
}

fn supported_objects() -> Vec<SchemaObject> {
    let table = Table {
        name: qualified_name("users"),
        columns: vec![Column { data_type: DataType::BigInt, not_null: true, ..sample_column("id") }],
        primary_key: None,
        foreign_keys: Vec::new(),
        checks: Vec::new(),
        exclusions: Vec::new(),
        partition: None,
        options: no_options(),
        renamed_from: None,
    };
    let index = IndexDef {
        name: Some(ident("idx_users_id")),
        owner: IndexOwner::Table(qualified_name("users")),
        columns: vec![IndexColumn { expr: Expr::Ident(ident("id")) }],
        unique: false,
        method: Some("BTREE".to_string()),
        concurrent: false,
        where_clause: None,
    };
    let trigger = Trigger {
        name: qualified_name("users_insert_log"),
        table: qualified_name("users"),
        timing: TriggerTiming::After,
        events: vec![TriggerEvent::Insert],
        for_each: TriggerForEach::Row,
        when_clause: None,
        body: "SET NEW.id = NEW.id".to_string(),
    };
    let function = Function {
        name: qualified_name("touch_user"),
        params: vec![FunctionParam {
            name: Some(ident("user_id")),
            data_type: DataType::BigInt,
            mode: None,
            default: None,
        }],
        return_type: Some(DataType::BigInt),
        language: "sql".to_string(),
        body: "SELECT user_id".to_string(),
        volatility: None,
        security: Some(FunctionSecurity::Invoker),
    };
    vec![
        SchemaObject::Table(table),
        SchemaObject::View(View {
            name: qualified_name("users_view"),
            columns: vec![ident("id")],
            query: "SELECT id FROM users".to_string(),
            check_option: None,
            security: None,
            renamed_from: None,
        }),
        SchemaObject::Index(index),
        SchemaObject::Trigger(trigger),
        SchemaObject::Function(function),
    ]
}

#[test]
fn to_sql_supports_mysql_variants_and_rejects_unsupported_variants() {
    let dialect = MysqlDialect;

    for object in supported_objects() {
        let sql = dialect.to_sql(&object).expect("supported mysql objects must render to SQL");
        assert!(!sql.trim().is_empty(), "supported mysql object produced empty SQL");
    }

    for object in [
        SchemaObject::Domain(fx_domain()),
        SchemaObject::Extension(fx_extension()),
        SchemaObject::Schema(fx_schema()),
        SchemaObject::Comment(fx_comment()),
        SchemaObject::Privilege(fx_privilege()),
        SchemaObject::Policy(fx_policy()),
        SchemaObject::Sequence(fx_sequence()),
        SchemaObject::Type(fx_type()),
        SchemaObject::MaterializedView(fx_materialized_view()),
    ] {
        let error = dialect.to_sql(&object).expect_err("unsupported mysql object must return an explicit error");
        match error {
            Error::UnsupportedDiffOp { .. } => {}
            other => panic!("expected generate unsupported error, got {other:?}"),
        }
    }
}

#[test]
fn supported_objects_render_exactly() {
    let dialect = MysqlDialect;
    let rendered: Vec<String> = supported_objects().iter().map(|o| dialect.to_sql(o).expect("renders")).collect();
    assert_eq!(
        rendered,
        vec![
            "CREATE TABLE `users` (`id` bigint NOT NULL);".to_string(),
            "CREATE VIEW `users_view` (`id`) AS SELECT id FROM users;".to_string(),
            "CREATE INDEX `idx_users_id` ON `users` (`id`) USING BTREE;".to_string(),
            "CREATE TRIGGER `users_insert_log` AFTER INSERT ON `users` FOR EACH ROW SET NEW.id = NEW.id;".to_string(),
            "CREATE FUNCTION `touch_user`(`user_id` bigint) RETURNS bigint SQL SECURITY INVOKER RETURN SELECT user_id;".to_string(),
        ]
    );
}

#[test]
fn connect_rejects_mysql_versions_below_8_0() {
    let error = check_server_version("5.7.44").expect_err("versions below 8.0 must be rejected");
    let source_message = match error {
        Error::Execution { message, .. } => message,
        other => panic!("expected execution error, got: {other:?}"),
    };
    assert!(source_message.contains("8.0+"), "expected minimum-version error, got: {source_message}");
}

#[test]
fn create_or_replace_promotion_keeps_the_statement_body() {
    assert_eq!(
        promote_to_create_or_replace("  CREATE VIEW `v` AS SELECT 1;; ").iter().collect::<String>(),
        "CREATE OR REPLACE VIEW `v` AS SELECT 1;"
    );
    assert_eq!(
        promote_to_create_or_replace("VIEW x").iter().collect::<String>(),
        "CREATE OR REPLACE VIEW x;"
    );
}

#[test]
fn batch_statements_are_ordered_and_rendered_exactly() {
    let dialect = MysqlDialect;
    let t = qualified_name("t");
    let ops = vec![
        DiffOp::AlterColumn {
            table: t.clone(),
            column: ident("id"),
            changes: vec![
                ColumnChange::SetType(DataType::Integer),
                ColumnChange::SetIdentity(Some(auto_increment_identity())),
            ],
        },
        DiffOp::SetPrimaryKey { table: t.clone(), pk: PrimaryKey { name: None, columns: vec![ident("id")] } },
        DiffOp::AlterColumn {
            table: t.clone(),
            column: ident("name"),
            changes: vec![ColumnChange::SetType(DataType::Text), ColumnChange::SetDefault(None)],
        },
        DiffOp::DropColumn { table: t.clone(), column: ident("old") },
        DiffOp::AddColumn {
            table: t.clone(),
            column: Column { auto_increment_hint: Some(Value::Bool(true)), ..sample_column("seq") },
            position: Some(ColumnPosition::First),
        },
        DiffOp::DropTable(qualified_name("gone")),
    ];
    let statements = dialect.generate_ddl(&ops).expect("plan");
    assert_eq!(
        sql_only(&statements),
        vec![
            "ALTER TABLE `t` DROP COLUMN `old`;".to_string(),
            "ALTER TABLE `t` ADD COLUMN `seq` varchar(255) AUTO_INCREMENT FIRST;".to_string(),
            "ALTER TABLE `t` CHANGE COLUMN `name` `name` text DEFAULT NULL;".to_string(),
            "ALTER TABLE `t` ADD PRIMARY KEY (`id`);".to_string(),
            "ALTER TABLE `t` CHANGE COLUMN `id` `id` int AUTO_INCREMENT;".to_string(),
            "DROP TABLE `gone`;".to_string(),
        ]
    );
}

#[test]
fn change_without_new_type_and_empty_alteration_are_refused() {
    let dialect = MysqlDialect;
    let t = qualified_name("t");
    let error = dialect
        .generate_ddl(&[DiffOp::AlterColumn {
            table: t.clone(),
            column: ident("c"),
            changes: vec![ColumnChange::SetNotNull(true)],
        }])
        .expect_err("no type");
    assert_eq!(
        error,
        Error::UnsupportedDiffOp {
            diff_op: "AlterColumn".to_string(),
            target: "mysql ddl generator: CHANGE COLUMN requires SetType".to_string(),
            dialect: "mysql".to_string(),
        }
    );
    let error = dialect
        .generate_ddl(&[DiffOp::AlterColumn { table: t, column: ident("c"), changes: vec![] }])
        .expect_err("no changes");
    assert_eq!(
        error,
        Error::UnsupportedDiffOp {
            diff_op: "AlterColumn".to_string(),
            target: "ALTER COLUMN requires at least one change".to_string(),
            dialect: "mysql".to_string(),
        }
    );
    let error = dialect.generate_ddl(&[DiffOp::CreateSequence(fx_sequence())]).expect_err("no sequences");
    assert_eq!(
        error,
        Error::UnsupportedDiffOp {
            diff_op: "CreateSequence".to_string(),
            target: "mysql ddl generator".to_string(),
            dialect: "mysql".to_string(),
        }
    );
}

fn fx_ident(value: &str) -> Ident {
    Ident { value: value.to_string(), quoted: false }
}

fn fx_name(name: &str) -> QualifiedName {
    QualifiedName { schema: None, name: fx_ident(name) }
}

fn fx_options() -> stateql::ir::TableOptions {
    stateql::ir::TableOptions {
        without_rowid: None,
        strict: None,
        source_sql: None,
        partition_sql: None,
        extra: Vec::new(),
    }
}

fn fx_materialized_view() -> stateql::ir::MaterializedView {
    stateql::ir::MaterializedView {
        name: fx_name("mv"),
        columns: Vec::new(),
        query: "SELECT 1".to_string(),
        options: fx_options(),
    }
}

fn fx_sequence() -> stateql::ir::Sequence {
    stateql::ir::Sequence {
        name: fx_name("seq"),
        data_type: None,
        increment: None,
        min_value: None,
        max_value: None,
        start: None,
        cache: None,
        cycle: false,
        owned_by: None,
    }
}

fn fx_type() -> stateql::ir::TypeDef {
    stateql::ir::TypeDef {
        name: fx_name("mood"),
        kind: stateql::ir::TypeKind::Enum { labels: vec!["happy".to_string()] },
    }
}

fn fx_domain() -> stateql::ir::Domain {
    stateql::ir::Domain {
        name: fx_name("positive"),
        data_type: stateql::ir::DataType::Integer,
        default: None,
        not_null: false,
        checks: Vec::new(),
    }
}

fn fx_extension() -> stateql::ir::Extension {
    stateql::ir::Extension { name: fx_ident("pgcrypto"), schema: None, version: None }
}

fn fx_schema() -> stateql::ir::SchemaDef {
    stateql::ir::SchemaDef { name: fx_ident("app") }
}

fn fx_comment() -> stateql::ir::Comment {
    stateql::ir::Comment {
        target: stateql::ir::CommentTarget::Table(fx_name("users")),
        text: Some("people".to_string()),
    }
}

fn fx_privilege() -> stateql::ir::Privilege {
    stateql::ir::Privilege {
        operations: vec![stateql::ir::PrivilegeOp::Select],
        on: stateql::ir::PrivilegeObject::Table(fx_name("users")),
        grantee: fx_ident("reader"),
        with_grant_option: false,
    }
}

fn fx_policy() -> stateql::ir::Policy {
    stateql::ir::Policy {
        name: fx_ident("own_rows"),
        table: fx_name("users"),
        permissive: true,
        command: None,
        roles: Vec::new(),
        using_expr: None,
        check_expr: None,
    }
}
