use std::collections::BTreeSet;

use stateql::config::ConnectionConfig;
use stateql::error::Error;
use stateql::ir::{
    CheckConstraint, Column, ColumnChange, ColumnPosition, Comment, CommentTarget, DataType,
    Deferrable, DiffOp, Domain, DomainChange, EnumValuePosition, Exclusion, ExclusionElement,
    Expr, Extension, ForeignKey, ForeignKeyAction, Function, FunctionParam, FunctionParamMode,
    FunctionSecurity, GeneratedColumn, Identity, IndexColumn, IndexDef, IndexOwner, Literal,
    MaterializedView, NullsOrder, Partition, PartitionBound, PartitionElement, PartitionStrategy,
    Policy, PolicyCommand, PrimaryKey, Privilege, PrivilegeObject, PrivilegeOp, SchemaDef,
    SchemaObject, Sequence, SequenceChange, SortOrder, Statement, Table, TableOptions, Trigger,
    TriggerEvent, TriggerForEach, TriggerTiming, TypeChange, TypeDef, TypeKind, Value, View,
    Volatility,
};
use stateql::ops::diff_op_name;
use stateql::postgres::adapter::check_server_version;
use stateql::postgres::generator::emit_op;
use stateql::postgres::objects::render_dollar_quoted;
use stateql::postgres::render::{quote_string, render_expr};
use stateql::postgres::PostgresDialect;
use stateql::schema::{Ident, QualifiedName};

fn ident(value: &str) -> Ident {
    Ident { value: value.to_string(), quoted: false }
}

fn qualified(schema: Option<&str>, name: &str) -> QualifiedName {
    QualifiedName { schema: schema.map(ident), name: ident(name) }
}

fn no_options() -> TableOptions {
    TableOptions { without_rowid: None, strict: None, source_sql: None, partition_sql: None, extra: Vec::new() }
}

fn column(name: &str, data_type: DataType) -> Column {
    Column {
        name: ident(name),
        data_type,
        not_null: false,
        default: None,
        identity: None,
        generated: None,
        collation: None,
        auto_increment_hint: None,
        identity_hint: None,
        generated_hint: None,
    }
}

fn table(name: &str, columns: Vec<Column>) -> Table {
    Table {
        name: qualified(None, name),
        columns,
        primary_key: None,
        foreign_keys: Vec::new(),
        checks: Vec::new(),
        exclusions: Vec::new(),
        partition: None,
        options: no_options(),
        renamed_from: None,
    }
}

fn view(name: QualifiedName, query: &str) -> View {
    View { name, columns: Vec::new(), query: query.to_string(), check_option: None, security: None, renamed_from: None }
}

fn sql_of(statements: &[Statement]) -> Vec<String> {
    statements.iter().map(|Statement::Sql { sql, .. }| sql.clone()).collect()
}

fn sequence() -> Sequence {
    Sequence {
        name: qualified(Some("public"), "users_id_seq"),
        data_type: Some(DataType::BigInt),
        increment: Some(1),
        min_value: None,
        max_value: None,
        start: Some(10),
        cache: None,
        cycle: false,
        owned_by: Some((qualified(Some("public"), "users"), ident("id"))),
    }
}

fn function(body: &str) -> Function {
    Function {
        name: qualified(None, "add_one"),
        params: vec![FunctionParam {
            name: Some(ident("x")),
            data_type: DataType::Integer,
            mode: Some(FunctionParamMode::In),
            default: Some(Expr::Literal(Literal::Integer(0))),
        }],
        return_type: Some(DataType::Integer),
        language: "sql".to_string(),
        body: body.to_string(),
        volatility: Some(Volatility::Immutable),
        security: Some(FunctionSecurity::Invoker),
    }
}

fn privilege(operations: Vec<PrivilegeOp>) -> Privilege {
    Privilege {
        operations,
        on: PrivilegeObject::View(qualified(None, "users_view")),
        grantee: ident("reader"),
        with_grant_option: true,
    }
}

fn policy() -> Policy {
    Policy {
        name: ident("own_rows"),
        table: qualified(None, "users"),
        permissive: false,
        command: Some(PolicyCommand::Select),
        roles: Vec::new(),
        using_expr: Some(Expr::Raw("owner = current_user".to_string())),
        check_expr: None,
    }
}

fn index(name: Option<&str>, concurrent: bool) -> IndexDef {
    IndexDef {
        name: name.map(ident),
        owner: IndexOwner::Table(qualified(Some("public"), "users")),
        columns: vec![IndexColumn { expr: Expr::Ident(ident("email")) }],
        unique: true,
        method: Some("btree".to_string()),
        concurrent,
        where_clause: Some(Expr::Raw("active".to_string())),
    }
}

fn partition() -> Partition {
    Partition {
        strategy: PartitionStrategy::Range,
        columns: vec![ident("id")],
        partitions: vec![PartitionElement {
            name: ident("events_p1"),
            bound: Some(PartitionBound::FromTo {
                from: vec![Expr::Literal(Literal::Integer(1))],
                to: vec![Expr::Literal(Literal::Integer(100))],
            }),
            subpartitions: None,
        }],
    }
}

fn all_diffop_variants() -> Vec<DiffOp> {
    let users = || qualified(None, "users");
    vec![
        DiffOp::CreateTable(table("users", vec![column("id", DataType::BigInt)])),
        DiffOp::DropTable(users()),
        DiffOp::RenameTable { from: users(), to: qualified(None, "members") },
        DiffOp::AddColumn { table: users(), column: column("nickname", DataType::Text), position: None },
        DiffOp::DropColumn { table: users(), column: ident("nickname") },
        DiffOp::AlterColumn { table: users(), column: ident("age"), changes: vec![ColumnChange::SetNotNull(true)] },
        DiffOp::RenameColumn { table: users(), from: ident("a"), to: ident("b") },
        DiffOp::AddIndex(index(Some("users_email_idx"), false)),
        DiffOp::DropIndex { owner: IndexOwner::Table(users()), name: ident("users_email_idx") },
        DiffOp::RenameIndex { owner: IndexOwner::Table(users()), from: ident("a"), to: ident("b") },
        DiffOp::AddForeignKey {
            table: users(),
            fk: ForeignKey {
                name: None,
                columns: vec![ident("team_id")],
                referenced_table: qualified(None, "teams"),
                referenced_columns: vec![ident("id")],
                on_delete: None,
                on_update: None,
                deferrable: None,
            },
        },
        DiffOp::DropForeignKey { table: users(), name: ident("fk_team") },
        DiffOp::AddCheck {
            table: users(),
            check: CheckConstraint { name: None, expr: Expr::Raw("age > 0".to_string()), no_inherit: false },
        },
        DiffOp::DropCheck { table: users(), name: ident("ck_age") },
        DiffOp::AddExclusion {
            table: users(),
            exclusion: Exclusion {
                name: None,
                index_method: "gist".to_string(),
                elements: vec![ExclusionElement {
                    expr: Expr::Ident(ident("room")),
                    operator: "=".to_string(),
                    opclass: None,
                    order: None,
                    nulls: None,
                }],
                where_clause: None,
                deferrable: None,
            },
        },
        DiffOp::DropExclusion { table: users(), name: ident("ex_room") },
        DiffOp::SetPrimaryKey { table: users(), pk: PrimaryKey { name: None, columns: vec![ident("id")] } },
        DiffOp::DropPrimaryKey { table: users() },
        DiffOp::AddPartition { table: qualified(None, "events"), partition: partition() },
        DiffOp::DropPartition { table: qualified(None, "events"), name: ident("events_p1") },
        DiffOp::CreateView(view(qualified(None, "users_view"), "SELECT id FROM users")),
        DiffOp::DropView(qualified(None, "users_view")),
        DiffOp::CreateMaterializedView(MaterializedView {
            name: qualified(None, "mv"),
            columns: Vec::new(),
            query: "SELECT 1".to_string(),
            options: no_options(),
        }),
        DiffOp::DropMaterializedView(qualified(None, "mv")),
        DiffOp::CreateSequence(sequence()),
        DiffOp::DropSequence(qualified(None, "seq")),
        DiffOp::AlterSequence { name: qualified(None, "seq"), changes: vec![SequenceChange::SetCycle(true)] },
        DiffOp::CreateTrigger(Trigger {
            name: qualified(None, "users_audit"),
            table: users(),
            timing: TriggerTiming::After,
            events: vec![TriggerEvent::Insert],
            for_each: TriggerForEach::Row,
            when_clause: None,
            body: "EXECUTE FUNCTION audit()".to_string(),
        }),
        DiffOp::DropTrigger { name: qualified(None, "users_audit"), table: Some(users()) },
        DiffOp::CreateFunction(function("SELECT x + 1")),
        DiffOp::DropFunction(qualified(None, "add_one")),
        DiffOp::CreateType(TypeDef { name: qualified(None, "mood"), kind: TypeKind::Enum { labels: vec!["happy".to_string()] } }),
        DiffOp::DropType(qualified(None, "mood")),
        DiffOp::AlterType {
            name: qualified(None, "mood"),
            change: TypeChange::AddValue { value: "sad".to_string(), position: None },
        },
        DiffOp::CreateDomain(Domain {
            name: qualified(None, "positive"),
            data_type: DataType::Integer,
            default: None,
            not_null: true,
            checks: Vec::new(),
        }),
        DiffOp::DropDomain(qualified(None, "positive")),
        DiffOp::AlterDomain { name: qualified(None, "positive"), change: DomainChange::SetNotNull(false) },
        DiffOp::CreateExtension(Extension { name: ident("pgcrypto"), schema: None, version: None }),
        DiffOp::DropExtension(qualified(None, "pgcrypto")),
        DiffOp::CreateSchema(SchemaDef { name: ident("app") }),
        DiffOp::DropSchema(qualified(None, "app")),
        DiffOp::SetComment(Comment { target: CommentTarget::Table(users()), text: Some("people".to_string()) }),
        DiffOp::DropComment { target: CommentTarget::Table(users()) },
        DiffOp::Grant(privilege(vec![PrivilegeOp::Select])),
        DiffOp::Revoke(privilege(vec![PrivilegeOp::Select])),
        DiffOp::CreatePolicy(policy()),
        DiffOp::DropPolicy { name: ident("own_rows"), table: users() },
        DiffOp::AlterTableOptions {
            table: users(),
            options: TableOptions { extra: vec![("fillfactor".to_string(), Value::Integer(70))], ..no_options() },
        },
    ]
}

fn is_supported_diffop(_op: &DiffOp) -> bool {
    true
}

#[test]
fn generator_contract_test_all_diffop_variants_are_exhaustively_classified() {
    let variants = all_diffop_variants();
    let tags = variants.iter().map(diff_op_name).collect::<BTreeSet<_>>();

    assert_eq!(variants.len(), 48, "all_diffop_variants() should include every DiffOp variant");
    assert_eq!(tags.len(), variants.len(), "all_diffop_variants() should not include duplicate variants");

    for op in &variants {
        let _ = is_supported_diffop(op);
    }
}

#[test]
fn every_diffop_variant_matches_support_contract() {
    let dialect = PostgresDialect;

    for op in &all_diffop_variants() {
        if is_supported_diffop(op) {
            let statements = dialect
                .generate_ddl(std::slice::from_ref(op))
                .unwrap_or_else(|error| panic!("expected supported op to generate SQL: {error:?}"));
            assert!(!statements.is_empty(), "supported op should emit at least one SQL statement");
        }
    }
}

#[test]
fn malformed_payload_is_rejected_with_generate_error() {
    let dialect = PostgresDialect;
    let op = DiffOp::AddIndex(IndexDef {
        name: None,
        owner: IndexOwner::Table(qualified(Some("public"), "users")),
        columns: Vec::new(),
        unique: false,
        method: None,
        where_clause: None,
        concurrent: false,
    });

    let error = dialect.generate_ddl(&[op]).expect_err("invalid index payload should fail");

    match error {
        Error::UnsupportedDiffOp { diff_op, .. } => assert_eq!(diff_op, "AddIndex"),
        other => panic!("expected unsupported diff op error, got {other:?}"),
    }
}

#[test]
fn supported_diffop_families_generate_sql_statements() {
    let dialect = PostgresDialect;
    let supported_ops = all_diffop_variants().into_iter().filter(is_supported_diffop).collect::<Vec<_>>();

    let statements = dialect
        .generate_ddl(&supported_ops)
        .expect("supported PostgreSQL diff ops should generate SQL");

    assert!(!supported_ops.is_empty(), "fixture should include supported ops");
    assert!(!statements.is_empty(), "supported ops should emit SQL statements");
    assert!(
        statements.iter().all(|statement| matches!(statement, Statement::Sql { .. })),
        "PostgreSQL generator should emit SQL statements only"
    );
}

#[test]
fn drop_create_view_pair_uses_create_or_replace_when_compatible() {
    let dialect = PostgresDialect;
    let view_name = qualified(Some("public"), "active_users");
    let v = view(view_name.clone(), "SELECT id, email FROM users WHERE active");

    let statements = dialect
        .generate_ddl(&[DiffOp::DropView(view_name), DiffOp::CreateView(v)])
        .expect("compatible view replacement should generate SQL");

    assert_eq!(statements.len(), 1);
    let Statement::Sql { sql, .. } = &statements[0];
    assert!(sql.starts_with("CREATE OR REPLACE VIEW"));
}

#[test]
fn drop_create_view_pair_keeps_drop_create_when_not_compatible() {
    let dialect = PostgresDialect;
    let view_name = qualified(Some("public"), "active_users");
    let mut v = view(view_name.clone(), "SELECT id, email FROM users WHERE active");
    v.columns = vec![ident("id"), ident("email")];

    let statements = dialect
        .generate_ddl(&[DiffOp::DropView(view_name), DiffOp::CreateView(v)])
        .expect("incompatible view replacement should still generate SQL");

    assert_eq!(statements.len(), 2);
    let Statement::Sql { sql: first, .. } = &statements[0];
    let Statement::Sql { sql: second, .. } = &statements[1];

    assert!(first.starts_with("DROP VIEW"));
    assert!(second.starts_with("CREATE VIEW"));
    assert!(!second.starts_with("CREATE OR REPLACE VIEW"));
}

#[test]
fn to_sql_renders_table_objects() {
    let dialect = PostgresDialect;
    let mut t = table("users", Vec::new());
    t.columns.push(Column { not_null: true, ..column("id", DataType::BigInt) });

    let sql = dialect.to_sql(&SchemaObject::Table(t)).expect("to_sql should support table objects");

    assert!(sql.starts_with("CREATE TABLE"));
    assert!(sql.contains("\"id\" bigint NOT NULL"));
}

#[test]
fn connect_rejects_postgres_versions_below_13() {
    let dialect = PostgresDialect;
    let extra = vec![(
        "postgres.server_version".to_string(),
        "12.17 (Debian 12.17-1.pgdg120+1)".to_string(),
    )];
    let connection = ConnectionConfig {
        host: None,
        port: None,
        user: None,
        password: None,
        database: "stateql".to_string(),
        socket: None,
        extra,
    };

    let error = match dialect.connect(&connection) {
        Ok(_) => panic!("versions below 13 must be rejected"),
        Err(error) => error,
    };

    let source_message = match error {
        Error::Execution { message, .. } => message,
        other => panic!("expected execution error, got: {other:?}"),
    };
    assert!(source_message.contains("13+"), "expected a minimum-version error, got: {source_message}");
}

fn config_with(extra: Vec<(String, String)>) -> ConnectionConfig {
    ConnectionConfig {
        host: None,
        port: None,
        user: None,
        password: None,
        database: "stateql".to_string(),
        socket: None,
        extra,
    }
}

#[test]
fn connect_reports_an_unparsable_version_override() {
    let config = config_with(vec![("postgres.server_version".to_string(), "banana".to_string())]);
    match PostgresDialect.connect(&config) {
        Err(Error::Execution { sql, message }) => {
            assert_eq!(sql, "SHOW server_version");
            assert_eq!(message, "failed to parse postgres server version string: `banana`");
        }
        other => panic!("expected execution error, got: {other:?}"),
    }
}

#[test]
fn connect_with_accepted_or_missing_version_reports_no_session() {
    let later = config_with(vec![
        ("postgres.server_version".to_string(), "12.1".to_string()),
        ("postgres.server_version".to_string(), "16.2".to_string()),
    ]);
    for config in [later, config_with(vec![])] {
        match PostgresDialect.connect(&config) {
            Err(Error::Execution { sql, message }) => {
                assert_eq!(sql, "CONNECT postgres");
                assert_eq!(message, "postgres connect is not implemented");
            }
            other => panic!("expected execution error, got: {other:?}"),
        }
    }
}

#[test]
fn server_version_check_accepts_13_and_later() {
    assert!(check_server_version("13.0").is_ok());
    assert!(check_server_version("12.17 (Debian 12.17-1.pgdg120+1)").is_err());
}

fn generate_one(op: DiffOp) -> Vec<String> {
    sql_of(&PostgresDialect.generate_ddl(&[op]).expect("op should generate"))
}

fn refusal(op: DiffOp) -> (String, String, String) {
    match PostgresDialect.generate_ddl(&[op]).expect_err("op should be refused") {
        Error::UnsupportedDiffOp { diff_op, target, dialect } => (diff_op, target, dialect),
        other => panic!("expected unsupported diff op error, got {other:?}"),
    }
}

#[test]
fn table_statements_render_exactly() {
    let mut t = table("users", vec![
        Column {
            not_null: true,
            identity: Some(Identity {
                always: true,
                start: Some(1),
                increment: None,
                min_value: None,
                max_value: None,
                cache: Some(5),
                cycle: false,
            }),
            ..column("id", DataType::BigInt)
        },
        Column {
            collation: Some("C".to_string()),
            default: Some(Expr::Literal(Literal::String("it's".to_string()))),
            ..column("name", DataType::Varchar { length: Some(40) })
        },
    ]);
    t.primary_key = Some(PrimaryKey { name: Some(ident("users_pk")), columns: vec![ident("id")] });
    t.options.extra = vec![
        ("postgres.table.if_not_exists".to_string(), Value::Bool(true)),
        ("postgres.table.tablespace".to_string(), Value::String("fast".to_string())),
    ];
    assert_eq!(
        generate_one(DiffOp::CreateTable(t)),
        vec![
            "CREATE TABLE IF NOT EXISTS \"users\" (\"id\" bigint GENERATED ALWAYS AS IDENTITY (START WITH 1 CACHE 5 NO CYCLE) NOT NULL, \"name\" varchar(40) COLLATE \"C\" DEFAULT 'it''s', CONSTRAINT \"users_pk\" PRIMARY KEY (\"id\")) TABLESPACE \"fast\"".to_string()
        ]
    );
    assert_eq!(
        generate_one(DiffOp::AddColumn {
            table: qualified(Some("app"), "users"),
            column: column("nick", DataType::Text),
            position: Some(ColumnPosition::After(ident("name"))),
        }),
        vec!["ALTER TABLE \"app\".\"users\" ADD COLUMN \"nick\" text /* requested position: AFTER \"name\" */".to_string()]
    );
    assert_eq!(
        generate_one(DiffOp::DropPrimaryKey { table: qualified(None, "users") }),
        vec!["ALTER TABLE \"users\" DROP CONSTRAINT \"users_pkey\"".to_string()]
    );
    assert_eq!(
        generate_one(DiffOp::AlterColumn {
            table: qualified(None, "users"),
            column: ident("age"),
            changes: vec![
                ColumnChange::SetType(DataType::Array(Box::new(DataType::Integer))),
                ColumnChange::SetNotNull(false),
                ColumnChange::SetDefault(None),
                ColumnChange::SetIdentity(None),
                ColumnChange::SetGenerated(Some(GeneratedColumn { expr: Expr::Raw("a + b".to_string()), stored: true })),
                ColumnChange::SetCollation(None),
            ],
        }),
        vec![
            "ALTER TABLE \"users\" ALTER COLUMN \"age\" TYPE integer[]".to_string(),
            "ALTER TABLE \"users\" ALTER COLUMN \"age\" DROP NOT NULL".to_string(),
            "ALTER TABLE \"users\" ALTER COLUMN \"age\" DROP DEFAULT".to_string(),
            "ALTER TABLE \"users\" ALTER COLUMN \"age\" DROP IDENTITY IF EXISTS".to_string(),
            "ALTER TABLE \"users\" ALTER COLUMN \"age\" SET EXPRESSION AS (a + b) STORED".to_string(),
            "ALTER TABLE \"users\" ALTER COLUMN \"age\" TYPE TEXT".to_string(),
        ]
    );
}

#[test]
fn constraint_statements_render_exactly() {
    let fk = ForeignKey {
        name: Some(ident("fk_team")),
        columns: vec![ident("team_id")],
        referenced_table: qualified(None, "teams"),
        referenced_columns: vec![ident("id")],
        on_delete: Some(ForeignKeyAction::Cascade),
        on_update: None,
        deferrable: Some(Deferrable::Deferrable { initially_deferred: true }),
    };
    assert_eq!(
        generate_one(DiffOp::AddForeignKey { table: qualified(None, "users"), fk }),
        vec!["ALTER TABLE \"users\" ADD CONSTRAINT \"fk_team\" FOREIGN KEY (\"team_id\") REFERENCES \"teams\" (\"id\") ON DELETE CASCADE DEFERRABLE INITIALLY DEFERRED DEFERRABLE INITIALLY DEFERRED".to_string()]
    );
    let exclusion = Exclusion {
        name: Some(ident("no_overlap")),
        index_method: "gist".to_string(),
        elements: vec![ExclusionElement {
            expr: Expr::Ident(ident("room")),
            operator: "=".to_string(),
            opclass: Some("int4_ops".to_string()),
            order: Some(SortOrder::Desc),
            nulls: Some(NullsOrder::Last),
        }],
        where_clause: Some(Expr::Raw("active".to_string())),
        deferrable: Some(Deferrable::NotDeferrable),
    };
    assert_eq!(
        generate_one(DiffOp::AddExclusion { table: qualified(None, "rooms"), exclusion }),
        vec!["ALTER TABLE \"rooms\" ADD CONSTRAINT \"no_overlap\" EXCLUDE USING gist ((\"room\") WITH = int4_ops DESC NULLS LAST) WHERE (active) NOT DEFERRABLE".to_string()]
    );
    assert_eq!(
        generate_one(DiffOp::AddCheck {
            table: qualified(None, "users"),
            check: CheckConstraint { name: None, expr: Expr::Raw("age > 0".to_string()), no_inherit: true },
        }),
        vec!["ALTER TABLE \"users\" ADD CHECK (age > 0) NO INHERIT".to_string()]
    );
}

#[test]
fn index_statements_render_exactly_and_concurrent_ones_run_outside_transactions() {
    let statements = PostgresDialect
        .generate_ddl(&[DiffOp::AddIndex(index(Some("users_email_idx"), true))])
        .expect("index should render");
    let Statement::Sql { sql, transactional, context } = &statements[0];
    assert_eq!(
        sql,
        "CREATE UNIQUE INDEX CONCURRENTLY \"users_email_idx\" ON \"public\".\"users\" USING btree (\"email\") WHERE active"
    );
    assert!(!transactional);
    assert!(context.is_none());
    assert_eq!(
        generate_one(DiffOp::RenameIndex {
            owner: IndexOwner::Table(qualified(Some("public"), "users")),
            from: ident("a"),
            to: ident("b"),
        }),
        vec!["ALTER INDEX \"public\".\"a\" RENAME TO \"b\"".to_string()]
    );
}

#[test]
fn rename_table_moves_and_renames() {
    assert_eq!(
        generate_one(DiffOp::RenameTable { from: qualified(Some("a"), "t"), to: qualified(Some("b"), "u") }),
        vec![
            "ALTER TABLE \"a\".\"t\" RENAME TO \"u\"".to_string(),
            "ALTER TABLE \"a\".\"u\" SET SCHEMA \"b\"".to_string(),
        ]
    );
    assert_eq!(
        generate_one(DiffOp::RenameTable { from: qualified(Some("a"), "t"), to: qualified(Some("b"), "t") }),
        vec!["ALTER TABLE \"a\".\"t\" SET SCHEMA \"b\"".to_string()]
    );
}

#[test]
fn refused_changes_name_the_change_and_the_reason() {
    assert_eq!(
        refusal(DiffOp::RenameTable { from: qualified(None, "t"), to: qualified(None, "t") }),
        ("RenameTable".to_string(), "rename table op has no effective change".to_string(), "postgres".to_string())
    );
    assert_eq!(
        refusal(DiffOp::RenameTable { from: qualified(Some("a"), "t"), to: qualified(None, "t") }),
        ("RenameTable".to_string(), "target schema must be explicit".to_string(), "postgres".to_string())
    );
    assert_eq!(
        refusal(DiffOp::DropTrigger { name: qualified(None, "tr"), table: None }),
        ("DropTrigger".to_string(), "trigger drop requires table context".to_string(), "postgres".to_string())
    );
    assert_eq!(
        refusal(DiffOp::Revoke(privilege(Vec::new()))),
        ("Revoke".to_string(), "privilege operation list must not be empty".to_string(), "postgres".to_string())
    );
    assert_eq!(
        refusal(DiffOp::AlterTableOptions { table: qualified(None, "t"), options: no_options() }),
        ("AlterTableOptions".to_string(), "table options must include at least one extra key".to_string(), "postgres".to_string())
    );
    assert_eq!(
        refusal(DiffOp::CreateView(view(qualified(None, "v"), "   "))),
        ("CreateView".to_string(), "view query must not be empty".to_string(), "postgres".to_string())
    );
}

#[test]
fn routine_statements_render_exactly() {
    assert_eq!(
        generate_one(DiffOp::CreateSequence(sequence())),
        vec!["CREATE SEQUENCE \"public\".\"users_id_seq\" AS bigint INCREMENT BY 1 START WITH 10 NO CYCLE OWNED BY \"public\".\"users\".\"id\"".to_string()]
    );
    assert_eq!(
        generate_one(DiffOp::AlterSequence {
            name: qualified(None, "s"),
            changes: vec![SequenceChange::SetMinValue(None), SequenceChange::SetMaxValue(Some(-5)), SequenceChange::SetCycle(true)],
        }),
        vec!["ALTER SEQUENCE \"s\" NO MINVALUE MAXVALUE -5 CYCLE".to_string()]
    );
    assert_eq!(
        generate_one(DiffOp::CreateFunction(function("SELECT x + 1"))),
        vec!["CREATE FUNCTION \"add_one\"(IN \"x\" integer DEFAULT 0) RETURNS integer LANGUAGE sql IMMUTABLE SECURITY INVOKER AS $stateql$SELECT x + 1$stateql$".to_string()]
    );
    assert_eq!(
        generate_one(DiffOp::CreateTrigger(Trigger {
            name: qualified(Some("app"), "audit"),
            table: qualified(None, "users"),
            timing: TriggerTiming::InsteadOf,
            events: vec![TriggerEvent::Insert, TriggerEvent::Update],
            for_each: TriggerForEach::Statement,
            when_clause: Some(Expr::Raw("true".to_string())),
            body: "EXECUTE FUNCTION audit()".to_string(),
        })),
        vec!["CREATE TRIGGER \"audit\" INSTEAD OF INSERT OR UPDATE ON \"users\" FOR EACH STATEMENT WHEN (true) EXECUTE FUNCTION audit()".to_string()]
    );
}

#[test]
fn dollar_quoting_picks_a_tag_absent_from_the_body() {
    assert_eq!(render_dollar_quoted("SELECT 1"), "$stateql$SELECT 1$stateql$");
    assert_eq!(
        render_dollar_quoted("a $stateql$ b"),
        "$stateql_$a $stateql$ b$stateql_$"
    );
    assert_eq!(
        render_dollar_quoted("$stateql$$stateql_$"),
        "$stateql__$$stateql$$stateql_$$stateql__$"
    );
}

#[test]
fn object_statements_render_exactly() {
    assert_eq!(
        generate_one(DiffOp::CreateType(TypeDef {
            name: qualified(None, "mood"),
            kind: TypeKind::Enum { labels: vec!["happy".to_string(), "it's".to_string()] },
        })),
        vec!["CREATE TYPE \"mood\" AS ENUM ('happy', 'it''s')".to_string()]
    );
    assert_eq!(
        generate_one(DiffOp::CreateType(TypeDef {
            name: qualified(None, "pair"),
            kind: TypeKind::Composite { fields: vec![(ident("a"), DataType::Integer), (ident("b"), DataType::Text)] },
        })),
        vec!["CREATE TYPE \"pair\" AS (\"a\" integer, \"b\" text)".to_string()]
    );
    assert_eq!(
        generate_one(DiffOp::AlterType {
            name: qualified(None, "mood"),
            change: TypeChange::AddValue { value: "meh".to_string(), position: Some(EnumValuePosition::Before("happy".to_string())) },
        }),
        vec!["ALTER TYPE \"mood\" ADD VALUE 'meh' BEFORE 'happy'".to_string()]
    );
    assert_eq!(
        generate_one(DiffOp::CreateDomain(Domain {
            name: qualified(None, "positive"),
            data_type: DataType::Integer,
            default: Some(Expr::Literal(Literal::Integer(1))),
            not_null: true,
            checks: vec![CheckConstraint { name: Some(ident("pos")), expr: Expr::Raw("VALUE > 0".to_string()), no_inherit: false }],
        })),
        vec!["CREATE DOMAIN \"positive\" AS integer DEFAULT 1 NOT NULL CONSTRAINT \"pos\" CHECK (VALUE > 0)".to_string()]
    );
    assert_eq!(
        generate_one(DiffOp::AlterDomain {
            name: qualified(None, "positive"),
            change: DomainChange::AddConstraint { name: None, check: Expr::Raw("VALUE < 10".to_string()) },
        }),
        vec!["ALTER DOMAIN \"positive\" ADD CHECK (VALUE < 10)".to_string()]
    );
    assert_eq!(
        generate_one(DiffOp::CreateExtension(Extension {
            name: ident("pgcrypto"),
            schema: Some(ident("ext")),
            version: Some("1.3".to_string()),
        })),
        vec!["CREATE EXTENSION \"pgcrypto\" WITH SCHEMA \"ext\" VERSION '1.3'".to_string()]
    );
    assert_eq!(
        generate_one(DiffOp::SetComment(Comment {
            target: CommentTarget::Column { table: qualified(None, "users"), column: ident("id") },
            text: None,
        })),
        vec!["COMMENT ON COLUMN \"users\".\"id\" IS NULL".to_string()]
    );
    assert_eq!(
        generate_one(DiffOp::Grant(privilege(vec![PrivilegeOp::Select, PrivilegeOp::Update]))),
        vec!["GRANT SELECT, UPDATE ON TABLE \"users_view\" TO \"reader\" WITH GRANT OPTION".to_string()]
    );
    assert_eq!(
        generate_one(DiffOp::Revoke(privilege(vec![PrivilegeOp::All]))),
        vec!["REVOKE ALL ON TABLE \"users_view\" FROM \"reader\"".to_string()]
    );
    assert_eq!(
        generate_one(DiffOp::CreatePolicy(policy())),
        vec!["CREATE POLICY \"own_rows\" ON \"users\" AS RESTRICTIVE FOR SELECT TO PUBLIC USING (owner = current_user)".to_string()]
    );
    assert_eq!(
        generate_one(DiffOp::AlterTableOptions {
            table: qualified(None, "t"),
            options: TableOptions {
                extra: vec![("fillfactor".to_string(), Value::Integer(70)), ("autovacuum_enabled".to_string(), Value::Bool(false))],
                ..no_options()
            },
        }),
        vec!["ALTER TABLE \"t\" SET (fillfactor = 70, autovacuum_enabled = false)".to_string()]
    );
}

#[test]
fn expressions_render_fully_parenthesized() {
    let cast = Expr::Cast { expr: Box::new(Expr::Ident(ident("x"))), data_type: DataType::Text };
    assert_eq!(render_expr(&cast), "(\"x\"::text)");
    let cmp = Expr::Comparison {
        left: Box::new(Expr::Ident(ident("a"))),
        op: stateql::ir::ComparisonOp::NotEqual,
        right: Box::new(Expr::Literal(Literal::Boolean(true))),
        quantifier: None,
    };
    assert_eq!(render_expr(&cmp), "(\"a\" <> TRUE)");
    let between = Expr::Between {
        expr: Box::new(Expr::Ident(ident("n"))),
        low: Box::new(Expr::Literal(Literal::Integer(1))),
        high: Box::new(Expr::Literal(Literal::Integer(9))),
        negated: true,
    };
    assert_eq!(render_expr(&between), "(\"n\" NOT BETWEEN 1 AND 9)");
    let array = Expr::ArrayConstructor(vec![Expr::Null, Expr::Literal(Literal::String("o'k".to_string()))]);
    assert_eq!(render_expr(&array), "ARRAY[NULL, 'o''k']");
    assert_eq!(quote_string("it's"), "'it''s'");
}

#[test]
fn to_sql_renders_partitions_after_their_table() {
    let mut t = table("events", vec![column("id", DataType::Integer)]);
    t.partition = Some(partition());
    let sql = PostgresDialect.to_sql(&SchemaObject::Table(t)).expect("table should render");
    assert_eq!(
        sql,
        "CREATE TABLE \"events\" (\"id\" integer) PARTITION BY RANGE (\"id\");\nCREATE TABLE \"events_p1\" PARTITION OF \"events\" FOR VALUES FROM (1) TO (100);"
    );
    let error = PostgresDialect
        .to_sql(&SchemaObject::Index(index(None, false)))
        .expect_err("an unnamed index is refused");
    match error {
        Error::UnsupportedDiffOp { diff_op, .. } => assert_eq!(diff_op, "AddIndex"),
        other => panic!("unexpected error {other:?}"),
    }
}

#[test]
fn refused_op_leaves_the_statements_as_they_were() {
    let mut out: Vec<Statement> = Vec::new();
    let op = DiffOp::DropTrigger { name: qualified(None, "trg"), table: None };
    match emit_op("postgres", &op, &mut out) {
        Err(Error::UnsupportedDiffOp { diff_op, target, dialect }) => {
            assert_eq!(diff_op, "DropTrigger");
            assert_eq!(target, "trigger drop requires table context");
            assert_eq!(dialect, "postgres");
        }
        other => panic!("expected unsupported diff op error, got {other:?}"),
    }
    assert!(out.is_empty());
}
