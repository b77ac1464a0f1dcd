use stateql::error::Error;
use stateql::ir::{
    BinaryOperator, Column, ComparisonOp, DataType, Expr, ForeignKey, ForeignKeyAction, Function,
    GeneratedColumn, Identity, IndexColumn, IndexDef, IndexOwner, IsTest, Literal, PrimaryKey,
    SchemaObject, SetQuantifier, SubQuery, Table, TableOptions, Trigger, TriggerEvent,
    TriggerForEach, TriggerTiming, Value, View, WindowSpec,
};
use stateql::schema::{Ident, QualifiedName};
use stateql::sqlite::to_sql::{render_expr, render_object};

const DIALECT: &str = "sqlite";

fn ident(value: &str) -> Ident {
    Ident { value: value.to_string(), quoted: false }
}

fn qualified(schema: Option<&str>, name: &str) -> QualifiedName {
    QualifiedName { schema: schema.map(ident), name: ident(name) }
}

fn column(name: &str, data_type: DataType, not_null: bool) -> Column {
    Column {
        name: ident(name),
        data_type,
        not_null,
        default: None,
        identity: None,
        generated: None,
        collation: None,
        auto_increment_hint: None,
        identity_hint: None,
        generated_hint: None,
    }
}

fn no_options() -> TableOptions {
    TableOptions { without_rowid: None, strict: None, source_sql: None, partition_sql: None, extra: Vec::new() }
}

fn users_table() -> Table {
    Table {
        name: qualified(None, "users"),
        columns: vec![column("id", DataType::Integer, true)],
        primary_key: None,
        foreign_keys: Vec::new(),
        checks: Vec::new(),
        exclusions: Vec::new(),
        partition: None,
        options: no_options(),
        renamed_from: None,
    }
}

fn supported_objects() -> Vec<SchemaObject> {
    let view = View {
        name: qualified(None, "users_view"),
        columns: vec![ident("id")],
        query: "SELECT id FROM users".to_string(),
        check_option: None,
        security: None,
        renamed_from: None,
    };
    let index = IndexDef {
        name: Some(ident("idx_users_id")),
        owner: IndexOwner::Table(qualified(None, "users")),
        columns: vec![IndexColumn { expr: Expr::Ident(ident("id")) }],
        unique: false,
        method: None,
        concurrent: false,
        where_clause: None,
    };
    let trigger = Trigger {
        name: qualified(None, "users_insert_log"),
        table: qualified(None, "users"),
        timing: TriggerTiming::After,
        events: vec![TriggerEvent::Insert],
        for_each: TriggerForEach::Row,
        when_clause: None,
        body: "BEGIN SELECT 1; END".to_string(),
    };
    vec![
        SchemaObject::Table(users_table()),
        SchemaObject::View(view),
        SchemaObject::Index(index),
        SchemaObject::Trigger(trigger),
    ]
}

fn unsupported_objects() -> Vec<SchemaObject> {
    vec![
        SchemaObject::Sequence(fx_sequence()),
        SchemaObject::Function(Function {
            name: qualified(None, "f"),
            params: vec![],
            return_type: Some(DataType::Integer),
            language: "sql".to_string(),
            body: "SELECT 1".to_string(),
            volatility: None,
            security: None,
        }),
        SchemaObject::Type(fx_type()),
        SchemaObject::Domain(fx_domain()),
        SchemaObject::Extension(fx_extension()),
        SchemaObject::Schema(fx_schema()),
        SchemaObject::Comment(fx_comment()),
        SchemaObject::Privilege(fx_privilege()),
        SchemaObject::Policy(fx_policy()),
    ]
}

#[test]
fn to_sql_supports_sqlite_variants_and_rejects_unsupported_variants() {
    let supported_sql = supported_objects()
        .iter()
        .map(|object| {
            let sql = render_object(DIALECT, object).expect("supported sqlite objects must render to SQL");
            assert!(!sql.trim().is_empty(), "supported sqlite object produced empty SQL");
            sql
        })
        .collect::<Vec<_>>();

    let connection = rusqlite::Connection::open_in_memory().expect("in-memory database");
    for sql in &supported_sql {
        connection
            .execute_batch(sql)
            .unwrap_or_else(|error| panic!("rendered SQL must execute successfully: {sql}\n{error}"));
    }

    for object in unsupported_objects() {
        let error = render_object(DIALECT, &object).expect_err("unsupported sqlite object must return an explicit error");
        match error {
            Error::UnsupportedDiffOp { .. } => {}
            other => panic!("expected generate unsupported error, got {other:?}"),
        }
    }
}

#[test]
fn unsupported_object_error_names_the_variant() {
    let error = render_object(DIALECT, &SchemaObject::MaterializedView(fx_materialized_view())).expect_err("refused");
    assert_eq!(
        error,
        Error::UnsupportedDiffOp {
            diff_op: "ToSql::MaterializedView".to_string(),
            target: "dialect export renderer".to_string(),
            dialect: "sqlite".to_string(),
        }
    );
}

#[test]
fn table_renders_columns_keys_checks_and_options() {
    let mut table = users_table();
    table.columns.push(Column {
        default: Some(Expr::Literal(Literal::String("a\"b".to_string()))),
        collation: Some("NOCASE".to_string()),
        ..column("na\"me", DataType::Varchar { length: Some(20) }, false)
    });
    table.columns.push(Column {
        identity: Some(Identity { always: true, start: None, increment: None, min_value: None, max_value: None, cache: None, cycle: false }),
        ..column("serial", DataType::BigInt, false)
    });
    table.columns.push(Column {
        generated: Some(GeneratedColumn { expr: Expr::Raw(" id * 2 ".to_string()), stored: false }),
        ..column("twice", DataType::Numeric { precision: Some(10), scale: Some(2) }, false)
    });
    table.primary_key = Some(PrimaryKey { name: None, columns: vec![ident("id")] });
    table.foreign_keys.push(ForeignKey {
        name: None,
        columns: vec![ident("id")],
        referenced_table: qualified(Some("main"), "teams"),
        referenced_columns: vec![ident("id"), ident("x")],
        on_delete: Some(ForeignKeyAction::Cascade),
        on_update: Some(ForeignKeyAction::SetNull),
        deferrable: None,
    });
    table.checks.push(stateql::ir::CheckConstraint { name: None, expr: Expr::Raw("id > 0".to_string()), no_inherit: false });
    table.options.without_rowid = Some(Value::Bool(true));
    table.options.strict = Some(Value::Bool(true));

    let sql = render_object(DIALECT, &SchemaObject::Table(table)).expect("renders");
    assert_eq!(
        sql,
        "CREATE TABLE \"users\" (\"id\" INTEGER NOT NULL, \"na\"\"me\" TEXT DEFAULT 'a\"b' COLLATE \"NOCASE\", \
\"serial\" INTEGER GENERATED ALWAYS AS IDENTITY, \"twice\" NUMERIC(10, 2) GENERATED ALWAYS AS (id * 2) VIRTUAL, \
PRIMARY KEY (\"id\"), FOREIGN KEY (\"id\") REFERENCES \"main\".\"teams\" (\"id\", \"x\") ON DELETE CASCADE ON UPDATE SET NULL, \
CHECK (id > 0)) WITHOUT ROWID STRICT;"
    );
}

#[test]
fn bare_table_is_written_from_its_source_statement() {
    let mut table = users_table();
    table.columns.clear();
    table.options.source_sql = Some(Value::String("  CREATE TABLE x (a)  ".to_string()));
    let sql = render_object(DIALECT, &SchemaObject::Table(table)).expect("renders");
    assert_eq!(sql, "CREATE TABLE x (a);");

    let mut bare = users_table();
    bare.columns.clear();
    let error = render_object(DIALECT, &SchemaObject::Table(bare)).expect_err("nothing to render");
    assert_eq!(
        error,
        Error::UnsupportedDiffOp {
            diff_op: "ToSql::CreateTableUnsupportedShape".to_string(),
            target: "dialect export renderer".to_string(),
            dialect: "sqlite".to_string(),
        }
    );
}

#[test]
fn trigger_body_is_wrapped_in_begin_end_when_needed() {
    let trigger = Trigger {
        name: qualified(None, "t1"),
        table: qualified(None, "users"),
        timing: TriggerTiming::InsteadOf,
        events: vec![TriggerEvent::Update, TriggerEvent::Delete],
        for_each: TriggerForEach::Row,
        when_clause: Some(Expr::Is { expr: Box::new(Expr::Ident(ident("x"))), test: IsTest::NotNull }),
        body: "  SELECT 1;; ".to_string(),
    };
    let sql = render_object(DIALECT, &SchemaObject::Trigger(trigger)).expect("renders");
    assert_eq!(
        sql,
        "CREATE TRIGGER \"t1\" INSTEAD OF UPDATE OR DELETE ON \"users\" WHEN \"x\" IS NOT NULL FOR EACH ROW BEGIN SELECT 1 END;"
    );
}

#[test]
fn statement_level_trigger_and_unnamed_index_are_refused() {
    let trigger = Trigger {
        name: qualified(None, "t1"),
        table: qualified(None, "users"),
        timing: TriggerTiming::Before,
        events: vec![TriggerEvent::Insert],
        for_each: TriggerForEach::Statement,
        when_clause: None,
        body: "SELECT 1".to_string(),
    };
    assert!(render_object(DIALECT, &SchemaObject::Trigger(trigger)).is_err());
    let index = IndexDef {
        name: None,
        owner: IndexOwner::Table(qualified(None, "users")),
        columns: vec![IndexColumn { expr: Expr::Ident(ident("id")) }],
        unique: true,
        method: None,
        concurrent: false,
        where_clause: None,
    };
    let error = render_object(DIALECT, &SchemaObject::Index(index)).expect_err("unnamed");
    assert_eq!(
        error,
        Error::UnsupportedDiffOp {
            diff_op: "ToSql::CreateIndexUnsupportedShape".to_string(),
            target: "dialect export renderer".to_string(),
            dialect: "sqlite".to_string(),
        }
    );
}

#[test]
fn expressions_render_with_sqlite_spelling() {
    let e = Expr::Function {
        name: "count".to_string(),
        args: vec![Expr::Ident(ident("id"))],
        distinct: true,
        over: Some(WindowSpec {
            partition_by: vec![Expr::Ident(ident("team"))],
            order_by: vec![Expr::Ident(ident("id")), Expr::Literal(Literal::Integer(2))],
        }),
    };
    assert_eq!(
        render_expr(&e),
        "count(DISTINCT \"id\") OVER (PARTITION BY \"team\" ORDER BY \"id\", 2)"
    );

    let e = Expr::Case {
        operand: None,
        when_clauses: vec![(
            Expr::Comparison {
                left: Box::new(Expr::Ident(ident("a"))),
                op: ComparisonOp::ILike,
                right: Box::new(Expr::Literal(Literal::String("x%".to_string()))),
                quantifier: Some(SetQuantifier::SomeOf),
            },
            Expr::Literal(Literal::Boolean(true)),
        )],
        else_clause: Some(Box::new(Expr::Literal(Literal::Value(Value::Null)))),
    };
    assert_eq!(render_expr(&e), "CASE WHEN \"a\" LIKE 'x%' SOME THEN 1 ELSE NULL END");

    let e = Expr::Between {
        expr: Box::new(Expr::BinaryOp {
            left: Box::new(Expr::Literal(Literal::Integer(i64::MIN))),
            op: BinaryOperator::StringConcat,
            right: Box::new(Expr::Literal(Literal::Float("1.5".to_string()))),
        }),
        low: Box::new(Expr::Null),
        high: Box::new(Expr::Exists(SubQuery { sql: " SELECT 1 ".to_string() })),
        negated: true,
    };
    assert_eq!(
        render_expr(&e),
        "-9223372036854775808 || 1.5 NOT BETWEEN NULL AND EXISTS (SELECT 1)"
    );

    let e = Expr::In {
        expr: Box::new(Expr::QualifiedIdent { qualifier: ident("t"), name: ident("c") }),
        list: vec![
            Expr::Cast { expr: Box::new(Expr::Raw(" 1 ".to_string())), data_type: DataType::Custom(" big  int ".to_string()) },
            Expr::Tuple(vec![]),
        ],
        negated: false,
    };
    assert_eq!(render_expr(&e), "\"t\".\"c\" IN (CAST(1 AS BIG  INT), ())");
}

fn fx_ident(value: &str) -> Ident {
    Ident { value: value.to_string(), quoted: false }
}

fn fx_name(name: &str) -> QualifiedName {
    QualifiedName { schema: None, name: fx_ident(name) }
}

fn fx_options() -> stateql::ir::TableOptions {
    stateql::ir::TableOptions {
        without_rowid: None,
        strict: None,
        source_sql: None,
        partition_sql: None,
        extra: Vec::new(),
    }
}

fn fx_materialized_view() -> stateql::ir::MaterializedView {
    stateql::ir::MaterializedView {
        name: fx_name("mv"),
        columns: Vec::new(),
        query: "SELECT 1".to_string(),
        options: fx_options(),
    }
}

fn fx_sequence() -> stateql::ir::Sequence {
    stateql::ir::Sequence {
        name: fx_name("seq"),
        data_type: None,
        increment: None,
        min_value: None,
        max_value: None,
        start: None,
        cache: None,
        cycle: false,
        owned_by: None,
    }
}

fn fx_type() -> stateql::ir::TypeDef {
    stateql::ir::TypeDef {
        name: fx_name("mood"),
        kind: stateql::ir::TypeKind::Enum { labels: vec!["happy".to_string()] },
    }
}

fn fx_domain() -> stateql::ir::Domain {
    stateql::ir::Domain {
        name: fx_name("positive"),
        data_type: stateql::ir::DataType::Integer,
        default: None,
        not_null: false,
        checks: Vec::new(),
    }
}

fn fx_extension() -> stateql::ir::Extension {
    stateql::ir::Extension { name: fx_ident("pgcrypto"), schema: None, version: None }
}

fn fx_schema() -> stateql::ir::SchemaDef {
    stateql::ir::SchemaDef { name: fx_ident("app") }
}

fn fx_comment() -> stateql::ir::Comment {
    stateql::ir::Comment {
        target: stateql::ir::CommentTarget::Table(fx_name("users")),
        text: Some("people".to_string()),
    }
}

fn fx_privilege() -> stateql::ir::Privilege {
    stateql::ir::Privilege {
        operations: vec![stateql::ir::PrivilegeOp::Select],
        on: stateql::ir::PrivilegeObject::Table(fx_name("users")),
        grantee: fx_ident("reader"),
        with_grant_option: false,
    }
}

fn fx_policy() -> stateql::ir::Policy {
    stateql::ir::Policy {
        name: fx_ident("own_rows"),
        table: fx_name("users"),
        permissive: true,
        command: None,
        roles: Vec::new(),
        using_expr: None,
        check_expr: None,
    }
}
