use stateql::common::fragment_between;
use stateql::error::Error;
use stateql::schema::Ident;
use stateql::ir::{DataType, Expr, SchemaObject, Value};
use stateql::postgres::definitions::{
    TABLESPACE_KEY, TABLE_ACCESS_METHOD_KEY, TABLE_IF_NOT_EXISTS_KEY,
};
use stateql::postgres::parser::{
    convert_column, convert_create_table, convert_data_type, convert_statements,
    parse_annotated_schema, parse_schema, statement_end_offset, statement_metadata,
    statement_start_offset, ColumnDefModel, CreateStmtModel, NodeKind, RangeVarModel,
    RawStatementModel, RawStatementSpan, StatementNode, TableElementModel, TypeNameModel,
};

fn span(stmt_location: i32, stmt_len: i32) -> RawStatementSpan {
    RawStatementSpan { stmt_location, stmt_len }
}

fn type_of(parts: &[&str], array: bool) -> TypeNameModel {
    TypeNameModel {
        names: parts.iter().map(|p| Some(p.to_string())).collect(),
        has_array_bounds: array,
    }
}

fn column(name: &str, t: Option<TypeNameModel>) -> ColumnDefModel {
    ColumnDefModel {
        colname: name.to_string(),
        column_type: t,
        raw_default: None,
        identity: String::new(),
        generated: String::new(),
        is_not_null: false,
    }
}

fn create(relation: Option<(&str, &str)>, elts: Vec<Option<TableElementModel>>) -> CreateStmtModel {
    CreateStmtModel {
        relation: relation.map(|(schema, name)| RangeVarModel {
            schemaname: schema.to_string(),
            relname: name.to_string(),
        }),
        table_elts: elts,
        if_not_exists: false,
        access_method: String::new(),
        tablespacename: String::new(),
    }
}

#[test]
fn statement_offsets_follow_locations_and_lengths() {
    let sql = "CREATE TABLE a (id int);\n\n  CREATE TABLE b (id int);";
    let spans = vec![span(0, 23), span(24, 0)];
    assert_eq!(statement_start_offset(&spans[0]), 0);
    assert_eq!(statement_end_offset(sql, &spans, 0, 0), 23);
    assert_eq!(statement_start_offset(&spans[1]), 24);
    assert_eq!(statement_end_offset(sql, &spans, 1, 24), sql.len());
    assert_eq!(statement_start_offset(&span(-3, 0)), 0);
    let fragment: String = fragment_between(sql, 0, 23).into_iter().collect();
    assert_eq!(fragment, "CREATE TABLE a (id int)");
    let whole: String = fragment_between(sql, 30, 10).into_iter().collect();
    assert_eq!(whole, sql);

    let first = statement_metadata(sql, &spans, 0);
    assert_eq!(first.source_sql, "CREATE TABLE a (id int)");
    assert_eq!(first.line, 1);
    let second = statement_metadata(sql, &spans, 1);
    assert_eq!(second.source_sql, "CREATE TABLE b (id int);");
    assert_eq!(second.line, 3);
}

#[test]
fn length_falls_back_to_next_statement_start() {
    let sql = "SELECT 1; SELECT 2;";
    let spans = vec![span(0, 0), span(9, 0)];
    assert_eq!(statement_end_offset(sql, &spans, 0, 0), 9);
    assert_eq!(statement_end_offset(sql, &spans, 1, 9), sql.len());
    assert_eq!(statement_end_offset(sql, &spans, 1, 40), sql.len());
}

#[test]
fn data_types_map_builtin_names_and_keep_custom_ones() {
    assert!(matches!(convert_data_type(&type_of(&["pg_catalog", "int8"], false)).unwrap(), DataType::BigInt));
    assert!(matches!(convert_data_type(&type_of(&["TEXT"], false)).unwrap(), DataType::Text));
    assert!(matches!(
        convert_data_type(&type_of(&["pg_catalog", "varchar"], false)).unwrap(),
        DataType::Varchar { length: None }
    ));
    assert!(matches!(
        convert_data_type(&type_of(&["int4"], true)).unwrap(),
        DataType::Array(inner) if matches!(*inner, DataType::Integer)
    ));
    assert!(matches!(
        convert_data_type(&type_of(&["public", "mood"], false)).unwrap(),
        DataType::Custom(c) if c == "public.mood"
    ));
    let empty = TypeNameModel { names: vec![None], has_array_bounds: false };
    assert_eq!(convert_data_type(&empty).unwrap_err().message, "type name has no identifiers");
}

#[test]
fn columns_carry_default_and_mode_hints() {
    let mut c = column("id", Some(type_of(&["int8"], false)));
    c.is_not_null = true;
    c.raw_default = Some(Ok("nextval('s'::regclass)".to_string()));
    c.identity = "a".to_string();
    let col = convert_column(&c).unwrap();
    assert_eq!(col.name.value, "id");
    assert!(!col.name.quoted);
    assert!(col.not_null);
    assert!(matches!(col.data_type, DataType::BigInt));
    assert!(matches!(&col.default, Some(Expr::Raw(d)) if d == "nextval('s'::regclass)"));
    assert!(matches!(&col.identity_hint, Some(Value::String(m)) if m == "a"));
    assert!(col.generated_hint.is_none());

    let missing = column("name", None);
    assert_eq!(convert_column(&missing).unwrap_err().message, "column name is missing type information");
    let mut bad_default = column("n", Some(type_of(&["int4"], false)));
    bad_default.raw_default = Some(Err("boom".to_string()));
    assert_eq!(
        convert_column(&bad_default).unwrap_err().message,
        "column n default expression deparse failed: boom"
    );
}

#[test]
fn create_table_converts_columns_and_options() {
    let mut stmt = create(
        Some(("app", "users")),
        vec![
            Some(TableElementModel::ColumnDef(column("id", Some(type_of(&["int8"], false))))),
            Some(TableElementModel::ColumnDef(column("email", Some(type_of(&["text"], false))))),
        ],
    );
    stmt.if_not_exists = true;
    stmt.access_method = "heap".to_string();
    stmt.tablespacename = "fast".to_string();
    let table = convert_create_table(&stmt).unwrap();
    assert_eq!(table.name.schema.as_ref().map(|s| s.value.as_str()), Some("app"));
    assert_eq!(table.name.name.value, "users");
    assert_eq!(table.columns.len(), 2);
    assert_eq!(table.columns[1].name.value, "email");
    let keys: Vec<&str> = table.options.extra.iter().map(|(k, _)| k.as_str()).collect();
    assert_eq!(keys, vec![TABLE_ACCESS_METHOD_KEY, TABLE_IF_NOT_EXISTS_KEY, TABLESPACE_KEY]);
    assert!(matches!(&table.options.extra[0].1, Value::String(v) if v == "heap"));
    assert!(matches!(table.options.extra[1].1, Value::Bool(true)));
    assert!(matches!(&table.options.extra[2].1, Value::String(v) if v == "fast"));

    let plain = convert_create_table(&create(Some(("", "t")), vec![])).unwrap();
    assert!(plain.name.schema.is_none());
    assert!(plain.options.extra.is_empty());
}

#[test]
fn create_table_reports_first_unsupported_element() {
    let missing = create(None, vec![]);
    assert_eq!(convert_create_table(&missing).unwrap_err().message, "CREATE TABLE is missing relation");
    let constraint = create(
        Some(("", "t")),
        vec![
            Some(TableElementModel::ColumnDef(column("id", Some(type_of(&["int8"], false))))),
            Some(TableElementModel::Constraint),
            None,
        ],
    );
    assert_eq!(
        convert_create_table(&constraint).unwrap_err().message,
        "unsupported CREATE TABLE element kind: Constraint"
    );
    let no_node = create(Some(("", "t")), vec![None, Some(TableElementModel::Constraint)]);
    assert_eq!(
        convert_create_table(&no_node).unwrap_err().message,
        "CREATE TABLE element is missing node payload"
    );
    let other = create(Some(("", "t")), vec![Some(TableElementModel::Other(NodeKind::IndexStmt))]);
    assert_eq!(
        convert_create_table(&other).unwrap_err().message,
        "unsupported CREATE TABLE element kind: IndexStmt"
    );
}

#[test]
fn statements_convert_until_the_first_unsupported_one() {
    let sql = "CREATE TABLE a (id int8);\nCREATE VIEW v AS SELECT 1;";
    let table = create(
        Some(("", "a")),
        vec![Some(TableElementModel::ColumnDef(column("id", Some(type_of(&["int8"], false)))))],
    );
    let stmts = vec![
        RawStatementModel { span: span(0, 24), node: Some(StatementNode::CreateStmt(table)) },
        RawStatementModel { span: span(25, 0), node: Some(StatementNode::Other(NodeKind::ViewStmt)) },
    ];
    match convert_statements(sql, &stmts) {
        Err(Error::StatementConversion { statement_index, source_sql, line, message }) => {
            assert_eq!(statement_index, 1);
            assert_eq!(source_sql, "CREATE VIEW v AS SELECT 1;");
            assert_eq!(line, Some(2));
            assert_eq!(message, "unsupported PostgreSQL statement kind: ViewStmt");
        }
        other => panic!("expected a statement conversion error, got {other:?}"),
    }
    let only_table = vec![stmts.into_iter().next().unwrap()];
    let objects = convert_statements(sql, &only_table).unwrap();
    assert_eq!(objects.len(), 1);
    assert!(matches!(&objects[0], SchemaObject::Table(t) if t.name.name.value == "a"));
}

#[test]
fn parser_failure_is_reported_on_the_first_line() {
    match parse_schema("CREATE TABL x;", Err("syntax error at or near \"TABL\"".to_string())) {
        Err(Error::StatementConversion { statement_index, source_sql, line, message }) => {
            assert_eq!(statement_index, 0);
            assert_eq!(source_sql, "CREATE TABL x;");
            assert_eq!(line, Some(1));
            assert_eq!(message, "syntax error at or near \"TABL\"");
        }
        other => panic!("expected a statement conversion error, got {other:?}"),
    }
    let missing = vec![RawStatementModel { span: span(0, 0), node: None }];
    match parse_schema("SELECT 1", Ok(missing)) {
        Err(Error::StatementConversion { message, .. }) => assert_eq!(message, "missing statement node"),
        other => panic!("expected a statement conversion error, got {other:?}"),
    }
}

fn users_statement(location: i32, len: i32) -> RawStatementModel {
    let table = create(
        Some(("", "users")),
        vec![Some(TableElementModel::ColumnDef(column("id", Some(type_of(&["int8"], false)))))],
    );
    RawStatementModel { span: span(location, len), node: Some(StatementNode::CreateStmt(table)) }
}

#[test]
fn trailing_renamed_annotation_is_attached_to_postgres_table() {
    let sql = "CREATE TABLE users (id bigint); -- @renamed from=legacy_users\n";
    let objects = parse_annotated_schema(sql, Ok(vec![users_statement(0, 30)]))
        .expect("annotated parse");
    assert_eq!(objects.len(), 1);
    let SchemaObject::Table(table) = &objects[0] else {
        panic!("expected table object");
    };
    assert_eq!(table.name.name.value, "users");
    assert_eq!(
        table.renamed_from,
        Some(Ident { value: "legacy_users".to_string(), quoted: false })
    );
}

#[test]
fn orphan_renamed_annotation_fails_fast_for_postgres() {
    let sql = "CREATE TABLE users (id bigint);\n-- @renamed from=legacy_users\n";
    match parse_annotated_schema(sql, Ok(vec![users_statement(0, 30)])) {
        Err(Error::ObjectComparison { target, operation }) => {
            assert_eq!(target, "annotation @renamed from=legacy_users on line 2");
            assert_eq!(operation, "rename annotation mismatch");
        }
        other => panic!("expected orphan annotation mismatch, got {other:?}"),
    }
}

#[test]
fn annotated_parse_reports_parser_errors_on_the_text_without_annotations() {
    let sql = "CREATE TABL x; -- @renamed from=y\n";
    match parse_annotated_schema(sql, Err("syntax error".to_string())) {
        Err(Error::StatementConversion { statement_index, source_sql, line, message }) => {
            assert_eq!(statement_index, 0);
            assert_eq!(source_sql, "CREATE TABL x; \n");
            assert_eq!(line, Some(1));
            assert_eq!(message, "syntax error");
        }
        other => panic!("expected a statement conversion error, got {other:?}"),
    }
}
