use stateql::error::Error;
use stateql::ir::{DataType, Expr, SchemaObject, View};
use stateql::normalize::normalize_expr;
use stateql::schema::{Ident, QualifiedName};
use stateql::sqlite::adapter::{assemble_export, check_server_version, ensure_minimum_version};
use stateql::sqlite::export_queries::{SHOW_SERVER_VERSION_QUERY, TABLE_NAMES_QUERY};
use stateql::sqlite::normalize::{collapse_spaces, normalize_custom_type, normalize_object};
use stateql::version::Version;

#[test]
fn connect_rejects_sqlite_versions_below_3_35() {
    let error = check_server_version("3.34.9").expect_err("versions below 3.35 must be rejected");
    let source_message = match error {
        Error::Execution { message, .. } => message,
        other => panic!("expected execution error, got: {other:?}"),
    };
    assert!(source_message.contains("3.35+"), "expected minimum-version error, got: {source_message}");
}

#[test]
fn server_version_gate_accepts_3_35_and_later() {
    assert_eq!(check_server_version("3.35.0"), Ok(Version { major: 3, minor: 35, patch: 0 }));
    assert_eq!(check_server_version("3.45.1 extra"), Ok(Version { major: 3, minor: 45, patch: 1 }));
    assert!(ensure_minimum_version(&Version { major: 4, minor: 0, patch: 0 }, "4.0").is_ok());
    assert_eq!(
        check_server_version("x3"),
        Err(Error::Execution {
            sql: SHOW_SERVER_VERSION_QUERY.to_string(),
            message: "failed to parse sqlite server version string: `x3`".to_string(),
        })
    );
    assert_eq!(
        check_server_version("2.9"),
        Err(Error::Execution {
            sql: "SELECT sqlite_version()".to_string(),
            message: "sqlite server version `2.9` is not supported; requires 3.35+".to_string(),
        })
    );
}

#[test]
fn table_query_excludes_sqlite_internal_tables() {
    assert!(TABLE_NAMES_QUERY.contains("tbl_name NOT LIKE 'sqlite_%'"));
}

#[test]
fn export_joins_terminated_statements_in_order() {
    let text = assemble_export(
        &vec!["CREATE TABLE a (x)".to_string(), " CREATE TABLE b (y); ".to_string()],
        &vec!["CREATE VIEW v AS SELECT 1".to_string()],
        &vec![],
        &vec!["CREATE TRIGGER t AFTER INSERT ON a BEGIN SELECT 1; END".to_string()],
    );
    assert_eq!(
        text,
        "CREATE TABLE a (x);\n\nCREATE TABLE b (y);\n\nCREATE VIEW v AS SELECT 1;\n\nCREATE TRIGGER t AFTER INSERT ON a BEGIN SELECT 1; END;"
    );
}

#[test]
fn custom_types_resolve_by_sqlite_affinity() {
    assert!(matches!(normalize_custom_type("UNSIGNED  BIG INT"), DataType::Integer));
    assert!(matches!(normalize_custom_type("NATIVE CHARACTER(70)"), DataType::Text));
    assert!(matches!(normalize_custom_type("BLOB"), DataType::Blob));
    assert!(matches!(normalize_custom_type("DOUBLE PRECISION"), DataType::Real));
    assert!(matches!(normalize_custom_type("DATETIME"), DataType::Numeric { precision: None, scale: None }));
    match normalize_custom_type("  Geo   Shape ") {
        DataType::Custom(c) => assert_eq!(c, "geo shape"),
        other => panic!("expected custom type, got {other:?}"),
    }
    match normalize_custom_type("   ") {
        DataType::Custom(c) => assert_eq!(c, ""),
        other => panic!("expected empty custom type, got {other:?}"),
    }
    assert_eq!(collapse_spaces(" a \t b\nc ").iter().collect::<String>(), "a b c");
}

#[test]
fn normalizing_twice_changes_nothing_more() {
    let mut e = Expr::Not(Box::new(Expr::Paren(Box::new(Expr::Raw("  x = 1 \n".to_string())))));
    normalize_expr(&mut e);
    let once = format!("{e:?}");
    normalize_expr(&mut e);
    assert_eq!(format!("{e:?}"), once);
    assert!(once.contains("\"x = 1\""));
}

#[test]
fn view_normalization_trims_query_and_folds_unquoted_columns() {
    let mut object = SchemaObject::View(View {
        name: QualifiedName { schema: None, name: Ident { value: "V".to_string(), quoted: false } },
        columns: vec![
            Ident { value: "ID".to_string(), quoted: false },
            Ident { value: "Name".to_string(), quoted: true },
        ],
        query: "  SELECT 1 ".to_string(),
        check_option: None,
        security: None,
        renamed_from: None,
    });
    normalize_object(&mut object);
    match object {
        SchemaObject::View(v) => {
            assert_eq!(v.query, "SELECT 1");
            assert_eq!(v.columns[0].value, "id");
            assert_eq!(v.columns[1].value, "Name");
            assert_eq!(v.name.name.value, "V");
        }
        other => panic!("expected a view, got {other:?}"),
    }
}
