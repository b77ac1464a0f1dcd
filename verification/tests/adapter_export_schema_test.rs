use stateql::mysql::{lower_case_table_names_query, table_names_query};
use stateql::postgres::parse_search_path;

#[test]
fn export_queries_keep_view_filter_without_order_by_and_lower_case_variable_probe() {
    let table_names = table_names_query();
    let lower_case_variable = lower_case_table_names_query();

    assert!(table_names.contains("SHOW FULL TABLES"));
    assert!(table_names.contains("Table_Type != 'VIEW'"));
    assert!(!table_names.to_ascii_uppercase().contains("ORDER BY"));
    assert!(lower_case_variable.contains("lower_case_table_names"));
}

#[test]
fn parses_search_path_and_excludes_implicit_schemas() {
    let parsed = parse_search_path("\"$user\", public, app, pg_catalog, pg_temp_3");

    assert_eq!(parsed, vec!["public".to_string(), "app".to_string()]);
}

#[test]
fn export_queries_keep_extension_oid_filter_for_tables() {
    let query = stateql::postgres::table_names_query();

    assert!(
        query.contains(
            "d.classid = (SELECT oid FROM pg_catalog.pg_class WHERE relname = 'pg_class')"
        )
    );
    assert!(query.contains("d.deptype = 'e'"));
    assert!(query.contains("c.relispartition = false"));
}
