use stateql::mysql::adapter::assemble_export as assemble_mysql_export;
use stateql::postgres::adapter::{assemble_export, ColumnRow, PartitionChildRow, TableRow};
use stateql::strset::sort_strings;

#[test]
fn postgres_export_lists_tables_then_partition_children() {
    let table = TableRow {
        schema: "public".to_string(),
        name: "events".to_string(),
        partition_key: Some("RANGE (id)".to_string()),
        access_method: None,
        tablespace: None,
    };
    let columns = vec![ColumnRow {
        name: "id".to_string(),
        data_type: "bigint".to_string(),
        not_null: true,
        default_expr: None,
        identity_generation: None,
    }];
    let child = PartitionChildRow {
        schema: "public".to_string(),
        name: "events_2024".to_string(),
        parent_schema: "public".to_string(),
        parent_name: "events".to_string(),
        bound: " FOR VALUES FROM (0) TO (10) ".to_string(),
    };
    let out = assemble_export(&vec![(table, columns)], &vec![child]);
    assert_eq!(
        out,
        "CREATE TABLE \"public\".\"events\" (\n  \"id\" bigint NOT NULL\n) PARTITION BY RANGE (id);\n\nCREATE TABLE \"public\".\"events_2024\" PARTITION OF \"public\".\"events\" FOR VALUES FROM (0) TO (10);"
    );
    assert_eq!(assemble_export(&vec![], &vec![]), "");
}

#[test]
fn mysql_export_terminates_table_definitions() {
    let tables = vec!["CREATE TABLE `a` (id int)  ".to_string(), "CREATE TABLE `b` (id int);".to_string()];
    let views = vec!["CREATE SQL SECURITY DEFINER VIEW `v` AS select 1;".to_string()];
    let triggers: Vec<String> = vec![];
    assert_eq!(
        assemble_mysql_export(&tables, &views, &triggers),
        "CREATE TABLE `a` (id int);\n\nCREATE TABLE `b` (id int);\n\nCREATE SQL SECURITY DEFINER VIEW `v` AS select 1;"
    );
}

#[test]
fn table_names_sort_like_strings_and_keep_duplicates() {
    let names: Vec<String> = ["orders", "Users", "audit", "orders", "b\u{e9}ta", "beta"]
        .iter()
        .map(|s| s.to_string())
        .collect();
    let mut expected = names.clone();
    expected.sort_unstable();
    assert_eq!(sort_strings(&names), expected);
    assert!(sort_strings(&vec![]).is_empty());
}
