use vstd::prelude::*;

verus! {

pub const SHOW_SERVER_VERSION_QUERY: &'static str = "SELECT VERSION()";

pub const LOWER_CASE_TABLE_NAMES_QUERY: &'static str = "SHOW VARIABLES LIKE 'lower_case_table_names'";

pub const TABLE_NAMES_QUERY: &'static str = "\nSHOW FULL TABLES\nWHERE Table_Type != 'VIEW';\n";

pub const VIEWS_QUERY: &'static str = "\nSELECT TABLE_NAME, VIEW_DEFINITION, SECURITY_TYPE\nFROM INFORMATION_SCHEMA.VIEWS\nWHERE TABLE_SCHEMA = DATABASE()\nORDER BY TABLE_NAME ASC;\n";

pub const TRIGGERS_QUERY: &'static str = "\nSELECT TRIGGER_NAME, EVENT_MANIPULATION, EVENT_OBJECT_TABLE, ACTION_TIMING, ACTION_STATEMENT\nFROM INFORMATION_SCHEMA.TRIGGERS\nWHERE TRIGGER_SCHEMA = DATABASE()\nORDER BY TRIGGER_NAME ASC;\n";

} // verus!
