use vstd::prelude::*;

verus! {

pub const SHOW_SERVER_VERSION_QUERY: &'static str = "SELECT sqlite_version()";

pub const TABLE_NAMES_QUERY: &'static str = "\nSELECT tbl_name\nFROM sqlite_master\nWHERE type = 'table' AND tbl_name NOT LIKE 'sqlite_%'\nORDER BY tbl_name ASC;\n";

pub const TABLE_DDL_QUERY: &'static str = "\nSELECT sql\nFROM sqlite_master\nWHERE tbl_name = ?1 AND type = 'table';\n";

pub const VIEW_DDLS_QUERY: &'static str = "\nSELECT sql\nFROM sqlite_master\nWHERE type = 'view' AND sql IS NOT NULL\nORDER BY tbl_name ASC;\n";

/// Indexes that SQLite creates by itself (for `UNIQUE` constraints) have no SQL and are left out.
pub const INDEX_DDLS_QUERY: &'static str = "\nSELECT sql\nFROM sqlite_master\nWHERE type = 'index' AND sql IS NOT NULL\nORDER BY sql ASC;\n";

pub const TRIGGER_DDLS_QUERY: &'static str = "\nSELECT sql\nFROM sqlite_master\nWHERE type = 'trigger' AND sql IS NOT NULL\nORDER BY tbl_name ASC, name ASC;\n";

} // verus!
