use vstd::prelude::*;

verus! {

pub const SHOW_SERVER_VERSION_QUERY: &'static str = "SHOW server_version";

pub const SHOW_SEARCH_PATH_QUERY: &'static str = "SHOW search_path";

pub const TABLE_NAMES_QUERY: &'static str = "\nSELECT\n  n.nspname AS table_schema,\n  c.relname AS table_name,\n  CASE\n    WHEN c.relkind = 'p' THEN pg_catalog.pg_get_partkeydef(c.oid)\n    ELSE NULL\n  END AS partition_key,\n  am.amname AS access_method,\n  ts.spcname AS tablespace_name\nFROM pg_catalog.pg_class c\nINNER JOIN pg_catalog.pg_namespace n ON c.relnamespace = n.oid\nLEFT JOIN pg_catalog.pg_am am ON c.relam = am.oid\nLEFT JOIN pg_catalog.pg_tablespace ts ON c.reltablespace = ts.oid\nWHERE n.nspname NOT IN ('information_schema', 'pg_catalog', 'sys')\n  AND c.relkind IN ('r', 'p')\n  AND c.relpersistence IN ('p', 'u')\n  AND c.relispartition = false\n  AND NOT EXISTS (\n    SELECT 1\n    FROM pg_catalog.pg_depend d\n    WHERE c.oid = d.objid\n      AND d.classid = (SELECT oid FROM pg_catalog.pg_class WHERE relname = 'pg_class')\n      AND d.deptype = 'e'\n  )\nORDER BY n.nspname ASC, c.relname ASC;\n";

pub const TABLE_COLUMNS_QUERY: &'static str = "\nSELECT\n  a.attname AS column_name,\n  pg_catalog.format_type(a.atttypid, a.atttypmod) AS data_type,\n  a.attnotnull AS not_null,\n  pg_catalog.pg_get_expr(ad.adbin, ad.adrelid) AS default_expr,\n  CASE a.attidentity\n    WHEN 'a' THEN 'ALWAYS'\n    WHEN 'd' THEN 'BY DEFAULT'\n    ELSE NULL\n  END AS identity_generation\nFROM pg_catalog.pg_attribute a\nINNER JOIN pg_catalog.pg_class c ON c.oid = a.attrelid\nINNER JOIN pg_catalog.pg_namespace n ON c.relnamespace = n.oid\nLEFT JOIN pg_catalog.pg_attrdef ad ON ad.adrelid = a.attrelid AND ad.adnum = a.attnum\nWHERE n.nspname = $1\n  AND c.relname = $2\n  AND c.relkind IN ('r', 'p')\n  AND a.attnum > 0\n  AND NOT a.attisdropped\nORDER BY a.attnum ASC;\n";

pub const PARTITION_CHILD_TABLES_QUERY: &'static str = "\nSELECT\n  n.nspname AS partition_schema,\n  c.relname AS partition_name,\n  pn.nspname AS parent_schema,\n  pc.relname AS parent_name,\n  pg_catalog.pg_get_expr(c.relpartbound, c.oid) AS partition_bound\nFROM pg_catalog.pg_class c\nINNER JOIN pg_catalog.pg_namespace n ON c.relnamespace = n.oid\nINNER JOIN pg_catalog.pg_inherits i ON c.oid = i.inhrelid\nINNER JOIN pg_catalog.pg_class pc ON i.inhparent = pc.oid\nINNER JOIN pg_catalog.pg_namespace pn ON pc.relnamespace = pn.oid\nWHERE c.relispartition = true\n  AND n.nspname NOT IN ('information_schema', 'pg_catalog', 'sys')\n  AND NOT EXISTS (\n    SELECT 1\n    FROM pg_catalog.pg_depend d\n    WHERE c.oid = d.objid\n      AND d.classid = (SELECT oid FROM pg_catalog.pg_class WHERE relname = 'pg_class')\n      AND d.deptype = 'e'\n  )\nORDER BY n.nspname ASC, c.relname ASC;\n";

} // verus!
