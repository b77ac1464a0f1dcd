use vstd::prelude::*;

use crate::common;
use crate::error::Error;
use crate::mysql::export_queries;
use crate::text;
use crate::version::{self, Version};

verus! {

pub const MINIMUM_MYSQL_MAJOR_VERSION: u16 = 8;

/// `lower_case_table_names` as the server reports it: the trimmed text read as a `u8`
/// (one optional leading `+`), accepted only for the values 0, 1 and 2.
pub open spec fn lower_case_table_names_of(raw: Seq<char>) -> Option<u8> {
    let t = text::trim(raw);
    let d = if t.len() > 1 && t[0] == '+' {
        t.drop_first()
    } else {
        t
    };
    if d.len() > 0 && text::all_digits(d) && version::decimal_value(d) <= 2 {
        Some(version::decimal_value(d) as u8)
    } else {
        None
    }
}

/// Parses the `lower_case_table_names` server variable.
pub fn parse_lower_case_table_names(raw: &str) -> (r: Option<u8>)
    ensures
        r == lower_case_table_names_of(raw@),
{
    let t = text::trim_str(raw);
    let start: usize = if t.len() > 1 && t[0] == '+' {
        1
    } else {
        0
    };
    let ghost d = if t@.len() > 1 && t@[0] == '+' {
        t@.drop_first()
    } else {
        t@
    };
    assert(d =~= t@.skip(start as int));
    if start == t.len() {
        return None;
    }
    let mut i = start;
    let mut acc: u32 = 0;
    while i < t.len()
        invariant
            start <= i <= t@.len(),
            t@ == text::trim(raw@),
            start == (if t@.len() > 1 && t@[0] == '+' {
                1usize
            } else {
                0usize
            }),
            d == t@.skip(start as int),
            d == (if t@.len() > 1 && t@[0] == '+' {
                t@.drop_first()
            } else {
                t@
            }),
            forall|k: int| start <= k < i ==> text::is_digit(#[trigger] t@[k]),
            acc <= 2,
            acc == version::decimal_value(t@.subrange(start as int, i as int)),
        decreases t.len() - i,
    {
        let c = t[i];
        if !('0' <= c && c <= '9') {
            assert(!text::is_digit(d[i - start]));
            assert(!text::all_digits(d));
            return None;
        }
        let ghost prev = t@.subrange(start as int, i as int);
        assert(t@.subrange(start as int, i + 1).drop_last() =~= prev);
        assert(t@.subrange(start as int, i + 1).last() == c);
        let next = acc * 10 + (c as u32 - '0' as u32);
        assert(version::decimal_value(t@.subrange(start as int, i + 1)) == next);
        if next > 2 {
            proof {
                lemma_decimal_prefix_grows(d, (i + 1 - start) as int);
                assert(d.take((i + 1 - start) as int) =~= t@.subrange(start as int, i + 1));
                assert(version::decimal_value(d) > 2);
                assert(lower_case_table_names_of(raw@) is None);
            }
            return None;
        }
        acc = next;
        i += 1;
    }
    assert(t@.subrange(start as int, t@.len() as int) =~= d);
    assert forall|k: int| 0 <= k < d.len() implies text::is_digit(#[trigger] d[k]) by {
        assert(d[k] == t@[k + start]);
    }
    assert(text::all_digits(d));
    Some(acc as u8)
}

/// The value of a run of digits is at least the value of any of its prefixes.
pub proof fn lemma_decimal_prefix_grows(d: Seq<char>, n: int)
    requires
        0 <= n <= d.len(),
    ensures
        version::decimal_value(d.take(n)) <= version::decimal_value(d),
    decreases d.len() - n,
{
    if n == d.len() {
        assert(d.take(n) =~= d);
    } else {
        lemma_decimal_prefix_grows(d.drop_last(), n);
        assert(d.drop_last().take(n) =~= d.take(n));
    }
}

/// Wraps an identifier in backticks, doubling inner backticks.
pub fn quote_identifier(identifier: &str) -> (r: String)
    ensures
        r@ == text::quoted_with(identifier@, '`'),
{
    let v = text::chars_of(identifier);
    let q = text::quote_chars(v.as_slice(), '`');
    text::string_of(q.as_slice())
}

pub open spec fn unsupported_version_message(raw: Seq<char>) -> Seq<char> {
    "mysql server version `"@ + raw + "` is not supported; requires 8.0+"@
}

/// Accepts MySQL 8.0 and later.
pub fn ensure_minimum_version(version: &Version, raw_version: &str) -> (r: Result<(), Error>)
    ensures
        r is Ok <==> version.major >= MINIMUM_MYSQL_MAJOR_VERSION,
        r matches Err(e) ==> common::is_execution_error(
            e,
            export_queries::SHOW_SERVER_VERSION_QUERY@,
            unsupported_version_message(raw_version@),
        ),
{
    if version.major >= MINIMUM_MYSQL_MAJOR_VERSION {
        return Ok(());
    }
    let mut m: Vec<char> = Vec::new();
    text::append_str(&mut m, "mysql server version `");
    text::append_str(&mut m, raw_version);
    text::append_str(&mut m, "` is not supported; requires 8.0+");
    Err(common::execution_error(export_queries::SHOW_SERVER_VERSION_QUERY, &m))
}

pub open spec fn invalid_server_version_message(raw: Seq<char>) -> Seq<char> {
    "failed to parse mysql server version string: `"@ + raw + "`"@
}

pub fn invalid_server_version_error(raw_version: &str) -> (e: Error)
    ensures
        common::is_execution_error(
            e,
            export_queries::SHOW_SERVER_VERSION_QUERY@,
            invalid_server_version_message(raw_version@),
        ),
{
    let mut m: Vec<char> = Vec::new();
    text::append_str(&mut m, "failed to parse mysql server version string: `");
    text::append_str(&mut m, raw_version);
    text::append_str(&mut m, "`");
    common::execution_error(export_queries::SHOW_SERVER_VERSION_QUERY, &m)
}

pub open spec fn invalid_lower_case_table_names_message(raw: Seq<char>) -> Seq<char> {
    "failed to parse lower_case_table_names value: `"@ + raw + "`"@
}

pub fn invalid_lower_case_table_names_error(raw_value: &str) -> (e: Error)
    ensures
        common::is_execution_error(
            e,
            export_queries::LOWER_CASE_TABLE_NAMES_QUERY@,
            invalid_lower_case_table_names_message(raw_value@),
        ),
{
    let mut m: Vec<char> = Vec::new();
    text::append_str(&mut m, "failed to parse lower_case_table_names value: `");
    text::append_str(&mut m, raw_value);
    text::append_str(&mut m, "`");
    common::execution_error(export_queries::LOWER_CASE_TABLE_NAMES_QUERY, &m)
}

/// The server version check made on connect: the version string must parse and be 8.0 or later.
pub fn check_server_version(raw_version: &str) -> (r: Result<Version, Error>)
    ensures
        match version::server_version_of(raw_version@) {
            None => r matches Err(e) && common::is_execution_error(
                e,
                export_queries::SHOW_SERVER_VERSION_QUERY@,
                invalid_server_version_message(raw_version@),
            ),
            Some(v) => if v.major >= MINIMUM_MYSQL_MAJOR_VERSION {
                r == Ok::<Version, Error>(v)
            } else {
                r matches Err(e) && common::is_execution_error(
                    e,
                    export_queries::SHOW_SERVER_VERSION_QUERY@,
                    unsupported_version_message(raw_version@),
                )
            },
        },
{
    let version = match version::parse_server_version(raw_version) {
        Some(v) => v,
        None => return Err(invalid_server_version_error(raw_version)),
    };
    match ensure_minimum_version(&version, raw_version) {
        Ok(()) => Ok(version),
        Err(e) => Err(e),
    }
}

/// The `lower_case_table_names` check made on connect.
pub fn check_lower_case_table_names(raw_value: &str) -> (r: Result<u8, Error>)
    ensures
        match lower_case_table_names_of(raw_value@) {
            Some(v) => r == Ok::<u8, Error>(v),
            None => r matches Err(e) && common::is_execution_error(
                e,
                export_queries::LOWER_CASE_TABLE_NAMES_QUERY@,
                invalid_lower_case_table_names_message(raw_value@),
            ),
        },
{
    match parse_lower_case_table_names(raw_value) {
        Some(v) => Ok(v),
        None => Err(invalid_lower_case_table_names_error(raw_value)),
    }
}

/// `SHOW CREATE TABLE` for one table, with the name quoted.
pub fn show_create_table_query(table_name: &str) -> (r: String)
    ensures
        r@ == "SHOW CREATE TABLE "@ + text::quoted_with(table_name@, '`'),
{
    let mut m: Vec<char> = Vec::new();
    text::append_str(&mut m, "SHOW CREATE TABLE ");
    let v = text::chars_of(table_name);
    let q = text::quote_chars(v.as_slice(), '`');
    text::append_chars(&mut m, q.as_slice());
    text::string_of(m.as_slice())
}

/// The `CREATE VIEW` statement exported for one row of the views query.
pub fn render_view_statement(view_name: &str, view_definition: &str, security_type: &str) -> (r:
    String)
    ensures
        r@ == "CREATE SQL SECURITY "@ + text::upper(text::trim(security_type@)) + " VIEW "@
            + text::quoted_with(view_name@, '`') + " AS "@ + text::trim(view_definition@) + ";"@,
{
    let mut m: Vec<char> = Vec::new();
    text::append_str(&mut m, "CREATE SQL SECURITY ");
    let sec = text::trim_str(security_type);
    let sec = text::upper_chars(sec.as_slice());
    text::append_chars(&mut m, sec.as_slice());
    text::append_str(&mut m, " VIEW ");
    let name = text::chars_of(view_name);
    let name = text::quote_chars(name.as_slice(), '`');
    text::append_chars(&mut m, name.as_slice());
    text::append_str(&mut m, " AS ");
    let def = text::trim_str(view_definition);
    text::append_chars(&mut m, def.as_slice());
    text::append_str(&mut m, ";");
    text::string_of(m.as_slice())
}

/// The trigger body as exported: trimmed, trailing `;` removed, trimmed again.
pub open spec fn trigger_body(statement: Seq<char>) -> Seq<char> {
    text::trim(text::strip_trailing(text::trim(statement), ';'))
}

/// The `CREATE TRIGGER` statement exported for one row of the triggers query.
pub fn render_trigger_statement(
    trigger_name: &str,
    event: &str,
    table: &str,
    timing: &str,
    statement: &str,
) -> (r: String)
    ensures
        r@ == "CREATE TRIGGER "@ + text::quoted_with(trigger_name@, '`') + " "@ + text::upper(
            text::trim(timing@),
        ) + " "@ + text::upper(text::trim(event@)) + " ON "@ + text::quoted_with(table@, '`')
            + " FOR EACH ROW "@ + trigger_body(statement@) + ";"@,
{
    let mut m: Vec<char> = Vec::new();
    text::append_str(&mut m, "CREATE TRIGGER ");
    let name = text::chars_of(trigger_name);
    let name = text::quote_chars(name.as_slice(), '`');
    text::append_chars(&mut m, name.as_slice());
    text::append_str(&mut m, " ");
    let t = text::trim_str(timing);
    let t = text::upper_chars(t.as_slice());
    text::append_chars(&mut m, t.as_slice());
    text::append_str(&mut m, " ");
    let e = text::trim_str(event);
    let e = text::upper_chars(e.as_slice());
    text::append_chars(&mut m, e.as_slice());
    text::append_str(&mut m, " ON ");
    let tb = text::chars_of(table);
    let tb = text::quote_chars(tb.as_slice(), '`');
    text::append_chars(&mut m, tb.as_slice());
    text::append_str(&mut m, " FOR EACH ROW ");
    let body = text::trim_str(statement);
    let body = text::strip_trailing_chars(body.as_slice(), ';');
    let body = text::trim_chars(body.as_slice());
    text::append_chars(&mut m, body.as_slice());
    text::append_str(&mut m, ";");
    text::string_of(m.as_slice())
}

/// The exported schema: each table's `SHOW CREATE TABLE` text trimmed and terminated,
/// then the view and trigger statements, separated by blank lines.
pub open spec fn export_text(tables: Seq<String>, views: Seq<String>, triggers: Seq<String>) -> Seq<char> {
    text::join(
        tables.map_values(|s: String| text::terminate(text::trim(s@))) + text::views(views)
            + text::views(triggers),
        "\n\n"@,
    )
}

/// Assembles the exported schema from the table definitions and the rendered view and
/// trigger statements.
pub fn assemble_export(tables: &Vec<String>, views: &Vec<String>, triggers: &Vec<String>) -> (r:
    String)
    ensures
        r@ == export_text(tables@, views@, triggers@),
{
    let ghost ts = tables@.map_values(|s: String| text::terminate(text::trim(s@)));
    let mut all: Vec<String> = Vec::new();
    let mut i: usize = 0;
    while i < tables.len()
        invariant
            i <= tables@.len(),
            ts == tables@.map_values(|s: String| text::terminate(text::trim(s@))),
            text::views(all@) == ts.take(i as int),
        decreases tables.len() - i,
    {
        let s = common::ensure_statement_terminated(tables[i].as_str());
        let ghost before = all@;
        all.push(s);
        assert(text::views(all@) =~= text::views(before).push(s@));
        assert(ts.take(i + 1) =~= ts.take(i as int).push(ts[i as int]));
        i += 1;
    }
    assert(ts.take(i as int) =~= ts);
    let ghost head = text::views(all@);
    let mut k: usize = 0;
    while k < views.len()
        invariant
            k <= views@.len(),
            text::views(all@) == head + text::views(views@).take(k as int),
        decreases views.len() - k,
    {
        let ghost before = all@;
        all.push(text::owned(views[k].as_str()));
        assert(text::views(all@) =~= text::views(before).push(views@[k as int]@));
        assert(text::views(views@).take(k + 1) =~= text::views(views@).take(k as int).push(
            views@[k as int]@,
        ));
        k += 1;
    }
    assert(text::views(views@).take(k as int) =~= text::views(views@));
    let ghost mid = text::views(all@);
    let mut t: usize = 0;
    while t < triggers.len()
        invariant
            t <= triggers@.len(),
            text::views(all@) == mid + text::views(triggers@).take(t as int),
        decreases triggers.len() - t,
    {
        let ghost before = all@;
        all.push(text::owned(triggers[t].as_str()));
        assert(text::views(all@) =~= text::views(before).push(triggers@[t as int]@));
        assert(text::views(triggers@).take(t + 1) =~= text::views(triggers@).take(t as int).push(
            triggers@[t as int]@,
        ));
        t += 1;
    }
    assert(text::views(triggers@).take(t as int) =~= text::views(triggers@));
    text::join_strings(&all, "\n\n")
}

} // verus!
