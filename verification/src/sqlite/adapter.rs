use vstd::prelude::*;

use crate::common;
use crate::error::Error;
use crate::sqlite::export_queries;
use crate::text;
use crate::version;
use crate::version::Version;

verus! {

pub const MINIMUM_SQLITE_MAJOR_VERSION: u16 = 3;

pub const MINIMUM_SQLITE_MINOR_VERSION: u16 = 35;

pub const DEFAULT_SQLITE_SCHEMA: &'static str = "main";

pub const SERVER_VERSION_OVERRIDE_KEY: &'static str = "sqlite.server_version";

/// SQLite 3.35 or later.
pub open spec fn is_supported(v: Version) -> bool {
    v.major > MINIMUM_SQLITE_MAJOR_VERSION || (v.major == MINIMUM_SQLITE_MAJOR_VERSION && v.minor
        >= MINIMUM_SQLITE_MINOR_VERSION)
}

pub open spec fn unsupported_version_message(raw: Seq<char>) -> Seq<char> {
    "sqlite server version `"@ + raw + "` is not supported; requires 3.35+"@
}

pub open spec fn invalid_server_version_message(raw: Seq<char>) -> Seq<char> {
    "failed to parse sqlite server version string: `"@ + raw + "`"@
}

/// Accepts SQLite 3.35 and later.
pub fn ensure_minimum_version(version: &Version, raw_version: &str) -> (r: Result<(), Error>)
    ensures
        r is Ok <==> is_supported(*version),
        r matches Err(e) ==> common::is_execution_error(
            e,
            export_queries::SHOW_SERVER_VERSION_QUERY@,
            unsupported_version_message(raw_version@),
        ),
{
    if version.major > MINIMUM_SQLITE_MAJOR_VERSION || (version.major
        == MINIMUM_SQLITE_MAJOR_VERSION && version.minor >= MINIMUM_SQLITE_MINOR_VERSION) {
        return Ok(());
    }
    let mut m: Vec<char> = Vec::new();
    text::append_str(&mut m, "sqlite server version `");
    text::append_str(&mut m, raw_version);
    text::append_str(&mut m, "` is not supported; requires 3.35+");
    Err(common::execution_error(export_queries::SHOW_SERVER_VERSION_QUERY, &m))
}

pub fn invalid_server_version_error(raw_version: &str) -> (e: Error)
    ensures
        common::is_execution_error(
            e,
            export_queries::SHOW_SERVER_VERSION_QUERY@,
            invalid_server_version_message(raw_version@),
        ),
{
    let mut m: Vec<char> = Vec::new();
    text::append_str(&mut m, "failed to parse sqlite server version string: `");
    text::append_str(&mut m, raw_version);
    text::append_str(&mut m, "`");
    common::execution_error(export_queries::SHOW_SERVER_VERSION_QUERY, &m)
}

/// The server version check made on connect: the version string (`sqlite_version()`
/// or the configured override) must parse and be 3.35 or later.
pub fn check_server_version(raw_version: &str) -> (r: Result<Version, Error>)
    ensures
        match version::server_version_of(raw_version@) {
            None => r matches Err(e) && common::is_execution_error(
                e,
                export_queries::SHOW_SERVER_VERSION_QUERY@,
                invalid_server_version_message(raw_version@),
            ),
            Some(v) => if is_supported(v) {
                r == Ok::<Version, Error>(v)
            } else {
                r matches Err(e) && common::is_execution_error(
                    e,
                    export_queries::SHOW_SERVER_VERSION_QUERY@,
                    unsupported_version_message(raw_version@),
                )
            },
        },
{
    let version = match version::parse_server_version(raw_version) {
        Some(v) => v,
        None => return Err(invalid_server_version_error(raw_version)),
    };
    match ensure_minimum_version(&version, raw_version) {
        Ok(()) => Ok(version),
        Err(e) => Err(e),
    }
}

/// The statements of an export, each trimmed and terminated, in the order given.
pub open spec fn terminated_all(rows: Seq<String>) -> Seq<Seq<char>> {
    rows.map_values(|s: String| text::terminate(text::trim(s@)))
}

/// The exported schema: the table statements, then the views, indexes and triggers,
/// each trimmed and terminated, separated by blank lines.
pub open spec fn export_text(
    tables: Seq<String>,
    views: Seq<String>,
    indexes: Seq<String>,
    triggers: Seq<String>,
) -> Seq<char> {
    text::join(
        terminated_all(tables) + terminated_all(views) + terminated_all(indexes) + terminated_all(
            triggers,
        ),
        "\n\n"@,
    )
}

fn push_terminated(out: &mut Vec<String>, rows: &Vec<String>)
    ensures
        text::views(final(out)@) == text::views(old(out)@) + terminated_all(rows@),
{
    let mut i: usize = 0;
    while i < rows.len()
        invariant
            i <= rows@.len(),
            text::views(out@) == text::views(old(out)@) + terminated_all(rows@.take(i as int)),
        decreases rows.len() - i,
    {
        let s = common::ensure_statement_terminated(rows[i].as_str());
        let ghost prev = out@;
        out.push(s);
        i += 1;
        proof {
            assert(text::views(out@) =~= text::views(prev).push(s@));
            assert(terminated_all(rows@.take(i as int)) =~= terminated_all(
                rows@.take(i - 1),
            ).push(text::terminate(text::trim(rows@[i - 1]@))));
            assert(text::views(out@) =~= text::views(old(out)@) + terminated_all(
                rows@.take(i as int),
            ));
        }
    }
    assert(rows@.take(rows@.len() as int) =~= rows@);
}

/// Assembles the exported schema from the rows the export queries returned.
pub fn assemble_export(
    tables: &Vec<String>,
    views: &Vec<String>,
    indexes: &Vec<String>,
    triggers: &Vec<String>,
) -> (r: String)
    ensures
        r@ == export_text(tables@, views@, indexes@, triggers@),
{
    let mut all: Vec<String> = Vec::new();
    push_terminated(&mut all, tables);
    push_terminated(&mut all, views);
    push_terminated(&mut all, indexes);
    push_terminated(&mut all, triggers);
    assert(text::views(all@) =~= terminated_all(tables@) + terminated_all(views@)
        + terminated_all(indexes@) + terminated_all(triggers@));
    text::join_strings(&all, "\n\n")
}

} // verus!
