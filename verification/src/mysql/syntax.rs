use vstd::prelude::*;

use sqlparser::ast::CreateView;
use sqlparser::ast::CreateViewSecurity;
use sqlparser::ast::Statement;
use sqlparser::dialect::MySqlDialect;
use sqlparser::parser::Parser;

use crate::mysql::parser::{CreateViewInfo, ViewSecurity};
use crate::mysql::statements::{self, MysqlStatement};
use crate::schema::Ident;

verus! {

#[verifier::external_type_specification]
#[verifier::external_body]
pub struct ExCreateView(sqlparser::ast::CreateView);

/// A statement the SQL parser read: its rendering, whether it is a `CREATE TABLE`, and
/// what the view says when it is a `CREATE VIEW`.
pub struct ParsedStatement {
    pub sql: String,
    pub is_create_table: bool,
    pub view: Option<CreateViewInfo>,
}

/// What a `CREATE VIEW` says, as plain values: its `materialized`, `secure`, `temporary`,
/// `TO`, `WITH NO SCHEMA BINDING`, `ALGORITHM` and `DEFINER` flags; its `SQL SECURITY`;
/// its name as rendered; each name part (text and quoting) when it is an identifier; each
/// column (text and quoting); and its query as rendered.
pub type ViewPlain = (
    (bool, bool, bool, bool, bool, bool, bool),
    Option<ViewSecurity>,
    Seq<char>,
    Seq<Option<(Seq<char>, bool)>>,
    Seq<(Seq<char>, bool)>,
    Seq<char>,
);

pub open spec fn ident_plain(i: Ident) -> (Seq<char>, bool) {
    (i.value@, i.quoted)
}

/// The plain values a view's description holds.
pub open spec fn view_plain(info: CreateViewInfo) -> ViewPlain {
    (
        (
            info.materialized,
            info.secure,
            info.temporary,
            info.has_to,
            info.with_no_schema_binding,
            info.has_algorithm,
            info.has_definer,
        ),
        info.security,
        info.name_text@,
        info.name_parts@.map_values(|p: Option<Ident>| match p {
            Some(i) => Some(ident_plain(i)),
            None => None,
        }),
        info.columns@.map_values(|i: Ident| ident_plain(i)),
        info.query@,
    )
}

/// What the SQL parser reads from MySQL text: each statement as its `Display` renders it,
/// whether it is a `CREATE TABLE`, and what a `CREATE VIEW` says; or the text of the
/// parser's error.
pub uninterp spec fn mysql_parse(sql: Seq<char>) -> Result<Seq<(Seq<char>, bool, Option<ViewPlain>)>, Seq<char>>;

pub open spec fn parsed_views(v: Seq<ParsedStatement>) -> Seq<(Seq<char>, bool, Option<ViewPlain>)> {
    v.map_values(|p: ParsedStatement| (p.sql@, p.is_create_table, match p.view {
        Some(info) => Some(view_plain(info)),
        None => None,
    }))
}

/// `Parser::parse_sql` with the MySQL dialect: each statement of `sql`, rendered with its
/// `Display`, with its variant told apart and a `CREATE VIEW`'s fields read as plain
/// values; or the text of the parser's error. The contract names what is read as a
/// function of `sql`.
#[verifier::external_body]
fn parse_mysql(sql: &str) -> (r: Result<Vec<ParsedStatement>, String>)
    ensures
        match r {
            Err(m) => mysql_parse(sql@) == Err::<Seq<(Seq<char>, bool, Option<ViewPlain>)>, Seq<char>>(m@),
            Ok(v) => mysql_parse(sql@) == Ok::<Seq<(Seq<char>, bool, Option<ViewPlain>)>, Seq<char>>(parsed_views(v@)),
        },
{
    match Parser::parse_sql(&MySqlDialect {}, sql) {
        Err(e) => Err(e.to_string()),
        Ok(stmts) => Ok(stmts.into_iter().map(|s| ParsedStatement {
            sql: s.to_string(),
            is_create_table: matches!(s, Statement::CreateTable(_)),
            view: match s {
                Statement::CreateView(v) => Some(create_view_info(&v)),
                _ => None,
            },
        }).collect()),
    }
}

/// The view's `materialized`, `secure` and `temporary` flags, whether it has a `TO`
/// clause, and its `with_no_schema_binding` flag.
#[verifier::external_body]
fn view_modifiers(v: &CreateView) -> (bool, bool, bool, bool, bool) {
    (v.materialized, v.secure, v.temporary, v.to.is_some(), v.with_no_schema_binding)
}

/// Whether the view's MySQL parameters give an algorithm and a definer, and its
/// `SQL SECURITY`, read one for one.
#[verifier::external_body]
fn view_parameters(v: &CreateView) -> (bool, bool, Option<ViewSecurity>) {
    match &v.params {
        None => (false, false, None),
        Some(p) => (p.algorithm.is_some(), p.definer.is_some(), match &p.security {
            None => None,
            Some(CreateViewSecurity::Definer) => Some(ViewSecurity::Definer),
            Some(CreateViewSecurity::Invoker) => Some(ViewSecurity::Invoker),
        }),
    }
}

/// The view's name as the parser renders it with `Display`.
#[verifier::external_body]
fn view_name_text(v: &CreateView) -> String {
    v.name.to_string()
}

/// Each part of the view's name: its identifier (text, and whether it was quoted) when the
/// part is one, else `None`.
#[verifier::external_body]
fn view_name_parts(v: &CreateView) -> Vec<Option<Ident>> {
    v.name.0.iter().map(|part| {
        part.as_ident().map(|i| Ident { value: i.value.clone(), quoted: i.quote_style.is_some() })
    }).collect()
}

/// The identifier of each of the view's columns: its text, and whether it was quoted.
#[verifier::external_body]
fn view_columns(v: &CreateView) -> Vec<Ident> {
    v.columns.iter().map(|c| Ident {
        value: c.name.value.clone(),
        quoted: c.name.quote_style.is_some(),
    }).collect()
}

/// The view's query as the parser renders it with `Display`.
#[verifier::external_body]
fn view_query(v: &CreateView) -> String {
    v.query.to_string()
}

/// What a parsed `CREATE VIEW` says, gathered field by field from the wrappers above;
/// the statement reader names its result.
fn create_view_info(v: &CreateView) -> CreateViewInfo {
    let (materialized, secure, temporary, has_to, with_no_schema_binding) = view_modifiers(v);
    let (has_algorithm, has_definer, security) = view_parameters(v);
    CreateViewInfo {
        materialized,
        secure,
        temporary,
        has_to,
        with_no_schema_binding,
        has_algorithm,
        has_definer,
        security,
        name_text: view_name_text(v),
        name_parts: view_name_parts(v),
        columns: view_columns(v),
        query: view_query(v),
    }
}

/// A statement as the library reads it: its rendering, and what a view says.
fn statement_model(s: ParsedStatement) -> (r: MysqlStatement)
    ensures
        statements::statement_text(r) == s.sql@,
        (r is CreateTable) == s.is_create_table,
        !s.is_create_table ==> match s.view {
            Some(info) => r matches MysqlStatement::CreateView { info: i, .. } && view_plain(i) == view_plain(info),
            None => r is Other,
        },
{
    let sql = s.sql;
    if s.is_create_table {
        return MysqlStatement::CreateTable { sql };
    }
    match s.view {
        Some(info) => MysqlStatement::CreateView { sql, info },
        None => MysqlStatement::Other { sql },
    }
}

/// Parses `sql` with the MySQL dialect of the SQL parser and reads each statement; a
/// text the parser refuses gives the text of its error.
pub(crate) fn parse_statements(sql: &str) -> (r: Result<Vec<MysqlStatement>, String>)
    ensures
        match r {
            Err(m) => mysql_parse(sql@) == Err::<Seq<(Seq<char>, bool, Option<ViewPlain>)>, Seq<char>>(m@),
            Ok(v) => mysql_parse(sql@) matches Ok(x) && statements::read_as(v@, x),
        },
{
    match parse_mysql(sql) {
        Err(e) => Err(e),
        Ok(stmts) => {
            let ghost x = parsed_views(stmts@);
            let ghost orig = stmts@;
            let mut stmts = stmts;
            let n = stmts.len();
            let mut out: Vec<MysqlStatement> = Vec::new();
            let mut i: usize = 0;
            while i < n
                invariant
                    i <= n,
                    n == orig.len(),
                    x == parsed_views(orig),
                    stmts@ == orig.skip(i as int),
                    out@.len() == i,
                    forall|k: int| 0 <= k < i ==> statements::read_one(#[trigger] out@[k], x[k]),
                decreases n - i,
            {
                let p = stmts.remove(0);
                assert(p == orig[i as int]);
                assert(orig.skip(i as int).remove(0) =~= orig.skip(i + 1));
                out.push(statement_model(p));
                i += 1;
            }
            Ok(out)
        },
    }
}

} // verus!
