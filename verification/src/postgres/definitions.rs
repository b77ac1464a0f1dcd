use vstd::prelude::*;

use crate::ir::CheckConstraint;
use crate::ir::CheckOption;
use crate::ir::IndexDef;
use crate::ir::IndexOwner;
use crate::ir::MaterializedView;
use crate::ir::Partition;
use crate::ir::PartitionBound;
use crate::ir::PartitionElement;
use crate::ir::PartitionStrategy;
use crate::ir::Table;
use crate::ir::TableOptions;
use crate::ir::Value;
use crate::ir;
use crate::ir::ViewSecurity;
use crate::ir::Column;
use crate::ir::ColumnChange;
use crate::ir::ColumnPosition;
use crate::ir::Deferrable;
use crate::ir::Exclusion;
use crate::ir::ExclusionElement;
use crate::ir::Expr;
use crate::ir::ForeignKey;
use crate::ir::ForeignKeyAction;
use crate::ir::GeneratedColumn;
use crate::ir::Identity;
use crate::ir::NullsOrder;
use crate::ir::PrimaryKey;
use crate::ir::SortOrder;
use crate::postgres::render;
use crate::postgres::render::data_type_sql;
use crate::postgres::render::expr_sql;
use crate::postgres::render::ident_sql;
use crate::postgres::render::qualified_name_sql;
use crate::error;
use crate::error::Error;
use crate::ops;
use crate::ir::DiffOp;
use crate::schema::Ident;
use crate::schema::QualifiedName;
use crate::text;

verus! {

/// `keyword` followed by the number and a space, when there is a number.
pub open spec fn numbered_option_sql(keyword: Seq<char>, n: Option<i64>) -> Seq<char> {
    match n {
        Some(v) => keyword + text::signed_decimal_string(v as int) + " "@,
        None => Seq::empty(),
    }
}

pub open spec fn cycle_sql(cycle: bool) -> Seq<char> {
    if cycle {
        "CYCLE"@
    } else {
        "NO CYCLE"@
    }
}

fn write_numbered_option(out: &mut Vec<char>, keyword: &str, n: Option<i64>)
    ensures
        final(out)@ == old(out)@ + numbered_option_sql(keyword@, n),
{
    match n {
        Some(v) => {
            text::append_str(out, keyword);
            render::write_signed(out, v);
            text::append_str(out, " ");
        },
        None => {
            assert(old(out)@ + numbered_option_sql(keyword@, n) =~= old(out)@);
        },
    }
}

fn write_cycle(out: &mut Vec<char>, cycle: bool)
    ensures
        final(out)@ == old(out)@ + cycle_sql(cycle),
{
    if cycle {
        text::append_str(out, "CYCLE");
    } else {
        text::append_str(out, "NO CYCLE");
    }
}

/// The identity options, each set one followed by a space, then the cycle setting:
/// the options joined by spaces, as the cycle setting is always among them.
pub open spec fn identity_options_sql(id: Identity) -> Seq<char> {
    numbered_option_sql("START WITH "@, id.start) + numbered_option_sql("INCREMENT BY "@, id.increment)
        + numbered_option_sql("MINVALUE "@, id.min_value) + numbered_option_sql(
        "MAXVALUE "@,
        id.max_value,
    ) + numbered_option_sql("CACHE "@, id.cache) + cycle_sql(id.cycle)
}

pub open spec fn identity_sql(id: Identity) -> Seq<char> {
    "GENERATED "@ + (if id.always {
        "ALWAYS"@
    } else {
        "BY DEFAULT"@
    }) + " AS IDENTITY ("@ + identity_options_sql(id) + ")"@
}

pub fn write_identity(out: &mut Vec<char>, id: &Identity)
    ensures
        final(out)@ == old(out)@ + identity_sql(*id),
{
    let ghost start = out@;
    text::append_str(out, "GENERATED ");
    if id.always {
        text::append_str(out, "ALWAYS");
    } else {
        text::append_str(out, "BY DEFAULT");
    }
    text::append_str(out, " AS IDENTITY (");
    write_numbered_option(out, "START WITH ", id.start);
    write_numbered_option(out, "INCREMENT BY ", id.increment);
    write_numbered_option(out, "MINVALUE ", id.min_value);
    write_numbered_option(out, "MAXVALUE ", id.max_value);
    write_numbered_option(out, "CACHE ", id.cache);
    write_cycle(out, id.cycle);
    text::append_str(out, ")");
    assert(out@ =~= start + identity_sql(*id));
}

/// The `GENERATED ... AS IDENTITY (...)` clause of a column.
pub fn render_identity(id: &Identity) -> (r: String)
    ensures
        r@ == identity_sql(*id),
{
    let mut out: Vec<char> = Vec::new();
    write_identity(&mut out, id);
    assert(out@ =~= identity_sql(*id));
    text::string_of(out.as_slice())
}

pub open spec fn stored_sql(stored: bool) -> Seq<char> {
    if stored {
        " STORED"@
    } else {
        Seq::empty()
    }
}

fn write_stored(out: &mut Vec<char>, stored: bool)
    ensures
        final(out)@ == old(out)@ + stored_sql(stored),
{
    if stored {
        text::append_str(out, " STORED");
    } else {
        assert(old(out)@ + stored_sql(stored) =~= old(out)@);
    }
}

pub open spec fn generated_sql(g: GeneratedColumn) -> Seq<char> {
    "GENERATED ALWAYS AS ("@ + expr_sql(g.expr) + ")"@ + stored_sql(g.stored)
}

pub fn write_generated(out: &mut Vec<char>, g: &GeneratedColumn)
    ensures
        final(out)@ == old(out)@ + generated_sql(*g),
{
    let ghost start = out@;
    text::append_str(out, "GENERATED ALWAYS AS (");
    render::write_expr(out, &g.expr);
    text::append_str(out, ")");
    write_stored(out, g.stored);
    assert(out@ =~= start + generated_sql(*g));
}

pub open spec fn collation_suffix_sql(c: Option<String>) -> Seq<char> {
    match c {
        Some(col) => " COLLATE "@ + text::quoted_with(col@, '"'),
        None => Seq::empty(),
    }
}

pub open spec fn identity_suffix_sql(i: Option<Identity>) -> Seq<char> {
    match i {
        Some(id) => " "@ + identity_sql(id),
        None => Seq::empty(),
    }
}

pub open spec fn generated_suffix_sql(g: Option<GeneratedColumn>) -> Seq<char> {
    match g {
        Some(x) => " "@ + generated_sql(x),
        None => Seq::empty(),
    }
}

/// ` DEFAULT <expr>` when there is a default.
pub open spec fn default_suffix_sql(d: Option<Expr>) -> Seq<char> {
    match d {
        Some(e) => " DEFAULT "@ + expr_sql(e),
        None => Seq::empty(),
    }
}

pub open spec fn not_null_suffix_sql(not_null: bool) -> Seq<char> {
    if not_null {
        " NOT NULL"@
    } else {
        Seq::empty()
    }
}

/// A column's definition in `CREATE TABLE` and `ADD COLUMN`.
pub open spec fn column_definition_sql(c: Column) -> Seq<char> {
    ident_sql(c.name) + " "@ + data_type_sql(c.data_type) + collation_suffix_sql(c.collation)
        + identity_suffix_sql(c.identity) + generated_suffix_sql(c.generated) + default_suffix_sql(
        c.default,
    ) + not_null_suffix_sql(c.not_null)
}

fn write_collation_suffix(out: &mut Vec<char>, c: &Option<String>)
    ensures
        final(out)@ == old(out)@ + collation_suffix_sql(*c),
{
    match c {
        Some(col) => {
            text::append_str(out, " COLLATE ");
            render::write_ident_text(out, col.as_str());
        },
        None => {
            assert(old(out)@ + collation_suffix_sql(*c) =~= old(out)@);
        },
    }
}

fn write_identity_suffix(out: &mut Vec<char>, i: &Option<Identity>)
    ensures
        final(out)@ == old(out)@ + identity_suffix_sql(*i),
{
    match i {
        Some(id) => {
            text::append_str(out, " ");
            write_identity(out, id);
        },
        None => {
            assert(old(out)@ + identity_suffix_sql(*i) =~= old(out)@);
        },
    }
}

fn write_generated_suffix(out: &mut Vec<char>, g: &Option<GeneratedColumn>)
    ensures
        final(out)@ == old(out)@ + generated_suffix_sql(*g),
{
    match g {
        Some(x) => {
            text::append_str(out, " ");
            write_generated(out, x);
        },
        None => {
            assert(old(out)@ + generated_suffix_sql(*g) =~= old(out)@);
        },
    }
}

pub fn write_default_suffix(out: &mut Vec<char>, d: &Option<Expr>)
    ensures
        final(out)@ == old(out)@ + default_suffix_sql(*d),
{
    match d {
        Some(e) => {
            text::append_str(out, " DEFAULT ");
            render::write_expr(out, e);
        },
        None => {
            assert(old(out)@ + default_suffix_sql(*d) =~= old(out)@);
        },
    }
}

pub fn write_not_null_suffix(out: &mut Vec<char>, not_null: bool)
    ensures
        final(out)@ == old(out)@ + not_null_suffix_sql(not_null),
{
    if not_null {
        text::append_str(out, " NOT NULL");
    } else {
        assert(old(out)@ + not_null_suffix_sql(not_null) =~= old(out)@);
    }
}

pub fn write_column_definition(out: &mut Vec<char>, c: &Column)
    ensures
        final(out)@ == old(out)@ + column_definition_sql(*c),
{
    let ghost start = out@;
    write_ident_then_type(out, c);
    write_collation_suffix(out, &c.collation);
    write_identity_suffix(out, &c.identity);
    write_generated_suffix(out, &c.generated);
    write_default_suffix(out, &c.default);
    write_not_null_suffix(out, c.not_null);
    assert(out@ =~= start + column_definition_sql(*c));
}

fn write_ident_then_type(out: &mut Vec<char>, c: &Column)
    ensures
        final(out)@ == old(out)@ + ident_sql(c.name) + " "@ + data_type_sql(c.data_type),
{
    render::write_ident(out, &c.name);
    text::append_str(out, " ");
    render::write_data_type(out, &c.data_type);
}

/// A column's definition.
pub fn render_column_definition(c: &Column) -> (r: String)
    ensures
        r@ == column_definition_sql(*c),
{
    let mut out: Vec<char> = Vec::new();
    write_column_definition(&mut out, c);
    assert(out@ =~= column_definition_sql(*c));
    text::string_of(out.as_slice())
}

/// Identifiers separated by `", "`.
pub open spec fn ident_list_sql(items: Seq<Ident>) -> Seq<char> {
    text::join(items.map_values(|i: Ident| ident_sql(i)), ", "@)
}

pub fn write_ident_list(out: &mut Vec<char>, items: &Vec<Ident>)
    ensures
        final(out)@ == old(out)@ + ident_list_sql(items@),
{
    let ghost all = items@.map_values(|i: Ident| ident_sql(i));
    let mut i: usize = 0;
    assert(all.take(0) =~= Seq::<Seq<char>>::empty());
    while i < items.len()
        invariant
            i <= items@.len(),
            all == items@.map_values(|i: Ident| ident_sql(i)),
            out@ == old(out)@ + text::join(all.take(i as int), ", "@),
        decreases items.len() - i,
    {
        if i > 0 {
            text::append_str(out, ", ");
        }
        render::write_ident(out, &items[i]);
        proof {
            text::lemma_join_push(all.take(i as int), ", "@, all[i as int]);
            assert(all.take(i + 1) =~= all.take(i as int).push(all[i as int]));
        }
        i += 1;
    }
    assert(all.take(all.len() as int) =~= all);
}

/// `CONSTRAINT <name> ` for a named constraint.
pub open spec fn constraint_name_sql(name: Option<Ident>) -> Seq<char> {
    match name {
        Some(n) => "CONSTRAINT "@ + ident_sql(n) + " "@,
        None => Seq::empty(),
    }
}

fn write_constraint_name(out: &mut Vec<char>, name: &Option<Ident>)
    ensures
        final(out)@ == old(out)@ + constraint_name_sql(*name),
{
    match name {
        Some(n) => {
            text::append_str(out, "CONSTRAINT ");
            render::write_ident(out, n);
            text::append_str(out, " ");
        },
        None => {
            assert(old(out)@ + constraint_name_sql(*name) =~= old(out)@);
        },
    }
}

pub open spec fn primary_key_clause_sql(pk: PrimaryKey) -> Seq<char> {
    constraint_name_sql(pk.name) + "PRIMARY KEY ("@ + ident_list_sql(pk.columns@) + ")"@
}

pub fn write_primary_key_clause(out: &mut Vec<char>, pk: &PrimaryKey)
    ensures
        final(out)@ == old(out)@ + primary_key_clause_sql(*pk),
{
    let ghost start = out@;
    write_constraint_name(out, &pk.name);
    text::append_str(out, "PRIMARY KEY (");
    write_ident_list(out, &pk.columns);
    text::append_str(out, ")");
    assert(out@ =~= start + primary_key_clause_sql(*pk));
}

pub open spec fn fk_action_sql(a: ForeignKeyAction) -> Seq<char> {
    match a {
        ForeignKeyAction::NoAction => "NO ACTION"@,
        ForeignKeyAction::Restrict => "RESTRICT"@,
        ForeignKeyAction::Cascade => "CASCADE"@,
        ForeignKeyAction::SetNull => "SET NULL"@,
        ForeignKeyAction::SetDefault => "SET DEFAULT"@,
    }
}

/// A foreign key action is rendered as the keyword that names it, and two different
/// actions never render the same keyword.
pub proof fn law_foreign_key_action_keywords(a: ForeignKeyAction, b: ForeignKeyAction)
    ensures
        a is NoAction ==> fk_action_sql(a) == "NO ACTION"@,
        a is Restrict ==> fk_action_sql(a) == "RESTRICT"@,
        a is Cascade ==> fk_action_sql(a) == "CASCADE"@,
        a is SetNull ==> fk_action_sql(a) == "SET NULL"@,
        a is SetDefault ==> fk_action_sql(a) == "SET DEFAULT"@,
        a != b ==> fk_action_sql(a) != fk_action_sql(b),
{
    reveal_strlit("NO ACTION");
    reveal_strlit("RESTRICT");
    reveal_strlit("CASCADE");
    reveal_strlit("SET NULL");
    reveal_strlit("SET DEFAULT");
    if a != b {
        let (x, y) = (fk_action_sql(a), fk_action_sql(b));
        if x.len() == y.len() {
            assert(x[0] != y[0]);
        }
    }
}

pub fn render_fk_action(a: &ForeignKeyAction) -> (r: &'static str)
    ensures
        r@ == fk_action_sql(*a),
{
    match a {
        ForeignKeyAction::NoAction => "NO ACTION",
        ForeignKeyAction::Restrict => "RESTRICT",
        ForeignKeyAction::Cascade => "CASCADE",
        ForeignKeyAction::SetNull => "SET NULL",
        ForeignKeyAction::SetDefault => "SET DEFAULT",
    }
}

pub open spec fn deferrable_sql(d: Deferrable) -> Seq<char> {
    match d {
        Deferrable::Deferrable { initially_deferred } => if initially_deferred {
            "DEFERRABLE INITIALLY DEFERRED"@
        } else {
            "DEFERRABLE INITIALLY IMMEDIATE"@
        },
        Deferrable::NotDeferrable => "NOT DEFERRABLE"@,
    }
}

pub fn render_deferrable(d: &Deferrable) -> (r: &'static str)
    ensures
        r@ == deferrable_sql(*d),
{
    match d {
        Deferrable::Deferrable { initially_deferred } => if *initially_deferred {
            "DEFERRABLE INITIALLY DEFERRED"
        } else {
            "DEFERRABLE INITIALLY IMMEDIATE"
        },
        Deferrable::NotDeferrable => "NOT DEFERRABLE",
    }
}

/// ` <deferrable>` when the constraint says how it is deferred.
pub open spec fn deferrable_suffix_sql(d: Option<Deferrable>) -> Seq<char> {
    match d {
        Some(x) => " "@ + deferrable_sql(x),
        None => Seq::empty(),
    }
}

fn write_deferrable_suffix(out: &mut Vec<char>, d: &Option<Deferrable>)
    ensures
        final(out)@ == old(out)@ + deferrable_suffix_sql(*d),
{
    match d {
        Some(x) => {
            text::append_str(out, " ");
            text::append_str(out, render_deferrable(x));
        },
        None => {
            assert(old(out)@ + deferrable_suffix_sql(*d) =~= old(out)@);
        },
    }
}

/// `keyword` and the action, when there is one.
pub open spec fn fk_action_suffix_sql(keyword: Seq<char>, a: Option<ForeignKeyAction>) -> Seq<char> {
    match a {
        Some(x) => keyword + fk_action_sql(x),
        None => Seq::empty(),
    }
}

fn write_fk_action_suffix(out: &mut Vec<char>, keyword: &str, a: &Option<ForeignKeyAction>)
    ensures
        final(out)@ == old(out)@ + fk_action_suffix_sql(keyword@, *a),
{
    match a {
        Some(x) => {
            text::append_str(out, keyword);
            text::append_str(out, render_fk_action(x));
        },
        None => {
            assert(old(out)@ + fk_action_suffix_sql(keyword@, *a) =~= old(out)@);
        },
    }
}

/// `FOREIGN KEY (...) REFERENCES ...` up to the referenced columns.
pub open spec fn fk_reference_sql(fk: ForeignKey) -> Seq<char> {
    "FOREIGN KEY ("@ + ident_list_sql(fk.columns@) + ") REFERENCES "@ + qualified_name_sql(
        fk.referenced_table,
    ) + " ("@ + ident_list_sql(fk.referenced_columns@) + ")"@
}

fn write_fk_reference(out: &mut Vec<char>, fk: &ForeignKey)
    ensures
        final(out)@ == old(out)@ + fk_reference_sql(*fk),
{
    let ghost start = out@;
    text::append_str(out, "FOREIGN KEY (");
    write_ident_list(out, &fk.columns);
    text::append_str(out, ") REFERENCES ");
    render::write_qualified_name(out, &fk.referenced_table);
    text::append_str(out, " (");
    write_ident_list(out, &fk.referenced_columns);
    text::append_str(out, ")");
    assert(out@ =~= start + fk_reference_sql(*fk));
}

pub open spec fn fk_clause_sql(fk: ForeignKey) -> Seq<char> {
    constraint_name_sql(fk.name) + fk_reference_sql(fk) + fk_action_suffix_sql(
        " ON DELETE "@,
        fk.on_delete,
    ) + fk_action_suffix_sql(" ON UPDATE "@, fk.on_update) + deferrable_suffix_sql(fk.deferrable)
}

#[verifier::rlimit(40)]
pub fn write_fk_clause(out: &mut Vec<char>, fk: &ForeignKey)
    ensures
        final(out)@ == old(out)@ + fk_clause_sql(*fk),
{
    let ghost start = out@;
    write_constraint_name(out, &fk.name);
    write_fk_reference(out, fk);
    write_fk_action_suffix(out, " ON DELETE ", &fk.on_delete);
    write_fk_action_suffix(out, " ON UPDATE ", &fk.on_update);
    write_deferrable_suffix(out, &fk.deferrable);
    assert(out@ =~= start + fk_clause_sql(*fk));
}

pub open spec fn check_clause_sql(c: CheckConstraint) -> Seq<char> {
    constraint_name_sql(c.name) + "CHECK ("@ + expr_sql(c.expr) + ")"@ + if c.no_inherit {
        " NO INHERIT"@
    } else {
        Seq::empty()
    }
}

pub fn write_check_clause(out: &mut Vec<char>, c: &CheckConstraint)
    ensures
        final(out)@ == old(out)@ + check_clause_sql(*c),
{
    let ghost start = out@;
    write_constraint_name(out, &c.name);
    text::append_str(out, "CHECK (");
    render::write_expr(out, &c.expr);
    text::append_str(out, ")");
    if c.no_inherit {
        text::append_str(out, " NO INHERIT");
    }
    assert(out@ =~= start + check_clause_sql(*c));
}

pub open spec fn sort_order_sql(o: SortOrder) -> Seq<char> {
    match o {
        SortOrder::Asc => "ASC"@,
        SortOrder::Desc => "DESC"@,
    }
}

pub open spec fn nulls_order_sql(o: NullsOrder) -> Seq<char> {
    match o {
        NullsOrder::First => "FIRST"@,
        NullsOrder::Last => "LAST"@,
    }
}

pub fn render_sort_order(o: &SortOrder) -> (r: &'static str)
    ensures
        r@ == sort_order_sql(*o),
{
    match o {
        SortOrder::Asc => "ASC",
        SortOrder::Desc => "DESC",
    }
}

pub fn render_nulls_order(o: &NullsOrder) -> (r: &'static str)
    ensures
        r@ == nulls_order_sql(*o),
{
    match o {
        NullsOrder::First => "FIRST",
        NullsOrder::Last => "LAST",
    }
}

pub open spec fn exclusion_element_sql(e: ExclusionElement) -> Seq<char> {
    "("@ + expr_sql(e.expr) + ") WITH "@ + e.operator@ + match e.opclass {
        Some(c) => " "@ + c@,
        None => Seq::empty(),
    } + match e.order {
        Some(o) => " "@ + sort_order_sql(o),
        None => Seq::empty(),
    } + match e.nulls {
        Some(n) => " NULLS "@ + nulls_order_sql(n),
        None => Seq::empty(),
    }
}

#[verifier::rlimit(40)]
pub fn write_exclusion_element(out: &mut Vec<char>, e: &ExclusionElement)
    ensures
        final(out)@ == old(out)@ + exclusion_element_sql(*e),
{
    let ghost start = out@;
    text::append_str(out, "(");
    render::write_expr(out, &e.expr);
    text::append_str(out, ") WITH ");
    text::append_str(out, e.operator.as_str());
    match &e.opclass {
        Some(c) => {
            text::append_str(out, " ");
            text::append_str(out, c.as_str());
        },
        None => {},
    }
    match &e.order {
        Some(o) => {
            text::append_str(out, " ");
            text::append_str(out, render_sort_order(o));
        },
        None => {},
    }
    match &e.nulls {
        Some(n) => {
            text::append_str(out, " NULLS ");
            text::append_str(out, render_nulls_order(n));
        },
        None => {},
    }
    assert(out@ =~= start + exclusion_element_sql(*e));
}

pub open spec fn exclusion_elements_sql(items: Seq<ExclusionElement>) -> Seq<char> {
    text::join(items.map_values(|e: ExclusionElement| exclusion_element_sql(e)), ", "@)
}

fn write_exclusion_elements(out: &mut Vec<char>, items: &Vec<ExclusionElement>)
    ensures
        final(out)@ == old(out)@ + exclusion_elements_sql(items@),
{
    let ghost all = items@.map_values(|e: ExclusionElement| exclusion_element_sql(e));
    let mut i: usize = 0;
    assert(all.take(0) =~= Seq::<Seq<char>>::empty());
    while i < items.len()
        invariant
            i <= items@.len(),
            all == items@.map_values(|e: ExclusionElement| exclusion_element_sql(e)),
            out@ == old(out)@ + text::join(all.take(i as int), ", "@),
        decreases items.len() - i,
    {
        if i > 0 {
            text::append_str(out, ", ");
        }
        write_exclusion_element(out, &items[i]);
        proof {
            text::lemma_join_push(all.take(i as int), ", "@, all[i as int]);
            assert(all.take(i + 1) =~= all.take(i as int).push(all[i as int]));
        }
        i += 1;
    }
    assert(all.take(all.len() as int) =~= all);
}

pub open spec fn exclusion_clause_sql(x: Exclusion) -> Seq<char> {
    constraint_name_sql(x.name) + "EXCLUDE USING "@ + x.index_method@ + " ("@
        + exclusion_elements_sql(x.elements@) + ")"@ + match x.where_clause {
        Some(w) => " WHERE ("@ + expr_sql(w) + ")"@,
        None => Seq::empty(),
    } + deferrable_suffix_sql(x.deferrable)
}

pub fn write_exclusion_clause(out: &mut Vec<char>, x: &Exclusion)
    ensures
        final(out)@ == old(out)@ + exclusion_clause_sql(*x),
{
    let ghost start = out@;
    write_constraint_name(out, &x.name);
    text::append_str(out, "EXCLUDE USING ");
    text::append_str(out, x.index_method.as_str());
    text::append_str(out, " (");
    write_exclusion_elements(out, &x.elements);
    text::append_str(out, ")");
    match &x.where_clause {
        Some(w) => {
            text::append_str(out, " WHERE (");
            render::write_expr(out, w);
            text::append_str(out, ")");
        },
        None => {},
    }
    write_deferrable_suffix(out, &x.deferrable);
    assert(out@ =~= start + exclusion_clause_sql(*x));
}

pub open spec fn column_position_sql(p: ColumnPosition) -> Seq<char> {
    match p {
        ColumnPosition::First => "FIRST"@,
        ColumnPosition::After(i) => "AFTER "@ + ident_sql(i),
    }
}

pub fn write_column_position(out: &mut Vec<char>, p: &ColumnPosition)
    ensures
        final(out)@ == old(out)@ + column_position_sql(*p),
{
    match p {
        ColumnPosition::First => text::append_str(out, "FIRST"),
        ColumnPosition::After(i) => {
            text::append_str(out, "AFTER ");
            render::write_ident(out, i);
        },
    }
}

/// `ALTER TABLE <table> ALTER COLUMN <column>`, the start of every column change.
pub open spec fn alter_column_prefix_sql(table: QualifiedName, column: Ident) -> Seq<char> {
    "ALTER TABLE "@ + qualified_name_sql(table) + " ALTER COLUMN "@ + ident_sql(column)
}

pub open spec fn column_change_tail_sql(change: ColumnChange) -> Seq<char> {
    match change {
        ColumnChange::SetType(d) => " TYPE "@ + data_type_sql(d),
        ColumnChange::SetNotNull(b) => if b {
            " SET NOT NULL"@
        } else {
            " DROP NOT NULL"@
        },
        ColumnChange::SetDefault(d) => match d {
            Some(e) => " SET DEFAULT "@ + expr_sql(e),
            None => " DROP DEFAULT"@,
        },
        ColumnChange::SetIdentity(i) => match i {
            Some(id) => " ADD "@ + identity_sql(id),
            None => " DROP IDENTITY IF EXISTS"@,
        },
        ColumnChange::SetGenerated(g) => match g {
            Some(x) => " SET EXPRESSION AS ("@ + expr_sql(x.expr) + ")"@ + stored_sql(x.stored),
            None => " DROP EXPRESSION"@,
        },
        ColumnChange::SetCollation(c) => match c {
            Some(col) => " TYPE TEXT COLLATE "@ + text::quoted_with(col@, '"'),
            None => " TYPE TEXT"@,
        },
    }
}

pub open spec fn alter_column_change_sql(
    table: QualifiedName,
    column: Ident,
    change: ColumnChange,
) -> Seq<char> {
    alter_column_prefix_sql(table, column) + column_change_tail_sql(change)
}

fn write_column_change_tail(out: &mut Vec<char>, change: &ColumnChange)
    ensures
        final(out)@ == old(out)@ + column_change_tail_sql(*change),
{
    let ghost start = out@;
    match change {
        ColumnChange::SetType(d) => {
            text::append_str(out, " TYPE ");
            render::write_data_type(out, d);
        },
        ColumnChange::SetNotNull(b) => if *b {
            text::append_str(out, " SET NOT NULL");
        } else {
            text::append_str(out, " DROP NOT NULL");
        },
        ColumnChange::SetDefault(d) => match d {
            Some(e) => {
                text::append_str(out, " SET DEFAULT ");
                render::write_expr(out, e);
            },
            None => text::append_str(out, " DROP DEFAULT"),
        },
        ColumnChange::SetIdentity(i) => match i {
            Some(id) => {
                text::append_str(out, " ADD ");
                write_identity(out, id);
            },
            None => text::append_str(out, " DROP IDENTITY IF EXISTS"),
        },
        ColumnChange::SetGenerated(g) => match g {
            Some(x) => {
                text::append_str(out, " SET EXPRESSION AS (");
                render::write_expr(out, &x.expr);
                text::append_str(out, ")");
                write_stored(out, x.stored);
            },
            None => text::append_str(out, " DROP EXPRESSION"),
        },
        ColumnChange::SetCollation(c) => match c {
            Some(col) => {
                text::append_str(out, " TYPE TEXT COLLATE ");
                render::write_ident_text(out, col.as_str());
            },
            None => text::append_str(out, " TYPE TEXT"),
        },
    }
    assert(out@ =~= start + column_change_tail_sql(*change));
}

/// The statement for one change of a column.
pub fn render_alter_column_change(table: &QualifiedName, column: &Ident, change: &ColumnChange) -> (r:
    String)
    ensures
        r@ == alter_column_change_sql(*table, *column, *change),
{
    let mut out: Vec<char> = Vec::new();
    text::append_str(&mut out, "ALTER TABLE ");
    render::write_qualified_name(&mut out, table);
    text::append_str(&mut out, " ALTER COLUMN ");
    render::write_ident(&mut out, column);
    write_column_change_tail(&mut out, change);
    assert(out@ =~= alter_column_change_sql(*table, *column, *change));
    text::string_of(out.as_slice())
}


/// The option under `key`: the first entry with that key.
pub open spec fn option_value(extra: Seq<(String, Value)>, key: Seq<char>) -> Option<Value>
    decreases extra.len(),
{
    if extra.len() == 0 {
        None
    } else if extra[0].0@ == key {
        Some(extra[0].1)
    } else {
        option_value(extra.drop_first(), key)
    }
}

/// The option under `key`.
pub fn find_option<'a>(extra: &'a Vec<(String, Value)>, key: &str) -> (r: Option<&'a Value>)
    ensures
        match r {
            Some(v) => option_value(extra@, key@) == Some(*v),
            None => option_value(extra@, key@) is None,
        },
{
    let mut i: usize = 0;
    assert(extra@.skip(0) =~= extra@);
    while i < extra.len()
        invariant
            i <= extra@.len(),
            option_value(extra@, key@) == option_value(extra@.skip(i as int), key@),
        decreases extra.len() - i,
    {
        let k = text::chars_of(extra[i].0.as_str());
        if text::eq_str(k.as_slice(), key) {
            return Some(&extra[i].1);
        }
        proof {
            assert(extra@.skip(i as int).drop_first() =~= extra@.skip(i + 1));
        }
        i += 1;
    }
    None
}

/// The options as `key=value` pairs in a comment, nothing when there are none.
pub open spec fn table_options_comment_sql(o: TableOptions) -> Seq<char> {
    if o.extra@.len() == 0 {
        Seq::empty()
    } else {
        "/* table_options:"@ + text::join(
            o.extra@.map_values(|e: (String, Value)| e.0@ + "="@ + render::value_sql(e.1)),
            ","@,
        ) + " */"@
    }
}

/// The options as `key = value` pairs, separated by `", "`.
pub open spec fn option_assignments_sql(extra: Seq<(String, Value)>) -> Seq<char> {
    text::join(extra.map_values(|e: (String, Value)| e.0@ + " = "@ + render::value_sql(e.1)), ", "@)
}

/// Writes the options as `key<eq>value` pairs separated by `sep`.
fn write_option_pairs(out: &mut Vec<char>, extra: &Vec<(String, Value)>, eq: &str, sep: &str)
    ensures
        final(out)@ == old(out)@ + text::join(
            extra@.map_values(|e: (String, Value)| e.0@ + eq@ + render::value_sql(e.1)),
            sep@,
        ),
{
    let ghost all = extra@.map_values(|e: (String, Value)| e.0@ + eq@ + render::value_sql(e.1));
    let mut i: usize = 0;
    assert(all.take(0) =~= Seq::<Seq<char>>::empty());
    while i < extra.len()
        invariant
            i <= extra@.len(),
            all == extra@.map_values(|e: (String, Value)| e.0@ + eq@ + render::value_sql(e.1)),
            out@ == old(out)@ + text::join(all.take(i as int), sep@),
        decreases extra.len() - i,
    {
        if i > 0 {
            text::append_str(out, sep);
        }
        let ghost before = out@;
        text::append_str(out, extra[i].0.as_str());
        text::append_str(out, eq);
        render::write_value(out, &extra[i].1);
        proof {
            assert(out@ =~= before + all[i as int]);
            text::lemma_join_push(all.take(i as int), sep@, all[i as int]);
            assert(all.take(i + 1) =~= all.take(i as int).push(all[i as int]));
        }
        i += 1;
    }
    assert(all.take(all.len() as int) =~= all);
}

pub fn write_table_options_comment(out: &mut Vec<char>, o: &TableOptions)
    ensures
        final(out)@ == old(out)@ + table_options_comment_sql(*o),
{
    if o.extra.len() == 0 {
        assert(old(out)@ + table_options_comment_sql(*o) =~= old(out)@);
    } else {
        let ghost start = out@;
        text::append_str(out, "/* table_options:");
        write_option_pairs(out, &o.extra, "=", ",");
        text::append_str(out, " */");
        assert(out@ =~= start + table_options_comment_sql(*o));
    }
}

/// The `option = value, ...` list of `ALTER TABLE ... SET (...)`.
pub fn write_option_assignments(out: &mut Vec<char>, extra: &Vec<(String, Value)>)
    ensures
        final(out)@ == old(out)@ + option_assignments_sql(extra@),
{
    write_option_pairs(out, extra, " = ", ", ");
}

pub open spec fn partition_strategy_sql(s: PartitionStrategy) -> Seq<char> {
    match s {
        PartitionStrategy::Range => "RANGE"@,
        PartitionStrategy::List => "LIST"@,
        PartitionStrategy::Hash => "HASH"@,
        PartitionStrategy::Key => "KEY"@,
    }
}

pub fn render_partition_strategy(s: &PartitionStrategy) -> (r: &'static str)
    ensures
        r@ == partition_strategy_sql(*s),
{
    match s {
        PartitionStrategy::Range => "RANGE",
        PartitionStrategy::List => "LIST",
        PartitionStrategy::Hash => "HASH",
        PartitionStrategy::Key => "KEY",
    }
}

pub open spec fn partition_key_sql(p: Partition) -> Seq<char> {
    partition_strategy_sql(p.strategy) + " ("@ + ident_list_sql(p.columns@) + ")"@
}

pub fn write_partition_key(out: &mut Vec<char>, p: &Partition)
    ensures
        final(out)@ == old(out)@ + partition_key_sql(*p),
{
    let ghost start = out@;
    text::append_str(out, render_partition_strategy(&p.strategy));
    text::append_str(out, " (");
    write_ident_list(out, &p.columns);
    text::append_str(out, ")");
    assert(out@ =~= start + partition_key_sql(*p));
}

pub open spec fn partition_bound_sql(b: PartitionBound) -> Seq<char> {
    match b {
        PartitionBound::LessThan(v) => "FOR VALUES LESS THAN ("@ + render::list_sql(v@) + ")"@,
        PartitionBound::In(v) => "FOR VALUES IN ("@ + render::list_sql(v@) + ")"@,
        PartitionBound::FromTo { from, to } => "FOR VALUES FROM ("@ + render::list_sql(from@)
            + ") TO ("@ + render::list_sql(to@) + ")"@,
        PartitionBound::MaxValue => "FOR VALUES IN (MAXVALUE)"@,
    }
}

pub fn write_partition_bound(out: &mut Vec<char>, b: &PartitionBound)
    ensures
        final(out)@ == old(out)@ + partition_bound_sql(*b),
{
    let ghost start = out@;
    match b {
        PartitionBound::LessThan(v) => {
            text::append_str(out, "FOR VALUES LESS THAN (");
            render::write_expr_list(out, v);
            text::append_str(out, ")");
        },
        PartitionBound::In(v) => {
            text::append_str(out, "FOR VALUES IN (");
            render::write_expr_list(out, v);
            text::append_str(out, ")");
        },
        PartitionBound::FromTo { from, to } => {
            text::append_str(out, "FOR VALUES FROM (");
            render::write_expr_list(out, from);
            text::append_str(out, ") TO (");
            render::write_expr_list(out, to);
            text::append_str(out, ")");
        },
        PartitionBound::MaxValue => text::append_str(out, "FOR VALUES IN (MAXVALUE)"),
    }
    assert(out@ =~= start + partition_bound_sql(*b));
}

/// `CREATE TABLE <child> PARTITION OF <parent> <bound>`; the child is in the parent's schema.
pub open spec fn create_partition_sql(parent: QualifiedName, e: PartitionElement) -> Seq<char> {
    "CREATE TABLE "@ + qualified_name_sql(QualifiedName { schema: parent.schema, name: e.name })
        + " PARTITION OF "@ + qualified_name_sql(parent) + match e.bound {
        Some(b) => " "@ + partition_bound_sql(b),
        None => Seq::empty(),
    }
}

pub fn render_create_partition(parent: &QualifiedName, e: &PartitionElement) -> (r: String)
    ensures
        r@ == create_partition_sql(*parent, *e),
{
    let mut out: Vec<char> = Vec::new();
    text::append_str(&mut out, "CREATE TABLE ");
    render::write_name_in(&mut out, &parent.schema, &e.name);
    text::append_str(&mut out, " PARTITION OF ");
    render::write_qualified_name(&mut out, parent);
    match &e.bound {
        Some(b) => {
            text::append_str(&mut out, " ");
            write_partition_bound(&mut out, b);
        },
        None => {},
    }
    assert(out@ =~= create_partition_sql(*parent, *e));
    text::string_of(out.as_slice())
}

/// One `CREATE TABLE ... PARTITION OF` statement for each partition.
pub open spec fn add_partition_sql(table: QualifiedName, p: Partition) -> Seq<Seq<char>> {
    p.partitions@.map_values(|e: PartitionElement| create_partition_sql(table, e))
}

pub fn render_add_partition(table: &QualifiedName, p: &Partition) -> (r: Vec<String>)
    ensures
        text::views(r@) == add_partition_sql(*table, *p),
{
    let mut out: Vec<String> = Vec::new();
    let mut i: usize = 0;
    while i < p.partitions.len()
        invariant
            i <= p.partitions@.len(),
            text::views(out@) == add_partition_sql(*table, *p).take(i as int),
        decreases p.partitions.len() - i,
    {
        let s = render_create_partition(table, &p.partitions[i]);
        let ghost prev = out@;
        out.push(s);
        i += 1;
        assert(text::views(out@) =~= text::views(prev).push(out@.last()@));
        assert(add_partition_sql(*table, *p).take(i as int) =~= add_partition_sql(*table, *p).take(
            i - 1,
        ).push(add_partition_sql(*table, *p)[i - 1]));
    }
    assert(add_partition_sql(*table, *p).take(p.partitions@.len() as int) =~= add_partition_sql(
        *table,
        *p,
    ));
    out
}

/// `DROP TABLE` of the partition `name`, in the table's schema.
pub open spec fn drop_partition_sql(table: QualifiedName, name: Ident) -> Seq<char> {
    "DROP TABLE "@ + qualified_name_sql(QualifiedName { schema: table.schema, name })
}

pub fn render_drop_partition(table: &QualifiedName, name: &Ident) -> (r: String)
    ensures
        r@ == drop_partition_sql(*table, *name),
{
    let mut out: Vec<char> = Vec::new();
    text::append_str(&mut out, "DROP TABLE ");
    render::write_name_in(&mut out, &table.schema, name);
    assert(out@ =~= drop_partition_sql(*table, *name));
    text::string_of(out.as_slice())
}

pub open spec fn add_constraint_sql(table: QualifiedName, clause: Seq<char>) -> Seq<char> {
    "ALTER TABLE "@ + qualified_name_sql(table) + " ADD "@ + clause
}

/// Adding a foreign key: its deferrability is written after the clause, which already
/// carries it, as well.
pub open spec fn add_foreign_key_sql(table: QualifiedName, fk: ForeignKey) -> Seq<char> {
    add_constraint_sql(table, fk_clause_sql(fk)) + deferrable_suffix_sql(fk.deferrable)
}

pub fn render_add_foreign_key(table: &QualifiedName, fk: &ForeignKey) -> (r: String)
    ensures
        r@ == add_foreign_key_sql(*table, *fk),
{
    let mut out: Vec<char> = Vec::new();
    text::append_str(&mut out, "ALTER TABLE ");
    render::write_qualified_name(&mut out, table);
    text::append_str(&mut out, " ADD ");
    write_fk_clause(&mut out, fk);
    write_deferrable_suffix(&mut out, &fk.deferrable);
    assert(out@ =~= add_foreign_key_sql(*table, *fk));
    text::string_of(out.as_slice())
}

pub fn render_add_check(table: &QualifiedName, c: &CheckConstraint) -> (r: String)
    ensures
        r@ == add_constraint_sql(*table, check_clause_sql(*c)),
{
    let mut out: Vec<char> = Vec::new();
    text::append_str(&mut out, "ALTER TABLE ");
    render::write_qualified_name(&mut out, table);
    text::append_str(&mut out, " ADD ");
    write_check_clause(&mut out, c);
    assert(out@ =~= add_constraint_sql(*table, check_clause_sql(*c)));
    text::string_of(out.as_slice())
}

pub fn render_add_exclusion(table: &QualifiedName, x: &Exclusion) -> (r: String)
    ensures
        r@ == add_constraint_sql(*table, exclusion_clause_sql(*x)),
{
    let mut out: Vec<char> = Vec::new();
    text::append_str(&mut out, "ALTER TABLE ");
    render::write_qualified_name(&mut out, table);
    text::append_str(&mut out, " ADD ");
    write_exclusion_clause(&mut out, x);
    assert(out@ =~= add_constraint_sql(*table, exclusion_clause_sql(*x)));
    text::string_of(out.as_slice())
}

pub fn render_set_primary_key(table: &QualifiedName, pk: &PrimaryKey) -> (r: String)
    ensures
        r@ == add_constraint_sql(*table, primary_key_clause_sql(*pk)),
{
    let mut out: Vec<char> = Vec::new();
    text::append_str(&mut out, "ALTER TABLE ");
    render::write_qualified_name(&mut out, table);
    text::append_str(&mut out, " ADD ");
    write_primary_key_clause(&mut out, pk);
    assert(out@ =~= add_constraint_sql(*table, primary_key_clause_sql(*pk)));
    text::string_of(out.as_slice())
}

/// Dropping a primary key names the constraint PostgreSQL gives it by default,
/// `<table>_pkey`.
pub open spec fn drop_primary_key_sql(table: QualifiedName) -> Seq<char> {
    "ALTER TABLE "@ + qualified_name_sql(table) + " DROP CONSTRAINT "@ + text::quoted_with(
        table.name.value@ + "_pkey"@,
        '"',
    )
}

pub fn render_drop_primary_key(table: &QualifiedName) -> (r: String)
    ensures
        r@ == drop_primary_key_sql(*table),
{
    let mut out: Vec<char> = Vec::new();
    text::append_str(&mut out, "ALTER TABLE ");
    render::write_qualified_name(&mut out, table);
    text::append_str(&mut out, " DROP CONSTRAINT ");
    let mut name: Vec<char> = text::chars_of(table.name.value.as_str());
    text::append_str(&mut name, "_pkey");
    let quoted = text::quote_chars(name.as_slice(), '"');
    text::append_chars(&mut out, quoted.as_slice());
    assert(out@ =~= drop_primary_key_sql(*table));
    text::string_of(out.as_slice())
}


/// The option key under which a table's `IF NOT EXISTS` flag is kept.
pub const TABLE_IF_NOT_EXISTS_KEY: &'static str = "postgres.table.if_not_exists";

/// The option key under which a table's access method (`USING ...`) is kept.
pub const TABLE_ACCESS_METHOD_KEY: &'static str = "postgres.table.access_method";

/// The option key under which a table's tablespace is kept.
pub const TABLESPACE_KEY: &'static str = "postgres.table.tablespace";

/// Whether the table is created with `IF NOT EXISTS`: its flag is the boolean `true`.
pub open spec fn if_not_exists(o: TableOptions) -> bool {
    option_value(o.extra@, TABLE_IF_NOT_EXISTS_KEY@) == Some(Value::Bool(true))
}

/// ` <keyword> <text>` when the option `key` holds a string.
pub open spec fn string_option_sql(o: TableOptions, key: Seq<char>, keyword: Seq<char>, quoted: bool) -> Seq<char> {
    match option_value(o.extra@, key) {
        Some(Value::String(v)) => keyword + if quoted {
            text::quoted_with(v@, '"')
        } else {
            v@
        },
        _ => Seq::empty(),
    }
}

/// The column definitions, then the primary key, foreign keys, checks and exclusions.
pub open spec fn table_elements_sql(t: Table) -> Seq<Seq<char>> {
    t.columns@.map_values(|x: Column| column_definition_sql(x)) + match t.primary_key {
        Some(pk) => seq![primary_key_clause_sql(pk)],
        None => Seq::empty(),
    } + t.foreign_keys@.map_values(|x: ForeignKey| fk_clause_sql(x)) + t.checks@.map_values(
        |x: CheckConstraint| check_clause_sql(x),
    ) + t.exclusions@.map_values(|x: Exclusion| exclusion_clause_sql(x))
}

pub open spec fn create_table_sql(t: Table) -> Seq<char> {
    "CREATE TABLE "@ + (if if_not_exists(t.options) {
        "IF NOT EXISTS "@
    } else {
        Seq::empty()
    }) + qualified_name_sql(t.name) + " ("@ + text::join(table_elements_sql(t), ", "@) + ")"@
        + match t.partition {
        Some(p) => " PARTITION BY "@ + partition_key_sql(p),
        None => Seq::empty(),
    } + string_option_sql(t.options, TABLE_ACCESS_METHOD_KEY@, " USING "@, false)
        + string_option_sql(t.options, TABLESPACE_KEY@, " TABLESPACE "@, true)
}

fn push_column_definitions(parts: &mut Vec<Vec<char>>, items: &Vec<Column>)
    ensures
        text::char_views(final(parts)@) == text::char_views(old(parts)@) + items@.map_values(
            |x: Column| column_definition_sql(x),
        ),
{
    let ghost all = items@.map_values(|x: Column| column_definition_sql(x));
    let mut i: usize = 0;
    assert(text::char_views(parts@) =~= text::char_views(old(parts)@) + all.take(0));
    while i < items.len()
        invariant
            i <= items@.len(),
            all == items@.map_values(|x: Column| column_definition_sql(x)),
            text::char_views(parts@) == text::char_views(old(parts)@) + all.take(i as int),
        decreases items.len() - i,
    {
        let mut v: Vec<char> = Vec::new();
        write_column_definition(&mut v, &items[i]);
        proof {
            text::lemma_char_views_push(parts@, v);
            assert(all.take(i + 1) =~= all.take(i as int).push(v@));
        }
        parts.push(v);
        i += 1;
    }
    assert(all.take(all.len() as int) =~= all);
}

fn push_fk_clauses(parts: &mut Vec<Vec<char>>, items: &Vec<ForeignKey>)
    ensures
        text::char_views(final(parts)@) == text::char_views(old(parts)@) + items@.map_values(
            |x: ForeignKey| fk_clause_sql(x),
        ),
{
    let ghost all = items@.map_values(|x: ForeignKey| fk_clause_sql(x));
    let mut i: usize = 0;
    assert(text::char_views(parts@) =~= text::char_views(old(parts)@) + all.take(0));
    while i < items.len()
        invariant
            i <= items@.len(),
            all == items@.map_values(|x: ForeignKey| fk_clause_sql(x)),
            text::char_views(parts@) == text::char_views(old(parts)@) + all.take(i as int),
        decreases items.len() - i,
    {
        let mut v: Vec<char> = Vec::new();
        write_fk_clause(&mut v, &items[i]);
        proof {
            text::lemma_char_views_push(parts@, v);
            assert(all.take(i + 1) =~= all.take(i as int).push(v@));
        }
        parts.push(v);
        i += 1;
    }
    assert(all.take(all.len() as int) =~= all);
}

fn push_check_clauses(parts: &mut Vec<Vec<char>>, items: &Vec<CheckConstraint>)
    ensures
        text::char_views(final(parts)@) == text::char_views(old(parts)@) + items@.map_values(
            |x: CheckConstraint| check_clause_sql(x),
        ),
{
    let ghost all = items@.map_values(|x: CheckConstraint| check_clause_sql(x));
    let mut i: usize = 0;
    assert(text::char_views(parts@) =~= text::char_views(old(parts)@) + all.take(0));
    while i < items.len()
        invariant
            i <= items@.len(),
            all == items@.map_values(|x: CheckConstraint| check_clause_sql(x)),
            text::char_views(parts@) == text::char_views(old(parts)@) + all.take(i as int),
        decreases items.len() - i,
    {
        let mut v: Vec<char> = Vec::new();
        write_check_clause(&mut v, &items[i]);
        proof {
            text::lemma_char_views_push(parts@, v);
            assert(all.take(i + 1) =~= all.take(i as int).push(v@));
        }
        parts.push(v);
        i += 1;
    }
    assert(all.take(all.len() as int) =~= all);
}

fn push_exclusion_clauses(parts: &mut Vec<Vec<char>>, items: &Vec<Exclusion>)
    ensures
        text::char_views(final(parts)@) == text::char_views(old(parts)@) + items@.map_values(
            |x: Exclusion| exclusion_clause_sql(x),
        ),
{
    let ghost all = items@.map_values(|x: Exclusion| exclusion_clause_sql(x));
    let mut i: usize = 0;
    assert(text::char_views(parts@) =~= text::char_views(old(parts)@) + all.take(0));
    while i < items.len()
        invariant
            i <= items@.len(),
            all == items@.map_values(|x: Exclusion| exclusion_clause_sql(x)),
            text::char_views(parts@) == text::char_views(old(parts)@) + all.take(i as int),
        decreases items.len() - i,
    {
        let mut v: Vec<char> = Vec::new();
        write_exclusion_clause(&mut v, &items[i]);
        proof {
            text::lemma_char_views_push(parts@, v);
            assert(all.take(i + 1) =~= all.take(i as int).push(v@));
        }
        parts.push(v);
        i += 1;
    }
    assert(all.take(all.len() as int) =~= all);
}

fn table_elements(t: &Table) -> (parts: Vec<Vec<char>>)
    ensures
        text::char_views(parts@) == table_elements_sql(*t),
{
    let mut parts: Vec<Vec<char>> = Vec::new();
    assert(text::char_views(parts@) =~= Seq::<Seq<char>>::empty());
    push_column_definitions(&mut parts, &t.columns);
    let ghost after_columns = text::char_views(parts@);
    match &t.primary_key {
        Some(pk) => {
            let mut v: Vec<char> = Vec::new();
            write_primary_key_clause(&mut v, pk);
            proof {
                text::lemma_char_views_push(parts@, v);
            }
            parts.push(v);
        },
        None => {},
    }
    push_fk_clauses(&mut parts, &t.foreign_keys);
    push_check_clauses(&mut parts, &t.checks);
    push_exclusion_clauses(&mut parts, &t.exclusions);
    assert(text::char_views(parts@) =~= table_elements_sql(*t));
    parts
}

fn write_string_option(out: &mut Vec<char>, o: &TableOptions, key: &str, keyword: &str, quoted: bool)
    ensures
        final(out)@ == old(out)@ + string_option_sql(*o, key@, keyword@, quoted),
{
    match find_option(&o.extra, key) {
        Some(Value::String(v)) => {
            text::append_str(out, keyword);
            if quoted {
                render::write_ident_text(out, v.as_str());
            } else {
                text::append_str(out, v.as_str());
            }
        },
        _ => {
            assert(old(out)@ + string_option_sql(*o, key@, keyword@, quoted) =~= old(out)@);
        },
    }
}

fn write_create_table_head(out: &mut Vec<char>, t: &Table)
    ensures
        final(out)@ == old(out)@ + "CREATE TABLE "@ + (if if_not_exists(t.options) {
            "IF NOT EXISTS "@
        } else {
            Seq::empty()
        }) + qualified_name_sql(t.name),
{
    let ghost start = out@;
    text::append_str(out, "CREATE TABLE ");
    let flagged = match find_option(&t.options.extra, TABLE_IF_NOT_EXISTS_KEY) {
        Some(Value::Bool(b)) => *b,
        _ => false,
    };
    if flagged {
        text::append_str(out, "IF NOT EXISTS ");
    }
    render::write_qualified_name(out, &t.name);
}

/// `CREATE TABLE` with the columns and constraints, the partitioning, the access method
/// and the tablespace.
pub fn render_create_table(t: &Table) -> (r: String)
    ensures
        r@ == create_table_sql(*t),
{
    let mut out: Vec<char> = Vec::new();
    write_create_table_head(&mut out, t);
    text::append_str(&mut out, " (");
    let parts = table_elements(t);
    let joined = text::join_char_vecs(&parts, ", ");
    text::append_chars(&mut out, joined.as_slice());
    text::append_str(&mut out, ")");
    match &t.partition {
        Some(p) => {
            text::append_str(&mut out, " PARTITION BY ");
            write_partition_key(&mut out, p);
        },
        None => {},
    }
    write_string_option(&mut out, &t.options, TABLE_ACCESS_METHOD_KEY, " USING ", false);
    write_string_option(&mut out, &t.options, TABLESPACE_KEY, " TABLESPACE ", true);
    assert(out@ =~= create_table_sql(*t));
    text::string_of(out.as_slice())
}


/// What refuses a view whose query is blank.
pub const EMPTY_VIEW_QUERY_TARGET: &'static str = "view query must not be empty";

/// What refuses an index without a name.
pub const INDEX_NAME_TARGET: &'static str = "index name is required";

pub open spec fn check_option_sql(c: CheckOption) -> Seq<char> {
    match c {
        CheckOption::Local => "LOCAL"@,
        CheckOption::Cascaded => "CASCADED"@,
    }
}

pub open spec fn view_security_sql(s: ViewSecurity) -> Seq<char> {
    match s {
        ViewSecurity::Definer => "definer"@,
        ViewSecurity::Invoker => "invoker"@,
    }
}

pub fn render_check_option(c: &CheckOption) -> (r: &'static str)
    ensures
        r@ == check_option_sql(*c),
{
    match c {
        CheckOption::Local => "LOCAL",
        CheckOption::Cascaded => "CASCADED",
    }
}

pub fn render_view_security(s: &ViewSecurity) -> (r: &'static str)
    ensures
        r@ == view_security_sql(*s),
{
    match s {
        ViewSecurity::Definer => "definer",
        ViewSecurity::Invoker => "invoker",
    }
}

/// ` (<columns>)` when the list is not empty.
pub open spec fn column_list_suffix_sql(columns: Seq<Ident>) -> Seq<char> {
    if columns.len() > 0 {
        " ("@ + ident_list_sql(columns) + ")"@
    } else {
        Seq::empty()
    }
}

fn write_column_list_suffix(out: &mut Vec<char>, columns: &Vec<Ident>)
    ensures
        final(out)@ == old(out)@ + column_list_suffix_sql(columns@),
{
    if columns.len() > 0 {
        text::append_str(out, " (");
        write_ident_list(out, columns);
        text::append_str(out, ")");
    } else {
        assert(old(out)@ + column_list_suffix_sql(columns@) =~= old(out)@);
    }
}

/// The options of a view after its query: the check option, and the security as a comment.
pub open spec fn view_options_sql(v: ir::View) -> Seq<char> {
    let check = match v.check_option {
        Some(c) => " WITH "@ + check_option_sql(c) + " CHECK OPTION"@,
        None => Seq::empty(),
    };
    let security = match v.security {
        Some(s) => " /* security="@ + view_security_sql(s) + " */"@,
        None => Seq::empty(),
    };
    check + security
}

fn write_view_options(out: &mut Vec<char>, v: &ir::View)
    ensures
        final(out)@ == old(out)@ + view_options_sql(*v),
{
    let ghost start = out@;
    match &v.check_option {
        Some(c) => {
            text::append_str(out, " WITH ");
            text::append_str(out, render_check_option(c));
            text::append_str(out, " CHECK OPTION");
        },
        None => {},
    }
    match &v.security {
        Some(s) => {
            text::append_str(out, " /* security=");
            text::append_str(out, render_view_security(s));
            text::append_str(out, " */");
        },
        None => {},
    }
    assert(out@ =~= start + view_options_sql(*v));
}

/// `CREATE [OR REPLACE] VIEW` of a view.
pub open spec fn create_view_sql(v: ir::View, replace: bool) -> Seq<char> {
    "CREATE "@ + (if replace {
        "OR REPLACE "@
    } else {
        Seq::empty()
    }) + "VIEW "@ + qualified_name_sql(v.name) + column_list_suffix_sql(v.columns@) + " AS "@
        + v.query@ + view_options_sql(v)
}

/// `CREATE [OR REPLACE] VIEW` of a view; a view whose query is blank is refused.
pub fn render_create_view(v: &ir::View, replace: bool) -> (r: Result<String, Error>)
    ensures
        text::trim(v.query@).len() == 0 ==> (r matches Err(e) && error::is_unsupported(
            e,
            "CreateView"@,
            EMPTY_VIEW_QUERY_TARGET@,
            "postgres"@,
        )),
        text::trim(v.query@).len() > 0 ==> (r matches Ok(s) && s@ == create_view_sql(*v, replace)),
{
    let q = text::trim_str(v.query.as_str());
    if q.len() == 0 {
        let op = text::chars_of("CreateView");
        return Err(error::unsupported(op.as_slice(), EMPTY_VIEW_QUERY_TARGET, "postgres"));
    }
    let mut out: Vec<char> = Vec::new();
    text::append_str(&mut out, "CREATE ");
    if replace {
        text::append_str(&mut out, "OR REPLACE ");
    }
    text::append_str(&mut out, "VIEW ");
    render::write_qualified_name(&mut out, &v.name);
    write_column_list_suffix(&mut out, &v.columns);
    text::append_str(&mut out, " AS ");
    text::append_str(&mut out, v.query.as_str());
    write_view_options(&mut out, v);
    assert(out@ =~= create_view_sql(*v, replace));
    Ok(text::string_of(out.as_slice()))
}

/// The names of the columns, separated by `", "`.
pub open spec fn column_names_sql(columns: Seq<Column>) -> Seq<char> {
    text::join(columns.map_values(|c: Column| ident_sql(c.name)), ", "@)
}

fn write_column_names(out: &mut Vec<char>, columns: &Vec<Column>)
    ensures
        final(out)@ == old(out)@ + column_names_sql(columns@),
{
    let ghost all = columns@.map_values(|c: Column| ident_sql(c.name));
    let mut i: usize = 0;
    assert(all.take(0) =~= Seq::<Seq<char>>::empty());
    while i < columns.len()
        invariant
            i <= columns@.len(),
            all == columns@.map_values(|c: Column| ident_sql(c.name)),
            out@ == old(out)@ + text::join(all.take(i as int), ", "@),
        decreases columns.len() - i,
    {
        if i > 0 {
            text::append_str(out, ", ");
        }
        render::write_ident(out, &columns[i].name);
        proof {
            text::lemma_join_push(all.take(i as int), ", "@, all[i as int]);
            assert(all.take(i + 1) =~= all.take(i as int).push(all[i as int]));
        }
        i += 1;
    }
    assert(all.take(all.len() as int) =~= all);
}

pub open spec fn create_materialized_view_sql(v: MaterializedView) -> Seq<char> {
    "CREATE MATERIALIZED VIEW "@ + qualified_name_sql(v.name) + (if v.columns@.len() > 0 {
        " ("@ + column_names_sql(v.columns@) + ")"@
    } else {
        Seq::empty()
    }) + " AS "@ + v.query@ + if v.options.extra@.len() > 0 {
        " "@ + table_options_comment_sql(v.options)
    } else {
        Seq::empty()
    }
}

pub fn render_create_materialized_view(v: &MaterializedView) -> (r: String)
    ensures
        r@ == create_materialized_view_sql(*v),
{
    let mut out: Vec<char> = Vec::new();
    text::append_str(&mut out, "CREATE MATERIALIZED VIEW ");
    render::write_qualified_name(&mut out, &v.name);
    if v.columns.len() > 0 {
        text::append_str(&mut out, " (");
        write_column_names(&mut out, &v.columns);
        text::append_str(&mut out, ")");
    }
    text::append_str(&mut out, " AS ");
    text::append_str(&mut out, v.query.as_str());
    if v.options.extra.len() > 0 {
        text::append_str(&mut out, " ");
        write_table_options_comment(&mut out, &v.options);
    }
    assert(out@ =~= create_materialized_view_sql(*v));
    text::string_of(out.as_slice())
}

/// The table, view or materialized view an index is on.
pub open spec fn index_owner_name(owner: IndexOwner) -> QualifiedName {
    match owner {
        IndexOwner::Table(n) => n,
        IndexOwner::View(n) => n,
        IndexOwner::MaterializedView(n) => n,
    }
}

pub fn owner_name(owner: &IndexOwner) -> (r: &QualifiedName)
    ensures
        *r == index_owner_name(*owner),
{
    match owner {
        IndexOwner::Table(n) => n,
        IndexOwner::View(n) => n,
        IndexOwner::MaterializedView(n) => n,
    }
}

/// An index's name in the schema of what it is on.
pub open spec fn owner_scoped_name_sql(owner: IndexOwner, name: Ident) -> Seq<char> {
    qualified_name_sql(QualifiedName { schema: index_owner_name(owner).schema, name })
}

pub fn write_owner_scoped_name(out: &mut Vec<char>, owner: &IndexOwner, name: &Ident)
    ensures
        final(out)@ == old(out)@ + owner_scoped_name_sql(*owner, *name),
{
    render::write_name_in(out, &owner_name(owner).schema, name);
}

/// The key expressions of an index, separated by `", "`.
pub open spec fn index_columns_sql(columns: Seq<ir::IndexColumn>) -> Seq<char> {
    text::join(columns.map_values(|c: ir::IndexColumn| expr_sql(c.expr)), ", "@)
}

fn write_index_columns(out: &mut Vec<char>, columns: &Vec<ir::IndexColumn>)
    ensures
        final(out)@ == old(out)@ + index_columns_sql(columns@),
{
    let ghost all = columns@.map_values(|c: ir::IndexColumn| expr_sql(c.expr));
    let mut i: usize = 0;
    assert(all.take(0) =~= Seq::<Seq<char>>::empty());
    while i < columns.len()
        invariant
            i <= columns@.len(),
            all == columns@.map_values(|c: ir::IndexColumn| expr_sql(c.expr)),
            out@ == old(out)@ + text::join(all.take(i as int), ", "@),
        decreases columns.len() - i,
    {
        if i > 0 {
            text::append_str(out, ", ");
        }
        render::write_expr(out, &columns[i].expr);
        proof {
            text::lemma_join_push(all.take(i as int), ", "@, all[i as int]);
            assert(all.take(i + 1) =~= all.take(i as int).push(all[i as int]));
        }
        i += 1;
    }
    assert(all.take(all.len() as int) =~= all);
}

/// `CREATE [UNIQUE] INDEX [CONCURRENTLY] <name> ON <owner> [USING <method>] (<keys>)
/// [WHERE <predicate>]`.
pub open spec fn add_index_sql(i: IndexDef, name: Ident) -> Seq<char> {
    "CREATE "@ + (if i.unique {
        "UNIQUE "@
    } else {
        Seq::empty()
    }) + "INDEX "@ + (if i.concurrent {
        "CONCURRENTLY "@
    } else {
        Seq::empty()
    }) + ident_sql(name) + " ON "@ + qualified_name_sql(index_owner_name(i.owner)) + match i.method {
        Some(m) => " USING "@ + m@,
        None => Seq::empty(),
    } + " ("@ + index_columns_sql(i.columns@) + ")"@ + match i.where_clause {
        Some(w) => " WHERE "@ + expr_sql(w),
        None => Seq::empty(),
    }
}

/// The error for a change that `target` refuses.
pub fn unsupported_diff_op(dialect_name: &str, op: &DiffOp, target: &str) -> (e: Error)
    ensures
        error::is_unsupported(e, ops::diff_op_tag(*op), target@, dialect_name@),
{
    let tag = text::chars_of(ops::diff_op_name(op));
    error::unsupported(tag.as_slice(), target, dialect_name)
}

fn write_index_head(out: &mut Vec<char>, i: &IndexDef, name: &Ident)
    ensures
        final(out)@ == old(out)@ + "CREATE "@ + (if i.unique {
            "UNIQUE "@
        } else {
            Seq::empty()
        }) + "INDEX "@ + (if i.concurrent {
            "CONCURRENTLY "@
        } else {
            Seq::empty()
        }) + ident_sql(*name) + " ON "@ + qualified_name_sql(index_owner_name(i.owner)),
{
    let ghost start = out@;
    text::append_str(out, "CREATE ");
    if i.unique {
        text::append_str(out, "UNIQUE ");
    }
    text::append_str(out, "INDEX ");
    if i.concurrent {
        text::append_str(out, "CONCURRENTLY ");
    }
    render::write_ident(out, name);
    text::append_str(out, " ON ");
    render::write_qualified_name(out, owner_name(&i.owner));
}

/// `CREATE INDEX` of an index under `name`.
pub fn render_index_statement(i: &IndexDef, name: &Ident) -> (r: String)
    ensures
        r@ == add_index_sql(*i, *name),
{
    let mut out: Vec<char> = Vec::new();
    write_index_head(&mut out, i, name);
    match &i.method {
        Some(m) => {
            text::append_str(&mut out, " USING ");
            text::append_str(&mut out, m.as_str());
        },
        None => {},
    }
    text::append_str(&mut out, " (");
    write_index_columns(&mut out, &i.columns);
    text::append_str(&mut out, ")");
    match &i.where_clause {
        Some(w) => {
            text::append_str(&mut out, " WHERE ");
            render::write_expr(&mut out, w);
        },
        None => {},
    }
    assert(out@ =~= add_index_sql(*i, *name));
    text::string_of(out.as_slice())
}

/// `CREATE INDEX` of an index; an index without a name is refused, for the change `op`.
pub fn render_add_index(i: &IndexDef, dialect_name: &str, op: &DiffOp) -> (r: Result<String, Error>)
    ensures
        match i.name {
            Some(n) => r matches Ok(s) && s@ == add_index_sql(*i, n),
            None => r matches Err(e) && error::is_unsupported(
                e,
                ops::diff_op_tag(*op),
                INDEX_NAME_TARGET@,
                dialect_name@,
            ),
        },
{
    match &i.name {
        Some(n) => Ok(render_index_statement(i, n)),
        None => Err(unsupported_diff_op(dialect_name, op, INDEX_NAME_TARGET)),
    }
}

} // verus!
