use vstd::prelude::*;

use crate::ir::Column;
use crate::ir::DataType;
use crate::ir::Expr;
use crate::ir::GeneratedColumn;
use crate::ir::IndexColumn;
use crate::ir::IndexDef;
use crate::ir::SchemaObject;
use crate::ir::Table;
use crate::ir::Trigger;
use crate::ir::Value;
use crate::ir;
use crate::normalize;
use crate::normalize::normalize_opt_expr;
use crate::normalize::opt_expr_normalized;
use crate::schema::Ident;
use crate::text;

verus! {

/// A type name as compared: words separated by single spaces, in lower case.
pub open spec fn canonical_type_text(raw: Seq<char>) -> Seq<char> {
    text::lower(text::collapse(raw))
}

/// SQLite's rule for integer affinity: the declared type contains `int`.
pub open spec fn has_integer_affinity(c: Seq<char>) -> bool {
    text::contains_sub(c, "int"@)
}

/// SQLite's rule for text affinity: `char`, `clob` or `text` in the declared type.
pub open spec fn has_text_affinity(c: Seq<char>) -> bool {
    text::contains_sub(c, "char"@) || text::contains_sub(c, "clob"@) || text::contains_sub(
        c,
        "text"@,
    )
}

pub open spec fn has_real_affinity(c: Seq<char>) -> bool {
    text::contains_sub(c, "real"@) || text::contains_sub(c, "floa"@) || text::contains_sub(
        c,
        "doub"@,
    )
}

pub open spec fn has_numeric_affinity(c: Seq<char>) -> bool {
    text::contains_sub(c, "numeric"@) || text::contains_sub(c, "decimal"@) || text::contains_sub(
        c,
        "bool"@,
    ) || text::contains_sub(c, "date"@) || text::contains_sub(c, "time"@)
}

/// `r` is the type that a declared type name `raw` stands for, by SQLite's affinity
/// rules in their order; a name that matches none stays a custom type, in canonical form.
pub open spec fn custom_type_normalized(r: DataType, raw: Seq<char>) -> bool {
    let c = canonical_type_text(raw);
    if c.len() == 0 {
        r matches DataType::Custom(s) && s@.len() == 0
    } else if has_integer_affinity(c) {
        r is Integer
    } else if has_text_affinity(c) {
        r is Text
    } else if text::contains_sub(c, "blob"@) {
        r is Blob
    } else if has_real_affinity(c) {
        r is Real
    } else if has_numeric_affinity(c) {
        r matches DataType::Numeric { precision, scale } && precision is None && scale is None
    } else {
        r matches DataType::Custom(s) && s@ == c
    }
}

/// Single spaces between the words of `input`.
pub fn collapse_spaces(input: &str) -> (r: Vec<char>)
    ensures
        r@ == text::collapse(input@),
{
    let v = text::chars_of(input);
    text::collapse_chars(v.as_slice())
}

pub fn is_integer_affinity(canonical: &[char]) -> (b: bool)
    ensures
        b == has_integer_affinity(canonical@),
{
    text::contains_str(canonical, "int")
}

pub fn is_text_affinity(canonical: &[char]) -> (b: bool)
    ensures
        b == has_text_affinity(canonical@),
{
    text::contains_str(canonical, "char") || text::contains_str(canonical, "clob")
        || text::contains_str(canonical, "text")
}

/// The type a declared type name stands for in SQLite.
pub fn normalize_custom_type(raw: &str) -> (r: DataType)
    ensures
        custom_type_normalized(r, raw@),
{
    let collapsed = collapse_spaces(raw);
    let canonical = text::lower_chars(collapsed.as_slice());
    let c = canonical.as_slice();
    if canonical.len() == 0 {
        return DataType::Custom(String::new());
    }
    if is_integer_affinity(c) {
        return DataType::Integer;
    }
    if is_text_affinity(c) {
        return DataType::Text;
    }
    if text::contains_str(c, "blob") {
        return DataType::Blob;
    }
    if text::contains_str(c, "real") || text::contains_str(c, "floa") || text::contains_str(
        c,
        "doub",
    ) {
        return DataType::Real;
    }
    if text::contains_str(c, "numeric") || text::contains_str(c, "decimal") || text::contains_str(
        c,
        "bool",
    ) || text::contains_str(c, "date") || text::contains_str(c, "time") {
        return DataType::Numeric { precision: None, scale: None };
    }
    DataType::Custom(text::string_of(c))
}

/// `r` is `d` with every custom type name, also inside arrays, resolved by affinity.
pub open spec fn type_normalized(r: DataType, d: DataType) -> bool
    decreases d,
{
    match d {
        DataType::Array(inner) => r matches DataType::Array(i2) && type_normalized(*i2, *inner),
        DataType::Custom(c) => custom_type_normalized(r, c@),
        _ => r == d,
    }
}

pub fn normalize_data_type(data_type: &mut DataType)
    ensures
        type_normalized(*final(data_type), *old(data_type)),
    decreases *old(data_type),
{
    let replacement = match data_type {
        DataType::Array(inner) => {
            normalize_data_type(inner);
            None
        },
        DataType::Custom(custom) => Some(normalize_custom_type(custom.as_str())),
        _ => None,
    };
    match replacement {
        Some(r) => {
            *data_type = r;
        },
        None => {},
    }
}

/// An unquoted identifier folded to lower case; a quoted one as written.
pub open spec fn ident_normalized(r: Ident, i: Ident) -> bool {
    r.quoted == i.quoted && if i.quoted {
        r.value@ == i.value@
    } else {
        r.value@ == text::lower(i.value@)
    }
}

pub fn normalize_ident(ident: &mut Ident)
    ensures
        ident_normalized(*final(ident), *old(ident)),
{
    if !ident.quoted {
        let v = text::chars_of(ident.value.as_str());
        let l = text::lower_chars(v.as_slice());
        ident.value = text::string_of(l.as_slice());
    }
}

/// A column with its type resolved, its collation trimmed and folded to lower case,
/// and its default and generation expressions normalized.
pub open spec fn column_normalized(r: Column, c: Column) -> bool {
    &&& r.name == c.name
    &&& type_normalized(r.data_type, c.data_type)
    &&& r.not_null == c.not_null
    &&& opt_expr_normalized(r.default, c.default)
    &&& r.identity == c.identity
    &&& match c.generated {
        None => r.generated is None,
        Some(g) => r.generated matches Some(g2) && g2.stored == g.stored
            && normalize::normalized_from(g2.expr, g.expr),
    }
    &&& match c.collation {
        None => r.collation is None,
        Some(k) => r.collation matches Some(k2) && k2@ == text::lower(text::trim(k@)),
    }
}

fn normalize_column(c: &mut Column)
    ensures
        column_normalized(*final(c), *old(c)),
{
    normalize_data_type(&mut c.data_type);
    match &mut c.collation {
        Some(k) => {
            let t = text::trim_str(k.as_str());
            let l = text::lower_chars(t.as_slice());
            *k = text::string_of(l.as_slice());
        },
        None => {},
    }
    normalize_opt_expr(&mut c.default);
    match &mut c.generated {
        Some(g) => normalize::normalize_expr(&mut g.expr),
        None => {},
    }
}

/// An exclusion constraint with each element's expression and its `WHERE` expression
/// normalized; nothing else changes.
pub open spec fn exclusion_normalized(y: ir::Exclusion, x: ir::Exclusion) -> bool {
    &&& y.name == x.name
    &&& y.index_method == x.index_method
    &&& y.deferrable == x.deferrable
    &&& y.elements@.len() == x.elements@.len()
    &&& forall|j: int|
        0 <= j < x.elements@.len() ==> element_normalized(#[trigger] y.elements@[j], x.elements@[j])
    &&& opt_expr_normalized(y.where_clause, x.where_clause)
}

pub open spec fn element_normalized(y: ir::ExclusionElement, x: ir::ExclusionElement) -> bool {
    &&& y.operator == x.operator
    &&& y.opclass == x.opclass
    &&& y.order == x.order
    &&& y.nulls == x.nulls
    &&& normalize::normalized_from(y.expr, x.expr)
}

fn normalize_exclusion(e: &mut ir::Exclusion)
    ensures
        exclusion_normalized(*final(e), *old(e)),
{
    let mut m: usize = 0;
    while m < e.elements.len()
        invariant
            m <= e.elements@.len(),
            e.elements@.len() == old(e).elements@.len(),
            e.where_clause == old(e).where_clause,
            e.name == old(e).name,
            e.index_method == old(e).index_method,
            e.deferrable == old(e).deferrable,
            forall|j: int|
                0 <= j < m ==> element_normalized(#[trigger] e.elements@[j], old(e).elements@[j]),
            forall|j: int| m <= j < e.elements@.len() ==> #[trigger] e.elements@[j] == old(e).elements@[j],
        decreases e.elements.len() - m,
    {
        normalize::normalize_expr(&mut e.elements[m].expr);
        m += 1;
    }
    normalize_opt_expr(&mut e.where_clause);
}

/// The table with every column normalized, every check and exclusion expression
/// normalized, and the statement it was read from trimmed.
pub open spec fn table_normalized(r: Table, t: Table) -> bool {
    &&& r.name == t.name
    &&& r.columns@.len() == t.columns@.len()
    &&& forall|i: int|
        0 <= i < t.columns@.len() ==> column_normalized(#[trigger] r.columns@[i], t.columns@[i])
    &&& r.primary_key == t.primary_key
    &&& r.foreign_keys == t.foreign_keys
    &&& r.checks@.len() == t.checks@.len()
    &&& forall|i: int|
        0 <= i < t.checks@.len() ==> normalize::normalized_from(
            #[trigger] r.checks@[i].expr,
            t.checks@[i].expr,
        )
    &&& r.exclusions@.len() == t.exclusions@.len()
    &&& forall|i: int|
        0 <= i < t.exclusions@.len() ==> exclusion_normalized(
            #[trigger] r.exclusions@[i],
            t.exclusions@[i],
        )
    &&& r.partition == t.partition
    &&& r.options.without_rowid == t.options.without_rowid
    &&& r.options.strict == t.options.strict
    &&& r.options.partition_sql == t.options.partition_sql
    &&& r.options.extra == t.options.extra
    &&& match t.options.source_sql {
        Some(Value::String(s)) => r.options.source_sql matches Some(Value::String(s2)) && s2@
            == text::trim(s@),
        _ => r.options.source_sql == t.options.source_sql,
    }
}

fn normalize_table(t: &mut Table)
    ensures
        table_normalized(*final(t), *old(t)),
{
    let mut i: usize = 0;
    while i < t.columns.len()
        invariant
            i <= t.columns@.len(),
            t.columns@.len() == old(t).columns@.len(),
            forall|j: int|
                0 <= j < i ==> column_normalized(#[trigger] t.columns@[j], old(t).columns@[j]),
            forall|j: int| i <= j < t.columns@.len() ==> #[trigger] t.columns@[j] == old(t).columns@[j],
            t.name == old(t).name,
            t.primary_key == old(t).primary_key,
            t.foreign_keys == old(t).foreign_keys,
            t.checks == old(t).checks,
            t.exclusions == old(t).exclusions,
            t.partition == old(t).partition,
            t.options == old(t).options,
        decreases t.columns.len() - i,
    {
        normalize_column(&mut t.columns[i]);
        i += 1;
    }
    let ghost cols = t.columns;
    let mut k: usize = 0;
    while k < t.checks.len()
        invariant
            k <= t.checks@.len(),
            t.checks@.len() == old(t).checks@.len(),
            forall|j: int|
                0 <= j < k ==> normalize::normalized_from(
                    #[trigger] t.checks@[j].expr,
                    old(t).checks@[j].expr,
                ),
            forall|j: int| k <= j < t.checks@.len() ==> #[trigger] t.checks@[j] == old(t).checks@[j],
            t.columns == cols,
            t.name == old(t).name,
            t.primary_key == old(t).primary_key,
            t.foreign_keys == old(t).foreign_keys,
            t.exclusions == old(t).exclusions,
            t.partition == old(t).partition,
            t.options == old(t).options,
        decreases t.checks.len() - k,
    {
        normalize::normalize_expr(&mut t.checks[k].expr);
        k += 1;
    }
    let ghost checks = t.checks;
    let mut x: usize = 0;
    while x < t.exclusions.len()
        invariant
            x <= t.exclusions@.len(),
            t.exclusions@.len() == old(t).exclusions@.len(),
            forall|j: int|
                0 <= j < x ==> exclusion_normalized(
                    #[trigger] t.exclusions@[j],
                    old(t).exclusions@[j],
                ),
            forall|j: int|
                x <= j < t.exclusions@.len() ==> #[trigger] t.exclusions@[j] == old(
                    t,
                ).exclusions@[j],
            t.columns == cols,
            t.checks == checks,
            t.name == old(t).name,
            t.primary_key == old(t).primary_key,
            t.foreign_keys == old(t).foreign_keys,
            t.partition == old(t).partition,
            t.options == old(t).options,
        decreases t.exclusions.len() - x,
    {
        normalize_exclusion(&mut t.exclusions[x]);
        x += 1;
    }
    match &mut t.options.source_sql {
        Some(Value::String(s)) => {
            let trimmed = text::trim_str(s.as_str());
            *s = text::string_of(trimmed.as_slice());
        },
        _ => {},
    }
}

pub open spec fn view_normalized(r: ir::View, v: ir::View) -> bool {
    &&& r.name == v.name
    &&& r.query@ == text::trim(v.query@)
    &&& r.columns@.len() == v.columns@.len()
    &&& forall|i: int|
        0 <= i < v.columns@.len() ==> ident_normalized(#[trigger] r.columns@[i], v.columns@[i])
}

fn normalize_view(v: &mut ir::View)
    ensures
        view_normalized(*final(v), *old(v)),
{
    let q = text::trim_str(v.query.as_str());
    v.query = text::string_of(q.as_slice());
    let mut i: usize = 0;
    while i < v.columns.len()
        invariant
            i <= v.columns@.len(),
            v.columns@.len() == old(v).columns@.len(),
            v.name == old(v).name,
            v.query@ == text::trim(old(v).query@),
            forall|j: int| 0 <= j < i ==> ident_normalized(#[trigger] v.columns@[j], old(v).columns@[j]),
            forall|j: int| i <= j < v.columns@.len() ==> #[trigger] v.columns@[j] == old(v).columns@[j],
        decreases v.columns.len() - i,
    {
        normalize_ident(&mut v.columns[i]);
        i += 1;
    }
}

pub open spec fn index_normalized(r: IndexDef, i: IndexDef) -> bool {
    &&& r.name == i.name
    &&& r.owner == i.owner
    &&& r.unique == i.unique
    &&& r.concurrent == i.concurrent
    &&& r.columns@.len() == i.columns@.len()
    &&& forall|k: int|
        0 <= k < i.columns@.len() ==> normalize::normalized_from(
            #[trigger] r.columns@[k].expr,
            i.columns@[k].expr,
        )
    &&& opt_expr_normalized(r.where_clause, i.where_clause)
}

fn normalize_index_exprs(index: &mut IndexDef)
    ensures
        index_normalized(*final(index), *old(index)),
{
    let mut k: usize = 0;
    while k < index.columns.len()
        invariant
            k <= index.columns@.len(),
            index.columns@.len() == old(index).columns@.len(),
            index.name == old(index).name,
            index.owner == old(index).owner,
            index.unique == old(index).unique,
            index.concurrent == old(index).concurrent,
            index.where_clause == old(index).where_clause,
            forall|j: int|
                0 <= j < k ==> normalize::normalized_from(
                    #[trigger] index.columns@[j].expr,
                    old(index).columns@[j].expr,
                ),
            forall|j: int|
                k <= j < index.columns@.len() ==> #[trigger] index.columns@[j] == old(
                    index,
                ).columns@[j],
        decreases index.columns.len() - k,
    {
        normalize::normalize_expr(&mut index.columns[k].expr);
        k += 1;
    }
    normalize_opt_expr(&mut index.where_clause);
}

pub open spec fn trigger_normalized(r: Trigger, t: Trigger) -> bool {
    &&& r.name == t.name
    &&& r.table == t.table
    &&& r.timing == t.timing
    &&& r.events == t.events
    &&& r.for_each == t.for_each
    &&& opt_expr_normalized(r.when_clause, t.when_clause)
    &&& r.body@ == text::trim(t.body@)
}

fn normalize_trigger(t: &mut Trigger)
    ensures
        trigger_normalized(*final(t), *old(t)),
{
    normalize_opt_expr(&mut t.when_clause);
    let b = text::trim_str(t.body.as_str());
    t.body = text::string_of(b.as_slice());
}

/// `r` is the object as SQLite compares it: types resolved by affinity, collations and
/// the texts of queries, bodies and raw expressions trimmed, unquoted view column names
/// in lower case. Objects of the other kinds are left as they are.
pub open spec fn object_normalized(r: SchemaObject, o: SchemaObject) -> bool {
    match o {
        SchemaObject::Table(t) => r matches SchemaObject::Table(t2) && table_normalized(t2, t),
        SchemaObject::View(v) => r matches SchemaObject::View(v2) && view_normalized(v2, v),
        SchemaObject::Index(i) => r matches SchemaObject::Index(i2) && index_normalized(i2, i),
        SchemaObject::Trigger(t) => r matches SchemaObject::Trigger(t2) && trigger_normalized(
            t2,
            t,
        ),
        _ => r == o,
    }
}

/// Normalizes a schema object in place so that equal schemas compare equal.
pub fn normalize_object(object: &mut SchemaObject)
    ensures
        object_normalized(*final(object), *old(object)),
{
    match object {
        SchemaObject::Table(t) => normalize_table(t),
        SchemaObject::View(v) => normalize_view(v),
        SchemaObject::Index(i) => normalize_index_exprs(i),
        SchemaObject::Trigger(t) => normalize_trigger(t),
        _ => {},
    }
}

} // verus!
