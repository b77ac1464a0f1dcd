use vstd::prelude::*;

use crate::text;

verus! {

/// An SQL identifier and whether it was written quoted.
#[derive(Debug, Clone, PartialEq, Eq)]
pub struct Ident {
    pub value: String,
    pub quoted: bool,
}

/// A possibly schema-qualified object name.
#[derive(Debug, Clone, PartialEq, Eq)]
pub struct QualifiedName {
    pub schema: Option<Ident>,
    pub name: Ident,
}

/// Two identifiers with the same text and quoting.
pub open spec fn same_ident(a: Ident, b: Ident) -> bool {
    a.value@ == b.value@ && a.quoted == b.quoted
}

/// Two optional schema qualifiers that are both absent or the same identifier.
pub open spec fn same_qualifier(a: Option<Ident>, b: Option<Ident>) -> bool {
    match (a, b) {
        (None, None) => true,
        (Some(x), Some(y)) => same_ident(x, y),
        _ => false,
    }
}

/// Two names with the same qualifier and identifier.
pub open spec fn same_name(a: QualifiedName, b: QualifiedName) -> bool {
    same_qualifier(a.schema, b.schema) && same_ident(a.name, b.name)
}

/// A copy of an identifier.
pub fn copy_ident(id: &Ident) -> (r: Ident)
    ensures
        same_ident(r, *id),
{
    Ident { value: text::owned(id.value.as_str()), quoted: id.quoted }
}

/// A copy of a name.
pub fn copy_name(n: &QualifiedName) -> (r: QualifiedName)
    ensures
        same_name(r, *n),
{
    let schema = match &n.schema {
        Some(s) => Some(copy_ident(s)),
        None => None,
    };
    QualifiedName { schema, name: copy_ident(&n.name) }
}

/// Whether two identifiers have the same text and quoting.
pub fn idents_equal(a: &Ident, b: &Ident) -> (r: bool)
    ensures
        r == same_ident(*a, *b),
{
    if a.quoted != b.quoted {
        return false;
    }
    let v = text::chars_of(a.value.as_str());
    text::eq_str(v.as_slice(), b.value.as_str())
}

pub fn qualifiers_equal(a: &Option<Ident>, b: &Option<Ident>) -> (r: bool)
    ensures
        r == same_qualifier(*a, *b),
{
    match (a, b) {
        (None, None) => true,
        (Some(x), Some(y)) => idents_equal(x, y),
        _ => false,
    }
}

/// Whether two names are the same.
pub fn names_equal(a: &QualifiedName, b: &QualifiedName) -> (r: bool)
    ensures
        r == same_name(*a, *b),
{
    qualifiers_equal(&a.schema, &b.schema) && idents_equal(&a.name, &b.name)
}

} // verus!
