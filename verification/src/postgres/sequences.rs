use vstd::prelude::*;

use crate::ir::Column;
use crate::ir::Expr;
use crate::ir::Identity;
use crate::ir::SchemaObject;
use crate::ir::Sequence;
use crate::ir::Table;
use crate::postgres::normalize::implicit_sequence_text;
use crate::postgres::normalize::render_regclass_identifier;
use crate::postgres::normalize::implicit_sequence_name;
use crate::postgres::normalize::regclass_identifier;
use crate::postgres::normalize::sequence_regclass;
use crate::schema::Ident;
use crate::schema::QualifiedName;
use crate::strset;
use crate::text;

verus! {

/// An identifier as names are compared: a quoted one as written, an unquoted one in
/// lower case, each marked by its kind.
pub open spec fn ident_key_text(i: Ident) -> Seq<char> {
    if i.quoted {
        "q:"@ + i.value@
    } else {
        "u:"@ + text::lower(i.value@)
    }
}

pub fn ident_key(i: &Ident) -> (r: Vec<char>)
    ensures
        r@ == ident_key_text(*i),
{
    let mut out: Vec<char> = Vec::new();
    if i.quoted {
        text::append_str(&mut out, "q:");
        text::append_str(&mut out, i.value.as_str());
    } else {
        text::append_str(&mut out, "u:");
        let v = text::chars_of(i.value.as_str());
        let l = text::lower_chars(v.as_slice());
        text::append_chars(&mut out, l.as_slice());
    }
    out
}

/// A name as names are compared: the keys of its schema and its name.
pub open spec fn name_key(n: QualifiedName) -> (Option<Seq<char>>, Seq<char>) {
    (
        match n.schema {
            Some(s) => Some(ident_key_text(s)),
            None => None,
        },
        ident_key_text(n.name),
    )
}

/// The key of a name, as compared.
pub struct QualifiedNameKey {
    pub schema: Option<Vec<char>>,
    pub name: Vec<char>,
}

pub open spec fn key_view(k: QualifiedNameKey) -> (Option<Seq<char>>, Seq<char>) {
    (
        match k.schema {
            Some(s) => Some(s@),
            None => None,
        },
        k.name@,
    )
}

pub fn qualified_name_key(n: &QualifiedName) -> (k: QualifiedNameKey)
    ensures
        key_view(k) == name_key(*n),
{
    let schema = match &n.schema {
        Some(s) => Some(ident_key(s)),
        None => None,
    };
    QualifiedNameKey { schema, name: ident_key(&n.name) }
}

fn chars_equal(a: &Vec<char>, b: &Vec<char>) -> (r: bool)
    ensures
        r == (a@ == b@),
{
    strset::compare_chars(a.as_slice(), b.as_slice()) == 0
}

pub fn keys_equal(a: &QualifiedNameKey, b: &QualifiedNameKey) -> (r: bool)
    ensures
        r == (key_view(*a) == key_view(*b)),
{
    let schemas = match (&a.schema, &b.schema) {
        (Some(x), Some(y)) => chars_equal(x, y),
        (None, None) => true,
        _ => false,
    };
    schemas && chars_equal(&a.name, &b.name)
}

/// The kind of column a sequence is implied by.
#[derive(Clone, Copy, PartialEq, Eq, Structural)]
pub enum ImplicitSequenceKind {
    Serial,
    Identity,
}

/// A column's default calls `nextval` on the sequence `regclass`.
pub open spec fn uses_sequence(c: Column, regclass: Seq<char>) -> bool {
    c.default matches Some(Expr::Raw(raw)) && text::contains_sub(raw@, "nextval("@)
        && text::contains_sub(raw@, regclass)
}

pub fn column_uses_sequence(c: &Column, sequence_name: &QualifiedName) -> (r: bool)
    ensures
        r == uses_sequence(*c, regclass_identifier(sequence_name.schema, sequence_name.name.value@)),
{
    match &c.default {
        Some(Expr::Raw(raw)) => {
            let v = text::chars_of(raw.as_str());
            let id = render_regclass_identifier(sequence_name);
            let id_text = text::string_of(id.as_slice());
            text::contains_str(v.as_slice(), "nextval(") && text::contains_str(
                v.as_slice(),
                id_text.as_str(),
            )
        },
        _ => false,
    }
}

/// The kind of implicit sequence a column has: an identity column's, or a column whose
/// default draws from its implicit sequence.
pub open spec fn column_target(t: Table, c: Column) -> Option<ImplicitSequenceKind> {
    if c.identity is Some {
        Some(ImplicitSequenceKind::Identity)
    } else if uses_sequence(c, sequence_regclass(t.name, c.name)) {
        Some(ImplicitSequenceKind::Serial)
    } else {
        None
    }
}

/// The key of a column's implicit sequence.
pub open spec fn implicit_key(t: Table, c: Column) -> (Option<Seq<char>>, Seq<char>) {
    (
        match t.name.schema {
            Some(s) => Some(ident_key_text(s)),
            None => None,
        },
        "u:"@ + text::lower(implicit_sequence_text(t.name, c.name)),
    )
}

/// The last of the first `m` columns of `t` whose implicit sequence has `key`.
pub open spec fn last_column_target(t: Table, key: (Option<Seq<char>>, Seq<char>), m: int) -> Option<int>
    decreases m,
{
    if m <= 0 {
        None
    } else if column_target(t, t.columns@[m - 1]) is Some && implicit_key(t, t.columns@[m - 1])
        == key {
        Some(m - 1)
    } else {
        last_column_target(t, key, m - 1)
    }
}

/// The last column, among the tables of the first `n` objects, whose implicit sequence
/// has `key`: the table's index and the column's. Later columns take a key from earlier
/// ones.
pub open spec fn last_target(objects: Seq<SchemaObject>, key: (Option<Seq<char>>, Seq<char>), n: int) -> Option<(int, int)>
    decreases n,
{
    if n <= 0 {
        None
    } else {
        match objects[n - 1] {
            SchemaObject::Table(t) => match last_column_target(t, key, t.columns@.len() as int) {
                Some(ci) => Some((n - 1, ci)),
                None => last_target(objects, key, n - 1),
            },
            _ => last_target(objects, key, n - 1),
        }
    }
}

proof fn lemma_last_column_target_range(t: Table, key: (Option<Seq<char>>, Seq<char>), m: int)
    requires
        m <= t.columns@.len(),
    ensures
        last_column_target(t, key, m) matches Some(ci) ==> 0 <= ci < m,
    decreases m,
{
    if m > 0 {
        lemma_last_column_target_range(t, key, m - 1);
    }
}

proof fn lemma_last_target_range(objects: Seq<SchemaObject>, key: (Option<Seq<char>>, Seq<char>), n: int)
    requires
        n <= objects.len(),
    ensures
        last_target(objects, key, n) matches Some((ti, ci)) ==> 0 <= ti < n
            && objects[ti] is Table && 0 <= ci < objects[ti]->Table_0.columns@.len(),
    decreases n,
{
    if n > 0 {
        lemma_last_target_range(objects, key, n - 1);
        match objects[n - 1] {
            SchemaObject::Table(t) => lemma_last_column_target_range(
                t,
                key,
                t.columns@.len() as int,
            ),
            _ => {},
        }
    }
}

/// The sequence is owned by the column, by name.
pub open spec fn owned_by_target(s: Sequence, table: QualifiedName, column: Ident) -> bool {
    s.owned_by matches Some((ot, oc)) && name_key(ot) == name_key(table) && ident_key_text(oc)
        == ident_key_text(column)
}

pub fn sequence_owned_by_target(s: &Sequence, table: &QualifiedName, column: &Ident) -> (r: bool)
    ensures
        r == owned_by_target(*s, *table, *column),
{
    match &s.owned_by {
        Some((ot, oc)) => {
            let a = qualified_name_key(ot);
            let b = qualified_name_key(table);
            let c1 = ident_key(oc);
            let c2 = ident_key(column);
            keys_equal(&a, &b) && chars_equal(&c1, &c2)
        },
        None => false,
    }
}

/// What becomes of object `i`: a sequence that is the implicit sequence of a column and
/// owned by it is dropped; it names the table and column, and whether the column is an
/// identity one whose options it supplies.
pub open spec fn sequence_decision(objects: Seq<SchemaObject>, i: int) -> Option<(int, int, bool)> {
    match objects[i] {
        SchemaObject::Sequence(s) => match last_target(objects, name_key(s.name), objects.len() as int) {
            Some((ti, ci)) => {
                let t = objects[ti]->Table_0;
                let c = t.columns@[ci];
                if owned_by_target(s, t.name, c.name) {
                    Some((ti, ci, c.identity is Some))
                } else {
                    None
                }
            },
            None => None,
        },
        _ => None,
    }
}


/// The kind of implicit sequence of the column, and the key of that sequence.
fn column_target_of(t: &Table, c: &Column) -> (r: (Option<ImplicitSequenceKind>, QualifiedNameKey))
    ensures
        r.0 == column_target(*t, *c),
        key_view(r.1) == implicit_key(*t, *c),
{
    let implicit_name = implicit_sequence_name(&t.name, &c.name);
    let key = qualified_name_key(&implicit_name);
    let kind = if c.identity.is_some() {
        Some(ImplicitSequenceKind::Identity)
    } else if column_uses_sequence(c, &implicit_name) {
        Some(ImplicitSequenceKind::Serial)
    } else {
        None
    };
    (kind, key)
}

/// The last column of `t` whose implicit sequence has `key`.
fn last_column_target_of(t: &Table, key: &QualifiedNameKey) -> (r: Option<usize>)
    ensures
        match r {
            Some(ci) => last_column_target(*t, key_view(*key), t.columns@.len() as int) == Some(
                ci as int,
            ),
            None => last_column_target(*t, key_view(*key), t.columns@.len() as int) is None,
        },
{
    let mut m: usize = t.columns.len();
    while m > 0
        invariant
            m <= t.columns@.len(),
            last_column_target(*t, key_view(*key), t.columns@.len() as int) == last_column_target(
                *t,
                key_view(*key),
                m as int,
            ),
        decreases m,
    {
        let (kind, k) = column_target_of(t, &t.columns[m - 1]);
        if kind.is_some() && keys_equal(&k, key) {
            return Some(m - 1);
        }
        m -= 1;
    }
    None
}

/// The last column, among the tables of `objects`, whose implicit sequence has `key`.
pub fn find_last_target(objects: &Vec<SchemaObject>, key: &QualifiedNameKey) -> (r: Option<(usize, usize)>)
    ensures
        match r {
            Some((ti, ci)) => last_target(objects@, key_view(*key), objects@.len() as int) == Some(
                (ti as int, ci as int),
            ),
            None => last_target(objects@, key_view(*key), objects@.len() as int) is None,
        },
{
    let mut n: usize = objects.len();
    while n > 0
        invariant
            n <= objects@.len(),
            last_target(objects@, key_view(*key), objects@.len() as int) == last_target(
                objects@,
                key_view(*key),
                n as int,
            ),
        decreases n,
    {
        match &objects[n - 1] {
            SchemaObject::Table(t) => match last_column_target_of(t, key) {
                Some(ci) => return Some((n - 1, ci)),
                None => {},
            },
            _ => {},
        }
        n -= 1;
    }
    None
}

/// What becomes of each object under the sequence contract, as `sequence_decision` says.
fn sequence_decisions(objects: &Vec<SchemaObject>) -> (d: Vec<Option<(usize, usize, bool)>>)
    ensures
        d@.len() == objects@.len(),
        forall|i: int|
            0 <= i < objects@.len() ==> match #[trigger] d@[i] {
                Some((a, b, c)) => sequence_decision(objects@, i) == Some((a as int, b as int, c)),
                None => sequence_decision(objects@, i) is None,
            },
{
    let mut d: Vec<Option<(usize, usize, bool)>> = Vec::new();
    let mut i: usize = 0;
    while i < objects.len()
        invariant
            i <= objects@.len(),
            d@.len() == i,
            forall|k: int|
                0 <= k < i ==> match #[trigger] d@[k] {
                    Some((a, b, c)) => sequence_decision(objects@, k) == Some(
                        (a as int, b as int, c),
                    ),
                    None => sequence_decision(objects@, k) is None,
                },
        decreases objects.len() - i,
    {
        let decision = match &objects[i] {
            SchemaObject::Sequence(sq) => {
                let key = qualified_name_key(&sq.name);
                match find_last_target(objects, &key) {
                    Some((ti, ci)) => {
                        proof {
                            lemma_last_target_range(objects@, key_view(key), objects@.len() as int);
                        }
                        match &objects[ti] {
                            SchemaObject::Table(t) => {
                                let c = &t.columns[ci];
                                if sequence_owned_by_target(sq, &t.name, &c.name) {
                                    Some((ti, ci, c.identity.is_some()))
                                } else {
                                    None
                                }
                            },
                            _ => None,
                        }
                    },
                    None => None,
                }
            },
            _ => None,
        };
        d.push(decision);
        i += 1;
    }
    d
}


/// An identity column given the options of its sequence: each option the identity leaves
/// unset is taken from the sequence, cycling when either cycles, and the default dropped.
/// A column without an identity is left as it is.
pub open spec fn fold_identity(c: Column, s: Sequence) -> Column {
    match c.identity {
        None => c,
        Some(id) => Column {
            identity: Some(
                Identity {
                    start: if id.start is Some {
                        id.start
                    } else {
                        s.start
                    },
                    increment: if id.increment is Some {
                        id.increment
                    } else {
                        s.increment
                    },
                    min_value: if id.min_value is Some {
                        id.min_value
                    } else {
                        s.min_value
                    },
                    max_value: if id.max_value is Some {
                        id.max_value
                    } else {
                        s.max_value
                    },
                    cache: if id.cache is Some {
                        id.cache
                    } else {
                        s.cache
                    },
                    cycle: id.cycle || s.cycle,
                    ..id
                },
            ),
            default: None,
            ..c
        },
    }
}

/// The options of a sequence that an identity takes.
#[derive(Clone, Copy)]
pub struct SequenceOptions {
    pub start: Option<i64>,
    pub increment: Option<i64>,
    pub min_value: Option<i64>,
    pub max_value: Option<i64>,
    pub cache: Option<i64>,
    pub cycle: bool,
}

pub open spec fn options_of(s: Sequence) -> SequenceOptions {
    SequenceOptions {
        start: s.start,
        increment: s.increment,
        min_value: s.min_value,
        max_value: s.max_value,
        cache: s.cache,
        cycle: s.cycle,
    }
}

/// Gives an identity column the options of its sequence.
pub fn fold_identity_sequence_options(c: &mut Column, s: &SequenceOptions)
    ensures
        forall|q: Sequence| options_of(q) == *s ==> *final(c) == fold_identity(*old(c), q),
{
    let identity = match &mut c.identity {
        Some(id) => id,
        None => return,
    };
    if identity.start.is_none() {
        identity.start = s.start;
    }
    if identity.increment.is_none() {
        identity.increment = s.increment;
    }
    if identity.min_value.is_none() {
        identity.min_value = s.min_value;
    }
    if identity.max_value.is_none() {
        identity.max_value = s.max_value;
    }
    if identity.cache.is_none() {
        identity.cache = s.cache;
    }
    if !identity.cycle {
        identity.cycle = s.cycle;
    }
    c.default = None;
}

/// Column `ci` of table `ti` once the identity folds of the first `upto` objects are made.
pub open spec fn folded_column(objects: Seq<SchemaObject>, ti: int, ci: int, upto: int) -> Column
    decreases upto,
{
    if upto <= 0 {
        objects[ti]->Table_0.columns@[ci]
    } else {
        let prev = folded_column(objects, ti, ci, upto - 1);
        match sequence_decision(objects, upto - 1) {
            Some((a, b, true)) => if a == ti && b == ci {
                fold_identity(prev, objects[upto - 1]->Sequence_0)
            } else {
                prev
            },
            _ => prev,
        }
    }
}

/// `r` is `objects` with the identity folds of the first `upto` objects made: each table
/// keeps all but its columns, each column is the folded one, other objects are unchanged.
pub open spec fn folded_as(r: Seq<SchemaObject>, objects: Seq<SchemaObject>, upto: int) -> bool {
    &&& r.len() == objects.len()
    &&& forall|k: int|
        0 <= k < objects.len() ==> match #[trigger] objects[k] {
            SchemaObject::Table(t) => r[k] matches SchemaObject::Table(t2) && t2 == (Table {
                columns: t2.columns,
                ..t
            }) && t2.columns@.len() == t.columns@.len() && forall|c: int|
                0 <= c < t.columns@.len() ==> #[trigger] t2.columns@[c] == folded_column(
                    objects,
                    k,
                    c,
                    upto,
                ),
            _ => r[k] == objects[k],
        }
}

proof fn lemma_decision_range(objects: Seq<SchemaObject>, i: int)
    requires
        0 <= i < objects.len(),
    ensures
        sequence_decision(objects, i) matches Some((ti, ci, _)) ==> 0 <= ti < objects.len()
            && objects[ti] is Table && 0 <= ci < objects[ti]->Table_0.columns@.len()
            && objects[i] is Sequence,
{
    match objects[i] {
        SchemaObject::Sequence(s) => lemma_last_target_range(
            objects,
            name_key(s.name),
            objects.len() as int,
        ),
        _ => {},
    }
}

/// Makes the identity folds that the decisions call for.
fn apply_identity_folds(objects: &mut Vec<SchemaObject>, d: &Vec<Option<(usize, usize, bool)>>)
    requires
        d@.len() == old(objects)@.len(),
        forall|i: int|
            0 <= i < old(objects)@.len() ==> match #[trigger] d@[i] {
                Some((a, b, c)) => sequence_decision(old(objects)@, i) == Some(
                    (a as int, b as int, c),
                ),
                None => sequence_decision(old(objects)@, i) is None,
            },
    ensures
        folded_as(final(objects)@, old(objects)@, old(objects)@.len() as int),
{
    let ghost orig = objects@;
    let mut i: usize = 0;
    assert forall|k: int| 0 <= k < orig.len() && #[trigger] orig[k] is Table implies forall|c: int|
        0 <= c < orig[k]->Table_0.columns@.len() ==> #[trigger] orig[k]->Table_0.columns@[c]
            == folded_column(orig, k, c, 0) by {}
    while i < d.len()
        invariant
            i <= d@.len(),
            d@.len() == orig.len(),
            orig == old(objects)@,
            forall|k: int|
                0 <= k < orig.len() ==> match #[trigger] d@[k] {
                    Some((a, b, c)) => sequence_decision(orig, k) == Some((a as int, b as int, c)),
                    None => sequence_decision(orig, k) is None,
                },
            folded_as(objects@, orig, i as int),
        decreases d.len() - i,
    {
        let ghost before = objects@;
        match d[i] {
            Some((ti, ci, true)) => {
                proof {
                    lemma_decision_range(orig, i as int);
                }
                let opts = match &objects[i] {
                    SchemaObject::Sequence(sq) => SequenceOptions {
                        start: sq.start,
                        increment: sq.increment,
                        min_value: sq.min_value,
                        max_value: sq.max_value,
                        cache: sq.cache,
                        cycle: sq.cycle,
                    },
                    _ => SequenceOptions {
                        start: None,
                        increment: None,
                        min_value: None,
                        max_value: None,
                        cache: None,
                        cycle: false,
                    },
                };
                proof {
                    assert(objects@[i as int] == orig[i as int]);
                    assert(opts == options_of(orig[i as int]->Sequence_0));
                }
                match &mut objects[ti] {
                    SchemaObject::Table(t) => {
                        fold_identity_sequence_options(&mut t.columns[ci], &opts);
                    },
                    _ => {},
                }
            },
            _ => {},
        }
        proof {
            assert forall|k: int| 0 <= k < orig.len() implies match #[trigger] orig[k] {
                SchemaObject::Table(t) => objects@[k] matches SchemaObject::Table(t2) && t2 == (
                Table { columns: t2.columns, ..t }) && t2.columns@.len() == t.columns@.len()
                    && forall|c: int|
                    0 <= c < t.columns@.len() ==> #[trigger] t2.columns@[c] == folded_column(
                        orig,
                        k,
                        c,
                        i + 1,
                    ),
                _ => objects@[k] == orig[k],
            } by {
                match orig[k] {
                    SchemaObject::Table(t) => {
                        let t2 = objects@[k]->Table_0;
                        assert forall|c: int| 0 <= c < t.columns@.len() implies #[trigger] t2.columns@[c]
                            == folded_column(orig, k, c, i + 1) by {
                            assert(before[k] matches SchemaObject::Table(tb) && tb.columns@[c]
                                == folded_column(orig, k, c, i as int));
                        }
                    },
                    _ => {},
                }
            }
        }
        i += 1;
    }
}

/// The objects from index `i` on that the contract keeps: those no decision drops.
pub open spec fn kept_from(r: Seq<SchemaObject>, objects: Seq<SchemaObject>, i: int) -> Seq<SchemaObject>
    decreases r.len() - i,
{
    if i >= r.len() || i < 0 {
        Seq::empty()
    } else {
        (if sequence_decision(objects, i) is Some {
            Seq::empty()
        } else {
            seq![r[i]]
        }) + kept_from(r, objects, i + 1)
    }
}

/// Drops the objects that the decisions drop, keeping the order of the others.
fn remove_decided(objects: &mut Vec<SchemaObject>, d: &Vec<Option<(usize, usize, bool)>>, Ghost(orig): Ghost<Seq<SchemaObject>>)
    requires
        d@.len() == old(objects)@.len(),
        orig.len() == d@.len(),
        forall|i: int|
            0 <= i < orig.len() ==> (#[trigger] d@[i] is Some <==> sequence_decision(orig, i) is Some),
    ensures
        final(objects)@ == kept_from(old(objects)@, orig, 0),
{
    let ghost mid = objects@;
    let mut k: usize = d.len();
    assert(mid.take(k as int) =~= mid);
    assert(kept_from(mid, orig, k as int) =~= Seq::<SchemaObject>::empty());
    while k > 0
        invariant
            k <= d@.len(),
            d@.len() == mid.len(),
            orig.len() == mid.len(),
            mid == old(objects)@,
            forall|i: int|
                0 <= i < orig.len() ==> (#[trigger] d@[i] is Some <==> sequence_decision(orig, i) is Some),
            objects@ == mid.take(k as int) + kept_from(mid, orig, k as int),
        decreases k,
    {
        let ghost rest = kept_from(mid, orig, k as int);
        if d[k - 1].is_some() {
            objects.remove(k - 1);
            assert(objects@ =~= mid.take(k - 1) + kept_from(mid, orig, k - 1));
        } else {
            assert(mid.take(k as int) + rest =~= mid.take(k - 1) + kept_from(mid, orig, k - 1));
        }
        k -= 1;
    }
    assert(objects@ =~= kept_from(mid, orig, 0));
}

/// `r` is `objects` under the sequence contract: each sequence that is the implicit
/// sequence of a `serial` or identity column and owned by it is dropped, an identity
/// column taking its options.
pub open spec fn sequence_contract_applied(r: Seq<SchemaObject>, objects: Seq<SchemaObject>) -> bool {
    exists|folded: Seq<SchemaObject>|
        folded_as(folded, objects, objects.len() as int) && r == kept_from(folded, objects, 0)
}

/// Drops the sequences that PostgreSQL creates for `serial` and identity columns, an
/// identity column taking the options of its sequence.
pub fn apply_sequence_contract(objects: &mut Vec<SchemaObject>)
    ensures
        sequence_contract_applied(final(objects)@, old(objects)@),
{
    let ghost orig = objects@;
    let d = sequence_decisions(objects);
    apply_identity_folds(objects, &d);
    let ghost folded = objects@;
    remove_decided(objects, &d, Ghost(orig));
    assert(folded_as(folded, orig, orig.len() as int) && objects@ == kept_from(folded, orig, 0));
}

} // verus!
