use vstd::prelude::*;

use crate::ir::Partition;
use crate::ir::PartitionElement;
use crate::ir::PartitionStrategy;
use crate::ir::SchemaObject;
use crate::ir::Table;
use crate::ir::Value;
use crate::postgres::definitions::find_option;
use crate::postgres::definitions::option_value;
use crate::postgres::sequences::ident_key;
use crate::postgres::sequences::ident_key_text;
use crate::postgres::sequences::key_view;
use crate::postgres::sequences::name_key;
use crate::postgres::sequences::qualified_name_key;
use crate::postgres::sequences::QualifiedNameKey;
use crate::schema;
use crate::schema::Ident;
use crate::schema::QualifiedName;
use crate::strset;
use crate::text;

verus! {

/// The option key under which a partition child keeps its parent's name.
pub const PARTITION_PARENT_NAME_KEY: &'static str = "postgres.partition.parent_name";

/// The option key under which a partition child keeps its parent's schema.
pub const PARTITION_PARENT_SCHEMA_KEY: &'static str = "postgres.partition.parent_schema";

/// The key of the parent a partition child names: its parent's name, and its schema when
/// that is a non-empty string, both unquoted.
pub open spec fn child_parent_key(t: Table) -> Option<(Option<Seq<char>>, Seq<char>)> {
    match option_value(t.options.extra@, PARTITION_PARENT_NAME_KEY@) {
        Some(Value::String(n)) => Some(
            (
                match option_value(t.options.extra@, PARTITION_PARENT_SCHEMA_KEY@) {
                    Some(Value::String(s)) => if s@.len() > 0 {
                        Some("u:"@ + text::lower(s@))
                    } else {
                        None
                    },
                    _ => None,
                },
                "u:"@ + text::lower(n@),
            ),
        ),
        _ => None,
    }
}

fn unquoted_ident(value: &String) -> (r: Ident)
    ensures
        r.value@ == value@,
        !r.quoted,
{
    Ident { value: text::owned(value.as_str()), quoted: false }
}

/// The parent a partition child names, as an unquoted name.
pub fn parent_of_child(t: &Table) -> (r: Option<QualifiedName>)
    ensures
        match r {
            Some(n) => child_parent_key(*t) == Some(name_key(n)),
            None => child_parent_key(*t) is None,
        },
{
    let parent_name = match find_option(&t.options.extra, PARTITION_PARENT_NAME_KEY) {
        Some(Value::String(n)) => n,
        _ => return None,
    };
    let schema = match find_option(&t.options.extra, PARTITION_PARENT_SCHEMA_KEY) {
        Some(Value::String(s)) => if text::chars_of(s.as_str()).len() > 0 {
            Some(unquoted_ident(s))
        } else {
            None
        },
        _ => None,
    };
    Some(QualifiedName { schema, name: unquoted_ident(parent_name) })
}

/// The index of the last table among the first `n` objects that is not a partition child
/// and has the name `key`: later tables take a name from earlier ones.
pub open spec fn parent_index(objects: Seq<SchemaObject>, key: (Option<Seq<char>>, Seq<char>), n: int) -> Option<int>
    decreases n,
{
    if n <= 0 {
        None
    } else {
        match objects[n - 1] {
            SchemaObject::Table(t) => if child_parent_key(t) is None && name_key(t.name) == key {
                Some(n - 1)
            } else {
                parent_index(objects, key, n - 1)
            },
            _ => parent_index(objects, key, n - 1),
        }
    }
}

/// The table that object `i`, a partition child, is folded into.
pub open spec fn fold_parent(objects: Seq<SchemaObject>, i: int) -> Option<int> {
    match objects[i] {
        SchemaObject::Table(t) => match child_parent_key(t) {
            Some(k) => match parent_index(objects, k, objects.len() as int) {
                Some(p) => if p != i {
                    Some(p)
                } else {
                    None
                },
                None => None,
            },
            None => None,
        },
        _ => None,
    }
}

/// The partition a child stands for: its own first partition when it lists one, else
/// one of its name with no bound.
pub open spec fn child_element(t: Table) -> PartitionElement {
    match t.partition {
        Some(p) => if p.partitions@.len() > 0 {
            p.partitions@[0]
        } else {
            PartitionElement { name: t.name.name, bound: None, subpartitions: None }
        },
        None => PartitionElement { name: t.name.name, bound: None, subpartitions: None },
    }
}

/// The strategy a child's partition brings: its own when it lists a partition, else
/// range partitioning.
pub open spec fn child_strategy(t: Table) -> PartitionStrategy {
    match t.partition {
        Some(p) => if p.partitions@.len() > 0 {
            p.strategy
        } else {
            PartitionStrategy::Range
        },
        None => PartitionStrategy::Range,
    }
}

/// Some element of `elements` has the name `name`.
pub open spec fn has_name(elements: Seq<PartitionElement>, name: Ident) -> bool {
    exists|k: int| 0 <= k < elements.len() && schema::same_ident(#[trigger] elements[k].name, name)
}

/// The partitions of table `p` before any child is folded into it.
pub open spec fn initial_elements(objects: Seq<SchemaObject>, p: int) -> Seq<PartitionElement> {
    match objects[p]->Table_0.partition {
        Some(part) => part.partitions@,
        None => Seq::empty(),
    }
}

/// The partitions of table `p` once the children among the first `upto` objects are
/// folded into their parents: a child adds its partition unless one of that name is
/// there already.
pub open spec fn elements_after(objects: Seq<SchemaObject>, p: int, upto: int) -> Seq<PartitionElement>
    decreases upto,
{
    if upto <= 0 {
        initial_elements(objects, p)
    } else {
        let prev = elements_after(objects, p, upto - 1);
        let child = objects[upto - 1]->Table_0;
        if fold_parent(objects, upto - 1) == Some(p) && !has_name(prev, child_element(child).name) {
            prev.push(child_element(child))
        } else {
            prev
        }
    }
}

/// Child `i` is folded into its parent, and then dropped.
pub open spec fn folded_child(objects: Seq<SchemaObject>, i: int) -> bool {
    match fold_parent(objects, i) {
        Some(p) => !has_name(elements_after(objects, p, i), child_element(objects[i]->Table_0).name),
        None => false,
    }
}

/// The strategy of the partitioning that the first folded child among the first `upto`
/// objects gives table `p`, when `p` had none.
pub open spec fn created_strategy(objects: Seq<SchemaObject>, p: int, upto: int) -> Option<PartitionStrategy>
    decreases upto,
{
    if upto <= 0 {
        None
    } else {
        let prev = created_strategy(objects, p, upto - 1);
        if prev is None && folded_child(objects, upto - 1) && fold_parent(objects, upto - 1) == Some(p) {
            Some(child_strategy(objects[upto - 1]->Table_0))
        } else {
            prev
        }
    }
}

/// `r` is table `p` once the children among the first `upto` objects are folded in: its
/// partitions grown as `elements_after` says; a partitioning is created, with the
/// strategy of the first child and no columns, when it had none and a child was folded.
pub open spec fn parent_folded(r: Table, objects: Seq<SchemaObject>, p: int, upto: int) -> bool {
    let t = objects[p]->Table_0;
    &&& r == (Table { partition: r.partition, ..t })
    &&& match t.partition {
        Some(part) => r.partition matches Some(rp) && rp == (Partition {
            partitions: rp.partitions,
            ..part
        }) && rp.partitions@ == elements_after(objects, p, upto),
        None => match created_strategy(objects, p, upto) {
            None => r.partition is None,
            Some(s) => r.partition matches Some(rp) && rp.strategy == s && rp.columns@.len() == 0
                && rp.partitions@ == elements_after(objects, p, upto),
        },
    }
}


proof fn lemma_parent_index_range(objects: Seq<SchemaObject>, key: (Option<Seq<char>>, Seq<char>), n: int)
    requires
        n <= objects.len(),
    ensures
        parent_index(objects, key, n) matches Some(k) ==> 0 <= k < n && objects[k] is Table
            && child_parent_key(objects[k]->Table_0) is None,
    decreases n,
{
    if n > 0 {
        lemma_parent_index_range(objects, key, n - 1);
    }
}

proof fn lemma_fold_parent_range(objects: Seq<SchemaObject>, i: int)
    requires
        0 <= i < objects.len(),
    ensures
        fold_parent(objects, i) matches Some(p) ==> 0 <= p < objects.len() && p != i
            && objects[p] is Table && child_parent_key(objects[p]->Table_0) is None
            && objects[i] is Table && child_parent_key(objects[i]->Table_0) is Some,
{
    match objects[i] {
        SchemaObject::Table(t) => match child_parent_key(t) {
            Some(k) => lemma_parent_index_range(objects, k, objects.len() as int),
            None => {},
        },
        _ => {},
    }
}

fn keys_match(a: &QualifiedNameKey, b: &QualifiedNameKey) -> (r: bool)
    ensures
        r == (key_view(*a) == key_view(*b)),
{
    crate::postgres::sequences::keys_equal(a, b)
}

/// The last table that is not a partition child and has the name `key`.
fn find_parent_index(objects: &Vec<SchemaObject>, key: &QualifiedNameKey) -> (r: Option<usize>)
    ensures
        match r {
            Some(k) => parent_index(objects@, key_view(*key), objects@.len() as int) == Some(k as int),
            None => parent_index(objects@, key_view(*key), objects@.len() as int) is None,
        },
{
    let mut n: usize = objects.len();
    while n > 0
        invariant
            n <= objects@.len(),
            parent_index(objects@, key_view(*key), objects@.len() as int) == parent_index(
                objects@,
                key_view(*key),
                n as int,
            ),
        decreases n,
    {
        match &objects[n - 1] {
            SchemaObject::Table(t) => {
                if parent_of_child(t).is_none() {
                    let k = qualified_name_key(&t.name);
                    if keys_match(&k, key) {
                        return Some(n - 1);
                    }
                }
            },
            _ => {},
        }
        n -= 1;
    }
    None
}

/// The table each object, a partition child, is folded into.
fn fold_parents(objects: &Vec<SchemaObject>) -> (r: Vec<Option<usize>>)
    ensures
        r@.len() == objects@.len(),
        forall|i: int|
            0 <= i < objects@.len() ==> match #[trigger] r@[i] {
                Some(p) => fold_parent(objects@, i) == Some(p as int),
                None => fold_parent(objects@, i) is None,
            },
{
    let mut r: Vec<Option<usize>> = Vec::new();
    let mut i: usize = 0;
    while i < objects.len()
        invariant
            i <= objects@.len(),
            r@.len() == i,
            forall|k: int|
                0 <= k < i ==> match #[trigger] r@[k] {
                    Some(p) => fold_parent(objects@, k) == Some(p as int),
                    None => fold_parent(objects@, k) is None,
                },
        decreases objects.len() - i,
    {
        let parent = match &objects[i] {
            SchemaObject::Table(t) => match parent_of_child(t) {
                Some(name) => {
                    let key = qualified_name_key(&name);
                    match find_parent_index(objects, &key) {
                        Some(p) => if p != i {
                            Some(p)
                        } else {
                            None
                        },
                        None => None,
                    }
                },
                None => None,
            },
            _ => None,
        };
        r.push(parent);
        i += 1;
    }
    r
}

/// Takes out of a child the partition it stands for, and the strategy it brings.
pub fn partition_element_from_child(t: &mut Table) -> (r: (PartitionStrategy, PartitionElement))
    ensures
        r.0 == child_strategy(*old(t)),
        r.1 == child_element(*old(t)),
{
    let ghost before = *t;
    match &mut t.partition {
        Some(p) => {
            if p.partitions.len() > 0 {
                let strategy = p.strategy;
                let first = p.partitions.remove(0);
                return (strategy, first);
            }
        },
        None => {},
    }
    let mut name = Ident { value: String::new(), quoted: false };
    std::mem::swap(&mut name, &mut t.name.name);
    (PartitionStrategy::Range, PartitionElement { name, bound: None, subpartitions: None })
}

/// Some partition of `elements` has the name `name`.
fn contains_name(elements: &Vec<PartitionElement>, name: &Ident) -> (r: bool)
    ensures
        r == has_name(elements@, *name),
{
    let mut k: usize = 0;
    while k < elements.len()
        invariant
            k <= elements@.len(),
            forall|j: int| 0 <= j < k ==> !schema::same_ident(#[trigger] elements@[j].name, *name),
        decreases elements.len() - k,
    {
        if schema::idents_equal(&elements[k].name, name) {
            return true;
        }
        k += 1;
    }
    false
}

/// The name of the partition a child stands for.
fn child_element_name(t: &Table) -> (r: &Ident)
    ensures
        *r == child_element(*t).name,
{
    match &t.partition {
        Some(p) => if p.partitions.len() > 0 {
            &p.partitions[0].name
        } else {
            &t.name.name
        },
        None => &t.name.name,
    }
}

/// `r` is `objects` once the children among the first `upto` are folded into their
/// parents: each table that is no child is folded as `parent_folded` says, a folded child
/// may have been emptied, every other object is unchanged.
pub open spec fn folds_made(r: Seq<SchemaObject>, objects: Seq<SchemaObject>, upto: int) -> bool {
    &&& r.len() == objects.len()
    &&& forall|k: int|
        0 <= k < objects.len() ==> {
            let o = #[trigger] objects[k];
            if o is Table && child_parent_key(o->Table_0) is None {
                r[k] matches SchemaObject::Table(t2) && parent_folded(t2, objects, k, upto)
            } else if k < upto && folded_child(objects, k) {
                true
            } else {
                r[k] == objects[k]
            }
        }
}


proof fn lemma_no_creation_no_growth(objects: Seq<SchemaObject>, p: int, upto: int)
    requires
        0 <= p < objects.len(),
        upto <= objects.len(),
        created_strategy(objects, p, upto) is None,
        objects[p]->Table_0.partition is None,
    ensures
        elements_after(objects, p, upto) == initial_elements(objects, p),
    decreases upto,
{
    if upto > 0 {
        lemma_no_creation_no_growth(objects, p, upto - 1);
    }
}

/// Folds each partition child into its parent, in order; a child whose partition's name
/// the parent has already is left alone. Which children were folded is returned.
fn fold_children(objects: &mut Vec<SchemaObject>, fp: &Vec<Option<usize>>) -> (flags: Vec<bool>)
    requires
        fp@.len() == old(objects)@.len(),
        forall|i: int|
            0 <= i < old(objects)@.len() ==> match #[trigger] fp@[i] {
                Some(p) => fold_parent(old(objects)@, i) == Some(p as int),
                None => fold_parent(old(objects)@, i) is None,
            },
    ensures
        folds_made(final(objects)@, old(objects)@, old(objects)@.len() as int),
        flags@.len() == old(objects)@.len(),
        forall|i: int|
            0 <= i < old(objects)@.len() ==> #[trigger] flags@[i] == folded_child(old(objects)@, i),
{
    let ghost orig = objects@;
    let mut flags: Vec<bool> = Vec::new();
    let mut i: usize = 0;
    proof {
        assert forall|k: int| 0 <= k < orig.len() implies {
            let o = #[trigger] orig[k];
            if o is Table && child_parent_key(o->Table_0) is None {
                objects@[k] matches SchemaObject::Table(t2) && parent_folded(t2, orig, k, 0)
            } else if k < 0 && folded_child(orig, k) {
                true
            } else {
                objects@[k] == orig[k]
            }
        } by {
            let o = orig[k];
            if o is Table && child_parent_key(o->Table_0) is None {
                let t = o->Table_0;
                match t.partition {
                    Some(part) => {
                        assert(part == (Partition { partitions: part.partitions, ..part }));
                    },
                    None => {},
                }
            }
        }
    }
    while i < fp.len()
        invariant
            i <= fp@.len(),
            fp@.len() == orig.len(),
            orig == old(objects)@,
            forall|k: int|
                0 <= k < orig.len() ==> match #[trigger] fp@[k] {
                    Some(p) => fold_parent(orig, k) == Some(p as int),
                    None => fold_parent(orig, k) is None,
                },
            folds_made(objects@, orig, i as int),
            flags@.len() == i,
            forall|k: int| 0 <= k < i ==> #[trigger] flags@[k] == folded_child(orig, k),
        decreases fp.len() - i,
    {
        let ghost before = objects@;
        let mut pushed = false;
        match fp[i] {
            Some(p) => {
                proof {
                    lemma_fold_parent_range(orig, i as int);
                    assert(before[i as int] == orig[i as int]);
                    let pt = orig[p as int]->Table_0;
                    if pt.partition is None && created_strategy(orig, p as int, i as int) is None {
                        lemma_no_creation_no_growth(orig, p as int, i as int);
                    }
                }
                let dup = match (&objects[i], &objects[p]) {
                    (SchemaObject::Table(child), SchemaObject::Table(parent)) => {
                        let name = child_element_name(child);
                        match &parent.partition {
                            Some(part) => contains_name(&part.partitions, name),
                            None => false,
                        }
                    },
                    _ => true,
                };
                proof {
                    let name = child_element(orig[i as int]->Table_0).name;
                    assert(dup == has_name(elements_after(orig, p as int, i as int), name));
                }
                if !dup {
                    let (strategy, element) = match &mut objects[i] {
                        SchemaObject::Table(child) => partition_element_from_child(child),
                        _ => (
                            PartitionStrategy::Range,
                            PartitionElement {
                                name: Ident { value: String::new(), quoted: false },
                                bound: None,
                                subpartitions: None,
                            },
                        ),
                    };
                    match &mut objects[p] {
                        SchemaObject::Table(parent) => {
                            if parent.partition.is_none() {
                                parent.partition = Some(
                                    Partition {
                                        strategy,
                                        columns: Vec::new(),
                                        partitions: Vec::new(),
                                    },
                                );
                            }
                            match &mut parent.partition {
                                Some(part) => part.partitions.push(element),
                                None => {},
                            }
                        },
                        _ => {},
                    }
                    pushed = true;
                }
            },
            None => {},
        }
        proof {
            assert(pushed == folded_child(orig, i as int));
            assert forall|k: int| 0 <= k < orig.len() implies {
                let o = #[trigger] orig[k];
                if o is Table && child_parent_key(o->Table_0) is None {
                    objects@[k] matches SchemaObject::Table(t2) && parent_folded(
                        t2,
                        orig,
                        k,
                        i + 1,
                    )
                } else if k < i + 1 && folded_child(orig, k) {
                    true
                } else {
                    objects@[k] == orig[k]
                }
            } by {
                let o = orig[k];
                if o is Table && child_parent_key(o->Table_0) is None {
                    assert(before[k] matches SchemaObject::Table(tb) && parent_folded(
                        tb,
                        orig,
                        k,
                        i as int,
                    ));
                    if fp@[i as int] != Some(k as usize) {
                        assert(elements_after(orig, k, i + 1) == elements_after(orig, k, i as int));
                        assert(created_strategy(orig, k, i + 1) == created_strategy(
                            orig,
                            k,
                            i as int,
                        ));
                    }
                }
            }
        }
        flags.push(pushed);
        i += 1;
    }
    flags
}


/// The objects from index `i` on whose flag is not set.
pub open spec fn unflagged_from(r: Seq<SchemaObject>, flags: Seq<bool>, i: int) -> Seq<SchemaObject>
    decreases r.len() - i,
{
    if i >= r.len() || i < 0 {
        Seq::empty()
    } else {
        (if flags[i] {
            Seq::empty()
        } else {
            seq![r[i]]
        }) + unflagged_from(r, flags, i + 1)
    }
}

/// Drops the objects whose flag is set, keeping the order of the others.
fn remove_flagged(objects: &mut Vec<SchemaObject>, flags: &Vec<bool>)
    requires
        flags@.len() == old(objects)@.len(),
    ensures
        final(objects)@ == unflagged_from(old(objects)@, flags@, 0),
{
    let ghost mid = objects@;
    let mut k: usize = flags.len();
    assert(mid.take(k as int) =~= mid);
    assert(unflagged_from(mid, flags@, k as int) =~= Seq::<SchemaObject>::empty());
    while k > 0
        invariant
            k <= flags@.len(),
            flags@.len() == mid.len(),
            mid == old(objects)@,
            objects@ == mid.take(k as int) + unflagged_from(mid, flags@, k as int),
        decreases k,
    {
        let ghost rest = unflagged_from(mid, flags@, k as int);
        if flags[k - 1] {
            objects.remove(k - 1);
            assert(objects@ =~= mid.take(k - 1) + unflagged_from(mid, flags@, k - 1));
        } else {
            assert(mid.take(k as int) + rest =~= mid.take(k - 1) + unflagged_from(
                mid,
                flags@,
                k - 1,
            ));
        }
        k -= 1;
    }
    assert(objects@ =~= unflagged_from(mid, flags@, 0));
}

/// `r` is `objects` with each partition child folded into its parent, in order, and
/// dropped; a child whose partition's name its parent has already stays.
pub open spec fn partition_children_folded(r: Seq<SchemaObject>, objects: Seq<SchemaObject>) -> bool {
    exists|folded: Seq<SchemaObject>|
        folds_made(folded, objects, objects.len() as int) && r == unflagged_from(
            folded,
            Seq::new(objects.len(), |i: int| folded_child(objects, i)),
            0,
        )
}

/// Folds the tables read as partitions of another table (`PARTITION OF`) into that table's
/// partitioning.
pub fn fold_partition_children(objects: &mut Vec<SchemaObject>)
    ensures
        partition_children_folded(final(objects)@, old(objects)@),
{
    let ghost orig = objects@;
    let fp = fold_parents(objects);
    let flags = fold_children(objects, &fp);
    let ghost folded = objects@;
    remove_flagged(objects, &flags);
    assert(flags@ =~= Seq::new(orig.len(), |i: int| folded_child(orig, i)));
    assert(folds_made(folded, orig, orig.len() as int) && objects@ == unflagged_from(
        folded,
        Seq::new(orig.len(), |i: int| folded_child(orig, i)),
        0,
    ));
}

/// How many of the flags from index `i` on are not set.
pub open spec fn unset_count(flags: Seq<bool>, i: int) -> int
    decreases flags.len() - i,
{
    if i >= flags.len() || i < 0 {
        0
    } else {
        (if flags[i] {
            0int
        } else {
            1int
        }) + unset_count(flags, i + 1)
    }
}

proof fn lemma_unflagged_len(r: Seq<SchemaObject>, flags: Seq<bool>, i: int)
    requires
        flags.len() == r.len(),
        0 <= i,
    ensures
        unflagged_from(r, flags, i).len() == unset_count(flags, i),
    decreases r.len() - i,
{
    if i < r.len() {
        lemma_unflagged_len(r, flags, i + 1);
    }
}

/// Folding drops exactly the folded children: as many objects remain as there were
/// objects that are not folded children.
pub proof fn law_folding_drops_the_folded_children(r: Seq<SchemaObject>, objects: Seq<SchemaObject>)
    requires
        partition_children_folded(r, objects),
    ensures
        r.len() == unset_count(Seq::new(objects.len(), |i: int| folded_child(objects, i)), 0),
{
    let folded = choose|folded: Seq<SchemaObject>|
        folds_made(folded, objects, objects.len() as int) && r == unflagged_from(
            folded,
            Seq::new(objects.len(), |i: int| folded_child(objects, i)),
            0,
        );
    lemma_unflagged_len(folded, Seq::new(objects.len(), |i: int| folded_child(objects, i)), 0);
}

proof fn lemma_elements_grow(objects: Seq<SchemaObject>, p: int, u: int, v: int)
    requires
        0 <= u <= v,
    ensures
        elements_after(objects, p, u).len() <= elements_after(objects, p, v).len(),
        forall|k: int|
            0 <= k < elements_after(objects, p, u).len() ==> #[trigger] elements_after(objects, p, v)[k]
                == elements_after(objects, p, u)[k],
    decreases v - u,
{
    if u < v {
        lemma_elements_grow(objects, p, u, v - 1);
    }
}

/// A folded child's partition ends up among its parent's partitions, where it was
/// appended when the child was folded.
pub proof fn law_folded_child_joins_its_parent(objects: Seq<SchemaObject>, i: int)
    requires
        0 <= i < objects.len(),
        folded_child(objects, i),
    ensures
        fold_parent(objects, i) matches Some(p) && elements_after(objects, p, objects.len() as int).contains(
            child_element(objects[i]->Table_0),
        ),
{
    let p = fold_parent(objects, i)->Some_0;
    let e = child_element(objects[i]->Table_0);
    let before = elements_after(objects, p, i);
    assert(elements_after(objects, p, i + 1) == before.push(e));
    lemma_elements_grow(objects, p, i + 1, objects.len() as int);
    let k = before.len() as int;
    assert(elements_after(objects, p, i + 1)[k] == e);
    assert(elements_after(objects, p, objects.len() as int)[k] == e);
}

} // verus!
