use vstd::prelude::*;

use crate::text;

verus! {

/// Strict lexicographic order on character sequences, by code point (the order of `String`).
pub open spec fn lex_lt(a: Seq<char>, b: Seq<char>) -> bool
    decreases a.len(),
{
    if a.len() == 0 {
        b.len() > 0
    } else if b.len() == 0 {
        false
    } else if a[0] < b[0] {
        true
    } else if a[0] > b[0] {
        false
    } else {
        lex_lt(a.drop_first(), b.drop_first())
    }
}

pub proof fn lemma_lex_irreflexive(a: Seq<char>)
    ensures
        !lex_lt(a, a),
    decreases a.len(),
{
    if a.len() > 0 {
        lemma_lex_irreflexive(a.drop_first());
    }
}

pub proof fn lemma_lex_transitive(a: Seq<char>, b: Seq<char>, c: Seq<char>)
    requires
        lex_lt(a, b),
        lex_lt(b, c),
    ensures
        lex_lt(a, c),
    decreases a.len(),
{
    if a.len() > 0 && b.len() > 0 && c.len() > 0 {
        if a[0] == b[0] && b[0] == c[0] {
            lemma_lex_transitive(a.drop_first(), b.drop_first(), c.drop_first());
        }
    }
}

pub proof fn lemma_lex_total(a: Seq<char>, b: Seq<char>)
    ensures
        lex_lt(a, b) || lex_lt(b, a) || a == b,
    decreases a.len(),
{
    if a.len() > 0 && b.len() > 0 {
        lemma_lex_total(a.drop_first(), b.drop_first());
        if a[0] == b[0] && a.drop_first() == b.drop_first() {
            assert(a =~= seq![a[0]] + a.drop_first());
            assert(b =~= seq![b[0]] + b.drop_first());
        }
    } else if a.len() == 0 && b.len() == 0 {
        assert(a =~= b);
    }
}

pub proof fn lemma_lex_asymmetric(a: Seq<char>, b: Seq<char>)
    requires
        lex_lt(a, b),
    ensures
        !lex_lt(b, a),
{
    if lex_lt(b, a) {
        lemma_lex_transitive(a, b, a);
        lemma_lex_irreflexive(a);
    }
}

/// Strictly increasing: the shape of an ordered set of strings.
pub open spec fn strictly_sorted(s: Seq<Seq<char>>) -> bool {
    forall|i: int, j: int| 0 <= i < j < s.len() ==> lex_lt(#[trigger] s[i], #[trigger] s[j])
}

/// Compares two character sequences: -1, 0 or 1.
pub fn compare_chars(a: &[char], b: &[char]) -> (r: i8)
    ensures
        r == -1 <==> lex_lt(a@, b@),
        r == 0 <==> a@ == b@,
        r == 1 <==> lex_lt(b@, a@),
        r == -1 || r == 0 || r == 1,
{
    let mut i: usize = 0;
    proof {
        lemma_lex_total(a@, b@);
    }
    assert(a@.skip(0) =~= a@);
    assert(b@.skip(0) =~= b@);
    assert(a@.take(0) =~= b@.take(0));
    while i < a.len() && i < b.len() && a[i] == b[i]
        invariant
            i <= a@.len(),
            i <= b@.len(),
            a@.take(i as int) == b@.take(i as int),
            lex_lt(a@, b@) == lex_lt(a@.skip(i as int), b@.skip(i as int)),
            lex_lt(b@, a@) == lex_lt(b@.skip(i as int), a@.skip(i as int)),
        decreases a.len() - i,
    {
        assert(a@.skip(i as int).drop_first() =~= a@.skip(i + 1));
        assert(b@.skip(i as int).drop_first() =~= b@.skip(i + 1));
        assert(a@.take(i + 1) =~= a@.take(i as int).push(a@[i as int]));
        assert(b@.take(i + 1) =~= b@.take(i as int).push(b@[i as int]));
        i += 1;
    }
    if i == a.len() && i == b.len() {
        assert(a@ =~= a@.take(i as int));
        assert(b@ =~= b@.take(i as int));
        proof {
            lemma_lex_irreflexive(a@);
        }
        return 0;
    }
    if i == a.len() {
        assert(a@.skip(i as int).len() == 0);
        proof {
            lemma_lex_asymmetric(a@, b@);
            if a@ == b@ {
                lemma_lex_irreflexive(a@);
            }
        }
        return -1;
    }
    if i == b.len() {
        assert(b@.skip(i as int).len() == 0);
        proof {
            lemma_lex_asymmetric(b@, a@);
            if a@ == b@ {
                lemma_lex_irreflexive(a@);
            }
        }
        return 1;
    }
    assert(a@.skip(i as int)[0] == a@[i as int]);
    assert(b@.skip(i as int)[0] == b@[i as int]);
    if a[i] < b[i] {
        proof {
            lemma_lex_asymmetric(a@, b@);
            if a@ == b@ {
                lemma_lex_irreflexive(a@);
            }
        }
        -1
    } else {
        proof {
            lemma_lex_asymmetric(b@, a@);
            if a@ == b@ {
                lemma_lex_irreflexive(a@);
            }
        }
        1
    }
}

/// Adds `s` to a strictly sorted list of strings unless it is already present;
/// returns whether it was added (the contract of `BTreeSet::insert`).
pub fn insert_sorted(set: &mut Vec<String>, s: String) -> (added: bool)
    requires
        strictly_sorted(text::views(old(set)@)),
    ensures
        strictly_sorted(text::views(final(set)@)),
        added == !text::views(old(set)@).contains(s@),
        text::views(final(set)@).to_set() == text::views(old(set)@).to_set().insert(s@),
{
    let ghost old_v = text::views(set@);
    let sc = text::chars_of(s.as_str());
    let mut j: usize = 0;
    let mut state: i8 = -1;
    while j < set.len() && state == -1
        invariant
            j <= set@.len(),
            old_v == text::views(set@),
            sc@ == s@,
            strictly_sorted(old_v),
            forall|k: int| 0 <= k < j ==> lex_lt(#[trigger] old_v[k], s@),
            state == -1 || state == 0 || state == 1,
            state == 0 ==> j < old_v.len() && old_v[j as int] == s@,
            state == 1 ==> j < old_v.len() && lex_lt(s@, old_v[j as int]),
        decreases set.len() - j + (if state == -1 { 1int } else { 0int }),
    {
        let cur = text::chars_of(set[j].as_str());
        let c = compare_chars(cur.as_slice(), sc.as_slice());
        if c == -1 {
            j += 1;
        } else {
            state = c;
        }
    }
    let found = state == 0;
    if found {
        assert(old_v[j as int] == s@);
        assert(old_v.contains(s@));
        assert(text::views(set@).to_set() =~= old_v.to_set().insert(s@));
        return false;
    }
    proof {
        assert forall|k: int| 0 <= k < old_v.len() implies old_v[k] != s@ by {
            if k < j {
                lemma_lex_irreflexive(s@);
            } else {
                if k > j {
                    lemma_lex_transitive(s@, old_v[j as int], old_v[k]);
                }
                lemma_lex_irreflexive(s@);
            }
        }
    }
    set.insert(j, s);
    proof {
        let nv = text::views(set@);
        assert(nv =~= old_v.insert(j as int, s@));
        assert forall|a: int, b: int| 0 <= a < b < nv.len() implies lex_lt(
            #[trigger] nv[a],
            #[trigger] nv[b],
        ) by {
            if b < j {
            } else if b == j {
            } else if a < j {
                if b > j + 1 {
                    lemma_lex_transitive(s@, old_v[j as int], old_v[b - 1]);
                }
                lemma_lex_transitive(nv[a], s@, nv[b]);
            } else if a == j {
                if b > j + 1 {
                    lemma_lex_transitive(s@, old_v[j as int], old_v[b - 1]);
                }
            } else {
            }
        }
        assert(nv.to_set() =~= old_v.to_set().insert(s@)) by {
            assert forall|x: Seq<char>| nv.to_set().contains(x) <==> old_v.to_set().insert(
                s@,
            ).contains(x) by {
                if nv.to_set().contains(x) {
                    let k = choose|k: int| 0 <= k < nv.len() && nv[k] == x;
                    if k < j {
                        assert(old_v[k] == x);
                    } else if k > j {
                        assert(old_v[k - 1] == x);
                    }
                }
                if old_v.to_set().contains(x) {
                    let k = choose|k: int| 0 <= k < old_v.len() && old_v[k] == x;
                    if k < j {
                        assert(nv[k] == x);
                    } else {
                        assert(nv[k + 1] == x);
                    }
                }
                if x == s@ {
                    assert(nv[j as int] == x);
                }
            }
        }
    }
    true
}

/// Non-decreasing in the order of `String`.
pub open spec fn sorted(s: Seq<Seq<char>>) -> bool {
    forall|i: int, j: int| 0 <= i < j < s.len() ==> !lex_lt(#[trigger] s[j], #[trigger] s[i])
}

proof fn lemma_insert_keeps_sorted(s: Seq<Seq<char>>, p: int, x: Seq<char>)
    requires
        sorted(s),
        0 <= p <= s.len(),
        forall|k: int| 0 <= k < p ==> !lex_lt(x, #[trigger] s[k]),
        p < s.len() ==> lex_lt(x, s[p]),
    ensures
        sorted(s.insert(p, x)),
{
    let t = s.insert(p, x);
    assert forall|i: int, j: int| 0 <= i < j < t.len() implies !lex_lt(#[trigger] t[j], #[trigger] t[i]) by {
        if j < p {
            assert(t[i] == s[i] && t[j] == s[j]);
        } else if j == p {
            assert(t[i] == s[i] && t[j] == x);
        } else if i < p {
            assert(t[i] == s[i] && t[j] == s[j - 1]);
        } else if i == p {
            assert(t[i] == x && t[j] == s[j - 1]);
            if lex_lt(s[j - 1], x) {
                if j - 1 > p {
                    assert(!lex_lt(s[j - 1], s[p]));
                }
                lemma_lex_transitive(s[j - 1], x, s[p]);
                if j - 1 == p {
                    lemma_lex_irreflexive(s[p]);
                }
            }
        } else {
            assert(t[i] == s[i - 1] && t[j] == s[j - 1]);
        }
    }
}

proof fn lemma_insert_multiset(s: Seq<Seq<char>>, p: int, x: Seq<char>)
    requires
        0 <= p <= s.len(),
    ensures
        s.insert(p, x).to_multiset() == s.to_multiset().insert(x),
{
    broadcast use vstd::seq_lib::group_seq_properties;
    let a = s.subrange(0, p);
    let b = s.subrange(p, s.len() as int);
    vstd::seq_lib::lemma_multiset_commutative(a.push(x), b);
    vstd::seq_lib::lemma_multiset_commutative(a, b);
    assert(a + b =~= s);
    assert(s.insert(p, x) =~= a.push(x) + b);
}

/// The strings of `v` in increasing order (`sort_unstable`): the same strings, each as
/// often as in `v`.
pub fn sort_strings(v: &Vec<String>) -> (r: Vec<String>)
    ensures
        sorted(text::views(r@)),
        text::views(r@).to_multiset() == text::views(v@).to_multiset(),
{
    let mut out: Vec<String> = Vec::new();
    let ghost vv = text::views(v@);
    let mut i: usize = 0;
    assert(vv.take(0) =~= Seq::<Seq<char>>::empty());
    assert(text::views(out@) =~= Seq::<Seq<char>>::empty());
    while i < v.len()
        invariant
            i <= v@.len(),
            vv == text::views(v@),
            sorted(text::views(out@)),
            text::views(out@).to_multiset() == vv.take(i as int).to_multiset(),
        decreases v.len() - i,
    {
        let x = text::owned(v[i].as_str());
        let xc = text::chars_of(x.as_str());
        let ghost ov = text::views(out@);
        let mut p: usize = 0;
        let mut found = false;
        while p < out.len() && !found
            invariant
                p <= out@.len(),
                ov == text::views(out@),
                xc@ == x@,
                forall|k: int| 0 <= k < p ==> !lex_lt(x@, #[trigger] ov[k]),
                found ==> p < out@.len() && lex_lt(x@, ov[p as int]),
            decreases out.len() - p + (if found { 0int } else { 1int }),
        {
            let cur = text::chars_of(out[p].as_str());
            if compare_chars(xc.as_slice(), cur.as_slice()) == -1 {
                found = true;
            } else {
                p += 1;
            }
        }
        proof {
            assert(x@ == vv[i as int]);
            lemma_insert_keeps_sorted(ov, p as int, x@);
            lemma_insert_multiset(ov, p as int, x@);
            assert(vv.take(i + 1) =~= vv.take(i as int).push(vv[i as int]));
            vv.take(i as int).to_multiset_ensures();
        }
        out.insert(p, x);
        assert(text::views(out@) =~= ov.insert(p as int, vv[i as int]));
        i += 1;
    }
    assert(vv.take(vv.len() as int) =~= vv);
    out
}

} // verus!
