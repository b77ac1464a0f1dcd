use vstd::prelude::*;

use std::collections::BTreeMap;

use crate::common;
use crate::error::Error;
use crate::strset;
use crate::text;

verus! {

/// The idempotency manifest: its entries per dialect.
#[derive(Debug, Clone, PartialEq, Eq)]
pub struct IdempotencyManifest {
    pub dialects: BTreeMap<String, DialectIdempotencyManifest>,
}

#[derive(Debug, Clone, PartialEq, Eq)]
pub struct DialectIdempotencyManifest {
    pub entries: Vec<IdempotencyManifestEntry>,
}

/// The assertion manifest: its groups of entries per dialect.
#[derive(Debug, Clone, PartialEq, Eq)]
pub struct AssertionManifest {
    pub dialects: BTreeMap<String, DialectAssertionManifest>,
}

#[derive(Debug, Clone, PartialEq, Eq)]
pub struct DialectAssertionManifest {
    pub groups: BTreeMap<String, AssertionManifestGroup>,
}

#[derive(Debug, Clone, PartialEq, Eq)]
pub struct AssertionManifestGroup {
    pub entries: Vec<IdempotencyManifestEntry>,
}

/// Whether a manifest entry was ported to a YAML case or deliberately skipped.
#[derive(Debug, Clone, Copy, PartialEq, Eq, Structural)]
pub enum ManifestStatus {
    Ported,
    Skipped,
}

/// One manifest entry. A ported entry names its YAML case; a skipped entry gives a
/// reason and a tracking reference.
#[derive(Debug, Clone, PartialEq, Eq)]
pub struct IdempotencyManifestEntry {
    pub id: String,
    pub status: ManifestStatus,
    pub case: Option<String>,
    pub reason: Option<String>,
    pub tracking: Option<String>,
}

/// How many entries were ported and skipped.
#[derive(Debug, Clone, Copy, PartialEq, Eq, Structural)]
pub struct ManifestCounts {
    pub ported: usize,
    pub skipped: usize,
    pub total: usize,
}

pub open spec fn blank_id_message() -> Seq<char> {
    "manifest entry id must be a non-empty string"@
}

pub open spec fn duplicate_id_message(id: Seq<char>) -> Seq<char> {
    "manifest contains duplicate entry id '"@ + id + "'"@
}

pub open spec fn blank_case_message(id: Seq<char>) -> Seq<char> {
    "ported entry '"@ + id + "' must include a non-empty case reference"@
}

pub open spec fn duplicate_case_message(case: Seq<char>) -> Seq<char> {
    "manifest contains duplicate ported case reference '"@ + case + "'"@
}

pub open spec fn blank_reason_message(id: Seq<char>) -> Seq<char> {
    "skipped entry '"@ + id + "' must include a non-empty reason"@
}

pub open spec fn blank_tracking_message(id: Seq<char>) -> Seq<char> {
    "skipped entry '"@ + id + "' must include non-empty tracking"@
}

/// The first problem of a manifest, scanning its entries in order with the trimmed ids
/// and ported case references seen so far; `None` when every entry is well formed.
pub open spec fn manifest_issue(
    entries: Seq<IdempotencyManifestEntry>,
    ids: Set<Seq<char>>,
    cases: Set<Seq<char>>,
) -> Option<Seq<char>>
    decreases entries.len(),
{
    if entries.len() == 0 {
        None
    } else {
        let e = entries[0];
        match common::nonblank(Some(e.id)) {
            None => Some(blank_id_message()),
            Some(id) => if ids.contains(id) {
                Some(duplicate_id_message(id))
            } else {
                match e.status {
                    ManifestStatus::Ported => match common::nonblank(e.case) {
                        None => Some(blank_case_message(id)),
                        Some(case) => if cases.contains(case) {
                            Some(duplicate_case_message(case))
                        } else {
                            manifest_issue(entries.drop_first(), ids.insert(id), cases.insert(case))
                        },
                    },
                    ManifestStatus::Skipped => if common::nonblank(e.reason) is None {
                        Some(blank_reason_message(id))
                    } else if common::nonblank(e.tracking) is None {
                        Some(blank_tracking_message(id))
                    } else {
                        manifest_issue(entries.drop_first(), ids.insert(id), cases)
                    },
                }
            },
        }
    }
}

/// The trimmed id of an entry.
pub open spec fn entry_id(e: IdempotencyManifestEntry) -> Option<Seq<char>> {
    common::nonblank(Some(e.id))
}

/// An entry is complete: a non-blank id, and a non-blank case reference when ported, or a
/// non-blank reason and tracking when skipped.
pub open spec fn entry_complete(e: IdempotencyManifestEntry) -> bool {
    &&& entry_id(e) is Some
    &&& match e.status {
        ManifestStatus::Ported => common::nonblank(e.case) is Some,
        ManifestStatus::Skipped => common::nonblank(e.reason) is Some && common::nonblank(e.tracking) is Some,
    }
}

/// Entry `e` reuses none of the ids in `ids` nor, when ported, the case references in
/// `cases`.
pub open spec fn entry_fresh(e: IdempotencyManifestEntry, ids: Set<Seq<char>>, cases: Set<Seq<char>>) -> bool {
    &&& !ids.contains(entry_id(e)->Some_0)
    &&& (e.status is Ported ==> !cases.contains(common::nonblank(e.case)->Some_0))
}

/// A well-formed manifest: every entry complete, no two entries with the same id, no two
/// ported entries with the same case reference.
pub open spec fn manifest_well_formed(entries: Seq<IdempotencyManifestEntry>) -> bool {
    &&& forall|i: int| 0 <= i < entries.len() ==> entry_complete(#[trigger] entries[i])
    &&& forall|i: int, j: int|
        0 <= i < j < entries.len() ==> entry_id(#[trigger] entries[i]) != entry_id(#[trigger] entries[j])
    &&& forall|i: int, j: int|
        0 <= i < j < entries.len() && entries[i].status is Ported && entries[j].status is Ported
            ==> common::nonblank(#[trigger] entries[i].case) != common::nonblank(#[trigger] entries[j].case)
}

proof fn lemma_issue_none(
    entries: Seq<IdempotencyManifestEntry>,
    ids: Set<Seq<char>>,
    cases: Set<Seq<char>>,
)
    ensures
        manifest_issue(entries, ids, cases) is None <==> (manifest_well_formed(entries) && forall|i: int|
            0 <= i < entries.len() ==> entry_fresh(#[trigger] entries[i], ids, cases)),
    decreases entries.len(),
{
    if entries.len() > 0 {
        let e = entries[0];
        let rest = entries.drop_first();
        let id = entry_id(e)->Some_0;
        let ids2 = ids.insert(id);
        let cases2 = if e.status is Ported {
            cases.insert(common::nonblank(e.case)->Some_0)
        } else {
            cases
        };
        lemma_issue_none(rest, ids2, cases2);
        assert forall|i: int| 0 <= i < rest.len() implies #[trigger] rest[i] == entries[i + 1] by {}
        let lhs = manifest_issue(entries, ids, cases) is None;
        let rhs = manifest_well_formed(entries) && forall|i: int|
            0 <= i < entries.len() ==> entry_fresh(#[trigger] entries[i], ids, cases);
        if rhs {
            assert(entry_complete(entries[0]));
            assert(entry_fresh(entries[0], ids, cases));
            assert forall|i: int| 0 <= i < rest.len() implies entry_complete(#[trigger] rest[i]) by {
                assert(entry_complete(entries[i + 1]));
            }
            assert forall|i: int, j: int| 0 <= i < j < rest.len() implies entry_id(#[trigger] rest[i])
                != entry_id(#[trigger] rest[j]) by {
                assert(entry_id(entries[i + 1]) != entry_id(entries[j + 1]));
            }
            assert forall|i: int, j: int|
                0 <= i < j < rest.len() && rest[i].status is Ported && rest[j].status is Ported implies common::nonblank(
                #[trigger] rest[i].case,
            ) != common::nonblank(#[trigger] rest[j].case) by {
                assert(common::nonblank(entries[i + 1].case) != common::nonblank(entries[j + 1].case));
            }
            assert forall|i: int| 0 <= i < rest.len() implies entry_fresh(#[trigger] rest[i], ids2, cases2) by {
                assert(entry_fresh(entries[i + 1], ids, cases));
                assert(entry_complete(entries[i + 1]));
                assert(entry_id(entries[0]) != entry_id(entries[i + 1]));
                if e.status is Ported && rest[i].status is Ported {
                    assert(common::nonblank(entries[0].case) != common::nonblank(entries[i + 1].case));
                }
            }
            assert(lhs);
        }
        if lhs {
            assert(entry_complete(e));
            assert(entry_fresh(e, ids, cases));
            assert forall|i: int| 0 <= i < entries.len() implies entry_complete(#[trigger] entries[i]) && entry_fresh(
                entries[i],
                ids,
                cases,
            ) by {
                if i > 0 {
                    assert(entries[i] == rest[i - 1]);
                    assert(entry_fresh(rest[i - 1], ids2, cases2));
                }
            }
            assert forall|i: int, j: int| 0 <= i < j < entries.len() implies entry_id(#[trigger] entries[i])
                != entry_id(#[trigger] entries[j]) by {
                assert(entries[j] == rest[j - 1]);
                assert(entry_fresh(rest[j - 1], ids2, cases2));
                assert(entry_complete(entries[j]));
                if i > 0 {
                    assert(entries[i] == rest[i - 1]);
                }
            }
            assert forall|i: int, j: int|
                0 <= i < j < entries.len() && entries[i].status is Ported && entries[j].status is Ported implies common::nonblank(
                #[trigger] entries[i].case,
            ) != common::nonblank(#[trigger] entries[j].case) by {
                assert(entries[j] == rest[j - 1]);
                assert(entry_fresh(rest[j - 1], ids2, cases2));
                assert(entry_complete(entries[j]));
                if i > 0 {
                    assert(entries[i] == rest[i - 1]);
                }
            }
            assert(rhs);
        }
    }
}

/// A manifest passes validation exactly when it is well formed.
pub proof fn law_manifest_valid_iff_well_formed(entries: Seq<IdempotencyManifestEntry>)
    ensures
        manifest_issue(entries, Set::empty(), Set::empty()) is None <==> manifest_well_formed(entries),
{
    lemma_issue_none(entries, Set::empty(), Set::empty());
}

/// The runner's assertion error carrying `message`.
pub open spec fn is_runner_error(e: Error, message: Seq<char>) -> bool {
    e matches Error::RunnerAssertion { message: m } && m@ == message
}

pub fn runner_assertion_error(message: &Vec<char>) -> (e: Error)
    ensures
        is_runner_error(e, message@),
{
    Error::RunnerAssertion { message: text::string_of(message.as_slice()) }
}

/// Whether `list` holds `x`.
pub fn contains_chars(list: &Vec<Vec<char>>, x: &[char]) -> (b: bool)
    ensures
        b == list@.map_values(|v: Vec<char>| v@).contains(x@),
{
    let ghost lv = list@.map_values(|v: Vec<char>| v@);
    let mut i: usize = 0;
    while i < list.len()
        invariant
            i <= list@.len(),
            lv == list@.map_values(|v: Vec<char>| v@),
            forall|k: int| 0 <= k < i ==> lv[k] != x@,
        decreases list.len() - i,
    {
        if strset::compare_chars(list[i].as_slice(), x) == 0 {
            assert(lv[i as int] == x@);
            return true;
        }
        i += 1;
    }
    false
}

/// Checks that ids are non-empty and unique, that ported entries name a unique
/// non-empty case, and that skipped entries give a reason and tracking.
pub fn validate_manifest_entries(entries: &Vec<IdempotencyManifestEntry>) -> (r: Result<(), Error>)
    ensures
        match manifest_issue(entries@, Set::empty(), Set::empty()) {
            None => r is Ok,
            Some(m) => r matches Err(e) && is_runner_error(e, m),
        },
{
    let mut ids: Vec<Vec<char>> = Vec::new();
    let mut cases: Vec<Vec<char>> = Vec::new();
    let mut i: usize = 0;
    assert(entries@.skip(0) =~= entries@);
    assert(ids@.map_values(|v: Vec<char>| v@).to_set() =~= Set::<Seq<char>>::empty());
    assert(cases@.map_values(|v: Vec<char>| v@).to_set() =~= Set::<Seq<char>>::empty());
    while i < entries.len()
        invariant
            i <= entries@.len(),
            manifest_issue(entries@, Set::empty(), Set::empty()) == manifest_issue(
                entries@.skip(i as int),
                ids@.map_values(|v: Vec<char>| v@).to_set(),
                cases@.map_values(|v: Vec<char>| v@).to_set(),
            ),
        decreases entries.len() - i,
    {
        let ghost rest = entries@.skip(i as int);
        let ghost idset = ids@.map_values(|v: Vec<char>| v@).to_set();
        let ghost caseset = cases@.map_values(|v: Vec<char>| v@).to_set();
        assert(rest[0] == entries@[i as int]);
        assert(rest.drop_first() =~= entries@.skip(i + 1));
        let entry = &entries[i];
        let id_opt = Some(entry.id.clone());
        let id = match normalized_manifest_text(&id_opt) {
            Some(id) => id,
            None => {
                let m = text::chars_of("manifest entry id must be a non-empty string");
                return Err(runner_assertion_error(&m));
            },
        };
        if contains_chars(&ids, id.as_slice()) {
            let mut m = text::chars_of("manifest contains duplicate entry id '");
            text::append_chars(&mut m, id.as_slice());
            text::append_str(&mut m, "'");
            return Err(runner_assertion_error(&m));
        }
        match entry.status {
            ManifestStatus::Ported => {
                let case = match normalized_manifest_text(&entry.case) {
                    Some(c) => c,
                    None => {
                        let mut m = text::chars_of("ported entry '");
                        text::append_chars(&mut m, id.as_slice());
                        text::append_str(&mut m, "' must include a non-empty case reference");
                        return Err(runner_assertion_error(&m));
                    },
                };
                if contains_chars(&cases, case.as_slice()) {
                    let mut m = text::chars_of("manifest contains duplicate ported case reference '");
                    text::append_chars(&mut m, case.as_slice());
                    text::append_str(&mut m, "'");
                    return Err(runner_assertion_error(&m));
                }
                let ghost cv = case@;
                let ghost before = cases@.map_values(|v: Vec<char>| v@);
                cases.push(case);
                assert(cases@.map_values(|v: Vec<char>| v@) =~= before.push(cv));
                proof { text::lemma_push_to_set(before, cv); }
            },
            ManifestStatus::Skipped => {
                if normalized_manifest_text(&entry.reason).is_none() {
                    let mut m = text::chars_of("skipped entry '");
                    text::append_chars(&mut m, id.as_slice());
                    text::append_str(&mut m, "' must include a non-empty reason");
                    return Err(runner_assertion_error(&m));
                }
                if normalized_manifest_text(&entry.tracking).is_none() {
                    let mut m = text::chars_of("skipped entry '");
                    text::append_chars(&mut m, id.as_slice());
                    text::append_str(&mut m, "' must include non-empty tracking");
                    return Err(runner_assertion_error(&m));
                }
            },
        }
        let ghost iv = id@;
        let ghost before_ids = ids@.map_values(|v: Vec<char>| v@);
        ids.push(id);
        assert(ids@.map_values(|v: Vec<char>| v@) =~= before_ids.push(iv));
        proof { text::lemma_push_to_set(before_ids, iv); }
        i += 1;
    }
    Ok(())
}

/// The number of entries with the given status.
pub open spec fn status_count(entries: Seq<IdempotencyManifestEntry>, status: ManifestStatus) -> nat
    decreases entries.len(),
{
    if entries.len() == 0 {
        0
    } else {
        status_count(entries.drop_last(), status) + if entries.last().status == status {
            1nat
        } else {
            0nat
        }
    }
}

proof fn lemma_counts_total(entries: Seq<IdempotencyManifestEntry>)
    ensures
        status_count(entries, ManifestStatus::Ported) + status_count(entries, ManifestStatus::Skipped)
            == entries.len(),
    decreases entries.len(),
{
    if entries.len() > 0 {
        lemma_counts_total(entries.drop_last());
    }
}

/// Validates the entries of the idempotency manifest.
pub fn validate_idempotency_manifest_entries(entries: &Vec<IdempotencyManifestEntry>) -> (r: Result<
    (),
    Error,
>)
    ensures
        match manifest_issue(entries@, Set::empty(), Set::empty()) {
            None => r is Ok,
            Some(m) => r matches Err(e) && is_runner_error(e, m),
        },
{
    validate_manifest_entries(entries)
}

/// Validates the entries of one group of the assertion manifest.
pub fn validate_assertion_manifest_entries(entries: &Vec<IdempotencyManifestEntry>) -> (r: Result<
    (),
    Error,
>)
    ensures
        match manifest_issue(entries@, Set::empty(), Set::empty()) {
            None => r is Ok,
            Some(m) => r matches Err(e) && is_runner_error(e, m),
        },
{
    validate_manifest_entries(entries)
}

/// Counts the ported and skipped entries.
pub fn manifest_counts(entries: &Vec<IdempotencyManifestEntry>) -> (r: ManifestCounts)
    ensures
        r.ported == status_count(entries@, ManifestStatus::Ported),
        r.skipped == status_count(entries@, ManifestStatus::Skipped),
        r.total == entries@.len(),
{
    let mut ported: usize = 0;
    let mut skipped: usize = 0;
    let mut i: usize = 0;
    while i < entries.len()
        invariant
            i <= entries@.len(),
            ported == status_count(entries@.take(i as int), ManifestStatus::Ported),
            skipped == status_count(entries@.take(i as int), ManifestStatus::Skipped),
            ported + skipped == i,
        decreases entries.len() - i,
    {
        proof {
            lemma_counts_total(entries@.take(i as int));
        }
        assert(entries@.take(i + 1).drop_last() =~= entries@.take(i as int));
        match entries[i].status {
            ManifestStatus::Ported => ported += 1,
            ManifestStatus::Skipped => skipped += 1,
        }
        i += 1;
    }
    assert(entries@.take(entries@.len() as int) =~= entries@);
    ManifestCounts { ported, skipped, total: ported + skipped }
}

/// The ported case references of a manifest, or the message of the first ported entry
/// that has none (naming the entry by its id as written) or repeats one already seen.
pub open spec fn ported_references(
    entries: Seq<IdempotencyManifestEntry>,
    seen: Set<Seq<char>>,
) -> Result<Set<Seq<char>>, Seq<char>>
    decreases entries.len(),
{
    if entries.len() == 0 {
        Ok(seen)
    } else {
        let e = entries[0];
        if e.status != ManifestStatus::Ported {
            ported_references(entries.drop_first(), seen)
        } else {
            match common::nonblank(e.case) {
                None => Err(blank_case_message(e.id@)),
                Some(case) => if seen.contains(case) {
                    Err(duplicate_case_message(case))
                } else {
                    ported_references(entries.drop_first(), seen.insert(case))
                },
            }
        }
    }
}

/// The set of case references named by ported entries, in increasing order.
pub fn manifest_ported_case_references(entries: &Vec<IdempotencyManifestEntry>) -> (r: Result<
    Vec<String>,
    Error,
>)
    ensures
        match ported_references(entries@, Set::empty()) {
            Ok(set) => r matches Ok(v) && strset::strictly_sorted(text::views(v@))
                && text::views(v@).to_set() == set,
            Err(m) => r matches Err(e) && is_runner_error(e, m),
        },
{
    let mut out: Vec<String> = Vec::new();
    let mut i: usize = 0;
    assert(entries@.skip(0) =~= entries@);
    assert(text::views(out@).to_set() =~= Set::<Seq<char>>::empty());
    while i < entries.len()
        invariant
            i <= entries@.len(),
            strset::strictly_sorted(text::views(out@)),
            ported_references(entries@, Set::empty()) == ported_references(
                entries@.skip(i as int),
                text::views(out@).to_set(),
            ),
        decreases entries.len() - i,
    {
        let ghost rest = entries@.skip(i as int);
        assert(rest[0] == entries@[i as int]);
        assert(rest.drop_first() =~= entries@.skip(i + 1));
        let entry = &entries[i];
        if entry.status == ManifestStatus::Ported {
            let case = match normalized_manifest_text(&entry.case) {
                Some(c) => c,
                None => {
                    let mut m = text::chars_of("ported entry '");
                    text::append_str(&mut m, entry.id.as_str());
                    text::append_str(&mut m, "' must include a non-empty case reference");
                    return Err(runner_assertion_error(&m));
                },
            };
            let cs = text::string_of(case.as_slice());
            let added = strset::insert_sorted(&mut out, cs);
            if !added {
                let mut m = text::chars_of("manifest contains duplicate ported case reference '");
                text::append_chars(&mut m, case.as_slice());
                text::append_str(&mut m, "'");
                return Err(runner_assertion_error(&m));
            }
        }
        i += 1;
    }
    Ok(out)
}

/// The text of an optional manifest field, trimmed, when it is not blank.
pub fn normalized_manifest_text(value: &Option<String>) -> (r: Option<Vec<char>>)
    ensures
        match r {
            Some(v) => common::nonblank(*value) == Some(v@),
            None => common::nonblank(*value) is None,
        },
{
    match value {
        Some(v) => {
            let t = text::trim_str(v.as_str());
            if t.len() > 0 {
                Some(t)
            } else {
                None
            }
        },
        None => None,
    }
}

} // verus!
