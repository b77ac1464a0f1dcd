use vstd::prelude::*;

use crate::common;
use crate::error::{self, Error};
use crate::strset;
use crate::text;
use crate::version::{self, Version};
use crate::testkit::manifest;

verus! {

/// One YAML test case: the current and desired schemas, the expected forward and
/// reverse SQL, an expected error, version and flavor requirements, and run options.
#[derive(Debug, Clone, PartialEq, Eq)]
pub struct TestCase {
    pub current: String,
    pub desired: String,
    pub up: Option<String>,
    pub down: Option<String>,
    pub error: Option<String>,
    pub min_version: Option<String>,
    pub max_version: Option<String>,
    pub flavor: Option<String>,
    /// `None` counts as `false` when the case runs.
    pub enable_drop: Option<bool>,
    pub offline: bool,
}

impl Default for TestCase {
    fn default() -> (r: Self)
        ensures
            r.current@ == Seq::<char>::empty(),
            r.desired@ == Seq::<char>::empty(),
            r.up is None,
            r.down is None,
            r.error is None,
            r.min_version is None,
            r.max_version is None,
            r.flavor is None,
            r.enable_drop is None,
            !r.offline,
    {
        TestCase {
            current: String::new(),
            desired: String::new(),
            up: None,
            down: None,
            error: None,
            min_version: None,
            max_version: None,
            flavor: None,
            enable_drop: None,
            offline: false,
        }
    }
}

/// The outcome of running one test case.
#[derive(Debug, Clone, PartialEq, Eq)]
pub enum TestResult {
    Passed,
    Skipped(String),
    Failed(String),
}

/// The cases of one YAML file, keyed by case name. The keys are kept in strictly
/// increasing order, as in an ordered map.
#[derive(Debug, Clone, PartialEq, Eq)]
pub struct TestCaseFile {
    pub file_name: String,
    pub path: String,
    pub cases: Vec<(String, TestCase)>,
}

/// `file::case`, the reference of one case of one file.
pub open spec fn case_reference(file_name: Seq<char>, case_name: Seq<char>) -> Seq<char> {
    file_name + "::"@ + case_name
}

/// The references of the first `n` cases of a file.
pub open spec fn file_references(file: TestCaseFile, n: nat) -> Set<Seq<char>>
    decreases n,
{
    if n == 0 || n > file.cases@.len() {
        Set::empty()
    } else {
        file_references(file, (n - 1) as nat).insert(
            case_reference(file.file_name@, file.cases@[n - 1].0@),
        )
    }
}

/// The references of every case of every file.
pub open spec fn all_references(files: Seq<TestCaseFile>) -> Set<Seq<char>>
    decreases files.len(),
{
    if files.len() == 0 {
        Set::empty()
    } else {
        all_references(files.drop_last()).union(
            file_references(files.last(), files.last().cases@.len()),
        )
    }
}

/// The reference of case `k` of `file`.
pub open spec fn case_ref_at(file: TestCaseFile, k: int) -> Seq<char> {
    case_reference(file.file_name@, file.cases@[k].0@)
}

proof fn lemma_file_references_members(file: TestCaseFile, n: nat)
    requires
        n <= file.cases@.len(),
    ensures
        forall|x: Seq<char>|
            #[trigger] file_references(file, n).contains(x) <==> exists|k: int|
                0 <= k < n && x == case_ref_at(file, k),
    decreases n,
{
    if n > 0 {
        lemma_file_references_members(file, (n - 1) as nat);
        assert forall|x: Seq<char>| #[trigger] file_references(file, n).contains(x) <==> exists|k: int|
            0 <= k < n && x == case_ref_at(file, k) by {
            if x == case_ref_at(file, n - 1) {
                assert(file_references(file, n).contains(x));
            }
            if file_references(file, n).contains(x) && x != case_ref_at(file, n - 1) {
                assert(file_references(file, (n - 1) as nat).contains(x));
                let k = choose|k: int| 0 <= k < n - 1 && x == case_ref_at(file, k);
                assert(0 <= k < n && x == case_ref_at(file, k));
            }
            if exists|k: int| 0 <= k < n && x == case_ref_at(file, k) {
                let k = choose|k: int| 0 <= k < n && x == case_ref_at(file, k);
                if k < n - 1 {
                    assert(file_references(file, (n - 1) as nat).contains(x));
                }
            }
        }
    }
}

/// Whether `x` is the reference of some case of some file of `files`.
pub open spec fn references_some_case(files: Seq<TestCaseFile>, x: Seq<char>) -> bool {
    exists|i: int, k: int|
        0 <= i < files.len() && 0 <= k < files[i].cases@.len() && x == #[trigger] case_ref_at(files[i], k)
}

proof fn lemma_all_references_members(files: Seq<TestCaseFile>)
    ensures
        forall|x: Seq<char>| #[trigger] all_references(files).contains(x) <==> references_some_case(files, x),
    decreases files.len(),
{
    if files.len() > 0 {
        let d = files.drop_last();
        let f = files.last();
        lemma_all_references_members(d);
        lemma_file_references_members(f, f.cases@.len());
        assert forall|x: Seq<char>| #[trigger] all_references(files).contains(x) <==> references_some_case(
            files,
            x,
        ) by {
            if all_references(files).contains(x) {
                if all_references(d).contains(x) {
                    assert(references_some_case(d, x));
                    let (i, k) = choose|i: int, k: int|
                        0 <= i < d.len() && 0 <= k < d[i].cases@.len() && x == #[trigger] case_ref_at(d[i], k);
                    assert(files[i] == d[i]);
                    assert(x == case_ref_at(files[i], k));
                } else {
                    assert(file_references(f, f.cases@.len()).contains(x));
                    let k = choose|k: int| 0 <= k < f.cases@.len() && x == case_ref_at(f, k);
                    assert(x == case_ref_at(files[files.len() - 1], k));
                }
            }
            if references_some_case(files, x) {
                let (i, k) = choose|i: int, k: int|
                    0 <= i < files.len() && 0 <= k < files[i].cases@.len() && x == #[trigger] case_ref_at(
                        files[i],
                        k,
                    );
                if i < files.len() - 1 {
                    assert(d[i] == files[i]);
                    assert(x == case_ref_at(d[i], k));
                    assert(references_some_case(d, x));
                    assert(all_references(d).contains(x));
                } else {
                    assert(exists|k2: int| 0 <= k2 < f.cases@.len() && x == case_ref_at(f, k2));
                    assert(file_references(f, f.cases@.len()).contains(x));
                }
            }
        }
    }
}

/// The case references depend only on which files there are, not on the order in which
/// they are listed.
pub proof fn law_case_references_ignore_file_order(a: Seq<TestCaseFile>, b: Seq<TestCaseFile>)
    requires
        forall|f: TestCaseFile| a.contains(f) <==> b.contains(f),
    ensures
        all_references(a) == all_references(b),
{
    lemma_all_references_members(a);
    lemma_all_references_members(b);
    assert forall|x: Seq<char>| all_references(a).contains(x) implies all_references(b).contains(x) by {
        let (i, k) = choose|i: int, k: int|
            0 <= i < a.len() && 0 <= k < a[i].cases@.len() && x == #[trigger] case_ref_at(a[i], k);
        assert(a.contains(a[i]));
        let j = choose|j: int| 0 <= j < b.len() && b[j] == a[i];
        assert(x == case_ref_at(b[j], k));
    }
    assert forall|x: Seq<char>| all_references(b).contains(x) implies all_references(a).contains(x) by {
        let (i, k) = choose|i: int, k: int|
            0 <= i < b.len() && 0 <= k < b[i].cases@.len() && x == #[trigger] case_ref_at(b[i], k);
        assert(b.contains(b[i]));
        let j = choose|j: int| 0 <= j < a.len() && a[j] == b[i];
        assert(x == case_ref_at(a[j], k));
    }
    assert(all_references(a) =~= all_references(b));
}

/// The set of `file::case` references of all cases, in increasing order.
pub fn yaml_case_references(files: &Vec<TestCaseFile>) -> (r: Vec<String>)
    ensures
        strset::strictly_sorted(text::views(r@)),
        text::views(r@).to_set() == all_references(files@),
{
    let mut out: Vec<String> = Vec::new();
    let mut i: usize = 0;
    assert(text::views(out@).to_set() =~= Set::<Seq<char>>::empty());
    while i < files.len()
        invariant
            i <= files@.len(),
            strset::strictly_sorted(text::views(out@)),
            text::views(out@).to_set() == all_references(files@.take(i as int)),
        decreases files.len() - i,
    {
        let file = &files[i];
        let ghost base = all_references(files@.take(i as int));
        let mut j: usize = 0;
        while j < file.cases.len()
            invariant
                j <= file.cases@.len(),
                *file == files@[i as int],
                strset::strictly_sorted(text::views(out@)),
                text::views(out@).to_set() == base.union(file_references(*file, j as nat)),
            decreases file.cases.len() - j,
        {
            let mut r = text::chars_of(file.file_name.as_str());
            text::append_str(&mut r, "::");
            text::append_str(&mut r, file.cases[j].0.as_str());
            let s = text::string_of(r.as_slice());
            let ghost sv = s@;
            strset::insert_sorted(&mut out, s);
            j += 1;
            assert(base.union(file_references(*file, j as nat)) =~= base.union(
                file_references(*file, (j - 1) as nat),
            ).insert(sv));
        }
        i += 1;
        assert(files@.take(i as int).drop_last() =~= files@.take((i - 1) as int));
    }
    assert(files@.take(files@.len() as int) =~= files@);
    out
}

/// Whether a flavor requirement admits the current flavor: no requirement (or a
/// blank one) admits every flavor, `!name` admits every flavor but `name`, and
/// `name` admits only `name`.
pub open spec fn flavor_matches(requirement: Option<Seq<char>>, current: Seq<char>) -> bool {
    match requirement {
        None => true,
        Some(r) => {
            let t = text::trim(r);
            if t.len() == 0 {
                true
            } else if t[0] == '!' {
                t.drop_first() != current
            } else {
                t == current
            }
        },
    }
}

/// A flavor requirement is read trimmed: whitespace around it never changes which
/// flavors it admits.
pub proof fn law_flavor_requirement_trimmed(requirement: Seq<char>, current: Seq<char>)
    ensures
        flavor_matches(Some(requirement), current) == flavor_matches(
            Some(text::trim(requirement)),
            current,
        ),
{
    text::lemma_trim_idempotent(requirement);
}

/// `!name` admits exactly the flavors that `name` does not, for a name without
/// surrounding whitespace that is not itself negated.
pub proof fn law_flavor_negation(name: Seq<char>, current: Seq<char>)
    requires
        name.len() > 0,
        !text::is_ws(name[0]),
        !text::is_ws(name.last()),
        name[0] != '!',
    ensures
        flavor_matches(Some(seq!['!'] + name), current) == !flavor_matches(Some(name), current),
{
    let neg = seq!['!'] + name;
    assert(text::trim_start(name) == name);
    assert(text::trim_end(name) == name);
    assert(neg[0] == '!');
    assert(neg.last() == name.last());
    assert(text::trim_start(neg) == neg);
    assert(text::trim_end(neg) == neg);
    assert(neg.drop_first() =~= name);
}

pub fn matches_flavor(requirement: Option<&str>, current_flavor: &str) -> (b: bool)
    ensures
        b == flavor_matches(
            match requirement {
                Some(r) => Some(r@),
                None => None,
            },
            current_flavor@,
        ),
{
    let r = match requirement {
        Some(r) => r,
        None => return true,
    };
    let t = text::trim_str(r);
    if t.len() == 0 {
        return true;
    }
    let cur = text::chars_of(current_flavor);
    if t[0] == '!' {
        let excluded = text::slice_copy(t.as_slice(), 1, t.len());
        assert(excluded@ =~= t@.drop_first());
        strset::compare_chars(excluded.as_slice(), cur.as_slice()) != 0
    } else {
        strset::compare_chars(t.as_slice(), cur.as_slice()) == 0
    }
}

/// `major.minor.patch` in decimal.
pub open spec fn version_text(v: Version) -> Seq<char> {
    text::decimal_string(v.major as nat) + "."@ + text::decimal_string(v.minor as nat) + "."@
        + text::decimal_string(v.patch as nat)
}

pub fn format_version(v: &Version) -> (r: Vec<char>)
    ensures
        r@ == version_text(*v),
{
    let mut out = text::decimal_chars(v.major as u64);
    text::append_str(&mut out, ".");
    let m = text::decimal_chars(v.minor as u64);
    text::append_chars(&mut out, m.as_slice());
    text::append_str(&mut out, ".");
    let p = text::decimal_chars(v.patch as u64);
    text::append_chars(&mut out, p.as_slice());
    out
}

pub open spec fn no_numeric_prefix_message(requirement: Seq<char>, segment: Seq<char>) -> Seq<char> {
    "invalid version requirement '"@ + requirement + "': no numeric prefix in segment '"@ + segment
        + "'"@
}

pub open spec fn out_of_range_message(requirement: Seq<char>, segment: Seq<char>) -> Seq<char> {
    "invalid version requirement '"@ + requirement + "': segment '"@ + segment
        + "' is out of range"@
}

/// The numeric parts of a version requirement, read segment by segment: each
/// segment contributes its leading digits as a `u16`; the first segment without
/// leading digits, or whose value does not fit, is reported.
pub open spec fn requirement_parts(requirement: Seq<char>, segments: Seq<Seq<char>>) -> Result<
    Seq<u16>,
    Seq<char>,
>
    decreases segments.len(),
{
    if segments.len() == 0 {
        Ok(Seq::empty())
    } else {
        let seg = segments[0];
        let d = version::digit_prefix(seg);
        if d.len() == 0 {
            Err(no_numeric_prefix_message(requirement, seg))
        } else if version::decimal_value(d) > u16::MAX {
            Err(out_of_range_message(requirement, seg))
        } else {
            match requirement_parts(requirement, segments.drop_first()) {
                Ok(rest) => Ok(seq![version::decimal_value(d) as u16] + rest),
                Err(m) => Err(m),
            }
        }
    }
}

pub open spec fn parsed_requirement(requirement: Seq<char>) -> Result<Seq<u16>, Seq<char>> {
    requirement_parts(requirement, text::split_on(requirement, '.'))
}

pub fn parse_version_requirement(requirement: &[char]) -> (r: Result<Vec<u16>, Error>)
    ensures
        match parsed_requirement(requirement@) {
            Ok(parts) => r matches Ok(v) && v@ == parts,
            Err(m) => r matches Err(e) && manifest::is_runner_error(e, m),
        },
{
    let segments = text::split_chars(requirement, '.');
    let ghost sv = segments@.map_values(|p: Vec<char>| p@);
    let mut parts: Vec<u16> = Vec::new();
    let mut i: usize = 0;
    assert(sv.skip(0) =~= sv);
    assert(parts@ + Seq::<u16>::empty() =~= parts@);
    while i < segments.len()
        invariant
            i <= segments@.len(),
            sv == segments@.map_values(|p: Vec<char>| p@),
            sv == text::split_on(requirement@, '.'),
            parsed_requirement(requirement@) == (match requirement_parts(
                requirement@,
                sv.skip(i as int),
            ) {
                Ok(rest) => Ok(parts@ + rest),
                Err(m) => Err(m),
            }),
        decreases segments.len() - i,
    {
        let ghost rest = sv.skip(i as int);
        assert(rest[0] == segments@[i as int]@);
        assert(rest.drop_first() =~= sv.skip(i + 1));
        let seg = &segments[i];
        match version::parse_version_component(seg.as_slice()) {
            Some(v) => {
                let ghost old_parts = parts@;
                parts.push(v);
                proof {
                    assert(version::version_component(seg@) == Some(v));
                    match requirement_parts(requirement@, sv.skip(i + 1)) {
                        Ok(r2) => {
                            assert(requirement_parts(requirement@, rest) == Ok::<
                                Seq<u16>,
                                Seq<char>,
                            >(seq![v] + r2));
                            assert(old_parts + (seq![v] + r2) =~= parts@ + r2);
                        },
                        Err(m) => {
                            assert(requirement_parts(requirement@, rest) == Err::<
                                Seq<u16>,
                                Seq<char>,
                            >(m));
                        },
                    }
                }
            },
            None => {
                let mut m = text::chars_of("invalid version requirement '");
                text::append_chars(&mut m, requirement);
                if seg.len() == 0 || !('0' <= seg[0] && seg[0] <= '9') {
                    assert(version::digit_prefix(seg@).len() == 0);
                    text::append_str(&mut m, "': no numeric prefix in segment '");
                    text::append_chars(&mut m, seg.as_slice());
                    text::append_str(&mut m, "'");
                } else {
                    assert(version::digit_prefix(seg@).len() > 0);
                    text::append_str(&mut m, "': segment '");
                    text::append_chars(&mut m, seg.as_slice());
                    text::append_str(&mut m, "' is out of range");
                }
                return Err(manifest::runner_assertion_error(&m));
            },
        }
        i += 1;
    }
    assert(sv.skip(i as int) =~= Seq::<Seq<char>>::empty());
    assert(parts@ + Seq::<u16>::empty() =~= parts@);
    Ok(parts)
}

/// The outcome of comparing a version with a requirement.
#[derive(Debug, Clone, Copy, PartialEq, Eq, Structural)]
pub enum VersionOrder {
    Less,
    Equal,
    Greater,
}

/// The first differing component among the first `min(3, expected.len())`
/// components decides; all equal is `Equal`.
pub open spec fn compare_from(actual: Seq<u16>, expected: Seq<u16>, i: int) -> VersionOrder
    decreases actual.len() - i,
{
    if i < 0 || i >= actual.len() || i >= expected.len() {
        VersionOrder::Equal
    } else if actual[i] < expected[i] {
        VersionOrder::Less
    } else if actual[i] > expected[i] {
        VersionOrder::Greater
    } else {
        compare_from(actual, expected, i + 1)
    }
}

/// The parts from `s` on agree up to `i`, and at `i` (a position both have) `actual` is
/// below `expected` (`less`) or above it.
pub open spec fn differs_first_at(actual: Seq<u16>, expected: Seq<u16>, s: int, i: int, less: bool) -> bool {
    &&& s <= i < actual.len()
    &&& i < expected.len()
    &&& (if less {
        actual[i] < expected[i]
    } else {
        actual[i] > expected[i]
    })
    &&& forall|j: int| s <= j < i ==> actual[j] == expected[j]
}

proof fn lemma_compare_from(actual: Seq<u16>, expected: Seq<u16>, s: int)
    requires
        0 <= s,
    ensures
        compare_from(actual, expected, s) == VersionOrder::Less <==> exists|i: int|
            #[trigger] differs_first_at(actual, expected, s, i, true),
        compare_from(actual, expected, s) == VersionOrder::Greater <==> exists|i: int|
            #[trigger] differs_first_at(actual, expected, s, i, false),
        compare_from(actual, expected, s) == VersionOrder::Equal <==> forall|j: int|
            s <= j < actual.len() && j < expected.len() ==> actual[j] == expected[j],
    decreases actual.len() - s,
{
    if s >= actual.len() || s >= expected.len() {
        assert forall|i: int, less: bool| !differs_first_at(actual, expected, s, i, less) by {}
    } else if actual[s] < expected[s] {
        assert(differs_first_at(actual, expected, s, s, true));
        assert forall|i: int| !differs_first_at(actual, expected, s, i, false) by {
            if differs_first_at(actual, expected, s, i, false) && i > s {
                assert(actual[s] == expected[s]);
            }
        }
    } else if actual[s] > expected[s] {
        assert(differs_first_at(actual, expected, s, s, false));
        assert forall|i: int| !differs_first_at(actual, expected, s, i, true) by {
            if differs_first_at(actual, expected, s, i, true) && i > s {
                assert(actual[s] == expected[s]);
            }
        }
    } else {
        lemma_compare_from(actual, expected, s + 1);
        assert forall|i: int, less: bool|
            differs_first_at(actual, expected, s, i, less) <==> differs_first_at(
                actual,
                expected,
                s + 1,
                i,
                less,
            ) by {}
        assert(compare_from(actual, expected, s) == compare_from(actual, expected, s + 1));
        if exists|i: int| #[trigger] differs_first_at(actual, expected, s, i, true) {
            let i = choose|i: int| #[trigger] differs_first_at(actual, expected, s, i, true);
            assert(differs_first_at(actual, expected, s + 1, i, true));
        }
        if exists|i: int| #[trigger] differs_first_at(actual, expected, s + 1, i, true) {
            let i = choose|i: int| #[trigger] differs_first_at(actual, expected, s + 1, i, true);
            assert(differs_first_at(actual, expected, s, i, true));
        }
        if exists|i: int| #[trigger] differs_first_at(actual, expected, s, i, false) {
            let i = choose|i: int| #[trigger] differs_first_at(actual, expected, s, i, false);
            assert(differs_first_at(actual, expected, s + 1, i, false));
        }
        if exists|i: int| #[trigger] differs_first_at(actual, expected, s + 1, i, false) {
            let i = choose|i: int| #[trigger] differs_first_at(actual, expected, s + 1, i, false);
            assert(differs_first_at(actual, expected, s, i, false));
        }
    }
}

/// Versions compare with requirements lexicographically over the parts both give: a
/// version is below a requirement exactly when, at the first part where they differ, the
/// version's part is the smaller (so `13.1.0` is below `13.2`), above it when it is the
/// larger, and equal when every part the requirement gives matches.
pub proof fn law_version_order_is_lexicographic(actual: Seq<u16>, expected: Seq<u16>)
    ensures
        compare_from(actual, expected, 0) == VersionOrder::Less <==> exists|i: int|
            #[trigger] differs_first_at(actual, expected, 0, i, true),
        compare_from(actual, expected, 0) == VersionOrder::Greater <==> exists|i: int|
            #[trigger] differs_first_at(actual, expected, 0, i, false),
        compare_from(actual, expected, 0) == VersionOrder::Equal <==> forall|j: int|
            0 <= j < actual.len() && j < expected.len() ==> actual[j] == expected[j],
{
    lemma_compare_from(actual, expected, 0);
}

pub open spec fn version_parts(v: Version) -> Seq<u16> {
    seq![v.major, v.minor, v.patch]
}

/// Compares a server version with a requirement such as `13.2`.
pub fn compare_version_against_requirement(version: &Version, requirement: &[char]) -> (r: Result<
    VersionOrder,
    Error,
>)
    ensures
        match parsed_requirement(requirement@) {
            Ok(parts) => r == Ok::<VersionOrder, Error>(
                compare_from(version_parts(*version), parts, 0),
            ),
            Err(m) => r matches Err(e) && manifest::is_runner_error(e, m),
        },
{
    let expected = match parse_version_requirement(requirement) {
        Ok(p) => p,
        Err(e) => return Err(e),
    };
    let mut actual: Vec<u16> = Vec::new();
    actual.push(version.major);
    actual.push(version.minor);
    actual.push(version.patch);
    assert(actual@ =~= version_parts(*version));
    let mut i: usize = 0;
    while i < 3 && i < expected.len()
        invariant
            i <= 3,
            actual@ == version_parts(*version),
            parsed_requirement(requirement@) == Ok::<Seq<u16>, Seq<char>>(expected@),
            compare_from(actual@, expected@, 0) == compare_from(actual@, expected@, i as int),
        decreases 3 - i,
    {
        if actual[i] < expected[i] {
            return Ok(VersionOrder::Less);
        }
        if actual[i] > expected[i] {
            return Ok(VersionOrder::Greater);
        }
        i += 1;
    }
    Ok(VersionOrder::Equal)
}

pub open spec fn smaller_message(version: Seq<char>, min: Seq<char>) -> Seq<char> {
    "Version '"@ + version + "' is smaller than min_version '"@ + min + "'"@
}

pub open spec fn larger_message(version: Seq<char>, max: Seq<char>) -> Seq<char> {
    "Version '"@ + version + "' is larger than max_version '"@ + max + "'"@
}

/// Why a case is skipped on a server version, if it is: below its `min_version` or
/// above its `max_version` (blank requirements are ignored); a malformed
/// requirement is an error.
pub open spec fn version_skip(test: TestCase, version: Version) -> Result<Option<Seq<char>>, Seq<char>> {
    let min_check: Result<Option<Seq<char>>, Seq<char>> = match common::nonblank(test.min_version) {
        None => Ok(None),
        Some(min) => match parsed_requirement(min) {
            Err(m) => Err(m),
            Ok(parts) => if compare_from(version_parts(version), parts, 0) == VersionOrder::Less {
                Ok(Some(smaller_message(version_text(version), min)))
            } else {
                Ok(None)
            },
        },
    };
    match min_check {
        Err(m) => Err(m),
        Ok(Some(reason)) => Ok(Some(reason)),
        Ok(None) => match common::nonblank(test.max_version) {
            None => Ok(None),
            Some(max) => match parsed_requirement(max) {
                Err(m) => Err(m),
                Ok(parts) => if compare_from(version_parts(version), parts, 0)
                    == VersionOrder::Greater {
                    Ok(Some(larger_message(version_text(version), max)))
                } else {
                    Ok(None)
                },
            },
        },
    }
}

/// A case with a `min_version` is skipped, with the message naming both versions,
/// exactly on servers below it; on any other server the requirement plays no part and
/// the case is gated as if it had none.
pub proof fn law_min_version_gate(test: TestCase, version: Version, parts: Seq<u16>)
    requires
        common::nonblank(test.min_version) matches Some(m) && parsed_requirement(m) == Ok::<
            Seq<u16>,
            Seq<char>,
        >(parts),
    ensures
        (exists|i: int| #[trigger] differs_first_at(version_parts(version), parts, 0, i, true))
            ==> version_skip(test, version) == Ok::<Option<Seq<char>>, Seq<char>>(
            Some(smaller_message(version_text(version), common::nonblank(test.min_version)->Some_0)),
        ),
        !(exists|i: int| #[trigger] differs_first_at(version_parts(version), parts, 0, i, true))
            ==> version_skip(test, version) == version_skip(
            TestCase { min_version: None, ..test },
            version,
        ),
{
    lemma_compare_from(version_parts(version), parts, 0);
}

/// A case with a `max_version` (and no `min_version`) is skipped, with the message naming
/// both versions, exactly on servers above it, and runs on every other server.
pub proof fn law_max_version_gate(test: TestCase, version: Version, parts: Seq<u16>)
    requires
        common::nonblank(test.min_version) is None,
        common::nonblank(test.max_version) matches Some(m) && parsed_requirement(m) == Ok::<
            Seq<u16>,
            Seq<char>,
        >(parts),
    ensures
        (exists|i: int| #[trigger] differs_first_at(version_parts(version), parts, 0, i, false))
            ==> version_skip(test, version) == Ok::<Option<Seq<char>>, Seq<char>>(
            Some(larger_message(version_text(version), common::nonblank(test.max_version)->Some_0)),
        ),
        !(exists|i: int| #[trigger] differs_first_at(version_parts(version), parts, 0, i, false))
            ==> version_skip(test, version) == Ok::<Option<Seq<char>>, Seq<char>>(None),
{
    lemma_compare_from(version_parts(version), parts, 0);
}

pub fn version_skip_reason(test: &TestCase, version: &Version) -> (r: Result<Option<String>, Error>)
    ensures
        match version_skip(*test, *version) {
            Ok(Some(reason)) => r matches Ok(Some(s)) && s@ == reason,
            Ok(None) => r matches Ok(None),
            Err(m) => r matches Err(e) && manifest::is_runner_error(e, m),
        },
{
    let rendered = format_version(version);
    match normalized_version_requirement(&test.min_version) {
        Some(min) => {
            match compare_version_against_requirement(version, min.as_slice()) {
                Err(e) => return Err(e),
                Ok(VersionOrder::Less) => {
                    let mut m = text::chars_of("Version '");
                    text::append_chars(&mut m, rendered.as_slice());
                    text::append_str(&mut m, "' is smaller than min_version '");
                    text::append_chars(&mut m, min.as_slice());
                    text::append_str(&mut m, "'");
                    return Ok(Some(text::string_of(m.as_slice())));
                },
                Ok(_) => {},
            }
        },
        None => {},
    }
    match normalized_version_requirement(&test.max_version) {
        Some(max) => {
            match compare_version_against_requirement(version, max.as_slice()) {
                Err(e) => return Err(e),
                Ok(VersionOrder::Greater) => {
                    let mut m = text::chars_of("Version '");
                    text::append_chars(&mut m, rendered.as_slice());
                    text::append_str(&mut m, "' is larger than max_version '");
                    text::append_chars(&mut m, max.as_slice());
                    text::append_str(&mut m, "'");
                    return Ok(Some(text::string_of(m.as_slice())));
                },
                Ok(_) => {},
            }
        },
        None => {},
    }
    Ok(None)
}

pub open spec fn no_error_message(expected: Seq<char>) -> Seq<char> {
    "expected error: "@ + expected + ", but got no error"@
}

pub open spec fn other_error_message(expected: Seq<char>, actual: Seq<char>) -> Seq<char> {
    "expected error: "@ + expected + ", but got: "@ + actual
}

/// Holds a run to a case's expected error: without one the run's own result
/// stands; with one, the run must fail with exactly that error text.
pub open spec fn expected_error_verdict(expected: Option<String>, result: Result<(), Error>) -> Result<
    (),
    Seq<char>,
> {
    match expected {
        None => match result {
            Ok(()) => Ok(()),
            Err(e) => Err(error::error_text(e)),
        },
        Some(x) => match result {
            Ok(()) => Err(no_error_message(x@)),
            Err(e) => if error::error_text(e) == x@ {
                Ok(())
            } else {
                Err(other_error_message(x@, error::error_text(e)))
            },
        },
    }
}

pub fn evaluate_expected_error(test: &TestCase, execution_result: Result<(), Error>) -> (r: Result<
    (),
    Error,
>)
    ensures
        test.error is None ==> r == execution_result,
        match expected_error_verdict(test.error, execution_result) {
            Ok(()) => r is Ok,
            Err(m) => r matches Err(e) && error::error_text(e) == m,
        },
{
    let expected = match &test.error {
        None => return execution_result,
        Some(x) => x,
    };
    match execution_result {
        Ok(()) => {
            let mut m = text::chars_of("expected error: ");
            text::append_str(&mut m, expected.as_str());
            text::append_str(&mut m, ", but got no error");
            Err(manifest::runner_assertion_error(&m))
        },
        Err(actual) => {
            let actual_text = actual.to_text();
            let a = text::chars_of(actual_text.as_str());
            let x = text::chars_of(expected.as_str());
            if strset::compare_chars(a.as_slice(), x.as_slice()) == 0 {
                Ok(())
            } else {
                let mut m = text::chars_of("expected error: ");
                text::append_str(&mut m, expected.as_str());
                text::append_str(&mut m, ", but got: ");
                text::append_chars(&mut m, a.as_slice());
                Err(manifest::runner_assertion_error(&m))
            }
        },
    }
}

/// What running a case produced before flavor expectations are applied.
#[derive(Debug)]
pub enum RunnerOutcome {
    Executed(Result<(), Error>),
    Skipped(String),
}

pub open spec fn opt_text(o: Option<String>) -> Seq<char> {
    match o {
        Some(s) => s@,
        None => Seq::empty(),
    }
}

pub open spec fn flavor_skip_message(requirement: Seq<char>, current: Seq<char>) -> Seq<char> {
    "Correctly fails on non-matching flavor (requires '"@ + requirement + "', running on '"@
        + current + "')"@
}

pub open spec fn flavor_pass_message(requirement: Seq<char>, current: Seq<char>) -> Seq<char> {
    "Test passed but flavor '"@ + requirement + "' does not match current flavor '"@ + current
        + "'"@
}

/// The result of a case under its flavor requirement: a case that does not apply to
/// the current flavor is expected to fail, and its failure counts as a skip while
/// its success counts as a failure.
pub open spec fn flavor_verdict_holds(
    flavor: Option<String>,
    current: Seq<char>,
    outcome: RunnerOutcome,
    r: TestResult,
) -> bool {
    let applies = flavor_matches(
        match flavor {
            Some(f) => Some(f@),
            None => None,
        },
        current,
    );
    match outcome {
        RunnerOutcome::Skipped(reason) => r matches TestResult::Skipped(s) && s@ == reason@,
        RunnerOutcome::Executed(res) => if !applies {
            match res {
                Err(_) => r matches TestResult::Skipped(s) && s@ == flavor_skip_message(
                    opt_text(flavor),
                    current,
                ),
                Ok(()) => r matches TestResult::Failed(s) && s@ == flavor_pass_message(
                    opt_text(flavor),
                    current,
                ),
            }
        } else {
            match res {
                Ok(()) => r is Passed,
                Err(e) => r matches TestResult::Failed(s) && s@ == error::error_text(e),
            }
        },
    }
}

pub fn run_with_flavor_expectation(
    flavor: &Option<String>,
    current_flavor: &str,
    outcome: RunnerOutcome,
) -> (r: TestResult)
    ensures
        flavor_verdict_holds(*flavor, current_flavor@, outcome, r),
{
    let requirement: Option<&str> = match flavor {
        Some(f) => Some(f.as_str()),
        None => None,
    };
    let expect_failure = !matches_flavor(requirement, current_flavor);
    match outcome {
        RunnerOutcome::Skipped(reason) => TestResult::Skipped(reason),
        RunnerOutcome::Executed(execution_result) => {
            if expect_failure {
                let mut m: Vec<char> = Vec::new();
                match execution_result {
                    Err(_) => {
                        text::append_str(&mut m, "Correctly fails on non-matching flavor (requires '");
                        match flavor {
                            Some(f) => text::append_str(&mut m, f.as_str()),
                            None => {},
                        }
                        text::append_str(&mut m, "', running on '");
                        text::append_str(&mut m, current_flavor);
                        text::append_str(&mut m, "')");
                        assert(m@ =~= flavor_skip_message(opt_text(*flavor), current_flavor@));
                        TestResult::Skipped(text::string_of(m.as_slice()))
                    },
                    Ok(()) => {
                        text::append_str(&mut m, "Test passed but flavor '");
                        match flavor {
                            Some(f) => text::append_str(&mut m, f.as_str()),
                            None => {},
                        }
                        text::append_str(&mut m, "' does not match current flavor '");
                        text::append_str(&mut m, current_flavor);
                        text::append_str(&mut m, "'");
                        assert(m@ =~= flavor_pass_message(opt_text(*flavor), current_flavor@));
                        TestResult::Failed(text::string_of(m.as_slice()))
                    },
                }
            } else {
                match execution_result {
                    Ok(()) => TestResult::Passed,
                    Err(e) => TestResult::Failed(e.to_text()),
                }
            }
        },
    }
}

pub open spec fn direction_message() -> Seq<char> {
    "`up` and `down` must either both be set or both be omitted"@
}

/// `up` and `down` are given together or not at all.
pub fn validate_direction_expectations(test: &TestCase) -> (r: Result<(), Error>)
    ensures
        r is Ok <==> (test.up is Some) == (test.down is Some),
        r matches Err(e) ==> manifest::is_runner_error(e, direction_message()),
{
    if test.up.is_some() == test.down.is_some() {
        Ok(())
    } else {
        let m = text::chars_of("`up` and `down` must either both be set or both be omitted");
        Err(manifest::runner_assertion_error(&m))
    }
}

/// The collapsed, non-empty statements among `pieces`.
pub open spec fn collapsed_statements(pieces: Seq<Seq<char>>) -> Seq<Seq<char>>
    decreases pieces.len(),
{
    if pieces.len() == 0 {
        Seq::empty()
    } else {
        let prev = collapsed_statements(pieces.drop_last());
        let c = text::collapse(pieces.last());
        if c.len() == 0 {
            prev
        } else {
            prev.push(c)
        }
    }
}

/// SQL compared up to whitespace: carriage returns removed, each `;`-separated
/// statement collapsed to single spaces, empty statements dropped.
pub open spec fn normalized_sql(sql: Seq<char>) -> Seq<char> {
    text::join(collapsed_statements(text::split_on(text::remove_char(sql, '\r'), ';')), ";"@)
}

pub fn normalize_sql(sql: &str) -> (r: Vec<char>)
    ensures
        r@ == normalized_sql(sql@),
{
    let v = text::chars_of(sql);
    let v = text::remove_chars(v.as_slice(), '\r');
    let pieces = text::split_chars(v.as_slice(), ';');
    let ghost pv = pieces@.map_values(|p: Vec<char>| p@);
    let mut kept: Vec<String> = Vec::new();
    let mut i: usize = 0;
    assert(pv.take(0) =~= Seq::<Seq<char>>::empty());
    assert(text::views(kept@) =~= Seq::<Seq<char>>::empty());
    while i < pieces.len()
        invariant
            i <= pieces@.len(),
            pv == pieces@.map_values(|p: Vec<char>| p@),
            text::views(kept@) == collapsed_statements(pv.take(i as int)),
        decreases pieces.len() - i,
    {
        assert(pv.take(i + 1).drop_last() =~= pv.take(i as int));
        assert(pv.take(i + 1).last() == pieces@[i as int]@);
        let c = collapse_sql_whitespace(pieces[i].as_slice());
        if c.len() > 0 {
            let ghost before = text::views(kept@);
            kept.push(text::string_of(c.as_slice()));
            assert(text::views(kept@) =~= before.push(c@));
        }
        i += 1;
    }
    assert(pv.take(pv.len() as int) =~= pv);
    let joined = text::join_strings(&kept, ";");
    text::chars_of(joined.as_str())
}

/// Two SQL texts are the same up to whitespace; quoting is significant.
pub fn sql_matches_quote_aware(expected: &str, actual: &str) -> (b: bool)
    ensures
        b == (normalized_sql(expected@) == normalized_sql(actual@)),
{
    let a = normalize_sql(expected);
    let b = normalize_sql(actual);
    strset::compare_chars(a.as_slice(), b.as_slice()) == 0
}

pub open spec fn mismatch_message(direction: Seq<char>, expected: Seq<char>, actual: Seq<char>) -> Seq<
    char,
> {
    direction + " SQL mismatch; expected:\n"@ + expected + "\nactual:\n"@ + text::trim(actual)
}

/// Compares the SQL a run produced with the expected SQL, if any, up to whitespace.
pub fn assert_expected_sql(direction: &str, expected: &Option<String>, actual: &str) -> (r: Result<
    (),
    Error,
>)
    ensures
        match expected {
            None => r is Ok,
            Some(x) => if normalized_sql(x@) == normalized_sql(actual@) {
                r is Ok
            } else {
                r matches Err(e) && manifest::is_runner_error(
                    e,
                    mismatch_message(direction@, x@, actual@),
                )
            },
        },
{
    let x = match expected {
        None => return Ok(()),
        Some(x) => x,
    };
    if sql_matches_quote_aware(x.as_str(), actual) {
        return Ok(());
    }
    let mut m = text::chars_of(direction);
    text::append_str(&mut m, " SQL mismatch; expected:\n");
    text::append_str(&mut m, x.as_str());
    text::append_str(&mut m, "\nactual:\n");
    let t = text::trim_str(actual);
    text::append_chars(&mut m, t.as_slice());
    Err(manifest::runner_assertion_error(&m))
}

pub const TESTCASE_SOURCE_LABEL: &'static str = "yaml testcase";

/// A short excerpt of a YAML document for error reports: the trimmed text, cut
/// to 256 characters followed by `...` when longer, or a fixed label when blank.
pub open spec fn excerpt(yaml: Seq<char>) -> Seq<char> {
    let t = text::trim(yaml);
    if t.len() == 0 {
        TESTCASE_SOURCE_LABEL@
    } else if t.len() <= 256 {
        t
    } else {
        t.take(256) + "..."@
    }
}

pub fn source_sql_excerpt(yaml: &str) -> (r: String)
    ensures
        r@ == excerpt(yaml@),
{
    let t = text::trim_str(yaml);
    if t.len() == 0 {
        return text::owned(TESTCASE_SOURCE_LABEL);
    }
    if t.len() <= 256 {
        return text::string_of(t.as_slice());
    }
    let mut e = text::slice_copy(t.as_slice(), 0, 256);
    text::append_str(&mut e, "...");
    assert(t@.subrange(0, 256) =~= t@.take(256));
    text::string_of(e.as_slice())
}

/// The verdict of an offline run from the result of its generation flow.
pub fn offline_verdict(test: &TestCase, dialect_name: &str, flow_result: Result<(), Error>) -> (r:
    TestResult)
    ensures
        exists|checked: Result<(), Error>|
            (match expected_error_verdict(test.error, flow_result) {
                Ok(()) => checked is Ok,
                Err(m) => checked matches Err(e) && error::error_text(e) == m,
            }) && flavor_verdict_holds(
                test.flavor,
                dialect_name@,
                RunnerOutcome::Executed(checked),
                r,
            ),
{
    let checked = evaluate_expected_error(test, flow_result);
    run_with_flavor_expectation(&test.flavor, dialect_name, RunnerOutcome::Executed(checked))
}

/// The outcome of an online run. A version check that asks to skip, or fails,
/// decides the outcome; otherwise the result of the run decides, held to the
/// expected error. `flow_result` matters only when the version check passes.
pub fn online_outcome(
    test: &TestCase,
    gate: Result<Option<String>, Error>,
    flow_result: Result<(), Error>,
) -> (r: RunnerOutcome)
    ensures
        match gate {
            Ok(Some(reason)) => r matches RunnerOutcome::Skipped(s) && s@ == reason@,
            Err(e) => r matches RunnerOutcome::Executed(Err(x)) && x == e,
            Ok(None) => r matches RunnerOutcome::Executed(checked) && match expected_error_verdict(
                test.error,
                flow_result,
            ) {
                Ok(()) => checked is Ok,
                Err(m) => checked matches Err(e) && error::error_text(e) == m,
            },
        },
{
    match gate {
        Ok(Some(reason)) => RunnerOutcome::Skipped(reason),
        Ok(None) => RunnerOutcome::Executed(evaluate_expected_error(test, flow_result)),
        Err(error) => RunnerOutcome::Executed(Err(error)),
    }
}

/// The text of an optional version requirement, trimmed, when it is not blank.
pub fn normalized_version_requirement(value: &Option<String>) -> (r: Option<Vec<char>>)
    ensures
        match r {
            Some(v) => common::nonblank(*value) == Some(v@),
            None => common::nonblank(*value) is None,
        },
{
    match value {
        Some(v) => {
            let t = text::trim_str(v.as_str());
            if t.len() > 0 {
                Some(t)
            } else {
                None
            }
        },
        None => None,
    }
}

/// A statement fragment with its whitespace runs collapsed to single spaces and
/// trimmed.
pub fn collapse_sql_whitespace(fragment: &[char]) -> (r: Vec<char>)
    ensures
        r@ == text::collapse(fragment@),
{
    text::collapse_chars(fragment)
}

/// A directory entry is read as a case file when it is a file whose extension is `yml`
/// or `yaml`.
pub fn is_yaml_path(is_file: bool, extension: Option<&str>) -> (b: bool)
    ensures
        b == (is_file && (extension matches Some(e) && (e@ == "yml"@ || e@ == "yaml"@))),
{
    if !is_file {
        return false;
    }
    match extension {
        Some(e) => {
            let v = text::chars_of(e);
            text::eq_str(v.as_slice(), "yml") || text::eq_str(v.as_slice(), "yaml")
        },
        None => false,
    }
}

} // verus!
