use vstd::prelude::*;

use crate::error::Error;
use crate::ir::SchemaObject;
use crate::ir::Table;
use crate::ir;
use crate::schema::Ident;
use crate::text;

verus! {

/// What a rename annotation comment says before the former name.
pub const RENAMED_PREFIX: &'static str = "@renamed from=";

/// The operation an annotation that names no table or view is reported under.
pub const RENAME_MISMATCH: &'static str = "rename annotation mismatch";

/// A rename annotation of the input: the line it stands on (counted from 1) and the name
/// the object had before.
pub struct RenameAnnotation {
    pub line: usize,
    pub from: String,
}

/// Where the comment of a line starts: the first `--` at or after `i`.
pub open spec fn comment_from(line: Seq<char>, i: int) -> Option<int>
    decreases line.len() - i,
{
    if i < 0 || i + 1 >= line.len() {
        None
    } else if line[i] == '-' && line[i + 1] == '-' {
        Some(i)
    } else {
        comment_from(line, i + 1)
    }
}

/// The former name a line's annotation gives: the line has a comment whose text, trimmed,
/// is `@renamed from=` followed by a name without whitespace.
pub open spec fn annotation_name(line: Seq<char>) -> Option<Seq<char>> {
    match comment_from(line, 0) {
        None => None,
        Some(i) => {
            let body = text::trim(line.skip(i + 2));
            let p = RENAMED_PREFIX@;
            if text::starts_with(body, p) && body.len() > p.len() && forall|k: int|
                p.len() <= k < body.len() ==> !text::is_ws(#[trigger] body[k]) {
                Some(body.skip(p.len() as int))
            } else {
                None
            }
        },
    }
}

/// The line as the SQL parser gets it: without its annotation comment, if it has one.
pub open spec fn cleaned_line(line: Seq<char>) -> Seq<char> {
    match (annotation_name(line), comment_from(line, 0)) {
        (Some(_), Some(i)) => line.take(i),
        _ => line,
    }
}

/// The lines of a text.
pub open spec fn lines_of(sql: Seq<char>) -> Seq<Seq<char>> {
    text::split_on(sql, '\n')
}

/// The text as the SQL parser gets it: every annotation comment taken out, the lines kept.
pub open spec fn cleaned_text(sql: Seq<char>) -> Seq<char> {
    text::join(lines_of(sql).map_values(|l: Seq<char>| cleaned_line(l)), "\n"@)
}

/// The annotations of the first `n` lines: each annotated line's number and the name it
/// gives, in order of the lines.
pub open spec fn annotations_in(lines: Seq<Seq<char>>, n: int) -> Seq<(int, Seq<char>)>
    decreases n,
{
    if n <= 0 {
        Seq::empty()
    } else {
        let prev = annotations_in(lines, n - 1);
        match annotation_name(lines[n - 1]) {
            Some(name) => prev.push((n, name)),
            None => prev,
        }
    }
}

/// The rename annotations of a text, in order of their lines.
pub open spec fn annotations_of(sql: Seq<char>) -> Seq<(int, Seq<char>)> {
    annotations_in(lines_of(sql), lines_of(sql).len() as int)
}

proof fn lemma_join_lines(s: Seq<char>)
    ensures
        text::join(lines_of(s), "\n"@) == s,
    decreases s.len(),
{
    reveal_strlit("\n");
    if s.len() == 0 {
        assert(lines_of(s) =~= seq![Seq::<char>::empty()]);
    } else {
        let d = s.drop_last();
        lemma_join_lines(d);
        text::lemma_split_on_nonempty(d, '\n');
        let p = lines_of(d);
        if s.last() == '\n' {
            assert(lines_of(s) == p.push(Seq::<char>::empty()));
            text::lemma_join_push(p, "\n"@, Seq::<char>::empty());
            assert(d + "\n"@ + Seq::<char>::empty() =~= s);
        } else {
            assert(lines_of(s) == p.update(p.len() - 1, p.last().push(s.last())));
            text::lemma_join_extend_last(p, "\n"@, s.last());
            assert(d.push(s.last()) =~= s);
        }
    }
}

proof fn lemma_no_annotations_in(lines: Seq<Seq<char>>, n: int)
    requires
        0 <= n <= lines.len(),
        annotations_in(lines, n).len() == 0,
    ensures
        forall|k: int| 0 <= k < n ==> annotation_name(#[trigger] lines[k]) is None,
    decreases n,
{
    if n > 0 {
        let prev = annotations_in(lines, n - 1);
        if annotation_name(lines[n - 1]) is Some {
            assert(annotations_in(lines, n).len() == prev.len() + 1);
        }
        lemma_no_annotations_in(lines, n - 1);
    }
}

/// A text without rename annotations reaches the SQL parser exactly as it was written.
pub proof fn law_text_without_annotations_unchanged(sql: Seq<char>)
    requires
        annotations_of(sql).len() == 0,
    ensures
        cleaned_text(sql) == sql,
{
    let lines = lines_of(sql);
    lemma_no_annotations_in(lines, lines.len() as int);
    assert(lines.map_values(|l: Seq<char>| cleaned_line(l)) =~= lines);
    lemma_join_lines(sql);
}

pub open spec fn annotation_views(v: Seq<RenameAnnotation>) -> Seq<(int, Seq<char>)> {
    v.map_values(|a: RenameAnnotation| (a.line as int, a.from@))
}

/// Where the comment of `line` starts, if it has one.
fn find_comment(line: &[char]) -> (r: Option<usize>)
    ensures
        r matches Some(i) ==> (comment_from(line@, 0) == Some(i as int) && i + 2 <= line@.len()),
        r is None ==> comment_from(line@, 0) is None,
{
    let mut i: usize = 0;
    while i < line.len() && line.len() - i >= 2
        invariant
            i <= line@.len(),
            comment_from(line@, 0) == comment_from(line@, i as int),
        decreases line.len() - i,
    {
        if line[i] == '-' && line[i + 1] == '-' {
            return Some(i);
        }
        i += 1;
    }
    None
}

/// The annotation of one line: where its comment starts and the former name it gives.
fn line_annotation(line: &[char]) -> (r: Option<(usize, Vec<char>)>)
    ensures
        match annotation_name(line@) {
            None => r is None,
            Some(n) => r matches Some((i, v)) && (comment_from(line@, 0) == Some(i as int) && v@ == n
                && i + 2 <= line@.len()),
        },
{
    let found = find_comment(line);
    if found.is_none() {
        return None;
    }
    let i: usize = found.unwrap();
    let len = line.len();
    assert(comment_from(line@, 0) == Some(i as int) && i + 2 <= len);
    let rest = text::slice_copy(line, i + 2, len);
    assert(rest@ =~= line@.skip(i + 2));
    let body = text::trim_chars(rest.as_slice());
    let p = text::chars_of(RENAMED_PREFIX);
    assert(body@ == text::trim(line@.skip(i + 2)));
    if !text::starts_with_str(body.as_slice(), RENAMED_PREFIX) || body.len() <= p.len() {
        assert(annotation_name(line@) is None);
        return None;
    }
    let mut k: usize = p.len();
    while k < body.len()
        invariant
            p@ == RENAMED_PREFIX@,
            p@.len() <= k <= body@.len(),
            comment_from(line@, 0) == Some(i as int),
            body@ == text::trim(line@.skip(i + 2)),
            forall|j: int| p@.len() <= j < k ==> !text::is_ws(#[trigger] body@[j]),
        decreases body.len() - k,
    {
        if text::is_whitespace(body[k]) {
            assert(text::is_ws(body@[k as int]));
            assert(annotation_name(line@) is None);
            return None;
        }
        k += 1;
    }
    let name = text::slice_copy(body.as_slice(), p.len(), body.len());
    assert(name@ =~= body@.skip(p@.len() as int));
    assert(annotation_name(line@) == Some(name@));
    Some((i, name))
}

/// Takes the rename annotations out of `sql`: the text with each annotation comment
/// removed (its lines kept), and the annotations in order of their lines.
pub fn extract_annotations(sql: &str) -> (r: (String, Vec<RenameAnnotation>))
    ensures
        r.0@ == cleaned_text(sql@),
        annotation_views(r.1@) == annotations_of(sql@),
{
    let chars = text::chars_of(sql);
    let lines = text::split_chars(chars.as_slice(), '\n');
    let ghost ls = lines_of(sql@);
    assert(lines@.map_values(|p: Vec<char>| p@) == ls);
    let mut cleaned: Vec<Vec<char>> = Vec::new();
    let mut found: Vec<RenameAnnotation> = Vec::new();
    let mut n: usize = 0;
    while n < lines.len()
        invariant
            n <= lines@.len(),
            ls.len() == lines@.len(),
            forall|k: int| 0 <= k < lines@.len() ==> #[trigger] lines@[k]@ == ls[k],
            text::char_views(cleaned@) == ls.take(n as int).map_values(|l: Seq<char>| cleaned_line(l)),
            annotation_views(found@) == annotations_in(ls, n as int),
        decreases lines.len() - n,
    {
        let line = &lines[n];
        assert(line@ == ls[n as int]);
        let ghost before_c = text::char_views(cleaned@);
        let ghost before_f = annotation_views(found@);
        match line_annotation(line.as_slice()) {
            Some((i, name)) => {
                let c = text::slice_copy(line.as_slice(), 0, i);
                assert(c@ =~= cleaned_line(ls[n as int]));
                cleaned.push(c);
                found.push(RenameAnnotation { line: n + 1, from: text::string_of(name.as_slice()) });
                assert(annotation_views(found@) =~= before_f.push(((n + 1) as int, name@)));
            },
            None => {
                let c = text::slice_copy(line.as_slice(), 0, line.len());
                assert(c@ =~= cleaned_line(ls[n as int]));
                cleaned.push(c);
                assert(annotation_views(found@) =~= before_f);
            },
        }
        assert(text::char_views(cleaned@) =~= before_c.push(cleaned_line(ls[n as int])));
        assert(ls.take(n + 1) =~= ls.take(n as int).push(ls[n as int]));
        assert(text::char_views(cleaned@) =~= ls.take(n + 1).map_values(
            |l: Seq<char>| cleaned_line(l),
        ));
        n += 1;
    }
    assert(ls.take(n as int) =~= ls);
    let joined = text::join_char_vecs(&cleaned, "\n");
    (text::string_of(joined.as_slice()), found)
}

/// The target an annotation that names no table or view is reported with.
pub open spec fn mismatch_target(line: int, name: Seq<char>) -> Seq<char> {
    "annotation @renamed from="@ + name + " on line "@ + text::decimal_string(line as nat)
}

/// `e` reports that the annotation on `line` giving `name` names no table or view.
pub open spec fn is_mismatch(e: Error, line: int, name: Seq<char>) -> bool {
    e matches Error::ObjectComparison { target, operation } && target@ == mismatch_target(line, name)
        && operation@ == RENAME_MISMATCH@
}

fn mismatch_error(line: usize, name: &str) -> (e: Error)
    ensures
        is_mismatch(e, line as int, name@),
{
    let mut t = text::chars_of("annotation @renamed from=");
    text::append_str(&mut t, name);
    text::append_str(&mut t, " on line ");
    let d = text::decimal_chars(line as u64);
    text::append_chars(&mut t, d.as_slice());
    Error::ObjectComparison {
        target: text::string_of(t.as_slice()),
        operation: text::owned(RENAME_MISMATCH),
    }
}

/// Object `k` is the first whose statement starts on `line`.
pub open spec fn first_on_line(lines: Seq<int>, line: int, k: int) -> bool {
    &&& 0 <= k < lines.len()
    &&& lines[k] == line
    &&& forall|j: int| 0 <= j < k ==> lines[j] != line
}

/// An annotation on `line` names an object: a statement starts on that line, and the first
/// that does creates a table or a view.
pub open spec fn applies(objects: Seq<SchemaObject>, lines: Seq<int>, line: int) -> bool {
    exists|k: int| #[trigger]
        first_on_line(lines, line, k) && (objects[k] is Table || objects[k] is View)
}

/// The name the annotations give object `k`: that of the last annotation whose line is
/// the one `k` is the first object of.
pub open spec fn name_for(lines: Seq<int>, anns: Seq<(int, Seq<char>)>, k: int) -> Option<Seq<char>>
    decreases anns.len(),
{
    if anns.len() == 0 {
        None
    } else if first_on_line(lines, anns.last().0, k) {
        Some(anns.last().1)
    } else {
        name_for(lines, anns.drop_last(), k)
    }
}

/// `o2` is `o` with its former name set to `name` when one is given, else `o` itself.
pub open spec fn renamed_as(o2: SchemaObject, o: SchemaObject, name: Option<Seq<char>>) -> bool {
    match name {
        None => o2 == o,
        Some(n) => match o {
            SchemaObject::Table(t) => {
                &&& o2 matches SchemaObject::Table(t2)
                &&& t2 == (Table { renamed_from: t2.renamed_from, ..t })
                &&& t2.renamed_from matches Some(id)
                &&& id.value@ == n
                &&& !id.quoted
            },
            SchemaObject::View(v) => {
                &&& o2 matches SchemaObject::View(v2)
                &&& v2 == (ir::View { renamed_from: v2.renamed_from, ..v })
                &&& v2.renamed_from matches Some(id)
                &&& id.value@ == n
                &&& !id.quoted
            },
            _ => false,
        },
    }
}

/// Annotation `i` is the first that names no table or view.
pub open spec fn first_mismatch(
    objects: Seq<SchemaObject>,
    lines: Seq<int>,
    anns: Seq<(int, Seq<char>)>,
    i: int,
) -> bool {
    &&& 0 <= i < anns.len()
    &&& !applies(objects, lines, anns[i].0)
    &&& forall|j: int| 0 <= j < i ==> applies(objects, lines, #[trigger] anns[j].0)
}

/// `r` is what attaching `anns` to `objects`, whose statements start on `lines`, gives:
/// the error of the first annotation that names no table or view, else each object with
/// the former name its annotation gives.
pub open spec fn attached(
    r: Result<Vec<SchemaObject>, Error>,
    objects: Seq<SchemaObject>,
    lines: Seq<int>,
    anns: Seq<(int, Seq<char>)>,
) -> bool {
    if exists|i: int| first_mismatch(objects, lines, anns, i) {
        exists|i: int| #[trigger]
            first_mismatch(objects, lines, anns, i) && (r matches Err(e) && is_mismatch(
                e,
                anns[i].0,
                anns[i].1,
            ))
    } else {
        r matches Ok(out) && out@.len() == objects.len() && forall|k: int|
            0 <= k < objects.len() ==> renamed_as(
                #[trigger] out@[k],
                objects[k],
                name_for(lines, anns, k),
            )
    }
}

pub open spec fn line_views(lines: Seq<usize>) -> Seq<int> {
    lines.map_values(|l: usize| l as int)
}

/// Sets the former name of a table or view.
fn with_former_name(o: SchemaObject, name: &str) -> (r: SchemaObject)
    requires
        o is Table || o is View,
    ensures
        renamed_as(r, o, Some(name@)),
{
    let id = Ident { value: text::owned(name), quoted: false };
    match o {
        SchemaObject::Table(t) => SchemaObject::Table(Table { renamed_from: Some(id), ..t }),
        SchemaObject::View(v) => SchemaObject::View(ir::View { renamed_from: Some(id), ..v }),
        other => other,
    }
}

/// Gives each annotated table or view its former name: an annotation applies to the first
/// object whose statement starts on its line, which must be a table or a view.
pub fn attach_annotations(
    objects: Vec<SchemaObject>,
    lines: &Vec<usize>,
    anns: &Vec<RenameAnnotation>,
) -> (r: Result<Vec<SchemaObject>, Error>)
    requires
        objects@.len() == lines@.len(),
    ensures
        attached(r, objects@, line_views(lines@), annotation_views(anns@)),
{
    let ghost orig = objects@;
    let ghost lv = line_views(lines@);
    let ghost av = annotation_views(anns@);
    let mut objs = objects;
    let mut i: usize = 0;
    while i < anns.len()
        invariant
            i <= anns@.len(),
            orig.len() == lines@.len(),
            lv == line_views(lines@),
            av == annotation_views(anns@),
            objs@.len() == orig.len(),
            orig == objects@,
            forall|j: int| 0 <= j < i ==> applies(orig, lv, #[trigger] av[j].0),
            forall|k: int|
                0 <= k < orig.len() ==> renamed_as(
                    #[trigger] objs@[k],
                    orig[k],
                    name_for(lv, av.take(i as int), k),
                ),
        decreases anns.len() - i,
    {
        let line = anns[i].line;
        assert(av[i as int] == (line as int, anns@[i as int].from@));
        let mut k: usize = 0;
        while k < lines.len() && lines[k] != line
            invariant
                k <= lines@.len(),
                lv == line_views(lines@),
                forall|j: int| 0 <= j < k ==> lv[j] != line as int,
            decreases lines.len() - k,
        {
            k += 1;
        }
        if k == lines.len() {
            proof {
                assert forall|m: int| !first_on_line(lv, line as int, m) by {
                    if 0 <= m < lv.len() {
                        assert(lv[m] != line as int);
                    }
                }
                assert(first_mismatch(orig, lv, av, i as int));
            }
            let e = mismatch_error(line, anns[i].from.as_str());
            assert(is_mismatch(e, av[i as int].0, av[i as int].1));
            return Err(e);
        }
        assert(first_on_line(lv, line as int, k as int));
        assert forall|m: int| #[trigger] first_on_line(lv, line as int, m) implies m == k by {
            if m < k {
                assert(lv[m] != line as int);
            } else if m > k {
                assert(lv[k as int] != line as int);
            }
        }
        let named = match &objs[k] {
            SchemaObject::Table(_) => true,
            SchemaObject::View(_) => true,
            _ => false,
        };
        assert(named == (orig[k as int] is Table || orig[k as int] is View)) by {
            assert(renamed_as(objs@[k as int], orig[k as int], name_for(lv, av.take(i as int), k as int)));
        }
        if !named {
            proof {
                assert(first_mismatch(orig, lv, av, i as int));
            }
            let e = mismatch_error(line, anns[i].from.as_str());
            assert(is_mismatch(e, av[i as int].0, av[i as int].1));
            return Err(e);
        }
        assert(applies(orig, lv, av[i as int].0));
        let ghost prev = objs@;
        let o = objs.remove(k);
        let o2 = with_former_name(o, anns[i].from.as_str());
        objs.insert(k, o2);
        proof {
            assert(objs@ =~= prev.update(k as int, o2));
            assert(av.take(i + 1).drop_last() =~= av.take(i as int));
            assert(av.take(i + 1).last() == av[i as int]);
            assert forall|m: int| 0 <= m < orig.len() implies renamed_as(
                #[trigger] objs@[m],
                orig[m],
                name_for(lv, av.take(i + 1), m),
            ) by {
                if m == k {
                    assert(renamed_as(prev[m], orig[m], name_for(lv, av.take(i as int), m)));
                } else {
                    assert(!first_on_line(lv, line as int, m));
                    assert(objs@[m] == prev[m]);
                }
            }
        }
        i += 1;
    }
    proof {
        assert(av.take(i as int) =~= av);
        if exists|j: int| first_mismatch(orig, lv, av, j) {
            let j = choose|j: int| first_mismatch(orig, lv, av, j);
            assert(applies(orig, lv, av[j].0));
        }
    }
    Ok(objs)
}

} // verus!
