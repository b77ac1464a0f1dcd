use vstd::prelude::*;

use crate::ir::CheckConstraint;
use crate::ir::Comment;
use crate::ir::CommentTarget;
use crate::ir::DataType;
use crate::ir::Domain;
use crate::ir::DomainChange;
use crate::ir::EnumValuePosition;
use crate::ir::Extension;
use crate::ir::Function;
use crate::ir::FunctionParam;
use crate::ir::FunctionParamMode;
use crate::ir::FunctionSecurity;
use crate::ir::Policy;
use crate::ir::PolicyCommand;
use crate::ir::Privilege;
use crate::ir::PrivilegeObject;
use crate::ir::PrivilegeOp;
use crate::ir::Sequence;
use crate::ir::SequenceChange;
use crate::ir::Trigger;
use crate::ir::TriggerEvent;
use crate::ir::TriggerForEach;
use crate::ir::TriggerTiming;
use crate::ir::TypeChange;
use crate::ir::TypeDef;
use crate::ir::TypeKind;
use crate::ir::Volatility;
use crate::postgres::definitions;
use crate::postgres::definitions::check_clause_sql;
use crate::postgres::definitions::cycle_sql;
use crate::postgres::definitions::numbered_option_sql;
use crate::postgres::render;
use crate::postgres::render::data_type_sql;
use crate::postgres::render::expr_sql;
use crate::postgres::render::ident_sql;
use crate::postgres::render::qualified_name_sql;
use crate::postgres::render::string_sql;
use crate::schema::Ident;
use crate::schema::QualifiedName;
use crate::text;

verus! {

/// The type and the first bounds of a sequence, each set one followed by a space.
pub open spec fn sequence_head_sql(s: Sequence) -> Seq<char> {
    (match s.data_type {
        Some(d) => "AS "@ + data_type_sql(d) + " "@,
        None => Seq::empty(),
    }) + numbered_option_sql("INCREMENT BY "@, s.increment) + numbered_option_sql(
        "MINVALUE "@,
        s.min_value,
    ) + numbered_option_sql("MAXVALUE "@, s.max_value)
}

/// The start and cache of a sequence, each set one followed by a space, then the cycle
/// setting and the owner.
pub open spec fn sequence_tail_sql(s: Sequence) -> Seq<char> {
    numbered_option_sql("START WITH "@, s.start) + numbered_option_sql("CACHE "@, s.cache)
        + cycle_sql(s.cycle) + match s.owned_by {
        Some(o) => " OWNED BY "@ + qualified_name_sql(o.0) + "."@ + ident_sql(o.1),
        None => Seq::empty(),
    }
}

/// The clauses of a sequence joined by spaces: as the cycle setting is always among them,
/// each set option before it is followed by a space.
pub open spec fn create_sequence_sql(s: Sequence) -> Seq<char> {
    "CREATE SEQUENCE "@ + qualified_name_sql(s.name) + " "@ + sequence_head_sql(s)
        + sequence_tail_sql(s)
}

fn write_numbered(out: &mut Vec<char>, keyword: &str, n: Option<i64>)
    ensures
        final(out)@ == old(out)@ + numbered_option_sql(keyword@, n),
{
    match n {
        Some(v) => {
            text::append_str(out, keyword);
            render::write_signed(out, v);
            text::append_str(out, " ");
        },
        None => {
            assert(old(out)@ + numbered_option_sql(keyword@, n) =~= old(out)@);
        },
    }
}

fn write_sequence_head(out: &mut Vec<char>, s: &Sequence)
    ensures
        final(out)@ == old(out)@ + sequence_head_sql(*s),
{
    let ghost start = out@;
    match &s.data_type {
        Some(d) => {
            text::append_str(out, "AS ");
            render::write_data_type(out, d);
            text::append_str(out, " ");
        },
        None => {},
    }
    write_numbered(out, "INCREMENT BY ", s.increment);
    write_numbered(out, "MINVALUE ", s.min_value);
    write_numbered(out, "MAXVALUE ", s.max_value);
    assert(out@ =~= start + sequence_head_sql(*s));
}

fn write_sequence_tail(out: &mut Vec<char>, s: &Sequence)
    ensures
        final(out)@ == old(out)@ + sequence_tail_sql(*s),
{
    let ghost start = out@;
    write_numbered(out, "START WITH ", s.start);
    write_numbered(out, "CACHE ", s.cache);
    if s.cycle {
        text::append_str(out, "CYCLE");
    } else {
        text::append_str(out, "NO CYCLE");
    }
    match &s.owned_by {
        Some(o) => {
            text::append_str(out, " OWNED BY ");
            render::write_qualified_name(out, &o.0);
            text::append_str(out, ".");
            render::write_ident(out, &o.1);
        },
        None => {},
    }
    assert(out@ =~= start + sequence_tail_sql(*s));
}

pub fn render_create_sequence(s: &Sequence) -> (r: String)
    ensures
        r@ == create_sequence_sql(*s),
{
    let mut out: Vec<char> = Vec::new();
    text::append_str(&mut out, "CREATE SEQUENCE ");
    render::write_qualified_name(&mut out, &s.name);
    text::append_str(&mut out, " ");
    write_sequence_head(&mut out, s);
    write_sequence_tail(&mut out, s);
    assert(out@ =~= create_sequence_sql(*s));
    text::string_of(out.as_slice())
}

pub open spec fn sequence_change_sql(c: SequenceChange) -> Seq<char> {
    match c {
        SequenceChange::SetType(d) => "AS "@ + data_type_sql(d),
        SequenceChange::SetIncrement(v) => "INCREMENT BY "@ + text::signed_decimal_string(v as int),
        SequenceChange::SetMinValue(v) => match v {
            Some(x) => "MINVALUE "@ + text::signed_decimal_string(x as int),
            None => "NO MINVALUE"@,
        },
        SequenceChange::SetMaxValue(v) => match v {
            Some(x) => "MAXVALUE "@ + text::signed_decimal_string(x as int),
            None => "NO MAXVALUE"@,
        },
        SequenceChange::SetStart(v) => "START WITH "@ + text::signed_decimal_string(v as int),
        SequenceChange::SetCache(v) => "CACHE "@ + text::signed_decimal_string(v as int),
        SequenceChange::SetCycle(b) => cycle_sql(b),
    }
}

fn write_sequence_change(out: &mut Vec<char>, c: &SequenceChange)
    ensures
        final(out)@ == old(out)@ + sequence_change_sql(*c),
{
    let ghost start = out@;
    match c {
        SequenceChange::SetType(d) => {
            text::append_str(out, "AS ");
            render::write_data_type(out, d);
        },
        SequenceChange::SetIncrement(v) => {
            text::append_str(out, "INCREMENT BY ");
            render::write_signed(out, *v);
        },
        SequenceChange::SetMinValue(v) => match v {
            Some(x) => {
                text::append_str(out, "MINVALUE ");
                render::write_signed(out, *x);
            },
            None => text::append_str(out, "NO MINVALUE"),
        },
        SequenceChange::SetMaxValue(v) => match v {
            Some(x) => {
                text::append_str(out, "MAXVALUE ");
                render::write_signed(out, *x);
            },
            None => text::append_str(out, "NO MAXVALUE"),
        },
        SequenceChange::SetStart(v) => {
            text::append_str(out, "START WITH ");
            render::write_signed(out, *v);
        },
        SequenceChange::SetCache(v) => {
            text::append_str(out, "CACHE ");
            render::write_signed(out, *v);
        },
        SequenceChange::SetCycle(b) => if *b {
            text::append_str(out, "CYCLE");
        } else {
            text::append_str(out, "NO CYCLE");
        },
    }
    assert(out@ =~= start + sequence_change_sql(*c));
}

pub open spec fn alter_sequence_sql(name: QualifiedName, changes: Seq<SequenceChange>) -> Seq<char> {
    "ALTER SEQUENCE "@ + qualified_name_sql(name) + " "@ + text::join(
        changes.map_values(|c: SequenceChange| sequence_change_sql(c)),
        " "@,
    )
}

pub fn render_alter_sequence(name: &QualifiedName, changes: &Vec<SequenceChange>) -> (r: String)
    ensures
        r@ == alter_sequence_sql(*name, changes@),
{
    let mut out: Vec<char> = Vec::new();
    text::append_str(&mut out, "ALTER SEQUENCE ");
    render::write_qualified_name(&mut out, name);
    text::append_str(&mut out, " ");
    let ghost head = out@;
    let ghost all = changes@.map_values(|c: SequenceChange| sequence_change_sql(c));
    let mut i: usize = 0;
    assert(all.take(0) =~= Seq::<Seq<char>>::empty());
    while i < changes.len()
        invariant
            i <= changes@.len(),
            all == changes@.map_values(|c: SequenceChange| sequence_change_sql(c)),
            out@ == head + text::join(all.take(i as int), " "@),
        decreases changes.len() - i,
    {
        if i > 0 {
            text::append_str(&mut out, " ");
        }
        write_sequence_change(&mut out, &changes[i]);
        proof {
            text::lemma_join_push(all.take(i as int), " "@, all[i as int]);
            assert(all.take(i + 1) =~= all.take(i as int).push(all[i as int]));
        }
        i += 1;
    }
    assert(all.take(all.len() as int) =~= all);
    assert(out@ =~= alter_sequence_sql(*name, changes@));
    text::string_of(out.as_slice())
}

pub open spec fn trigger_timing_sql(t: TriggerTiming) -> Seq<char> {
    match t {
        TriggerTiming::Before => "BEFORE"@,
        TriggerTiming::After => "AFTER"@,
        TriggerTiming::InsteadOf => "INSTEAD OF"@,
    }
}

pub open spec fn trigger_event_sql(e: TriggerEvent) -> Seq<char> {
    match e {
        TriggerEvent::Insert => "INSERT"@,
        TriggerEvent::Update => "UPDATE"@,
        TriggerEvent::Delete => "DELETE"@,
        TriggerEvent::Truncate => "TRUNCATE"@,
    }
}

pub open spec fn trigger_for_each_sql(f: TriggerForEach) -> Seq<char> {
    match f {
        TriggerForEach::Row => "ROW"@,
        TriggerForEach::Statement => "STATEMENT"@,
    }
}

pub fn render_trigger_timing(t: &TriggerTiming) -> (r: &'static str)
    ensures
        r@ == trigger_timing_sql(*t),
{
    match t {
        TriggerTiming::Before => "BEFORE",
        TriggerTiming::After => "AFTER",
        TriggerTiming::InsteadOf => "INSTEAD OF",
    }
}

pub fn render_trigger_event(e: &TriggerEvent) -> (r: &'static str)
    ensures
        r@ == trigger_event_sql(*e),
{
    match e {
        TriggerEvent::Insert => "INSERT",
        TriggerEvent::Update => "UPDATE",
        TriggerEvent::Delete => "DELETE",
        TriggerEvent::Truncate => "TRUNCATE",
    }
}

pub fn render_trigger_for_each(f: &TriggerForEach) -> (r: &'static str)
    ensures
        r@ == trigger_for_each_sql(*f),
{
    match f {
        TriggerForEach::Row => "ROW",
        TriggerForEach::Statement => "STATEMENT",
    }
}

pub open spec fn trigger_events_sql(events: Seq<TriggerEvent>) -> Seq<char> {
    text::join(events.map_values(|e: TriggerEvent| trigger_event_sql(e)), " OR "@)
}

fn write_trigger_events(out: &mut Vec<char>, events: &Vec<TriggerEvent>)
    ensures
        final(out)@ == old(out)@ + trigger_events_sql(events@),
{
    let ghost all = events@.map_values(|e: TriggerEvent| trigger_event_sql(e));
    let mut i: usize = 0;
    assert(all.take(0) =~= Seq::<Seq<char>>::empty());
    while i < events.len()
        invariant
            i <= events@.len(),
            all == events@.map_values(|e: TriggerEvent| trigger_event_sql(e)),
            out@ == old(out)@ + text::join(all.take(i as int), " OR "@),
        decreases events.len() - i,
    {
        if i > 0 {
            text::append_str(out, " OR ");
        }
        text::append_str(out, render_trigger_event(&events[i]));
        proof {
            text::lemma_join_push(all.take(i as int), " OR "@, all[i as int]);
            assert(all.take(i + 1) =~= all.take(i as int).push(all[i as int]));
        }
        i += 1;
    }
    assert(all.take(all.len() as int) =~= all);
}

pub open spec fn create_trigger_sql(t: Trigger) -> Seq<char> {
    "CREATE TRIGGER "@ + ident_sql(t.name.name) + " "@ + trigger_timing_sql(t.timing) + " "@
        + trigger_events_sql(t.events@) + " ON "@ + qualified_name_sql(t.table) + " FOR EACH "@
        + trigger_for_each_sql(t.for_each) + match t.when_clause {
        Some(w) => " WHEN ("@ + expr_sql(w) + ")"@,
        None => Seq::empty(),
    } + " "@ + t.body@
}

pub fn render_create_trigger(t: &Trigger) -> (r: String)
    ensures
        r@ == create_trigger_sql(*t),
{
    let mut out: Vec<char> = Vec::new();
    text::append_str(&mut out, "CREATE TRIGGER ");
    render::write_ident(&mut out, &t.name.name);
    text::append_str(&mut out, " ");
    text::append_str(&mut out, render_trigger_timing(&t.timing));
    text::append_str(&mut out, " ");
    write_trigger_events(&mut out, &t.events);
    text::append_str(&mut out, " ON ");
    render::write_qualified_name(&mut out, &t.table);
    text::append_str(&mut out, " FOR EACH ");
    text::append_str(&mut out, render_trigger_for_each(&t.for_each));
    match &t.when_clause {
        Some(w) => {
            text::append_str(&mut out, " WHEN (");
            render::write_expr(&mut out, w);
            text::append_str(&mut out, ")");
        },
        None => {},
    }
    text::append_str(&mut out, " ");
    text::append_str(&mut out, t.body.as_str());
    assert(out@ =~= create_trigger_sql(*t));
    text::string_of(out.as_slice())
}


/// The tag `$stateql$` with `k` underscores before its closing `$`.
pub open spec fn dollar_tag(k: nat) -> Seq<char> {
    "$stateql"@ + Seq::new(k, |_i: int| '_') + "$"@
}

/// The number of underscores of the first tag, counting up from `k`, that does not occur
/// in `body`.
pub open spec fn dollar_tag_width(body: Seq<char>, k: nat) -> nat
    decreases body.len() + 1 - k,
{
    if k > body.len() || !text::contains_sub(body, dollar_tag(k)) {
        k
    } else {
        dollar_tag_width(body, k + 1)
    }
}

/// The tag that quotes `body`: the shortest of its form that does not occur in it.
pub open spec fn body_tag(body: Seq<char>) -> Seq<char> {
    dollar_tag(dollar_tag_width(body, 0))
}

pub open spec fn dollar_quoted_sql(body: Seq<char>) -> Seq<char> {
    body_tag(body) + body + body_tag(body)
}

proof fn lemma_find_from_occurs(s: Seq<char>, p: Seq<char>, i: int)
    ensures
        text::find_from(s, p, i) matches Some(j) ==> text::occurs_at(s, p, j),
    decreases s.len() + 1 - i,
{
    if !(i < 0 || i > s.len()) && !text::occurs_at(s, p, i) {
        lemma_find_from_occurs(s, p, i + 1);
    }
}

/// What occurs in a text is no longer than it.
proof fn lemma_contained_not_longer(s: Seq<char>, p: Seq<char>)
    requires
        text::contains_sub(s, p),
    ensures
        p.len() <= s.len(),
{
    lemma_find_from_occurs(s, p, 0);
}

proof fn lemma_tag_width_free(body: Seq<char>, k: nat)
    ensures
        !text::contains_sub(body, dollar_tag(dollar_tag_width(body, k))),
        dollar_tag_width(body, k) >= k,
    decreases body.len() + 1 - k,
{
    if k > body.len() {
        if text::contains_sub(body, dollar_tag(k)) {
            lemma_contained_not_longer(body, dollar_tag(k));
        }
    } else if text::contains_sub(body, dollar_tag(k)) {
        lemma_tag_width_free(body, k + 1);
    }
}

/// The tag does not occur in the body it quotes, so the quoted text ends where the
/// closing tag begins.
pub proof fn lemma_body_tag_absent(body: Seq<char>)
    ensures
        !text::contains_sub(body, body_tag(body)),
{
    lemma_tag_width_free(body, 0);
}

fn dollar_tag_chars(k: usize) -> (r: Vec<char>)
    ensures
        r@ == dollar_tag(k as nat),
{
    let mut r: Vec<char> = Vec::new();
    text::append_str(&mut r, "$stateql");
    let ghost head = r@;
    let mut i: usize = 0;
    while i < k
        invariant
            i <= k,
            r@ == head + Seq::new(i as nat, |_i: int| '_'),
        decreases k - i,
    {
        r.push('_');
        i += 1;
        assert(r@ =~= head + Seq::new(i as nat, |_i: int| '_'));
    }
    text::append_str(&mut r, "$");
    r
}

/// The body between two copies of the shortest tag `$stateql$`, `$stateql_$`, ... that
/// does not occur in it.
pub fn render_dollar_quoted(body: &str) -> (r: String)
    ensures
        r@ == dollar_quoted_sql(body@),
        !text::contains_sub(body@, body_tag(body@)),
{
    let b = text::chars_of(body);
    let mut k: usize = 0;
    let n = b.len();
    let mut tag = dollar_tag_chars(0);
    loop
        invariant
            n == b@.len(),
            k <= b@.len() + 1,
            b@ == body@,
            tag@ == dollar_tag(k as nat),
            dollar_tag_width(body@, 0) == dollar_tag_width(body@, k as nat),
        ensures
            tag@ == dollar_tag(k as nat),
            dollar_tag_width(body@, 0) == dollar_tag_width(body@, k as nat),
            !text::contains_sub(body@, tag@),
        decreases b@.len() + 1 - k,
    {
        if !text::find_chars(b.as_slice(), tag.as_slice()).is_some() {
            break;
        }
        proof {
            lemma_contained_not_longer(b@, tag@);
            reveal_strlit("$stateql");
            reveal_strlit("$");
            assert(tag@.len() == k + 9);
            assert(k + 9 <= n);
        }
        k += 1;
        tag = dollar_tag_chars(k);
    }
    proof {
        lemma_body_tag_absent(body@);
        assert(dollar_tag_width(body@, k as nat) == k);
    }
    let mut out: Vec<char> = Vec::new();
    text::append_chars(&mut out, tag.as_slice());
    text::append_chars(&mut out, b.as_slice());
    text::append_chars(&mut out, tag.as_slice());
    text::string_of(out.as_slice())
}

pub open spec fn param_mode_sql(m: FunctionParamMode) -> Seq<char> {
    match m {
        FunctionParamMode::In => "IN"@,
        FunctionParamMode::Out => "OUT"@,
        FunctionParamMode::InOut => "INOUT"@,
        FunctionParamMode::Variadic => "VARIADIC"@,
    }
}

pub fn render_param_mode(m: &FunctionParamMode) -> (r: &'static str)
    ensures
        r@ == param_mode_sql(*m),
{
    match m {
        FunctionParamMode::In => "IN",
        FunctionParamMode::Out => "OUT",
        FunctionParamMode::InOut => "INOUT",
        FunctionParamMode::Variadic => "VARIADIC",
    }
}

pub open spec fn volatility_sql(v: Volatility) -> Seq<char> {
    match v {
        Volatility::Immutable => "IMMUTABLE"@,
        Volatility::Stable => "STABLE"@,
        Volatility::Volatile => "VOLATILE"@,
    }
}

pub fn render_volatility(v: &Volatility) -> (r: &'static str)
    ensures
        r@ == volatility_sql(*v),
{
    match v {
        Volatility::Immutable => "IMMUTABLE",
        Volatility::Stable => "STABLE",
        Volatility::Volatile => "VOLATILE",
    }
}

pub open spec fn function_security_sql(s: FunctionSecurity) -> Seq<char> {
    match s {
        FunctionSecurity::Definer => "DEFINER"@,
        FunctionSecurity::Invoker => "INVOKER"@,
    }
}

pub fn render_function_security(s: &FunctionSecurity) -> (r: &'static str)
    ensures
        r@ == function_security_sql(*s),
{
    match s {
        FunctionSecurity::Definer => "DEFINER",
        FunctionSecurity::Invoker => "INVOKER",
    }
}

pub open spec fn function_param_sql(p: FunctionParam) -> Seq<char> {
    (match p.mode {
        Some(m) => param_mode_sql(m) + " "@,
        None => Seq::empty(),
    }) + (match p.name {
        Some(n) => ident_sql(n) + " "@,
        None => Seq::empty(),
    }) + data_type_sql(p.data_type) + definitions::default_suffix_sql(p.default)
}

fn write_function_param(out: &mut Vec<char>, p: &FunctionParam)
    ensures
        final(out)@ == old(out)@ + function_param_sql(*p),
{
    let ghost start = out@;
    match &p.mode {
        Some(m) => {
            text::append_str(out, render_param_mode(m));
            text::append_str(out, " ");
        },
        None => {},
    }
    match &p.name {
        Some(n) => {
            render::write_ident(out, n);
            text::append_str(out, " ");
        },
        None => {},
    }
    render::write_data_type(out, &p.data_type);
    definitions::write_default_suffix(out, &p.default);
    assert(out@ =~= start + function_param_sql(*p));
}

pub open spec fn function_params_sql(params: Seq<FunctionParam>) -> Seq<char> {
    text::join(params.map_values(|p: FunctionParam| function_param_sql(p)), ", "@)
}

fn write_function_params(out: &mut Vec<char>, params: &Vec<FunctionParam>)
    ensures
        final(out)@ == old(out)@ + function_params_sql(params@),
{
    let ghost all = params@.map_values(|p: FunctionParam| function_param_sql(p));
    let mut i: usize = 0;
    assert(all.take(0) =~= Seq::<Seq<char>>::empty());
    while i < params.len()
        invariant
            i <= params@.len(),
            all == params@.map_values(|p: FunctionParam| function_param_sql(p)),
            out@ == old(out)@ + text::join(all.take(i as int), ", "@),
        decreases params.len() - i,
    {
        if i > 0 {
            text::append_str(out, ", ");
        }
        write_function_param(out, &params[i]);
        proof {
            text::lemma_join_push(all.take(i as int), ", "@, all[i as int]);
            assert(all.take(i + 1) =~= all.take(i as int).push(all[i as int]));
        }
        i += 1;
    }
    assert(all.take(all.len() as int) =~= all);
}

/// `CREATE FUNCTION` with the parameters, the return type (`void` when there is none),
/// the language, volatility and security, and the body in dollar quotes.
pub open spec fn create_function_sql(f: Function) -> Seq<char> {
    "CREATE FUNCTION "@ + qualified_name_sql(f.name) + "("@ + function_params_sql(f.params@)
        + ") RETURNS "@ + match f.return_type {
        Some(d) => data_type_sql(d),
        None => "void"@,
    } + " LANGUAGE "@ + f.language@ + match f.volatility {
        Some(v) => " "@ + volatility_sql(v),
        None => Seq::empty(),
    } + match f.security {
        Some(s) => " SECURITY "@ + function_security_sql(s),
        None => Seq::empty(),
    } + " AS "@ + dollar_quoted_sql(f.body@)
}

fn write_function_head(out: &mut Vec<char>, f: &Function)
    ensures
        final(out)@ == old(out)@ + "CREATE FUNCTION "@ + qualified_name_sql(f.name) + "("@
            + function_params_sql(f.params@) + ") RETURNS "@ + match f.return_type {
            Some(d) => data_type_sql(d),
            None => "void"@,
        },
{
    text::append_str(out, "CREATE FUNCTION ");
    render::write_qualified_name(out, &f.name);
    text::append_str(out, "(");
    write_function_params(out, &f.params);
    text::append_str(out, ") RETURNS ");
    match &f.return_type {
        Some(d) => render::write_data_type(out, d),
        None => text::append_str(out, "void"),
    }
}

pub fn render_create_function(f: &Function) -> (r: String)
    ensures
        r@ == create_function_sql(*f),
{
    let mut out: Vec<char> = Vec::new();
    write_function_head(&mut out, f);
    text::append_str(&mut out, " LANGUAGE ");
    text::append_str(&mut out, f.language.as_str());
    match &f.volatility {
        Some(v) => {
            text::append_str(&mut out, " ");
            text::append_str(&mut out, render_volatility(v));
        },
        None => {},
    }
    match &f.security {
        Some(s) => {
            text::append_str(&mut out, " SECURITY ");
            text::append_str(&mut out, render_function_security(s));
        },
        None => {},
    }
    text::append_str(&mut out, " AS ");
    let quoted = render_dollar_quoted(f.body.as_str());
    text::append_str(&mut out, quoted.as_str());
    assert(out@ =~= create_function_sql(*f));
    text::string_of(out.as_slice())
}


/// The labels of an enum type as string constants, separated by `", "`.
pub open spec fn enum_labels_sql(labels: Seq<String>) -> Seq<char> {
    text::join(labels.map_values(|x: String| string_sql(x@)), ", "@)
}

/// The fields of a composite type as `<name> <type>`, separated by `", "`.
pub open spec fn composite_fields_sql(fields: Seq<(Ident, DataType)>) -> Seq<char> {
    text::join(
        fields.map_values(|x: (Ident, DataType)| ident_sql(x.0) + " "@ + data_type_sql(x.1)),
        ", "@,
    )
}

fn write_enum_labels(out: &mut Vec<char>, items: &Vec<String>)
    ensures
        final(out)@ == old(out)@ + text::join(items@.map_values(|x: String| string_sql(x@)), ", "@),
{
    let ghost all = items@.map_values(|x: String| string_sql(x@));
    let mut i: usize = 0;
    assert(all.take(0) =~= Seq::<Seq<char>>::empty());
    while i < items.len()
        invariant
            i <= items@.len(),
            all == items@.map_values(|x: String| string_sql(x@)),
            out@ == old(out)@ + text::join(all.take(i as int), ", "@),
        decreases items.len() - i,
    {
        if i > 0 {
            text::append_str(out, ", ");
        }
        let ghost before = out@;
        render::write_string_constant(out, items[i].as_str());
        proof {
            assert(out@ =~= before + all[i as int]);
            text::lemma_join_push(all.take(i as int), ", "@, all[i as int]);
            assert(all.take(i + 1) =~= all.take(i as int).push(all[i as int]));
        }
        i += 1;
    }
    assert(all.take(all.len() as int) =~= all);
}

fn write_composite_fields(out: &mut Vec<char>, items: &Vec<(Ident, DataType)>)
    ensures
        final(out)@ == old(out)@ + text::join(items@.map_values(|x: (Ident, DataType)| ident_sql(x.0) + " "@ + data_type_sql(x.1)), ", "@),
{
    let ghost all = items@.map_values(|x: (Ident, DataType)| ident_sql(x.0) + " "@ + data_type_sql(x.1));
    let mut i: usize = 0;
    assert(all.take(0) =~= Seq::<Seq<char>>::empty());
    while i < items.len()
        invariant
            i <= items@.len(),
            all == items@.map_values(|x: (Ident, DataType)| ident_sql(x.0) + " "@ + data_type_sql(x.1)),
            out@ == old(out)@ + text::join(all.take(i as int), ", "@),
        decreases items.len() - i,
    {
        if i > 0 {
            text::append_str(out, ", ");
        }
        let ghost before = out@;
        render::write_ident(out, &items[i].0);
        text::append_str(out, " ");
        render::write_data_type(out, &items[i].1);
        proof {
            assert(out@ =~= before + all[i as int]);
            text::lemma_join_push(all.take(i as int), ", "@, all[i as int]);
            assert(all.take(i + 1) =~= all.take(i as int).push(all[i as int]));
        }
        i += 1;
    }
    assert(all.take(all.len() as int) =~= all);
}

pub open spec fn create_type_sql(t: TypeDef) -> Seq<char> {
    "CREATE TYPE "@ + qualified_name_sql(t.name) + match t.kind {
        TypeKind::Enum { labels } => " AS ENUM ("@ + enum_labels_sql(labels@) + ")"@,
        TypeKind::Composite { fields } => " AS ("@ + composite_fields_sql(fields@) + ")"@,
        TypeKind::Range { subtype } => " AS RANGE (SUBTYPE = "@ + data_type_sql(subtype) + ")"@,
    }
}

pub fn render_create_type(t: &TypeDef) -> (r: String)
    ensures
        r@ == create_type_sql(*t),
{
    let mut out: Vec<char> = Vec::new();
    text::append_str(&mut out, "CREATE TYPE ");
    render::write_qualified_name(&mut out, &t.name);
    match &t.kind {
        TypeKind::Enum { labels } => {
            text::append_str(&mut out, " AS ENUM (");
            write_enum_labels(&mut out, labels);
            text::append_str(&mut out, ")");
        },
        TypeKind::Composite { fields } => {
            text::append_str(&mut out, " AS (");
            write_composite_fields(&mut out, fields);
            text::append_str(&mut out, ")");
        },
        TypeKind::Range { subtype } => {
            text::append_str(&mut out, " AS RANGE (SUBTYPE = ");
            render::write_data_type(&mut out, subtype);
            text::append_str(&mut out, ")");
        },
    }
    assert(out@ =~= create_type_sql(*t));
    text::string_of(out.as_slice())
}

pub open spec fn alter_type_sql(name: QualifiedName, change: TypeChange) -> Seq<char> {
    "ALTER TYPE "@ + qualified_name_sql(name) + match change {
        TypeChange::AddValue { value, position } => " ADD VALUE "@ + string_sql(value@)
            + match position {
            Some(EnumValuePosition::Before(e)) => " BEFORE "@ + string_sql(e@),
            Some(EnumValuePosition::After(e)) => " AFTER "@ + string_sql(e@),
            None => Seq::empty(),
        },
        TypeChange::RenameValue { from, to } => " RENAME VALUE "@ + string_sql(from@) + " TO "@
            + string_sql(to@),
    }
}

pub fn render_alter_type(name: &QualifiedName, change: &TypeChange) -> (r: String)
    ensures
        r@ == alter_type_sql(*name, *change),
{
    let mut out: Vec<char> = Vec::new();
    text::append_str(&mut out, "ALTER TYPE ");
    render::write_qualified_name(&mut out, name);
    match change {
        TypeChange::AddValue { value, position } => {
            text::append_str(&mut out, " ADD VALUE ");
            render::write_string_constant(&mut out, value.as_str());
            match position {
                Some(EnumValuePosition::Before(e)) => {
                    text::append_str(&mut out, " BEFORE ");
                    render::write_string_constant(&mut out, e.as_str());
                },
                Some(EnumValuePosition::After(e)) => {
                    text::append_str(&mut out, " AFTER ");
                    render::write_string_constant(&mut out, e.as_str());
                },
                None => {},
            }
        },
        TypeChange::RenameValue { from, to } => {
            text::append_str(&mut out, " RENAME VALUE ");
            render::write_string_constant(&mut out, from.as_str());
            text::append_str(&mut out, " TO ");
            render::write_string_constant(&mut out, to.as_str());
        },
    }
    assert(out@ =~= alter_type_sql(*name, *change));
    text::string_of(out.as_slice())
}

/// Each check constraint preceded by a space.
pub open spec fn domain_checks_sql(checks: Seq<CheckConstraint>) -> Seq<char>
    decreases checks.len(),
{
    if checks.len() == 0 {
        Seq::empty()
    } else {
        domain_checks_sql(checks.drop_last()) + " "@ + check_clause_sql(checks.last())
    }
}

fn write_domain_checks(out: &mut Vec<char>, checks: &Vec<CheckConstraint>)
    ensures
        final(out)@ == old(out)@ + domain_checks_sql(checks@),
{
    let mut i: usize = 0;
    assert(domain_checks_sql(checks@.take(0)) =~= Seq::<char>::empty());
    while i < checks.len()
        invariant
            i <= checks@.len(),
            out@ == old(out)@ + domain_checks_sql(checks@.take(i as int)),
        decreases checks.len() - i,
    {
        text::append_str(out, " ");
        definitions::write_check_clause(out, &checks[i]);
        i += 1;
        proof {
            let cur = checks@.take(i as int);
            assert(cur.drop_last() =~= checks@.take(i - 1));
            assert(cur.last() == checks@[i - 1]);
            assert(out@ =~= old(out)@ + domain_checks_sql(cur));
        }
    }
    assert(checks@.take(checks@.len() as int) =~= checks@);
}

pub open spec fn create_domain_sql(d: Domain) -> Seq<char> {
    "CREATE DOMAIN "@ + qualified_name_sql(d.name) + " AS "@ + data_type_sql(d.data_type)
        + definitions::default_suffix_sql(d.default) + definitions::not_null_suffix_sql(d.not_null)
        + domain_checks_sql(d.checks@)
}

pub fn render_create_domain(d: &Domain) -> (r: String)
    ensures
        r@ == create_domain_sql(*d),
{
    let mut out: Vec<char> = Vec::new();
    text::append_str(&mut out, "CREATE DOMAIN ");
    render::write_qualified_name(&mut out, &d.name);
    text::append_str(&mut out, " AS ");
    render::write_data_type(&mut out, &d.data_type);
    definitions::write_default_suffix(&mut out, &d.default);
    definitions::write_not_null_suffix(&mut out, d.not_null);
    write_domain_checks(&mut out, &d.checks);
    assert(out@ =~= create_domain_sql(*d));
    text::string_of(out.as_slice())
}

pub open spec fn alter_domain_sql(name: QualifiedName, change: DomainChange) -> Seq<char> {
    "ALTER DOMAIN "@ + qualified_name_sql(name) + match change {
        DomainChange::SetDefault(d) => match d {
            Some(e) => " SET DEFAULT "@ + expr_sql(e),
            None => " DROP DEFAULT"@,
        },
        DomainChange::SetNotNull(b) => if b {
            " SET NOT NULL"@
        } else {
            " DROP NOT NULL"@
        },
        DomainChange::AddConstraint { name: constraint, check } => " ADD"@ + match constraint {
            Some(n) => " CONSTRAINT "@ + ident_sql(n),
            None => Seq::empty(),
        } + " CHECK ("@ + expr_sql(check) + ")"@,
        DomainChange::DropConstraint(n) => " DROP CONSTRAINT "@ + ident_sql(n),
    }
}

pub fn render_alter_domain(name: &QualifiedName, change: &DomainChange) -> (r: String)
    ensures
        r@ == alter_domain_sql(*name, *change),
{
    let mut out: Vec<char> = Vec::new();
    text::append_str(&mut out, "ALTER DOMAIN ");
    render::write_qualified_name(&mut out, name);
    match change {
        DomainChange::SetDefault(d) => match d {
            Some(e) => {
                text::append_str(&mut out, " SET DEFAULT ");
                render::write_expr(&mut out, e);
            },
            None => text::append_str(&mut out, " DROP DEFAULT"),
        },
        DomainChange::SetNotNull(b) => if *b {
            text::append_str(&mut out, " SET NOT NULL");
        } else {
            text::append_str(&mut out, " DROP NOT NULL");
        },
        DomainChange::AddConstraint { name: constraint, check } => {
            text::append_str(&mut out, " ADD");
            match constraint {
                Some(n) => {
                    text::append_str(&mut out, " CONSTRAINT ");
                    render::write_ident(&mut out, n);
                },
                None => {},
            }
            text::append_str(&mut out, " CHECK (");
            render::write_expr(&mut out, check);
            text::append_str(&mut out, ")");
        },
        DomainChange::DropConstraint(n) => {
            text::append_str(&mut out, " DROP CONSTRAINT ");
            render::write_ident(&mut out, n);
        },
    }
    assert(out@ =~= alter_domain_sql(*name, *change));
    text::string_of(out.as_slice())
}

/// `CREATE EXTENSION`, with `WITH` and the schema and version clauses when there are any.
pub open spec fn create_extension_sql(e: Extension) -> Seq<char> {
    "CREATE EXTENSION "@ + ident_sql(e.name) + match (e.schema, e.version) {
        (Some(s), Some(v)) => " WITH SCHEMA "@ + ident_sql(s) + " VERSION "@ + string_sql(v@),
        (Some(s), None) => " WITH SCHEMA "@ + ident_sql(s),
        (None, Some(v)) => " WITH VERSION "@ + string_sql(v@),
        (None, None) => Seq::empty(),
    }
}

pub fn render_create_extension(e: &Extension) -> (r: String)
    ensures
        r@ == create_extension_sql(*e),
{
    let mut out: Vec<char> = Vec::new();
    text::append_str(&mut out, "CREATE EXTENSION ");
    render::write_ident(&mut out, &e.name);
    if e.schema.is_some() || e.version.is_some() {
        text::append_str(&mut out, " WITH");
    }
    match &e.schema {
        Some(s) => {
            text::append_str(&mut out, " SCHEMA ");
            render::write_ident(&mut out, s);
        },
        None => {},
    }
    match &e.version {
        Some(v) => {
            text::append_str(&mut out, " VERSION ");
            render::write_string_constant(&mut out, v.as_str());
        },
        None => {},
    }
    proof {
        reveal_strlit(" WITH SCHEMA ");
        reveal_strlit(" WITH VERSION ");
        reveal_strlit(" WITH");
        reveal_strlit(" SCHEMA ");
        reveal_strlit(" VERSION ");
    }
    assert(out@ =~= create_extension_sql(*e));
    text::string_of(out.as_slice())
}

pub open spec fn create_schema_sql(name: Ident) -> Seq<char> {
    "CREATE SCHEMA "@ + ident_sql(name)
}

pub fn render_create_schema(name: &Ident) -> (r: String)
    ensures
        r@ == create_schema_sql(*name),
{
    let mut out: Vec<char> = Vec::new();
    text::append_str(&mut out, "CREATE SCHEMA ");
    render::write_ident(&mut out, name);
    text::string_of(out.as_slice())
}

pub open spec fn comment_target_sql(t: CommentTarget) -> Seq<char> {
    match t {
        CommentTarget::Table(n) => "TABLE "@ + qualified_name_sql(n),
        CommentTarget::Column { table, column } => "COLUMN "@ + qualified_name_sql(table) + "."@
            + ident_sql(column),
        CommentTarget::Index(n) => "INDEX "@ + qualified_name_sql(n),
        CommentTarget::View(n) => "VIEW "@ + qualified_name_sql(n),
        CommentTarget::MaterializedView(n) => "MATERIALIZED VIEW "@ + qualified_name_sql(n),
        CommentTarget::Sequence(n) => "SEQUENCE "@ + qualified_name_sql(n),
        CommentTarget::Trigger(n) => "TRIGGER "@ + qualified_name_sql(n),
        CommentTarget::Function(n) => "FUNCTION "@ + qualified_name_sql(n),
        CommentTarget::Type(n) => "TYPE "@ + qualified_name_sql(n),
        CommentTarget::Domain(n) => "DOMAIN "@ + qualified_name_sql(n),
        CommentTarget::Extension(i) => "EXTENSION "@ + ident_sql(i),
        CommentTarget::Schema(i) => "SCHEMA "@ + ident_sql(i),
    }
}

fn write_kind_and_name(out: &mut Vec<char>, kind: &str, n: &QualifiedName)
    ensures
        final(out)@ == old(out)@ + kind@ + qualified_name_sql(*n),
{
    text::append_str(out, kind);
    render::write_qualified_name(out, n);
}

pub fn write_comment_target(out: &mut Vec<char>, t: &CommentTarget)
    ensures
        final(out)@ == old(out)@ + comment_target_sql(*t),
{
    let ghost start = out@;
    match t {
        CommentTarget::Table(n) => write_kind_and_name(out, "TABLE ", n),
        CommentTarget::Column { table, column } => {
            write_kind_and_name(out, "COLUMN ", table);
            text::append_str(out, ".");
            render::write_ident(out, column);
        },
        CommentTarget::Index(n) => write_kind_and_name(out, "INDEX ", n),
        CommentTarget::View(n) => write_kind_and_name(out, "VIEW ", n),
        CommentTarget::MaterializedView(n) => write_kind_and_name(out, "MATERIALIZED VIEW ", n),
        CommentTarget::Sequence(n) => write_kind_and_name(out, "SEQUENCE ", n),
        CommentTarget::Trigger(n) => write_kind_and_name(out, "TRIGGER ", n),
        CommentTarget::Function(n) => write_kind_and_name(out, "FUNCTION ", n),
        CommentTarget::Type(n) => write_kind_and_name(out, "TYPE ", n),
        CommentTarget::Domain(n) => write_kind_and_name(out, "DOMAIN ", n),
        CommentTarget::Extension(i) => {
            text::append_str(out, "EXTENSION ");
            render::write_ident(out, i);
        },
        CommentTarget::Schema(i) => {
            text::append_str(out, "SCHEMA ");
            render::write_ident(out, i);
        },
    }
    assert(out@ =~= start + comment_target_sql(*t));
}

/// `COMMENT ON <target> IS <text>`; a comment without text is written `NULL`.
pub open spec fn set_comment_sql(c: Comment) -> Seq<char> {
    "COMMENT ON "@ + comment_target_sql(c.target) + " IS "@ + match c.text {
        Some(t) => string_sql(t@),
        None => "NULL"@,
    }
}

pub fn render_set_comment(c: &Comment) -> (r: String)
    ensures
        r@ == set_comment_sql(*c),
{
    let mut out: Vec<char> = Vec::new();
    text::append_str(&mut out, "COMMENT ON ");
    write_comment_target(&mut out, &c.target);
    text::append_str(&mut out, " IS ");
    match &c.text {
        Some(t) => render::write_string_constant(&mut out, t.as_str()),
        None => text::append_str(&mut out, "NULL"),
    }
    assert(out@ =~= set_comment_sql(*c));
    text::string_of(out.as_slice())
}

pub open spec fn drop_comment_sql(t: CommentTarget) -> Seq<char> {
    "COMMENT ON "@ + comment_target_sql(t) + " IS NULL"@
}

pub fn render_drop_comment(t: &CommentTarget) -> (r: String)
    ensures
        r@ == drop_comment_sql(*t),
{
    let mut out: Vec<char> = Vec::new();
    text::append_str(&mut out, "COMMENT ON ");
    write_comment_target(&mut out, t);
    text::append_str(&mut out, " IS NULL");
    assert(out@ =~= drop_comment_sql(*t));
    text::string_of(out.as_slice())
}


pub open spec fn privilege_op_sql(op: PrivilegeOp) -> Seq<char> {
    match op {
        PrivilegeOp::Select => "SELECT"@,
        PrivilegeOp::Insert => "INSERT"@,
        PrivilegeOp::Update => "UPDATE"@,
        PrivilegeOp::Delete => "DELETE"@,
        PrivilegeOp::Truncate => "TRUNCATE"@,
        PrivilegeOp::References => "REFERENCES"@,
        PrivilegeOp::Trigger => "TRIGGER"@,
        PrivilegeOp::Usage => "USAGE"@,
        PrivilegeOp::Create => "CREATE"@,
        PrivilegeOp::Connect => "CONNECT"@,
        PrivilegeOp::Temporary => "TEMPORARY"@,
        PrivilegeOp::Execute => "EXECUTE"@,
        PrivilegeOp::All => "ALL"@,
    }
}

pub fn render_privilege_op(op: &PrivilegeOp) -> (r: &'static str)
    ensures
        r@ == privilege_op_sql(*op),
{
    match op {
        PrivilegeOp::Select => "SELECT",
        PrivilegeOp::Insert => "INSERT",
        PrivilegeOp::Update => "UPDATE",
        PrivilegeOp::Delete => "DELETE",
        PrivilegeOp::Truncate => "TRUNCATE",
        PrivilegeOp::References => "REFERENCES",
        PrivilegeOp::Trigger => "TRIGGER",
        PrivilegeOp::Usage => "USAGE",
        PrivilegeOp::Create => "CREATE",
        PrivilegeOp::Connect => "CONNECT",
        PrivilegeOp::Temporary => "TEMPORARY",
        PrivilegeOp::Execute => "EXECUTE",
        PrivilegeOp::All => "ALL",
    }
}

/// The privileges, separated by `", "`.
pub open spec fn privilege_ops_sql(ops: Seq<PrivilegeOp>) -> Seq<char> {
    text::join(ops.map_values(|x: PrivilegeOp| privilege_op_sql(x)), ", "@)
}

pub fn write_privilege_ops(out: &mut Vec<char>, items: &Vec<PrivilegeOp>)
    ensures
        final(out)@ == old(out)@ + privilege_ops_sql(items@),
{
    let ghost all = items@.map_values(|x: PrivilegeOp| privilege_op_sql(x));
    let mut i: usize = 0;
    assert(all.take(0) =~= Seq::<Seq<char>>::empty());
    while i < items.len()
        invariant
            i <= items@.len(),
            all == items@.map_values(|x: PrivilegeOp| privilege_op_sql(x)),
            out@ == old(out)@ + text::join(all.take(i as int), ", "@),
        decreases items.len() - i,
    {
        if i > 0 {
            text::append_str(out, ", ");
        }
        text::append_str(out, render_privilege_op(&items[i]));
        proof {
            text::lemma_join_push(all.take(i as int), ", "@, all[i as int]);
            assert(all.take(i + 1) =~= all.take(i as int).push(all[i as int]));
        }
        i += 1;
    }
    assert(all.take(all.len() as int) =~= all);
}

/// What a privilege is on; views and materialized views are written as tables.
pub open spec fn privilege_object_sql(o: PrivilegeObject) -> Seq<char> {
    match o {
        PrivilegeObject::Table(n) => "TABLE "@ + qualified_name_sql(n),
        PrivilegeObject::View(n) => "TABLE "@ + qualified_name_sql(n),
        PrivilegeObject::MaterializedView(n) => "TABLE "@ + qualified_name_sql(n),
        PrivilegeObject::Sequence(n) => "SEQUENCE "@ + qualified_name_sql(n),
        PrivilegeObject::Schema(i) => "SCHEMA "@ + ident_sql(i),
        PrivilegeObject::Database(i) => "DATABASE "@ + ident_sql(i),
        PrivilegeObject::Domain(n) => "DOMAIN "@ + qualified_name_sql(n),
        PrivilegeObject::Type(n) => "TYPE "@ + qualified_name_sql(n),
        PrivilegeObject::Function(n) => "FUNCTION "@ + qualified_name_sql(n),
    }
}

pub fn write_privilege_object(out: &mut Vec<char>, o: &PrivilegeObject)
    ensures
        final(out)@ == old(out)@ + privilege_object_sql(*o),
{
    let ghost start = out@;
    match o {
        PrivilegeObject::Table(n) => write_kind_and_name(out, "TABLE ", n),
        PrivilegeObject::View(n) => write_kind_and_name(out, "TABLE ", n),
        PrivilegeObject::MaterializedView(n) => write_kind_and_name(out, "TABLE ", n),
        PrivilegeObject::Sequence(n) => write_kind_and_name(out, "SEQUENCE ", n),
        PrivilegeObject::Schema(i) => {
            text::append_str(out, "SCHEMA ");
            render::write_ident(out, i);
        },
        PrivilegeObject::Database(i) => {
            text::append_str(out, "DATABASE ");
            render::write_ident(out, i);
        },
        PrivilegeObject::Domain(n) => write_kind_and_name(out, "DOMAIN ", n),
        PrivilegeObject::Type(n) => write_kind_and_name(out, "TYPE ", n),
        PrivilegeObject::Function(n) => write_kind_and_name(out, "FUNCTION ", n),
    }
    assert(out@ =~= start + privilege_object_sql(*o));
}

pub open spec fn grant_sql(p: Privilege) -> Seq<char> {
    "GRANT "@ + privilege_ops_sql(p.operations@) + " ON "@ + privilege_object_sql(p.on) + " TO "@
        + ident_sql(p.grantee) + if p.with_grant_option {
        " WITH GRANT OPTION"@
    } else {
        Seq::empty()
    }
}

pub open spec fn revoke_sql(p: Privilege) -> Seq<char> {
    "REVOKE "@ + privilege_ops_sql(p.operations@) + " ON "@ + privilege_object_sql(p.on)
        + " FROM "@ + ident_sql(p.grantee)
}

/// `GRANT` (or, with `revoke`, `REVOKE`) of a privilege; callers refuse an empty list of
/// privileges before.
pub fn render_privilege(p: &Privilege, revoke: bool) -> (r: String)
    ensures
        r@ == if revoke {
            revoke_sql(*p)
        } else {
            grant_sql(*p)
        },
{
    let mut out: Vec<char> = Vec::new();
    if revoke {
        text::append_str(&mut out, "REVOKE ");
    } else {
        text::append_str(&mut out, "GRANT ");
    }
    write_privilege_ops(&mut out, &p.operations);
    text::append_str(&mut out, " ON ");
    write_privilege_object(&mut out, &p.on);
    if revoke {
        text::append_str(&mut out, " FROM ");
    } else {
        text::append_str(&mut out, " TO ");
    }
    render::write_ident(&mut out, &p.grantee);
    if !revoke && p.with_grant_option {
        text::append_str(&mut out, " WITH GRANT OPTION");
    }
    if revoke {
        assert(out@ =~= revoke_sql(*p));
    } else {
        assert(out@ =~= grant_sql(*p));
    }
    text::string_of(out.as_slice())
}

pub open spec fn policy_command_sql(c: PolicyCommand) -> Seq<char> {
    match c {
        PolicyCommand::All => "ALL"@,
        PolicyCommand::Select => "SELECT"@,
        PolicyCommand::Insert => "INSERT"@,
        PolicyCommand::Update => "UPDATE"@,
        PolicyCommand::Delete => "DELETE"@,
    }
}

pub fn render_policy_command(c: &PolicyCommand) -> (r: &'static str)
    ensures
        r@ == policy_command_sql(*c),
{
    match c {
        PolicyCommand::All => "ALL",
        PolicyCommand::Select => "SELECT",
        PolicyCommand::Insert => "INSERT",
        PolicyCommand::Update => "UPDATE",
        PolicyCommand::Delete => "DELETE",
    }
}

/// The roles a policy applies to: `PUBLIC` when it names none.
pub open spec fn policy_roles_sql(roles: Seq<Ident>) -> Seq<char> {
    if roles.len() == 0 {
        " TO PUBLIC"@
    } else {
        " TO "@ + definitions::ident_list_sql(roles)
    }
}

/// The `USING` and `WITH CHECK` expressions of a policy.
pub open spec fn policy_exprs_sql(p: Policy) -> Seq<char> {
    let using = match p.using_expr {
        Some(e) => " USING ("@ + expr_sql(e) + ")"@,
        None => Seq::empty(),
    };
    let check = match p.check_expr {
        Some(e) => " WITH CHECK ("@ + expr_sql(e) + ")"@,
        None => Seq::empty(),
    };
    using + check
}

pub open spec fn create_policy_sql(p: Policy) -> Seq<char> {
    "CREATE POLICY "@ + ident_sql(p.name) + " ON "@ + qualified_name_sql(p.table) + " AS "@ + (
    if p.permissive {
        "PERMISSIVE"@
    } else {
        "RESTRICTIVE"@
    }) + match p.command {
        Some(c) => " FOR "@ + policy_command_sql(c),
        None => Seq::empty(),
    } + policy_roles_sql(p.roles@) + policy_exprs_sql(p)
}

fn write_policy_exprs(out: &mut Vec<char>, p: &Policy)
    ensures
        final(out)@ == old(out)@ + policy_exprs_sql(*p),
{
    let ghost start = out@;
    match &p.using_expr {
        Some(e) => {
            text::append_str(out, " USING (");
            render::write_expr(out, e);
            text::append_str(out, ")");
        },
        None => {},
    }
    match &p.check_expr {
        Some(e) => {
            text::append_str(out, " WITH CHECK (");
            render::write_expr(out, e);
            text::append_str(out, ")");
        },
        None => {},
    }
    assert(out@ =~= start + policy_exprs_sql(*p));
}

pub fn render_create_policy(p: &Policy) -> (r: String)
    ensures
        r@ == create_policy_sql(*p),
{
    let mut out: Vec<char> = Vec::new();
    text::append_str(&mut out, "CREATE POLICY ");
    render::write_ident(&mut out, &p.name);
    text::append_str(&mut out, " ON ");
    render::write_qualified_name(&mut out, &p.table);
    text::append_str(&mut out, " AS ");
    if p.permissive {
        text::append_str(&mut out, "PERMISSIVE");
    } else {
        text::append_str(&mut out, "RESTRICTIVE");
    }
    match &p.command {
        Some(c) => {
            text::append_str(&mut out, " FOR ");
            text::append_str(&mut out, render_policy_command(c));
        },
        None => {},
    }
    if p.roles.len() == 0 {
        text::append_str(&mut out, " TO PUBLIC");
    } else {
        text::append_str(&mut out, " TO ");
        definitions::write_ident_list(&mut out, &p.roles);
    }
    write_policy_exprs(&mut out, p);
    assert(out@ =~= create_policy_sql(*p));
    text::string_of(out.as_slice())
}

} // verus!
