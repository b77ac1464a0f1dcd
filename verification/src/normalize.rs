use vstd::prelude::*;

use crate::ir::Expr;
use crate::ir::WindowSpec;
use crate::text;

verus! {

/// `r` is `e` normalized item by item.
pub open spec fn normalized_list(r: Seq<Expr>, e: Seq<Expr>) -> bool
    decreases e, 1int,
{
    r.len() == e.len() && forall|i: int| 0 <= i < e.len() ==> normalized_from(#[trigger] r[i], e[i])
}

/// `r` is the `WHEN`/`THEN` pairs of `e`, each side normalized.
pub open spec fn normalized_pairs(r: Seq<(Expr, Expr)>, e: Seq<(Expr, Expr)>) -> bool
    decreases e, 1int,
{
    r.len() == e.len() && forall|i: int|
        0 <= i < e.len() ==> normalized_from(#[trigger] r[i].0, e[i].0) && normalized_from(
            r[i].1,
            e[i].1,
        )
}

pub open spec fn normalized_window(r: Option<WindowSpec>, e: Option<WindowSpec>) -> bool
    decreases e, 1int,
{
    match e {
        None => r is None,
        Some(w) => r matches Some(w2) && normalized_list(w2.partition_by@, w.partition_by@)
            && normalized_list(w2.order_by@, w.order_by@),
    }
}

pub open spec fn normalized_boxed(r: Option<Box<Expr>>, e: Option<Box<Expr>>) -> bool
    decreases e, 1int,
{
    match e {
        None => r is None,
        Some(o) => r matches Some(x) && normalized_from(*x, *o),
    }
}

/// `r` is `e` with the text of every raw expression and subquery trimmed, and nothing
/// else changed.
pub open spec fn normalized_from(r: Expr, e: Expr) -> bool
    decreases e, 0int,
{
    match e {
        Expr::Raw(a) => r matches Expr::Raw(b) && b@ == text::trim(a@),
        Expr::Exists(q) => r matches Expr::Exists(q2) && q2.sql@ == text::trim(q.sql@),
        Expr::BinaryOp { left, op, right } => r matches Expr::BinaryOp {
            left: l2,
            op: o2,
            right: r2,
        } && o2 == op && normalized_from(*l2, *left) && normalized_from(*r2, *right),
        Expr::UnaryOp { op, expr } => r matches Expr::UnaryOp { op: o2, expr: x2 } && o2 == op
            && normalized_from(*x2, *expr),
        Expr::Comparison { left, op, right, quantifier } => r matches Expr::Comparison {
            left: l2,
            op: o2,
            right: r2,
            quantifier: q2,
        } && o2 == op && q2 == quantifier && normalized_from(*l2, *left) && normalized_from(
            *r2,
            *right,
        ),
        Expr::And(l, rr) => r matches Expr::And(l2, r2) && normalized_from(*l2, *l)
            && normalized_from(*r2, *rr),
        Expr::Or(l, rr) => r matches Expr::Or(l2, r2) && normalized_from(*l2, *l)
            && normalized_from(*r2, *rr),
        Expr::Not(inner) => r matches Expr::Not(i2) && normalized_from(*i2, *inner),
        Expr::Paren(inner) => r matches Expr::Paren(i2) && normalized_from(*i2, *inner),
        Expr::Is { expr, test } => r matches Expr::Is { expr: x2, test: t2 } && t2 == test
            && normalized_from(*x2, *expr),
        Expr::Between { expr, low, high, negated } => r matches Expr::Between {
            expr: x2,
            low: lo2,
            high: hi2,
            negated: n2,
        } && n2 == negated && normalized_from(*x2, *expr) && normalized_from(*lo2, *low)
            && normalized_from(*hi2, *high),
        Expr::In { expr, list, negated } => r matches Expr::In { expr: x2, list: l2, negated: n2 }
            && n2 == negated && normalized_from(*x2, *expr) && normalized_list(l2@, list@),
        Expr::Tuple(items) => r matches Expr::Tuple(i2) && normalized_list(i2@, items@),
        Expr::ArrayConstructor(items) => r matches Expr::ArrayConstructor(i2) && normalized_list(
            i2@,
            items@,
        ),
        Expr::Function { name, args, distinct, over } => r matches Expr::Function {
            name: n2,
            args: a2,
            distinct: d2,
            over: o2,
        } && n2 == name && d2 == distinct && normalized_list(a2@, args@) && normalized_window(
            o2,
            over,
        ),
        Expr::Cast { expr, data_type } => r matches Expr::Cast { expr: x2, data_type: t2 } && t2
            == data_type && normalized_from(*x2, *expr),
        Expr::Collate { expr, collation } => r matches Expr::Collate {
            expr: x2,
            collation: c2,
        } && c2 == collation && normalized_from(*x2, *expr),
        Expr::Case { operand, when_clauses, else_clause } => r matches Expr::Case {
            operand: o2,
            when_clauses: w2,
            else_clause: e2,
        } && normalized_boxed(o2, operand) && normalized_pairs(w2@, when_clauses@)
            && normalized_boxed(e2, else_clause),
        _ => r == e,
    }
}

pub fn normalize_list(items: &mut Vec<Expr>)
    ensures
        normalized_list(final(items)@, old(items)@),
    decreases old(items)@, 2int,
{
    let mut i: usize = 0;
    while i < items.len()
        invariant
            i <= items@.len(),
            items@.len() == old(items)@.len(),
            forall|j: int| 0 <= j < i ==> normalized_from(#[trigger] items@[j], old(items)@[j]),
            forall|j: int| i <= j < items@.len() ==> #[trigger] items@[j] == old(items)@[j],
        decreases items.len() - i,
    {
        normalize_expr(&mut items[i]);
        i += 1;
    }
}

fn normalize_pairs(pairs: &mut Vec<(Expr, Expr)>)
    ensures
        normalized_pairs(final(pairs)@, old(pairs)@),
    decreases old(pairs)@, 2int,
{
    let mut i: usize = 0;
    while i < pairs.len()
        invariant
            i <= pairs@.len(),
            pairs@.len() == old(pairs)@.len(),
            forall|j: int|
                0 <= j < i ==> normalized_from(#[trigger] pairs@[j].0, old(pairs)@[j].0)
                    && normalized_from(pairs@[j].1, old(pairs)@[j].1),
            forall|j: int| i <= j < pairs@.len() ==> #[trigger] pairs@[j] == old(pairs)@[j],
        decreases pairs.len() - i,
    {
        let mut pair = pairs.remove(i);
        normalize_expr(&mut pair.0);
        normalize_expr(&mut pair.1);
        pairs.insert(i, pair);
        i += 1;
    }
}

fn normalize_window(over: &mut Option<WindowSpec>)
    ensures
        normalized_window(*final(over), *old(over)),
    decreases *old(over), 2int,
{
    match over {
        Some(w) => {
            normalize_list(&mut w.partition_by);
            normalize_list(&mut w.order_by);
        },
        None => {},
    }
}

fn normalize_boxed_option(e: &mut Option<Box<Expr>>)
    ensures
        normalized_boxed(*final(e), *old(e)),
    decreases *old(e), 2int,
{
    match e {
        Some(x) => normalize_expr(x),
        None => {},
    }
}

/// Trims the text of every raw expression and subquery in `expr`, at any depth.
pub fn normalize_expr(expr: &mut Expr)
    ensures
        normalized_from(*final(expr), *old(expr)),
    decreases *old(expr), 1int,
{
    match expr {
        Expr::Raw(raw) => {
            let t = text::trim_str(raw.as_str());
            *raw = text::string_of(t.as_slice());
        },
        Expr::Exists(q) => {
            let t = text::trim_str(q.sql.as_str());
            q.sql = text::string_of(t.as_slice());
        },
        Expr::BinaryOp { left, right, .. } => {
            normalize_expr(left);
            normalize_expr(right);
        },
        Expr::UnaryOp { expr, .. } => normalize_expr(expr),
        Expr::Comparison { left, right, .. } => {
            normalize_expr(left);
            normalize_expr(right);
        },
        Expr::And(left, right) => {
            normalize_expr(left);
            normalize_expr(right);
        },
        Expr::Or(left, right) => {
            normalize_expr(left);
            normalize_expr(right);
        },
        Expr::Not(inner) => normalize_expr(inner),
        Expr::Paren(inner) => normalize_expr(inner),
        Expr::Is { expr, .. } => normalize_expr(expr),
        Expr::Between { expr, low, high, .. } => {
            normalize_expr(expr);
            normalize_expr(low);
            normalize_expr(high);
        },
        Expr::In { expr, list, .. } => {
            normalize_expr(expr);
            normalize_list(list);
        },
        Expr::Tuple(items) => normalize_list(items),
        Expr::ArrayConstructor(items) => normalize_list(items),
        Expr::Function { args, over, .. } => {
            normalize_list(args);
            normalize_window(over);
        },
        Expr::Cast { expr, .. } => normalize_expr(expr),
        Expr::Collate { expr, .. } => normalize_expr(expr),
        Expr::Case { operand, when_clauses, else_clause } => {
            normalize_boxed_option(operand);
            normalize_pairs(when_clauses);
            normalize_boxed_option(else_clause);
        },
        _ => {},
    }
}

proof fn lemma_list_twice(e: Seq<Expr>, r1: Seq<Expr>, r2: Seq<Expr>)
    requires
        normalized_list(r1, e),
        normalized_list(r2, r1),
    ensures
        normalized_list(r2, e),
    decreases e, 1int,
{
    assert forall|i: int| 0 <= i < e.len() implies normalized_from(#[trigger] r2[i], e[i]) by {
        law_normalize_idempotent(e[i], r1[i], r2[i]);
    }
}

proof fn lemma_pairs_twice(e: Seq<(Expr, Expr)>, r1: Seq<(Expr, Expr)>, r2: Seq<(Expr, Expr)>)
    requires
        normalized_pairs(r1, e),
        normalized_pairs(r2, r1),
    ensures
        normalized_pairs(r2, e),
    decreases e, 1int,
{
    assert forall|i: int| 0 <= i < e.len() implies normalized_from(#[trigger] r2[i].0, e[i].0)
        && normalized_from(r2[i].1, e[i].1) by {
        law_normalize_idempotent(e[i].0, r1[i].0, r2[i].0);
        law_normalize_idempotent(e[i].1, r1[i].1, r2[i].1);
    }
}

proof fn lemma_window_twice(e: Option<WindowSpec>, r1: Option<WindowSpec>, r2: Option<WindowSpec>)
    requires
        normalized_window(r1, e),
        normalized_window(r2, r1),
    ensures
        normalized_window(r2, e),
    decreases e, 1int,
{
    match e {
        Some(w) => {
            let w1 = r1->Some_0;
            let w2 = r2->Some_0;
            lemma_list_twice(w.partition_by@, w1.partition_by@, w2.partition_by@);
            lemma_list_twice(w.order_by@, w1.order_by@, w2.order_by@);
        },
        None => {},
    }
}

proof fn lemma_boxed_twice(e: Option<Box<Expr>>, r1: Option<Box<Expr>>, r2: Option<Box<Expr>>)
    requires
        normalized_boxed(r1, e),
        normalized_boxed(r2, r1),
    ensures
        normalized_boxed(r2, e),
    decreases e, 1int,
{
    match e {
        Some(o) => law_normalize_idempotent(*o, *r1->Some_0, *r2->Some_0),
        None => {},
    }
}

/// Normalizing is idempotent: normalizing an expression a second time normalizes the
/// expression it started from.
pub proof fn law_normalize_idempotent(e: Expr, r1: Expr, r2: Expr)
    requires
        normalized_from(r1, e),
        normalized_from(r2, r1),
    ensures
        normalized_from(r2, e),
    decreases e, 0int,
{
    match e {
        Expr::Raw(a) => {
            text::lemma_trim_idempotent(a@);
        },
        Expr::Exists(q) => {
            text::lemma_trim_idempotent(q.sql@);
        },
        Expr::BinaryOp { left, right, .. } => {
            law_normalize_idempotent(*left, *r1->BinaryOp_left, *r2->BinaryOp_left);
            law_normalize_idempotent(*right, *r1->BinaryOp_right, *r2->BinaryOp_right);
        },
        Expr::UnaryOp { expr, .. } => {
            law_normalize_idempotent(*expr, *r1->UnaryOp_expr, *r2->UnaryOp_expr);
        },
        Expr::Comparison { left, right, .. } => {
            law_normalize_idempotent(*left, *r1->Comparison_left, *r2->Comparison_left);
            law_normalize_idempotent(*right, *r1->Comparison_right, *r2->Comparison_right);
        },
        Expr::And(l, r) => {
            law_normalize_idempotent(*l, *r1->And_0, *r2->And_0);
            law_normalize_idempotent(*r, *r1->And_1, *r2->And_1);
        },
        Expr::Or(l, r) => {
            law_normalize_idempotent(*l, *r1->Or_0, *r2->Or_0);
            law_normalize_idempotent(*r, *r1->Or_1, *r2->Or_1);
        },
        Expr::Not(inner) => {
            law_normalize_idempotent(*inner, *r1->Not_0, *r2->Not_0);
        },
        Expr::Paren(inner) => {
            law_normalize_idempotent(*inner, *r1->Paren_0, *r2->Paren_0);
        },
        Expr::Is { expr, .. } => {
            law_normalize_idempotent(*expr, *r1->Is_expr, *r2->Is_expr);
        },
        Expr::Between { expr, low, high, .. } => {
            law_normalize_idempotent(*expr, *r1->Between_expr, *r2->Between_expr);
            law_normalize_idempotent(*low, *r1->Between_low, *r2->Between_low);
            law_normalize_idempotent(*high, *r1->Between_high, *r2->Between_high);
        },
        Expr::In { expr, list, .. } => {
            law_normalize_idempotent(*expr, *r1->In_expr, *r2->In_expr);
            lemma_list_twice(list@, r1->In_list@, r2->In_list@);
        },
        Expr::Tuple(items) => {
            lemma_list_twice(items@, r1->Tuple_0@, r2->Tuple_0@);
        },
        Expr::ArrayConstructor(items) => {
            lemma_list_twice(items@, r1->ArrayConstructor_0@, r2->ArrayConstructor_0@);
        },
        Expr::Function { args, over, .. } => {
            lemma_list_twice(args@, r1->Function_args@, r2->Function_args@);
            lemma_window_twice(over, r1->Function_over, r2->Function_over);
        },
        Expr::Cast { expr, .. } => {
            law_normalize_idempotent(*expr, *r1->Cast_expr, *r2->Cast_expr);
        },
        Expr::Collate { expr, .. } => {
            law_normalize_idempotent(*expr, *r1->Collate_expr, *r2->Collate_expr);
        },
        Expr::Case { operand, when_clauses, else_clause } => {
            lemma_boxed_twice(operand, r1->Case_operand, r2->Case_operand);
            lemma_pairs_twice(when_clauses@, r1->Case_when_clauses@, r2->Case_when_clauses@);
            lemma_boxed_twice(else_clause, r1->Case_else_clause, r2->Case_else_clause);
        },
        _ => {},
    }
}


proof fn lemma_list_fixed(e: Seq<Expr>, r1: Seq<Expr>)
    requires
        normalized_list(r1, e),
    ensures
        normalized_list(r1, r1),
    decreases e, 1int,
{
    assert forall|i: int| 0 <= i < r1.len() implies normalized_from(#[trigger] r1[i], r1[i]) by {
        law_normalized_fixed(e[i], r1[i]);
    }
}

proof fn lemma_pairs_fixed(e: Seq<(Expr, Expr)>, r1: Seq<(Expr, Expr)>)
    requires
        normalized_pairs(r1, e),
    ensures
        normalized_pairs(r1, r1),
    decreases e, 1int,
{
    assert forall|i: int| 0 <= i < r1.len() implies normalized_from(#[trigger] r1[i].0, r1[i].0)
        && normalized_from(r1[i].1, r1[i].1) by {
        law_normalized_fixed(e[i].0, r1[i].0);
        law_normalized_fixed(e[i].1, r1[i].1);
    }
}

proof fn lemma_window_fixed(e: Option<WindowSpec>, r1: Option<WindowSpec>)
    requires
        normalized_window(r1, e),
    ensures
        normalized_window(r1, r1),
    decreases e, 1int,
{
    match e {
        Some(w) => {
            let w1 = r1->Some_0;
            lemma_list_fixed(w.partition_by@, w1.partition_by@);
            lemma_list_fixed(w.order_by@, w1.order_by@);
        },
        None => {},
    }
}

proof fn lemma_boxed_fixed(e: Option<Box<Expr>>, r1: Option<Box<Expr>>)
    requires
        normalized_boxed(r1, e),
    ensures
        normalized_boxed(r1, r1),
    decreases e, 1int,
{
    match e {
        Some(o) => law_normalized_fixed(*o, *r1->Some_0),
        None => {},
    }
}

/// A normalized expression is its own normalization: normalizing it again changes no
/// raw text or subquery and keeps every other part.
pub proof fn law_normalized_fixed(e: Expr, r1: Expr)
    requires
        normalized_from(r1, e),
    ensures
        normalized_from(r1, r1),
    decreases e, 0int,
{
    match e {
        Expr::Raw(a) => {
            text::lemma_trim_idempotent(a@);
        },
        Expr::Exists(q) => {
            text::lemma_trim_idempotent(q.sql@);
        },
        Expr::BinaryOp { left, right, .. } => {
            law_normalized_fixed(*left, *r1->BinaryOp_left);
            law_normalized_fixed(*right, *r1->BinaryOp_right);
        },
        Expr::UnaryOp { expr, .. } => {
            law_normalized_fixed(*expr, *r1->UnaryOp_expr);
        },
        Expr::Comparison { left, right, .. } => {
            law_normalized_fixed(*left, *r1->Comparison_left);
            law_normalized_fixed(*right, *r1->Comparison_right);
        },
        Expr::And(l, r) => {
            law_normalized_fixed(*l, *r1->And_0);
            law_normalized_fixed(*r, *r1->And_1);
        },
        Expr::Or(l, r) => {
            law_normalized_fixed(*l, *r1->Or_0);
            law_normalized_fixed(*r, *r1->Or_1);
        },
        Expr::Not(inner) => {
            law_normalized_fixed(*inner, *r1->Not_0);
        },
        Expr::Paren(inner) => {
            law_normalized_fixed(*inner, *r1->Paren_0);
        },
        Expr::Is { expr, .. } => {
            law_normalized_fixed(*expr, *r1->Is_expr);
        },
        Expr::Between { expr, low, high, .. } => {
            law_normalized_fixed(*expr, *r1->Between_expr);
            law_normalized_fixed(*low, *r1->Between_low);
            law_normalized_fixed(*high, *r1->Between_high);
        },
        Expr::In { expr, list, .. } => {
            law_normalized_fixed(*expr, *r1->In_expr);
            lemma_list_fixed(list@, r1->In_list@);
        },
        Expr::Tuple(items) => {
            lemma_list_fixed(items@, r1->Tuple_0@);
        },
        Expr::ArrayConstructor(items) => {
            lemma_list_fixed(items@, r1->ArrayConstructor_0@);
        },
        Expr::Function { args, over, .. } => {
            lemma_list_fixed(args@, r1->Function_args@);
            lemma_window_fixed(over, r1->Function_over);
        },
        Expr::Cast { expr, .. } => {
            law_normalized_fixed(*expr, *r1->Cast_expr);
        },
        Expr::Collate { expr, .. } => {
            law_normalized_fixed(*expr, *r1->Collate_expr);
        },
        Expr::Case { operand, when_clauses, else_clause } => {
            lemma_boxed_fixed(operand, r1->Case_operand);
            lemma_pairs_fixed(when_clauses@, r1->Case_when_clauses@);
            lemma_boxed_fixed(else_clause, r1->Case_else_clause);
        },
        _ => {},
    }
}


/// `r` is `e` normalized, when there is one.
pub open spec fn opt_expr_normalized(r: Option<Expr>, e: Option<Expr>) -> bool {
    match e {
        None => r is None,
        Some(x) => r matches Some(y) && normalized_from(y, x),
    }
}

/// Normalizes an optional expression.
pub fn normalize_opt_expr(e: &mut Option<Expr>)
    ensures
        opt_expr_normalized(*final(e), *old(e)),
{
    match e {
        Some(x) => normalize_expr(x),
        None => {},
    }
}

} // verus!
