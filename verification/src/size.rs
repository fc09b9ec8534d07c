//! A size of syntax trees that shrinks from a node to its parts.

use crate::ast::{Arg, CatchClause, ClosureBody, Expr, LValue, MatchArm, Stmt, StmtKind, SwitchCase};
use vstd::prelude::*;

verus! {

pub open spec fn expr_size(e: Expr) -> nat
    decreases e, 1int,
{
    1 + expr_inner(e)
}

pub open spec fn expr_inner(e: Expr) -> nat
    decreases e, 0int,
{
    match e {
        Expr::Assign(target, value) => lvalue_size(target) + expr_size(*value),
        Expr::Call(_, args) => args_size(args@),
        Expr::New(_, _, args) => args_size(args@),
        Expr::NewArray(_, dims) => dims_size(dims@),
        Expr::NewArrayInit(_, elements) => exprs_size(elements@),
        Expr::FieldAccess(target, _) => expr_size(*target),
        Expr::InstanceOf(target, _) => expr_size(*target),
        Expr::Cast(_, inner) => expr_size(*inner),
        Expr::MethodCall(target, _, args) => expr_size(*target) + args_size(args@),
        Expr::Index(target, index) => expr_size(*target) + expr_size(*index),
        Expr::Unary(_, inner) => expr_size(*inner),
        Expr::Binary(_, lhs, rhs) => expr_size(*lhs) + expr_size(*rhs),
        Expr::Match(subject, arms) => expr_size(*subject) + arms_size(arms@),
        Expr::Ternary(cond, then_e, else_e) => expr_size(*cond) + expr_size(*then_e) + expr_size(
            *else_e,
        ),
        Expr::Coalesce(lhs, rhs) => expr_size(*lhs) + expr_size(*rhs),
        Expr::Elvis(lhs, rhs) => expr_size(*lhs) + expr_size(*rhs),
        Expr::Closure { body, .. } => body_size(body),
        _ => 0,
    }
}

pub open spec fn lvalue_size(l: LValue) -> nat
    decreases l, 1int,
{
    match l {
        LValue::Local(_) => 0,
        LValue::Field(target, _) => expr_size(*target),
        LValue::Index(target, index) => expr_size(*target) + expr_size(*index),
    }
}

pub open spec fn body_size(b: ClosureBody) -> nat
    decreases b, 1int,
{
    match b {
        ClosureBody::Block(block) => 1 + block_size(block@),
        ClosureBody::Expr(e) => 1 + expr_size(*e),
    }
}

pub open spec fn opt_size(e: Option<Expr>) -> nat
    decreases e, 1int,
{
    match e {
        Some(e) => expr_size(e),
        None => 0,
    }
}

pub open spec fn args_size(s: Seq<Arg>) -> nat
    decreases s, 1int,
{
    if s.len() == 0 {
        0
    } else {
        args_size(s.drop_last()) + 1 + expr_size(s.last().value)
    }
}

pub open spec fn exprs_size(s: Seq<Expr>) -> nat
    decreases s, 1int,
{
    if s.len() == 0 {
        0
    } else {
        exprs_size(s.drop_last()) + 1 + expr_size(s.last())
    }
}

pub open spec fn dims_size(s: Seq<Option<Expr>>) -> nat
    decreases s, 1int,
{
    if s.len() == 0 {
        0
    } else {
        dims_size(s.drop_last()) + 1 + opt_size(s.last())
    }
}

pub open spec fn arms_size(s: Seq<MatchArm>) -> nat
    decreases s, 1int,
{
    if s.len() == 0 {
        0
    } else {
        arms_size(s.drop_last()) + 1 + opt_size(s.last().pattern) + expr_size(s.last().value)
    }
}

pub open spec fn block_size(s: Seq<Stmt>) -> nat
    decreases s, 1int,
{
    if s.len() == 0 {
        0
    } else {
        block_size(s.drop_last()) + stmt_size(s.last())
    }
}

pub open spec fn opt_block_size(b: Option<Vec<Stmt>>) -> nat
    decreases b, 1int,
{
    match b {
        Some(b) => 1 + block_size(b@),
        None => 0,
    }
}

pub open spec fn catches_size(s: Seq<CatchClause>) -> nat
    decreases s, 1int,
{
    if s.len() == 0 {
        0
    } else {
        catches_size(s.drop_last()) + 1 + block_size(s.last().body@)
    }
}

pub open spec fn cases_size(s: Seq<SwitchCase>) -> nat
    decreases s, 1int,
{
    if s.len() == 0 {
        0
    } else {
        cases_size(s.drop_last()) + 1 + opt_size(s.last().value) + block_size(s.last().body@)
    }
}

pub open spec fn stmt_size(s: Stmt) -> nat
    decreases s, 1int,
{
    1 + kind_size(s.kind)
}

pub open spec fn kind_size(k: StmtKind) -> nat
    decreases k, 0int,
{
    match k {
        StmtKind::Return(e) => opt_size(e),
        StmtKind::Throw(e) => expr_size(e),
        StmtKind::Expr(e) => expr_size(e),
        StmtKind::VarDecl { init, .. } => opt_size(init),
        StmtKind::If { cond, then_branch, else_branch } => expr_size(cond) + block_size(
            then_branch@,
        ) + opt_block_size(else_branch),
        StmtKind::While { cond, body } => expr_size(cond) + block_size(body@),
        StmtKind::ForEach { iterable, body, .. } => expr_size(iterable) + block_size(body@),
        StmtKind::For { init, cond, step, body } => block_size(init@) + opt_size(cond) + exprs_size(
            step@,
        ) + block_size(body@),
        StmtKind::Break => 0,
        StmtKind::Continue => 0,
        StmtKind::Block(b) => block_size(b@),
        StmtKind::ThisCall(args) => args_size(args@),
        StmtKind::SuperCall(args) => args_size(args@),
        StmtKind::Try { body, catches, finally } => block_size(body@) + catches_size(catches@)
            + opt_block_size(finally),
        StmtKind::Switch { subject, cases } => expr_size(subject) + cases_size(cases@),
    }
}

/// The size of a stack of blocks.
pub open spec fn fin_size(fin: Seq<Seq<Stmt>>) -> nat
    decreases fin.len(),
{
    if fin.len() == 0 {
        0
    } else {
        fin_size(fin.drop_last()) + 1 + block_size(fin.last())
    }
}

pub proof fn arg_smaller(s: Seq<Arg>, i: int)
    requires
        0 <= i < s.len(),
    ensures
        expr_size(s[i].value) < args_size(s),
    decreases s.len(),
{
    if i < s.len() - 1 {
        arg_smaller(s.drop_last(), i);
    }
}

pub proof fn item_smaller(s: Seq<Expr>, i: int)
    requires
        0 <= i < s.len(),
    ensures
        expr_size(s[i]) < exprs_size(s),
    decreases s.len(),
{
    if i < s.len() - 1 {
        item_smaller(s.drop_last(), i);
    }
}

pub proof fn dim_smaller(s: Seq<Option<Expr>>, i: int)
    requires
        0 <= i < s.len(),
    ensures
        opt_size(s[i]) < dims_size(s),
    decreases s.len(),
{
    if i < s.len() - 1 {
        dim_smaller(s.drop_last(), i);
    }
}

pub proof fn arm_smaller(s: Seq<MatchArm>, i: int)
    requires
        0 <= i < s.len(),
    ensures
        opt_size(s[i].pattern) < arms_size(s),
        expr_size(s[i].value) < arms_size(s),
    decreases s.len(),
{
    if i < s.len() - 1 {
        arm_smaller(s.drop_last(), i);
    }
}

pub proof fn stmt_no_larger(s: Seq<Stmt>, i: int)
    requires
        0 <= i < s.len(),
    ensures
        stmt_size(s[i]) <= block_size(s),
    decreases s.len(),
{
    if i < s.len() - 1 {
        stmt_no_larger(s.drop_last(), i);
    }
}

pub proof fn catch_smaller(s: Seq<CatchClause>, i: int)
    requires
        0 <= i < s.len(),
    ensures
        block_size(s[i].body@) < catches_size(s),
    decreases s.len(),
{
    if i < s.len() - 1 {
        catch_smaller(s.drop_last(), i);
    }
}

pub proof fn case_smaller(s: Seq<SwitchCase>, i: int)
    requires
        0 <= i < s.len(),
    ensures
        opt_size(s[i].value) < cases_size(s),
        block_size(s[i].body@) < cases_size(s),
    decreases s.len(),
{
    if i < s.len() - 1 {
        case_smaller(s.drop_last(), i);
    }
}

/// An expression is larger than its parts.
pub proof fn expr_parts(e: Expr)
    ensures
        expr_size(e) == 1 + expr_inner(e),
{
}

pub proof fn fin_push(fin: Seq<Seq<Stmt>>, block: Seq<Stmt>)
    ensures
        fin_size(fin.push(block)) == fin_size(fin) + 1 + block_size(block),
{
    assert(fin.push(block).drop_last() =~= fin);
}

/// Below its `k`-th block a stack is smaller by that block.
pub proof fn frame_smaller(fin: Seq<Seq<Stmt>>, k: int)
    requires
        0 <= k < fin.len(),
    ensures
        fin_size(fin.take(k)) + block_size(fin[k]) < fin_size(fin.take(k + 1)),
{
    assert(fin.take(k + 1).drop_last() =~= fin.take(k));
}

pub proof fn stack_prefix(fin: Seq<Seq<Stmt>>, k: int)
    requires
        0 <= k <= fin.len(),
    ensures
        fin_size(fin.take(k)) <= fin_size(fin),
    decreases fin.len() - k,
{
    if k < fin.len() {
        frame_smaller(fin, k);
        stack_prefix(fin, k + 1);
    } else {
        assert(fin.take(k) =~= fin);
    }
}

} // verus!
