//! What the check of a construct leaves in sight: an expression declares
//! nothing, and a statement what it declares itself.

use crate::ast::{
    Arg, BinOp, CatchClause, Expr, LValue, MatchArm, Stmt, StmtKind, SwitchCase,
    TypeView,
};
use crate::probe::{after, decl_type};
use crate::resolve::resolved_name;
use crate::sema::checked::{
    args_checked, arms_checked, array_init_checked, assign_checked, binary_checked, block_checked,
    call_checked, cases_checked, cast_block, cast_checked, catches_checked, closure_checked,
    delegation_checked, dims_checked, expr_checked, expr_stmt_checked, exprs_checked,
    fallback_checked, field_access_checked, if_checked, index_checked, instanceof_checked,
    match_checked, method_call_checked, narrowed_block, narrowed_expr,
    new_array_checked, new_checked, opt_checked, return_checked, stmt_checked, stmts_checked,
    ternary_checked,
    throw_checked, try_checked, unary_checked, var_declared, Fault, Passed,
};
use crate::sema::flow::{Flow, Narrowing};
use crate::sema::members::{catch_classes, stored};
use crate::sema::rules::{narrowings, EnvView};
use crate::size::{
    arg_smaller, args_size, arm_smaller, arms_size, dim_smaller, dims_size, expr_parts, expr_size,
    exprs_size, item_smaller, lvalue_size, opt_size,
};
use vstd::prelude::*;

verus! {

broadcast use crate::sema::flow::group_flow;

/// Whether the same variables are in sight after a construct as before it.
pub open spec fn kept<T>(s: Flow, r: Result<(T, Flow), Fault>) -> bool {
    r matches Ok((_, t)) ==> t.typings == s.typings
}

pub open spec fn passed_kept(s: Flow, r: Passed) -> bool {
    r matches Ok(t) ==> t.typings == s.typings
}

/// An expression brings no variable into sight.
pub proof fn expr_declares_nothing(c: EnvView, s: Flow, e: Expr)
    ensures
        kept(s, expr_checked(c, s, e)),
    decreases expr_size(e), 0nat, 0nat,
{
    expr_parts(e);
    match e {
        Expr::Assign(target, value) => {
            assign_declares_nothing(c, s, target, *value);
        },
        Expr::Call(name, args) => {
            args_declare_nothing(c, s, args@, Seq::empty(), 0);
            assert(kept(s, call_checked(c, s, name@, args@)));
        },
        Expr::New(class, _, args) => {
            args_declare_nothing(c, s, args@, Seq::empty(), 0);
            assert(kept(s, new_checked(c, s, class@, args@)));
        },
        Expr::NewArray(elem, dims) => {
            dims_declare_nothing(c, s, dims@, 0);
            assert(kept(s, new_array_checked(c, s, elem, dims@)));
        },
        Expr::NewArrayInit(elem, elements) => {
            exprs_declare_nothing(c, s, elements@, 0);
            assert(kept(s, array_init_checked(c, s, elem, elements@)));
        },
        Expr::FieldAccess(target, name) => {
            expr_declares_nothing(c, s, *target);
            assert(kept(s, field_access_checked(c, s, *target, name@)));
        },
        Expr::MethodCall(target, name, args) => {
            expr_declares_nothing(c, s, *target);
            if let Ok((_, s1)) = expr_checked(c, s, *target) {
                args_declare_nothing(c, s1, args@, Seq::empty(), 0);
            }
            assert(kept(s, method_call_checked(c, s, *target, name@, args@)));
        },
        Expr::Index(target, index) => {
            both_declare_nothing(c, s, *target, *index);
            assert(kept(s, index_checked(c, s, *target, *index)));
        },
        Expr::InstanceOf(target, _) => {
            expr_declares_nothing(c, s, *target);
            assert(kept(s, instanceof_checked(c, s, *target)));
        },
        Expr::Cast(ty, inner) => {
            expr_declares_nothing(c, s, *inner);
            assert(kept(s, cast_checked(c, s, ty, *inner)));
        },
        Expr::Unary(op, inner) => {
            expr_declares_nothing(c, s, *inner);
            assert(kept(s, unary_checked(c, s, op, *inner)));
        },
        Expr::Binary(op, lhs, rhs) => {
            binary_declares_nothing(c, s, op, *lhs, *rhs);
        },
        Expr::Match(subject, arms) => {
            expr_declares_nothing(c, s, *subject);
            if let Ok((_, s1)) = expr_checked(c, s, *subject) {
                arms_declare_nothing(c, s1, arms@, None, 0);
            }
            assert(kept(s, match_checked(c, s, *subject, arms@)));
        },
        Expr::Ternary(cond, then_e, else_e) => {
            expr_declares_nothing(c, s, *cond);
            if let Ok((_, s1)) = expr_checked(c, s, *cond) {
                let ns = narrowings(c, s1, *cond);
                branch_declares_nothing(c, s1, *then_e, ns.0);
                if let Ok((_, s2)) = narrowed_expr(c, s1, *then_e, ns.0) {
                    branch_declares_nothing(c, s2, *else_e, ns.1);
                }
            }
            assert(kept(s, ternary_checked(c, s, *cond, *then_e, *else_e)));
        },
        Expr::Coalesce(lhs, rhs) => {
            both_declare_nothing(c, s, *lhs, *rhs);
            assert(kept(s, fallback_checked(c, s, *lhs, *rhs)));
        },
        Expr::Elvis(lhs, rhs) => {
            both_declare_nothing(c, s, *lhs, *rhs);
            assert(kept(s, fallback_checked(c, s, *lhs, *rhs)));
        },
        Expr::Closure { params, return_type, body, .. } => {
            reveal(Flow::with_typings);
            reveal(Flow::with_assigned);
            assert(kept(s, closure_checked(c, s, params@, return_type, body)));
        },
        _ => {},
    }
}

proof fn both_declare_nothing(c: EnvView, s: Flow, a: Expr, b: Expr)
    ensures
        kept(s, expr_checked(c, s, a)),
        expr_checked(c, s, a) matches Ok((_, s1)) ==> kept(s, expr_checked(c, s1, b)),
    decreases expr_size(a) + expr_size(b), 1nat, 0nat,
{
    expr_parts(a);
    expr_parts(b);
    expr_declares_nothing(c, s, a);
    if let Ok((_, s1)) = expr_checked(c, s, a) {
        expr_declares_nothing(c, s1, b);
    }
}

proof fn branch_declares_nothing(c: EnvView, s: Flow, e: Expr, ns: Narrowing)
    ensures
        kept(s, narrowed_expr(c, s, e, ns)),
    decreases expr_size(e), 1nat, 0nat,
{
    expr_declares_nothing(c, s.narrow(ns), e);
    reveal(Flow::narrow);
    reveal(Flow::restore);
}

proof fn binary_declares_nothing(c: EnvView, s: Flow, op: BinOp, lhs: Expr, rhs: Expr)
    ensures
        kept(s, binary_checked(c, s, op, lhs, rhs)),
    decreases expr_size(lhs) + expr_size(rhs), 2nat, 0nat,
{
    expr_parts(lhs);
    both_declare_nothing(c, s, lhs, rhs);
    if let Ok((_, s1)) = expr_checked(c, s, lhs) {
        let ns = narrowings(c, s1, lhs);
        branch_declares_nothing(c, s1, rhs, ns.0);
        branch_declares_nothing(c, s1, rhs, ns.1);
    }
}

proof fn assign_declares_nothing(c: EnvView, s: Flow, target: LValue, value: Expr)
    ensures
        kept(s, assign_checked(c, s, target, value)),
    decreases lvalue_size(target) + expr_size(value), 1nat, 0nat,
{
    match target {
        LValue::Local(name) => {
            expr_declares_nothing(c, s, value);
            reveal(stored);
            reveal(Flow::assign);
            reveal(Flow::forget);
        },
        LValue::Field(object, _) => {
            expr_parts(*object);
            expr_parts(value);
            expr_declares_nothing(c, s, *object);
            if let Ok((_, s1)) = expr_checked(c, s, *object) {
                expr_declares_nothing(c, s1, value);
            }
        },
        LValue::Index(array, index) => {
            expr_parts(*array);
            expr_parts(*index);
            expr_parts(value);
            expr_declares_nothing(c, s, *array);
            if let Ok((_, s1)) = expr_checked(c, s, *array) {
                expr_declares_nothing(c, s1, *index);
                if let Ok((_, s2)) = expr_checked(c, s1, *index) {
                    expr_declares_nothing(c, s2, value);
                }
            }
        },
    }
}

proof fn args_declare_nothing(
    c: EnvView,
    s: Flow,
    args: Seq<Arg>,
    acc: Seq<TypeView>,
    i: int,
)
    ensures
        kept(s, args_checked(c, s, args, acc, i)),
    decreases args_size(args), 1nat, (args.len() - i) as nat,
{
    if 0 <= i < args.len() {
        arg_smaller(args, i);
        expr_declares_nothing(c, s, args[i].value);
        if let Ok((t, s1)) = expr_checked(c, s, args[i].value) {
            args_declare_nothing(c, s1, args, acc.push(t), i + 1);
        }
    }
}

proof fn exprs_declare_nothing(c: EnvView, s: Flow, es: Seq<Expr>, i: int)
    ensures
        passed_kept(s, exprs_checked(c, s, es, i)),
    decreases exprs_size(es), 1nat, (es.len() - i) as nat,
{
    if 0 <= i < es.len() {
        item_smaller(es, i);
        expr_declares_nothing(c, s, es[i]);
        if let Ok((_, s1)) = expr_checked(c, s, es[i]) {
            exprs_declare_nothing(c, s1, es, i + 1);
        }
    }
}

proof fn opt_declares_nothing(c: EnvView, s: Flow, e: Option<Expr>)
    ensures
        kept(s, opt_checked(c, s, e)),
    decreases opt_size(e), 1nat, 0nat,
{
    if let Some(e) = e {
        expr_declares_nothing(c, s, e);
    }
}

proof fn dims_declare_nothing(c: EnvView, s: Flow, dims: Seq<Option<Expr>>, i: int)
    ensures
        passed_kept(s, dims_checked(c, s, dims, i)),
    decreases dims_size(dims), 1nat, (dims.len() - i) as nat,
{
    if 0 <= i < dims.len() {
        dim_smaller(dims, i);
        opt_declares_nothing(c, s, dims[i]);
        if let Ok((_, s1)) = opt_checked(c, s, dims[i]) {
            dims_declare_nothing(c, s1, dims, i + 1);
        }
    }
}

proof fn arms_declare_nothing(
    c: EnvView,
    s: Flow,
    arms: Seq<MatchArm>,
    first: Option<TypeView>,
    i: int,
)
    ensures
        kept(s, arms_checked(c, s, arms, first, i)),
    decreases arms_size(arms), 1nat, (arms.len() - i) as nat,
{
    if 0 <= i < arms.len() {
        arm_smaller(arms, i);
        opt_declares_nothing(c, s, arms[i].pattern);
        if let Ok((_, s1)) = opt_checked(c, s, arms[i].pattern) {
            expr_declares_nothing(c, s1, arms[i].value);
            if let Ok((t, s2)) = expr_checked(c, s1, arms[i].value) {
                let next = if first is Some {
                    first
                } else {
                    Some(t)
                };
                arms_declare_nothing(c, s2, arms, next, i + 1);
            }
        }
    }
}

proof fn block_keeps_sight(c: EnvView, s: Flow, stmts: Seq<Stmt>)
    ensures
        kept(s, block_checked(c, s, stmts)),
{
    reveal(Flow::with_typings);
}

proof fn cases_keep_sight(c: EnvView, s: Flow, cases: Seq<SwitchCase>, i: int)
    ensures
        passed_kept(s, cases_checked(c, s, cases, i)),
    decreases cases.len() - i,
{
    if 0 <= i < cases.len() {
        opt_declares_nothing(c, s, cases[i].value);
        if let Ok((_, s1)) = opt_checked(c, s, cases[i].value) {
            block_keeps_sight(c, s1, cases[i].body@);
            if let Ok((_, s2)) = block_checked(c, s1, cases[i].body@) {
                reveal(Flow::with_assigned);
                cases_keep_sight(c, s2.with_assigned(s.assigned), cases, i + 1);
            }
        }
    }
}

proof fn catches_keep_sight(c: EnvView, s: Flow, catches: Seq<CatchClause>, i: int)
    ensures
        passed_kept(s, catches_checked(c, s, catches, i)),
    decreases catches.len() - i,
{
    reveal(Flow::with_assigned);
    reveal(Flow::with_typings);
    if 0 <= i < catches.len() {
        let s1 = s.push_scope();
        let ty = TypeView::Named(resolved_name(catches[i].ty@, c.imports));
        let s2 = s1.declare(catches[i].var@, ty).tell(catches[i].var@, Some(ty)).assign(s1.next_id);
        if let Ok((_, s3)) = stmts_checked(c, s2, catches[i].body@, false, 0) {
            catches_keep_sight(
                c,
                s3.pop_scope().with_typings(s.typings).with_assigned(s.assigned),
                catches,
                i + 1,
            );
        }
    }
}

proof fn if_keeps_sight(
    c: EnvView,
    s: Flow,
    cond: Expr,
    then_branch: Seq<Stmt>,
    else_branch: Option<Vec<Stmt>>,
)
    ensures
        kept(s, if_checked(c, s, cond, then_branch, else_branch)),
{
    reveal(Flow::with_assigned);
    reveal(Flow::with_typings);
    reveal(Flow::narrow);
    reveal(Flow::restore);
    expr_declares_nothing(c, s, cond);
    if let Ok((_, s1)) = expr_checked(c, s, cond) {
        let ns = narrowings(c, s1, cond);
        assert(kept(s1, cast_block(c, s1, cond, then_branch, ns.0)));
        if let Ok((_, s2)) = cast_block(c, s1, cond, then_branch, ns.0) {
            if let Some(block) = else_branch {
                let s3 = s2.with_assigned(s1.assigned);
                block_keeps_sight(c, s3.narrow(ns.1), block@);
                assert(kept(s3, narrowed_block(c, s3, block@, ns.1)));
            }
        }
    }
}

proof fn try_keeps_sight(
    c: EnvView,
    s: Flow,
    body: Seq<Stmt>,
    catches: Seq<CatchClause>,
    finally: Option<Vec<Stmt>>,
)
    ensures
        kept(s, try_checked(c, s, body, catches, finally)),
{
    reveal(Flow::with_assigned);
    reveal(Flow::push_catches);
    reveal(Flow::pop_catches);
    let guarded = s.push_catches(catch_classes(c, catches));
    block_keeps_sight(c, guarded, body);
    if let Ok((_, s1)) = block_checked(c, guarded, body) {
        let s2 = s1.pop_catches().with_assigned(s.assigned);
        catches_keep_sight(c, s2, catches, 0);
        if let Ok(s3) = catches_checked(c, s2, catches, 0) {
            if let Some(block) = finally {
                block_keeps_sight(c, s3, block@);
            }
        }
    }
}

/// A statement brings into sight what it declares for those that follow it.
pub proof fn statement_declares_its_own(c: EnvView, s0: Flow, stmt: Stmt)
    ensures
        stmt_checked(c, s0, stmt) matches Ok((_, t)) ==> t.typings == after(
            c.site(),
            s0.typings,
            stmt,
        ),
{
    reveal(Flow::at_line);
    reveal(Flow::with_assigned);
    reveal(Flow::with_typings);
    let s = s0.at_line(stmt.line);
    match stmt.kind {
        StmtKind::Return(e) => {
            opt_declares_nothing(c, s, e);
            assert(kept(s, return_checked(c, s, e)));
        },
        StmtKind::Expr(e) => {
            reveal(Flow::warn);
            expr_declares_nothing(c, s, e);
            assert(kept(s, expr_stmt_checked(c, s, e, stmt.line)));
        },
        StmtKind::ThisCall(args) => {
            args_declare_nothing(c, s, args@, Seq::empty(), 0);
            assert(kept(s, delegation_checked(c, s, Some(c.this_fqcn), args@)));
        },
        StmtKind::SuperCall(args) => {
            args_declare_nothing(c, s, args@, Seq::empty(), 0);
            assert(kept(s, delegation_checked(c, s, c.super_fqcn, args@)));
        },
        StmtKind::Throw(e) => {
            expr_declares_nothing(c, s, e);
            assert(kept(s, throw_checked(c, s, e)));
        },
        StmtKind::Try { body, catches, finally } => {
            try_keeps_sight(c, s, body@, catches@, finally);
        },
        StmtKind::VarDecl { ty, name, init, is_const } => {
            let told = decl_type(c.site(), s.typings, ty, init);
            opt_declares_nothing(c, s, init);
            if let Ok((v, s1)) = opt_checked(c, s, init) {
                reveal(var_declared);
                reveal(Flow::declare);
                reveal(Flow::tell);
                reveal(Flow::mark_const);
                reveal(Flow::assign);
                assert(var_declared(c, s1, ty, name@, v, told, is_const) matches Ok((_, t))
                    ==> t.typings == s.typings.push((name@, told)));
            }
        },
        StmtKind::If { cond, then_branch, else_branch } => {
            if_keeps_sight(c, s, cond, then_branch@, else_branch);
        },
        StmtKind::While { cond, body } => {
            expr_declares_nothing(c, s, cond);
            if let Ok((_, s1)) = expr_checked(c, s, cond) {
                block_keeps_sight(c, s1, body@);
            }
        },
        StmtKind::ForEach { ty, var, iterable, body } => {
            expr_declares_nothing(c, s, iterable);
        },
        StmtKind::Block(block) => {
            block_keeps_sight(c, s, block@);
        },
        StmtKind::Switch { subject, cases } => {
            expr_declares_nothing(c, s, subject);
            if let Ok((_, s1)) = expr_checked(c, s, subject) {
                cases_keep_sight(c, s1, cases@, 0);
            }
        },
        _ => {},
    }
}

} // verus!
