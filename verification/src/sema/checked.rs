//! What a method body must satisfy, construct by construct.
//!
//! A construct is checked in a context `c`, with what is known in `s`; the
//! result is what is known after it, with its type where it is an expression,
//! or the first fault and the line of the statement it is in.

use crate::ast::{
    Arg, BinOp, CatchClause, ClosureBody, Expr, LValue, MatchArm, Param, Stmt, StmtKind, SwitchCase,
    Type, TypeView, UnOp,
};
use crate::resolve::{resolved_name, resolved_type};
use crate::sema::error::{Checked, ErrorView, WarningView};
use crate::sema::flow::{Flow, Narrowing};
use crate::sema::members::{
    catch_classes, catches_reached, counted, ctor_args, element_stored, exits, field_stored,
    instance_use, iterated, new_use, nodiscard_name, object_field, readonly_collection, sig_use,
    static_member, static_use, stored, variable,
};
use crate::probe::{cast, decl_type, item_type};
use crate::sema::rules::{
    arm_repeated, array_made, assignment, boolean, castable, combined, constant, exhaustive,
    handled, narrowings, negated, op_text, or_void, EnvView, Judged,
};
use crate::sema::types::without_null;
use crate::size::{
    arg_smaller, args_size, arm_smaller, arms_size, block_size, body_size, case_smaller, cases_size,
    catch_smaller, catches_size, dim_smaller, dims_size, expr_parts, expr_size, exprs_size,
    item_smaller, lvalue_size, opt_block_size, opt_size, stmt_no_larger, stmt_size,
};
use vstd::prelude::*;

verus! {

/// A fault and the line of the statement it is in.
pub type Fault = (u32, ErrorView);

pub type Typed = Result<(TypeView, Flow), Fault>;

pub type AllTyped = Result<(Seq<TypeView>, Flow), Fault>;

pub type OptTyped = Result<(Option<TypeView>, Flow), Fault>;

/// With whether the code never runs to its end.
pub type Ended = Result<(bool, Flow), Fault>;

pub type Passed = Result<Flow, Fault>;

pub open spec fn judged(s: Flow, j: Judged) -> Typed {
    match j {
        Ok(t) => Ok((t, s)),
        Err(e) => Err((s.line, e)),
    }
}

pub open spec fn lined(s: Flow, r: Checked) -> Result<(), Fault> {
    match r {
        Ok(_) => Ok(()),
        Err(e) => Err((s.line, e)),
    }
}

pub open spec fn expr_checked(c: EnvView, s: Flow, e: Expr) -> Typed
    decreases expr_size(e), 0nat, 0nat,
{
    proof {
        expr_parts(e);
    }
    match e {
        Expr::IntLit(_) => Ok((TypeView::Int, s)),
        Expr::FloatLit(_) => Ok((TypeView::Float, s)),
        Expr::BoolLit(_) => Ok((TypeView::Bool, s)),
        Expr::StringLit(_) => Ok((TypeView::StringT, s)),
        Expr::NullLit => Ok((TypeView::NullT, s)),
        Expr::This => if c.is_static {
            Err((s.line, ErrorView::StaticContextMisuse("this"@)))
        } else {
            Ok((TypeView::Named(c.this_fqcn), s))
        },
        Expr::Super => if c.is_static {
            Err((s.line, ErrorView::StaticContextMisuse("super"@)))
        } else {
            Ok(
                (
                    match c.super_fqcn {
                        Some(fqcn) => TypeView::Named(fqcn),
                        None => TypeView::Void,
                    },
                    s,
                ),
            )
        },
        Expr::Ident(name) => judged(s, variable(s, name@)),
        Expr::Assign(target, value) => assign_checked(c, s, target, *value),
        Expr::Call(name, args) => call_checked(c, s, name@, args@),
        Expr::New(class, _, args) => new_checked(c, s, class@, args@),
        Expr::NewArray(elem, dims) => new_array_checked(c, s, elem, dims@),
        Expr::NewArrayInit(elem, elements) => array_init_checked(c, s, elem, elements@),
        Expr::FieldAccess(target, name) => field_access_checked(c, s, *target, name@),
        Expr::MethodCall(target, name, args) => method_call_checked(
            c,
            s,
            *target,
            name@,
            args@,
        ),
        Expr::Index(target, index) => index_checked(c, s, *target, *index),
        Expr::InstanceOf(target, _) => instanceof_checked(c, s, *target),
        Expr::Cast(ty, inner) => cast_checked(c, s, ty, *inner),
        Expr::PostIncr(name) => judged(s, counted(s, name@)),
        Expr::PostDecr(name) => judged(s, counted(s, name@)),
        Expr::Unary(op, inner) => unary_checked(c, s, op, *inner),
        Expr::Binary(op, lhs, rhs) => binary_checked(c, s, op, *lhs, *rhs),
        Expr::Match(subject, arms) => match_checked(c, s, *subject, arms@),
        Expr::Ternary(cond, then_e, else_e) => ternary_checked(
            c,
            s,
            *cond,
            *then_e,
            *else_e,
        ),
        Expr::Coalesce(lhs, rhs) => fallback_checked(c, s, *lhs, *rhs),
        Expr::Elvis(lhs, rhs) => fallback_checked(c, s, *lhs, *rhs),
        Expr::Closure { params, return_type, body, .. } => closure_checked(
            c,
            s,
            params@,
            return_type,
            body,
        ),
    }
}

/// A call by a bare name.
pub open spec fn call_checked(c: EnvView, s: Flow, name: Seq<char>, args: Seq<Arg>) -> Typed
    decreases args_size(args), 2nat, 0nat,
{
    match args_checked(c, s, args, Seq::empty(), 0) {
        Err(e) => Err(e),
        Ok((ts, s1)) => judged(s1, sig_use(c, s1, name, args, ts)),
    }
}

pub open spec fn new_checked(c: EnvView, s: Flow, class: Seq<char>, args: Seq<Arg>) -> Typed
    decreases args_size(args), 2nat, 0nat,
{
    match args_checked(c, s, args, Seq::empty(), 0) {
        Err(e) => Err(e),
        Ok((_, s1)) => judged(s1, new_use(c, s1, class, args)),
    }
}

pub open spec fn new_array_checked(
    c: EnvView,
    s: Flow,
    elem: Type,
    dims: Seq<Option<Expr>>,
) -> Typed
    decreases dims_size(dims), 2nat, 0nat,
{
    match dims_checked(c, s, dims, 0) {
        Err(e) => Err(e),
        Ok(s1) => judged(s1, array_made(c, elem, dims)),
    }
}

pub open spec fn array_init_checked(c: EnvView, s: Flow, elem: Type, elements: Seq<Expr>) -> Typed
    decreases exprs_size(elements), 2nat, 0nat,
{
    match exprs_checked(c, s, elements, 0) {
        Err(e) => Err(e),
        Ok(s1) => Ok((TypeView::Array(Box::new(resolved_type(elem@, c.imports))), s1)),
    }
}

pub open spec fn field_access_checked(c: EnvView, s: Flow, target: Expr, name: Seq<char>) -> Typed
    decreases expr_size(target), 1nat, 0nat,
{
    match static_member(c, s, target, name) {
        Some(t) => Ok((t, s)),
        None => {
            match expr_checked(c, s, target) {
                Err(e) => Err(e),
                Ok((t, s1)) => judged(s1, object_field(c, t, name)),
            }
        },
    }
}

pub open spec fn method_call_checked(
    c: EnvView,
    s: Flow,
    target: Expr,
    name: Seq<char>,
    args: Seq<Arg>,
) -> Typed
    decreases expr_size(target) + args_size(args), 2nat, 0nat,
{
    match expr_checked(c, s, target) {
        Err(e) => Err(e),
        Ok((t, s1)) => match args_checked(c, s1, args, Seq::empty(), 0) {
            Err(e) => Err(e),
            Ok((ts, s2)) => match static_use(c, s2, target, name, args, ts) {
                Some(j) => judged(s2, j),
                None => judged(s2, instance_use(c, s2, target, t, name, args, ts)),
            },
        },
    }
}

pub open spec fn index_checked(c: EnvView, s: Flow, target: Expr, index: Expr) -> Typed
    decreases expr_size(target) + expr_size(index), 1nat, 0nat,
{
    match expr_checked(c, s, target) {
        Err(e) => Err(e),
        Ok((t, s1)) => match expr_checked(c, s1, index) {
            Err(e) => Err(e),
            Ok((_, s2)) => {
                Ok(
                    (
                        match t {
                            TypeView::Array(elem) => *elem,
                            _ => TypeView::Void,
                        },
                        s2,
                    ),
                )
            },
        },
    }
}

pub open spec fn instanceof_checked(c: EnvView, s: Flow, target: Expr) -> Typed
    decreases expr_size(target), 1nat, 0nat,
{
    match expr_checked(c, s, target) {
        Err(e) => Err(e),
        Ok((_, s1)) => Ok((TypeView::Bool, s1)),
    }
}

pub open spec fn cast_checked(c: EnvView, s: Flow, ty: Type, inner: Expr) -> Typed
    decreases expr_size(inner), 1nat, 0nat,
{
    let to = resolved_type(ty@, c.imports);
    match expr_checked(c, s, inner) {
        Err(e) => Err(e),
        Ok((t, s1)) => match lined(s1, castable(c.classes, t, to)) {
            Err(e) => Err(e),
            Ok(_) => Ok((to, s1)),
        },
    }
}

pub open spec fn unary_checked(c: EnvView, s: Flow, op: UnOp, inner: Expr) -> Typed
    decreases expr_size(inner), 1nat, 0nat,
{
    match expr_checked(c, s, inner) {
        Err(e) => Err(e),
        Ok((t, s1)) => judged(s1, negated(op, t)),
    }
}

/// `&&` and `||` check their second operand with what the first one shows
/// where it is reached.
pub open spec fn binary_checked(c: EnvView, s: Flow, op: BinOp, lhs: Expr, rhs: Expr) -> Typed
    decreases expr_size(lhs) + expr_size(rhs), 2nat, 0nat,
{
    if op == BinOp::And || op == BinOp::Or {
        match expr_checked(c, s, lhs) {
            Err(e) => Err(e),
            Ok((l, s1)) => match lined(s1, boolean(op_text(op), l)) {
                Err(e) => Err(e),
                Ok(_) => {
                    let ns = narrowings(c, s1, lhs);
                    match narrowed_expr(
                        c,
                        s1,
                        rhs,
                        if op == BinOp::And {
                            ns.0
                        } else {
                            ns.1
                        },
                    ) {
                        Err(e) => Err(e),
                        Ok((r, s2)) => match lined(s2, boolean(op_text(op), r)) {
                            Err(e) => Err(e),
                            Ok(_) => Ok((TypeView::Bool, s2)),
                        },
                    }
                },
            },
        }
    } else {
        match expr_checked(c, s, lhs) {
            Err(e) => Err(e),
            Ok((l, s1)) => match expr_checked(c, s1, rhs) {
                Err(e) => Err(e),
                Ok((r, s2)) => judged(s2, combined(op, l, r)),
            },
        }
    }
}

/// An expression in a branch, with what is known there; after it, what was
/// known before.
pub open spec fn narrowed_expr(c: EnvView, s: Flow, e: Expr, ns: Narrowing) -> Typed
    decreases expr_size(e), 1nat, 0nat,
{
    match expr_checked(c, s.narrow(ns), e) {
        Err(e) => Err(e),
        Ok((t, s1)) => Ok((t, s1.restore(s.narrowed, ns))),
    }
}

pub open spec fn ternary_checked(
    c: EnvView,
    s: Flow,
    cond: Expr,
    then_e: Expr,
    else_e: Expr,
) -> Typed
    decreases expr_size(cond) + expr_size(then_e) + expr_size(else_e), 2nat, 0nat,
{
    match expr_checked(c, s, cond) {
        Err(e) => Err(e),
        Ok((t, s1)) => match lined(s1, boolean("?:"@, t)) {
            Err(e) => Err(e),
            Ok(_) => {
                let ns = narrowings(c, s1, cond);
                match narrowed_expr(c, s1, then_e, ns.0) {
                    Err(e) => Err(e),
                    Ok((a, s2)) => match narrowed_expr(c, s2, else_e, ns.1) {
                        Err(e) => Err(e),
                        Ok((_, s3)) => Ok((a, s3)),
                    },
                }
            },
        },
    }
}

/// `??` and `?:`.
pub open spec fn fallback_checked(c: EnvView, s: Flow, lhs: Expr, rhs: Expr) -> Typed
    decreases expr_size(lhs) + expr_size(rhs), 1nat, 0nat,
{
    match expr_checked(c, s, lhs) {
        Err(e) => Err(e),
        Ok((t, s1)) => match expr_checked(c, s1, rhs) {
            Err(e) => Err(e),
            Ok((_, s2)) => Ok((without_null(t), s2)),
        },
    }
}

/// The arguments of a call from the `i`-th on; `acc` are the types of those
/// before.
pub open spec fn args_checked(
    c: EnvView,
    s: Flow,
    args: Seq<Arg>,
    acc: Seq<TypeView>,
    i: int,
) -> AllTyped
    decreases args_size(args), 1nat, (args.len() - i) as nat,
{
    if i < 0 || i >= args.len() {
        Ok((acc, s))
    } else {
        proof {
            arg_smaller(args, i);
        }
        match expr_checked(c, s, args[i].value) {
            Err(e) => Err(e),
            Ok((t, s1)) => args_checked(c, s1, args, acc.push(t), i + 1),
        }
    }
}

pub open spec fn exprs_checked(c: EnvView, s: Flow, es: Seq<Expr>, i: int) -> Passed
    decreases exprs_size(es), 1nat, (es.len() - i) as nat,
{
    if i < 0 || i >= es.len() {
        Ok(s)
    } else {
        proof {
            item_smaller(es, i);
        }
        match expr_checked(c, s, es[i]) {
            Err(e) => Err(e),
            Ok((_, s1)) => exprs_checked(c, s1, es, i + 1),
        }
    }
}

/// The sizes of an array from the `i`-th on, where they are given.
pub open spec fn dims_checked(c: EnvView, s: Flow, dims: Seq<Option<Expr>>, i: int) -> Passed
    decreases dims_size(dims), 1nat, (dims.len() - i) as nat,
{
    if i < 0 || i >= dims.len() {
        Ok(s)
    } else {
        proof {
            dim_smaller(dims, i);
        }
        match opt_checked(c, s, dims[i]) {
            Err(e) => Err(e),
            Ok((_, s1)) => dims_checked(c, s1, dims, i + 1),
        }
    }
}

/// An expression that may be left out.
pub open spec fn opt_checked(c: EnvView, s: Flow, e: Option<Expr>) -> OptTyped
    decreases opt_size(e), 1nat, 0nat,
{
    match e {
        Some(e) => {
            match expr_checked(c, s, e) {
                Err(e) => Err(e),
                Ok((t, s1)) => Ok((Some(t), s1)),
            }
        },
        None => Ok((None, s)),
    }
}

/// The type of a `match` is that of its first arm.
pub open spec fn match_checked(c: EnvView, s: Flow, subject: Expr, arms: Seq<MatchArm>) -> Typed
    decreases expr_size(subject) + arms_size(arms), 2nat, 0nat,
{
    match expr_checked(c, s, subject) {
        Err(e) => Err(e),
        Ok((t, s1)) => match arms_checked(c, s1, arms, None, 0) {
            Err(e) => Err(e),
            Ok((first, s2)) => {
                if exhaustive(c.classes, t, arms) {
                    Ok((or_void(first), s2))
                } else {
                    Err((s2.line, ErrorView::MatchNotExhaustive("default"@)))
                }
            },
        },
    }
}

pub open spec fn arms_checked(
    c: EnvView,
    s: Flow,
    arms: Seq<MatchArm>,
    first: Option<TypeView>,
    i: int,
) -> OptTyped
    decreases arms_size(arms), 1nat, (arms.len() - i) as nat,
{
    if i < 0 || i >= arms.len() {
        Ok((first, s))
    } else if arm_repeated(arms, i) {
        Err((s.line, ErrorView::MatchNotExhaustive("unreachable duplicate arm"@)))
    } else {
        proof {
            arm_smaller(arms, i);
        }
        match opt_checked(c, s, arms[i].pattern) {
            Err(e) => Err(e),
            Ok((_, s1)) => match expr_checked(c, s1, arms[i].value) {
                Err(e) => Err(e),
                Ok((t, s2)) => {
                    arms_checked(
                        c,
                        s2,
                        arms,
                        if first is Some {
                            first
                        } else {
                            Some(t)
                        },
                        i + 1,
                    )
                },
            },
        }
    }
}

pub open spec fn assign_checked(c: EnvView, s: Flow, target: LValue, value: Expr) -> Typed
    decreases lvalue_size(target) + expr_size(value), 1nat, 0nat,
{
    match target {
        LValue::Local(name) => {
            match expr_checked(c, s, value) {
                Err(e) => Err(e),
                Ok((t, s1)) => match stored(c, s1, name@, t) {
                    Ok(done) => Ok(done),
                    Err(e) => Err((s1.line, e)),
                },
            }
        },
        LValue::Field(object, name) => if c.is_const_method && *object is This {
            Err((s.line, ErrorView::ConstMethodPropertyModification(name@)))
        } else {
            match expr_checked(c, s, *object) {
                Err(e) => Err(e),
                Ok((t, s1)) => match expr_checked(c, s1, value) {
                    Err(e) => Err(e),
                    Ok((v, s2)) => judged(s2, field_stored(c, *object, t, name@, v)),
                },
            }
        },
        LValue::Index(array, index) => {
            match expr_checked(c, s, *array) {
                Err(e) => Err(e),
                Ok((t, s1)) => match expr_checked(c, s1, *index) {
                    Err(e) => Err(e),
                    Ok((_, s2)) => match expr_checked(c, s2, value) {
                        Err(e) => Err(e),
                        Ok((v, s3)) => judged(s3, element_stored(c, t, v)),
                    },
                },
            }
        },
    }
}

/// A parameter is declared. Default values are constants, and those of a
/// method's parameters are not passed by reference.
pub open spec fn param_declared(c: EnvView, s: Flow, p: Param, of_method: bool) -> Passed {
    let ty = resolved_type(p.ty@, c.imports);
    let s1 = s.declare(p.name@, ty).tell(p.name@, Some(ty)).mark_const(s.next_id, p.is_const);
    if p.default matches Some(d) && !constant(d) {
        Err((s1.line, ErrorView::DefaultNotConstant(p.name@)))
    } else if of_method && p.is_ref && p.default is Some {
        Err((s1.line, ErrorView::OptionalCannotBeRef))
    } else {
        Ok(s1.assign(s.next_id))
    }
}

pub open spec fn params_declared(
    c: EnvView,
    s: Flow,
    params: Seq<Param>,
    of_method: bool,
    i: int,
) -> Passed
    decreases params.len() - i,
{
    if i < 0 || i >= params.len() {
        Ok(s)
    } else {
        match param_declared(c, s, params[i], of_method) {
            Err(e) => Err(e),
            Ok(s1) => params_declared(c, s1, params, of_method, i + 1),
        }
    }
}

/// What a closure's body returns is checked only where its type is declared.
/// What it assigns is not assigned outside.
pub open spec fn closure_checked(
    c: EnvView,
    s: Flow,
    params: Seq<Param>,
    return_type: Option<Type>,
    body: ClosureBody,
) -> Typed
    decreases body_size(body), 1nat, 0nat,
{
    match params_declared(c, s.push_scope(), params, false, 0) {
        Err(e) => Err(e),
        Ok(s1) => {
            let s2 = match return_type {
                Some(t) => s1.returning(resolved_type(t@, c.imports), false),
                None => s1.returning(TypeView::Void, true),
            };
            match body_checked(c, s2, body) {
                Err(e) => Err(e),
                Ok(s3) => {
                    Ok(
                        (
                            TypeView::Void,
                            s3.returning(s.return_ty, s.skip_return_check).pop_scope().with_typings(
                                s.typings,
                            ).with_assigned(s.assigned),
                        ),
                    )
                },
            }
        },
    }
}

pub open spec fn body_checked(c: EnvView, s: Flow, body: ClosureBody) -> Passed
    decreases body_size(body), 0nat, 0nat,
{
    match body {
        ClosureBody::Block(block) => {
            match stmts_checked(c, s, block@, false, 0) {
                Err(e) => Err(e),
                Ok((_, s1)) => Ok(s1),
            }
        },
        ClosureBody::Expr(e) => {
            match expr_checked(c, s, *e) {
                Err(e) => Err(e),
                Ok((_, s1)) => Ok(s1),
            }
        },
    }
}

/// The statements of a list from the `i`-th on; `ended` says that those
/// before never run to their end, and what cannot be reached is not checked.
pub open spec fn stmts_checked(
    c: EnvView,
    s: Flow,
    stmts: Seq<Stmt>,
    ended: bool,
    i: int,
) -> Ended
    decreases block_size(stmts), 1nat, (stmts.len() - i) as nat,
{
    if i < 0 || i >= stmts.len() || ended {
        Ok((ended, s))
    } else {
        proof {
            stmt_no_larger(stmts, i);
        }
        match stmt_checked(c, s, stmts[i]) {
            Err(e) => Err(e),
            Ok((t, s1)) => stmts_checked(c, s1, stmts, t, i + 1),
        }
    }
}

pub open spec fn block_checked(c: EnvView, s: Flow, stmts: Seq<Stmt>) -> Ended
    decreases block_size(stmts), 2nat, 0nat,
{
    match stmts_checked(c, s.push_scope(), stmts, false, 0) {
        Err(e) => Err(e),
        Ok((t, s1)) => Ok((t, s1.pop_scope().with_typings(s.typings))),
    }
}

/// A branch, with what is known there; after it, what was known before.
pub open spec fn narrowed_block(c: EnvView, s: Flow, stmts: Seq<Stmt>, ns: Narrowing) -> Ended
    decreases block_size(stmts), 3nat, 0nat,
{
    match block_checked(c, s.narrow(ns), stmts) {
        Err(e) => Err(e),
        Ok((t, s1)) => Ok((t, s1.restore(s.narrowed, ns))),
    }
}

/// The branch where a condition holds, with what is told there of a variable;
/// after it, what was told before.
pub open spec fn cast_block(
    c: EnvView,
    s: Flow,
    cond: Expr,
    stmts: Seq<Stmt>,
    ns: Narrowing,
) -> Ended
    decreases block_size(stmts), 4nat, 0nat,
{
    let inside = s.with_typings(cast(c.site(), s.typings, cond, stmts));
    match narrowed_block(c, inside, stmts, ns) {
        Err(e) => Err(e),
        Ok((t, s1)) => Ok((t, s1.with_typings(s.typings))),
    }
}

pub open spec fn stmt_checked(c: EnvView, s0: Flow, stmt: Stmt) -> Ended
    decreases stmt_size(stmt), 0nat, 0nat,
{
    let s = s0.at_line(stmt.line);
    match stmt.kind {
        StmtKind::Return(e) => return_checked(c, s, e),
        StmtKind::Expr(e) => expr_stmt_checked(c, s, e, stmt.line),
        StmtKind::ThisCall(args) => delegation_checked(c, s, Some(c.this_fqcn), args@),
        StmtKind::SuperCall(args) => delegation_checked(c, s, c.super_fqcn, args@),
        StmtKind::Throw(e) => throw_checked(c, s, e),
        StmtKind::Try { body, catches, finally } => try_checked(
            c,
            s,
            body@,
            catches@,
            finally,
        ),
        StmtKind::VarDecl { ty, name, init, is_const } => {
            let told = decl_type(c.site(), s.typings, ty, init);
            match opt_checked(c, s, init) {
                Err(e) => Err(e),
                Ok((v, s1)) => var_declared(c, s1, ty, name@, v, told, is_const),
            }
        },
        StmtKind::If { cond, then_branch, else_branch } => if_checked(
            c,
            s,
            cond,
            then_branch@,
            else_branch,
        ),
        StmtKind::While { cond, body } => {
            match expr_checked(c, s, cond) {
                Err(e) => Err(e),
                Ok((_, s1)) => match block_checked(c, s1, body@) {
                    Err(e) => Err(e),
                    Ok((_, s2)) => Ok((false, s2.with_assigned(s1.assigned))),
                },
            }
        },
        StmtKind::ForEach { ty, var, iterable, body } => {
            match expr_checked(c, s, iterable) {
                Err(e) => Err(e),
                Ok((t, s1)) => match loop_entered(c, s1, ty, var@, iterable, t) {
                    Err(e) => Err(e),
                    Ok(s2) => match stmts_checked(c, s2, body@, false, 0) {
                        Err(e) => Err(e),
                        Ok((_, s3)) => Ok(
                            (
                                false,
                                s3.pop_scope().with_typings(s1.typings).with_assigned(s1.assigned),
                            ),
                        ),
                    },
                },
            }
        },
        StmtKind::For { init, cond, step, body } => {
            match inits_checked(c, s.push_scope(), init@, 0) {
                Err(e) => Err(e),
                Ok(s1) => match opt_checked(c, s1, cond) {
                    Err(e) => Err(e),
                    Ok((_, s2)) => match block_checked(c, s2, body@) {
                        Err(e) => Err(e),
                        Ok((_, s3)) => match exprs_checked(c, s3, step@, 0) {
                            Err(e) => Err(e),
                            Ok(s4) => Ok(
                                (
                                    false,
                                    s4.pop_scope().with_typings(s.typings).with_assigned(
                                        s.assigned,
                                    ),
                                ),
                            ),
                        },
                    },
                },
            }
        },
        StmtKind::Break => Ok((true, s)),
        StmtKind::Continue => Ok((true, s)),
        StmtKind::Block(block) => block_checked(c, s, block@),
        StmtKind::Switch { subject, cases } => {
            match expr_checked(c, s, subject) {
                Err(e) => Err(e),
                Ok((_, s1)) => match cases_checked(c, s1, cases@, 0) {
                    Err(e) => Err(e),
                    Ok(s2) => Ok((false, s2)),
                },
            }
        },
    }
}

pub open spec fn return_checked(c: EnvView, s: Flow, e: Option<Expr>) -> Ended
    decreases opt_size(e), 2nat, 0nat,
{
    match opt_checked(c, s, e) {
        Err(e) => Err(e),
        Ok((t, s1)) => {
            match match t {
                Some(t) => if s1.skip_return_check {
                    Ok(())
                } else {
                    lined(s1, assignment(c.classes, t, s1.return_ty))
                },
                None => Ok(()),
            } {
                Err(e) => Err(e),
                Ok(_) => Ok((true, s1)),
            }
        },
    }
}

/// A value that must not be discarded earns a warning; the end of the program
/// ends the code.
pub open spec fn expr_stmt_checked(c: EnvView, s: Flow, e: Expr, line: u32) -> Ended
    decreases expr_size(e), 1nat, 0nat,
{
    match expr_checked(c, s, e) {
        Err(e) => Err(e),
        Ok((_, s1)) => {
            let s2 = match nodiscard_name(c, s1, e) {
                Some(name) => s1.warn(line, WarningView::NodiscardDiscarded(name)),
                None => s1,
            };
            Ok((exits(s2, e), s2))
        },
    }
}

/// `this(...)` and `super(...)`.
pub open spec fn delegation_checked(
    c: EnvView,
    s: Flow,
    fqcn: Option<Seq<char>>,
    args: Seq<Arg>,
) -> Ended
    decreases args_size(args), 2nat, 0nat,
{
    match args_checked(c, s, args, Seq::empty(), 0) {
        Err(e) => Err(e),
        Ok((_, s1)) => {
            match match fqcn {
                Some(fqcn) => lined(s1, ctor_args(c, s1, fqcn, args)),
                None => Ok(()),
            } {
                Err(e) => Err(e),
                Ok(_) => Ok((false, s1)),
            }
        },
    }
}

pub open spec fn throw_checked(c: EnvView, s: Flow, e: Expr) -> Ended
    decreases expr_size(e), 1nat, 0nat,
{
    match expr_checked(c, s, e) {
        Err(e) => Err(e),
        Ok((t, s1)) => {
            match match t {
                TypeView::Named(fqcn) => lined(s1, handled(c, s1, fqcn)),
                _ => Ok(()),
            } {
                Err(e) => Err(e),
                Ok(_) => Ok((true, s1)),
            }
        },
    }
}

/// A variable is declared, with a value where there is one.
#[verifier::opaque]
pub open spec fn var_declared(
    c: EnvView,
    s: Flow,
    ty: Option<Type>,
    name: Seq<char>,
    value: Option<TypeView>,
    told: Option<TypeView>,
    is_const: bool,
) -> Ended {
    let declared = match (ty, value) {
        (Some(t), _) => Some(resolved_type(t@, c.imports)),
        (None, v) => v,
    };
    match declared {
        None => Err((s.line, ErrorView::AutoWithoutInitializer)),
        Some(t) => {
            match match value {
                Some(v) => lined(s, assignment(c.classes, v, t)),
                None => Ok(()),
            } {
                Err(e) => Err(e),
                Ok(_) => {
                    let s1 = s.declare(name, t).tell(name, told).mark_const(s.next_id, is_const);
                    Ok(
                        (
                            false,
                            if value is Some {
                                s1.assign(s.next_id)
                            } else {
                                s1
                            },
                        ),
                    )
                },
            }
        },
    }
}

/// What is assigned after two branches: what both assign, or what the one
/// assigns that runs to its end.
pub open spec fn merged(a: Set<u32>, a_ends: bool, b: Set<u32>, b_ends: bool) -> Set<u32> {
    if a_ends && b_ends {
        a.union(b)
    } else if a_ends {
        b
    } else if b_ends {
        a
    } else {
        a.intersect(b)
    }
}

/// After an `if` of which one branch never runs to its end, what its
/// condition shows in the other one stays known.
pub open spec fn if_checked(
    c: EnvView,
    s: Flow,
    cond: Expr,
    then_branch: Seq<Stmt>,
    else_branch: Option<Vec<Stmt>>,
) -> Ended
    decreases
            expr_size(cond) + block_size(then_branch) + opt_block_size(else_branch),
            4nat,
            0nat,
{
    match expr_checked(c, s, cond) {
        Err(e) => Err(e),
        Ok((_, s1)) => {
            let ns = narrowings(c, s1, cond);
            match cast_block(c, s1, cond, then_branch, ns.0) {
                Err(e) => Err(e),
                Ok((a_ends, s2)) => {
                    let s3 = s2.with_assigned(s1.assigned);
                    match match else_branch {
                        Some(block) => narrowed_block(c, s3, block@, ns.1),
                        None => Ok((false, s3)),
                    } {
                        Err(e) => Err(e),
                        Ok((b_ends, s4)) => {
                            let s5 = if a_ends && !b_ends {
                                s4.narrow(ns.1)
                            } else if b_ends && !a_ends {
                                s4.narrow(ns.0)
                            } else {
                                s4
                            };
                            Ok((a_ends && b_ends, s5.with_assigned(merged(s2.assigned, a_ends, s4.assigned, b_ends))))
                        },
                    }
                },
            }
        },
    }
}

/// The loop's variable is declared in a scope of its own.
#[verifier::opaque]
pub open spec fn loop_entered(
    c: EnvView,
    s: Flow,
    ty: Option<Type>,
    var: Seq<char>,
    iterable: Expr,
    iterable_ty: TypeView,
) -> Passed {
    let s1 = s.push_scope();
    let elem = iterated(c, iterable_ty);
    let declared = match ty {
        Some(t) => resolved_type(t@, c.imports),
        None => elem,
    };
    match match ty {
        Some(_) => lined(s1, assignment(c.classes, elem, declared)),
        None => Ok(()),
    } {
        Err(e) => Err(e),
        Ok(_) => {
            let s2 = s1.declare(var, declared).tell(
                var,
                item_type(c.site(), s.typings, ty, iterable),
            );
            Ok(
                s2.mark_loop_var(s1.next_id, readonly_collection(c, s2, iterable)).assign(s1.next_id),
            )
        },
    }
}

/// The statements before a `for` loop.
pub open spec fn inits_checked(c: EnvView, s: Flow, stmts: Seq<Stmt>, i: int) -> Passed
    decreases block_size(stmts), 1nat, (stmts.len() - i) as nat,
{
    if i < 0 || i >= stmts.len() {
        Ok(s)
    } else {
        proof {
            stmt_no_larger(stmts, i);
        }
        match stmt_checked(c, s, stmts[i]) {
            Err(e) => Err(e),
            Ok((_, s1)) => inits_checked(c, s1, stmts, i + 1),
        }
    }
}

/// The cases of a `switch` from the `i`-th on: none of them is sure to run.
pub open spec fn cases_checked(c: EnvView, s: Flow, cases: Seq<SwitchCase>, i: int) -> Passed
    decreases cases_size(cases), 1nat, (cases.len() - i) as nat,
{
    if i < 0 || i >= cases.len() {
        Ok(s)
    } else {
        proof {
            case_smaller(cases, i);
        }
        match opt_checked(c, s, cases[i].value) {
            Err(e) => Err(e),
            Ok((_, s1)) => match block_checked(c, s1, cases[i].body@) {
                Err(e) => Err(e),
                Ok((_, s2)) => cases_checked(c, s2.with_assigned(s.assigned), cases, i + 1),
            },
        }
    }
}

/// A `try` may break off anywhere: only what its `finally` block assigns is
/// sure to be assigned.
pub open spec fn try_checked(
    c: EnvView,
    s: Flow,
    body: Seq<Stmt>,
    catches: Seq<CatchClause>,
    finally: Option<Vec<Stmt>>,
) -> Ended
    decreases block_size(body) + catches_size(catches) + opt_block_size(finally), 3nat, 0nat,
{
    match lined(s, catches_reached(c, catches, 0)) {
        Err(e) => Err(e),
        Ok(_) => match block_checked(c, s.push_catches(catch_classes(c, catches)), body) {
            Err(e) => Err(e),
            Ok((_, s1)) => {
                match catches_checked(
                    c,
                    s1.pop_catches().with_assigned(s.assigned),
                    catches,
                    0,
                ) {
                    Err(e) => Err(e),
                    Ok(s2) => match finally {
                        Some(block) => block_checked(c, s2, block@),
                        None => Ok((false, s2)),
                    },
                }
            },
        },
    }
}

pub open spec fn catches_checked(c: EnvView, s: Flow, catches: Seq<CatchClause>, i: int) -> Passed
    decreases catches_size(catches), 1nat, (catches.len() - i) as nat,
{
    if i < 0 || i >= catches.len() {
        Ok(s)
    } else {
        proof {
            catch_smaller(catches, i);
        }
        let s1 = s.push_scope();
        let ty = TypeView::Named(resolved_name(catches[i].ty@, c.imports));
        let s2 = s1.declare(catches[i].var@, ty).tell(catches[i].var@, Some(ty)).assign(s1.next_id);
        match stmts_checked(c, s2, catches[i].body@, false, 0) {
            Err(e) => Err(e),
            Ok((_, s3)) => {
                catches_checked(
                    c,
                    s3.pop_scope().with_typings(s.typings).with_assigned(s.assigned),
                    catches,
                    i + 1,
                )
            },
        }
    }
}

} // verus!
