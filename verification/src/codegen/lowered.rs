//! The code that each expression and each statement stands for.
//!
//! A construct is compiled in a context `c`, from the state `s` that the code
//! before it has left; the result is the state after it, with its type where
//! it is an expression, or what is not supported. `fin` are the `finally`
//! blocks around a statement, outermost first.

use crate::ast::{
    layered, Arg, BinOp, CatchClause, ClosureBody, Expr, LValue, MatchArm, Param, Stmt, StmtKind,
    SwitchCase, Type, TypeView, UnOp,
};
use crate::bytecode::method_flags;
use crate::bytecode::constant_pool::{with_class, with_type_desc, with_utf8, EntryView};
use crate::bytecode::module::{ExceptionTableEntry, HashAlgo, MethodView, ModuleView, VERSION};
use crate::bytecode::opcode::Opcode;
use crate::class_table::{
    ctor_overload, just_method, method_found, overload_found, param_names, param_types, Wanted,
};
use crate::codegen::args::{actuals, planned, positional, unboxed, ActualView, PlanView};
use crate::codegen::closure::boxed_in_body;
use crate::codegen::emitter::{fresh, new_loop, real_loop, CxView, State};
use crate::codegen::expr_ty::{
    as_type, as_types, box_name, expr_ty, expr_tys, passed_types, shown, ExprTyView,
};
use crate::codegen::ops::{
    arithmetic, call_delta, class_name, coerced, converted, falsy_jumps, field_type, ident,
    native_instance_call, number, promoted, superclass, undefined, Done, IdentView, Typed,
};
use crate::codegen::overload::{arg_types, own_statics, static_pick};
use crate::codegen::peek::{joins_strings, member_type, overloaded, peeked};
use crate::codegen::stdlib::{
    native_constant_value, native_ctor, native_static, printlike, stdlib_class,
};
use crate::codegen::type_desc::{method_descriptor_text, type_descriptor_text};
use crate::codegen::vars::{
    capture_fields, captures, compound_overload, copied, declared, enum_case, enum_class,
    field_table, ident_code, incr_code, load_value, narrowed, narrowing, reboxed, static_field,
    widened_back, write_boxed, write_captured, CaptureView,
};
use crate::names::bound_to;
use crate::native::{instance_sig, named_view};
use crate::native_generics::{native_ctor_params, native_method_sig};
use crate::probe::{after_all, cast, item_type, with_params};
use crate::resolve::{path_of, resolved_type};
use crate::size::{
    arg_smaller, args_size, arm_smaller, arms_size, block_size, body_size, case_smaller, cases_size,
    catch_smaller, catches_size, dim_smaller, dims_size, expr_parts, expr_size, exprs_size,
    fin_push, fin_size, frame_smaller, item_smaller, lvalue_size, opt_block_size, opt_size,
    stack_prefix, stmt_no_larger, stmt_size,
};
use crate::text::{begins_with, decimal_text, head_text};
use vstd::prelude::*;

verus! {

/// The arguments of a call, compiled, and how each is passed.
pub type Passed = Result<(State, Seq<PlanView>), Seq<char>>;

/// Compiles an expression, whose value is left on the stack.
pub open spec fn expr_code(c: CxView, s: State, e: Expr) -> Typed
    decreases c.level, expr_size(e), 0nat, 0nat,
{
    proof {
        expr_parts(e);
    }
    match e {
        Expr::IntLit(v) => Ok((s.int_const(v), ExprTyView::Int)),
        Expr::FloatLit(bits) => Ok((s.float_const(bits), ExprTyView::Float)),
        Expr::BoolLit(v) => Ok(
            (
                s.op(
                    if v {
                        Opcode::ConstTrue
                    } else {
                        Opcode::ConstFalse
                    },
                    1,
                ),
                ExprTyView::Bool,
            ),
        ),
        Expr::StringLit(text) => {
            let (s1, i) = s.utf8(text@);
            Ok((s1.op_u16(Opcode::Ldc, i, 1), ExprTyView::StringT))
        },
        Expr::NullLit => Ok((s.op(Opcode::ConstNull, 1), ExprTyView::Null)),
        Expr::This => Ok((s.load(0), ExprTyView::Object(c.this_fqcn))),
        Expr::Super => match superclass(c) {
            Err(e) => Err(e),
            Ok(p) => Ok((s.load(0), ExprTyView::Object(p))),
        },
        Expr::Ident(name) => ident_code(c, s, name@),
        Expr::Assign(target, value) => assign_code(c, s, target, *value),
        Expr::Call(name, args) => call_code(c, s, name@, args@),
        Expr::New(name, _, args) => new_code(c, s, name@, args@),
        Expr::NewArray(elem, dims) => new_array_code(c, s, elem@, dims@),
        Expr::NewArrayInit(elem, elements) => array_init_code(c, s, elem@, elements@),
        Expr::FieldAccess(target, name) => field_access_code(c, s, *target, name@),
        Expr::MethodCall(target, name, args) => method_call_code(c, s, *target, name@, args@),
        Expr::Index(target, index) => index_code(c, s, *target, *index),
        Expr::InstanceOf(target, class) => instanceof_code(c, s, *target, class@),
        Expr::Cast(ty, inner) => cast_code(c, s, ty@, *inner),
        Expr::PostIncr(name) => incr_code(c, s, name@, 1),
        Expr::PostDecr(name) => incr_code(c, s, name@, -1i16),
        Expr::Unary(op, inner) => unary_code(c, s, op, *inner),
        Expr::Binary(op, lhs, rhs) => binary_code(c, s, op, *lhs, *rhs),
        Expr::Match(subject, arms) => match_code(c, s, *subject, arms@),
        Expr::Ternary(cond, then_e, else_e) => ternary_code(c, s, *cond, *then_e, *else_e),
        Expr::Coalesce(lhs, rhs) => coalesce_code(c, s, *lhs, *rhs),
        Expr::Elvis(lhs, rhs) => elvis_code(c, s, *lhs, *rhs),
        Expr::Closure { params, return_type, body, .. } => closure_code(
            c,
            s,
            params@,
            return_type,
            body,
        ),
    }
}

/// An expression that must be a condition.
pub open spec fn bool_code(c: CxView, s: State, e: Expr) -> Done
    decreases c.level, expr_size(e), 1nat, 0nat,
{
    match expr_code(c, s, e) {
        Err(e) => Err(e),
        Ok((s1, t)) => {
            if t is Bool {
                Ok(s1)
            } else {
                Err("expected bool condition, got "@ + shown(t))
            }
        },
    }
}

/// An expression whose value is dropped.
pub open spec fn dropped_code(c: CxView, s: State, e: Expr) -> Done
    decreases c.level, expr_size(e), 1nat, 0nat,
{
    match expr_code(c, s, e) {
        Err(e) => Err(e),
        Ok((s1, t)) => {
            if t is Void {
                Ok(s1)
            } else {
                Ok(s1.op(Opcode::Pop, -1))
            }
        },
    }
}

/// The context in which a closure's body is compiled.
pub open spec fn closure_cx(
    c: CxView,
    this_class: u16,
    fqcn: Seq<char>,
    caps: Seq<CaptureView>,
    params: Seq<Param>,
    body: ClosureBody,
) -> CxView {
    CxView {
        this_class,
        this_fqcn: fqcn,
        captured_fields: field_table(caps),
        boxed_captures: boxed_in_body(body),
        closure_name_prefix: fqcn,
        typings: with_params(c.site(), c.typings, params, params.len() as int),
        tries: Seq::empty(),
        ..c
    }
}

/// The name of the next closure class of a body.
pub open spec fn closure_name(c: CxView, s: State) -> Seq<char> {
    c.closure_name_prefix + "$closure"@ + decimal_text(s.closure_counter as nat)
}

pub open spec fn no_refs(n: nat) -> Seq<bool> {
    Seq::new(n, |i: int| false)
}

/// The state at the start of a closure's `invoke` method.
pub open spec fn closure_start(
    cp: Seq<EntryView>,
    fqcn: Seq<char>,
    boxed: Set<Seq<char>>,
    names: Seq<Seq<char>>,
    tys: Seq<ExprTyView>,
) -> State {
    let s = fresh(cp).push_scope().declare_local("this"@, ExprTyView::Object(fqcn));
    let refs = no_refs(names.len());
    let n = names.len() as int;
    reboxed(declared(s, names, tys, refs, n), boxed, names, tys, refs, n)
}

/// The type that a closure returns, by its declaration or else by its body.
pub open spec fn closure_return(c: CxView, declared: Option<Type>, found: ExprTyView) -> ExprTyView {
    match declared {
        Some(t) => expr_ty(resolved_type(t@, c.imports)),
        None => found,
    }
}

/// The body of a closure, and what it returns.
pub open spec fn closure_body_code(
    c: CxView,
    s: State,
    return_type: Option<Type>,
    body: ClosureBody,
) -> Typed
    decreases c.level, body_size(body), 1nat, 0nat,
{
    match body {
        ClosureBody::Block(block) => {
            match stmts_code(c, s, block@, Seq::empty(), 0) {
                Err(e) => Err(e),
                Ok(s1) => {
                    let found = match s1.inferred_return_ty {
                        Some(t) => t,
                        None => ExprTyView::Void,
                    };
                    let ret = closure_return(c, return_type, found);
                    if ret is Void {
                        Ok((s1.op(Opcode::Return, 0), ret))
                    } else {
                        Ok((s1, ret))
                    }
                },
            }
        },
        ClosureBody::Expr(e) => {
            match expr_code(c, s, *e) {
                Err(e) => Err(e),
                Ok((s1, t)) => {
                    Ok((s1.op(Opcode::ReturnValue, 0), closure_return(c, return_type, t)))
                },
            }
        },
    }
}

/// The class synthesized for a closure, whose `invoke` method has been
/// compiled to the state `s`.
pub open spec fn closure_module(
    s: State,
    this_class: u16,
    caps: Seq<CaptureView>,
    tys: Seq<ExprTyView>,
    ret: ExprTyView,
) -> ModuleView {
    let (cp1, name_index) = with_utf8(s.cp, "invoke"@);
    let (cp2, descriptor_index) = with_type_desc(
        cp1,
        method_descriptor_text(as_types(tys), as_type(ret)),
    );
    let (cp3, fields) = capture_fields(cp2, caps, caps.len() as int);
    ModuleView {
        version: VERSION,
        constant_pool: cp3,
        this_class,
        class_flags: 0,
        super_class: 0,
        interfaces: Seq::empty(),
        fields,
        methods: seq![
            MethodView {
                flags: method_flags::PUBLIC,
                name_index,
                descriptor_index,
                throws_types: Seq::empty(),
                max_locals: s.max_locals,
                max_stack: s.max_stack(),
                code: s.code,
                exception_table: s.exception_table,
                line_table: s.line_table,
            },
        ],
        hash_algo: HashAlgo::Sha256,
    }
}

/// A closure literal: its class, and the code that makes an object of it.
pub open spec fn closure_code(
    c: CxView,
    s: State,
    params: Seq<Param>,
    return_type: Option<Type>,
    body: ClosureBody,
) -> Typed
    decreases c.level, body_size(body), 2nat, 0nat,
{
    let caps = captures(c, s, params, body);
    let fqcn = closure_name(c, s);
    let tys = expr_tys(param_types(params, c.imports));
    let (cp, this_class) = with_class(Seq::empty(), fqcn);
    let inner = closure_cx(c, this_class, fqcn, caps, params, body);
    let start = closure_start(cp, fqcn, inner.boxed_captures, param_names(params), tys);
    match closure_body_code(inner, start, return_type, body) {
        Err(e) => Err(e),
        Ok((s1, ret)) => {
            let module = closure_module(s1.pop_scope(), this_class, caps, tys, ret);
            let s2 = s.count_closure().add_closures(seq![module] + s1.closures).new_of(fqcn);
            Ok(
                (
                    copied(c, s2, caps, caps.len() as int),
                    ExprTyView::Closure {
                        params: tys,
                        return_ty: Box::new(ret),
                        throws: Seq::empty(),
                        fqcn,
                    },
                ),
            )
        },
    }
}

/// A call of the closure on top of the stack.
pub open spec fn invoke_code(
    c: CxView,
    s: State,
    params: Seq<ExprTyView>,
    ret: ExprTyView,
    fqcn: Seq<char>,
    args: Seq<Arg>,
) -> Typed
    decreases c.level, args_size(args), 3nat, 0nat,
{
    match positional(args) {
        Err(e) => Err(e),
        Ok(acts) => match args_code(c, s, args, acts, params, Seq::empty(), "closure call"@) {
            Err(e) => Err(e),
            Ok((s1, plans)) => {
                let (s2, m) = s1.method_of(
                    fqcn,
                    "invoke"@,
                    method_descriptor_text(as_types(params), as_type(ret)),
                );
                Ok(
                    (
                        s2.op_u16(
                            Opcode::InvokeClosure,
                            m,
                            call_delta(ret is Void, acts.len(), true) as int,
                        ),
                        ret,
                    ),
                )
            },
        },
    }
}

pub open spec fn ternary_code(c: CxView, s: State, cond: Expr, then_e: Expr, else_e: Expr) -> Typed
    decreases c.level, expr_size(cond) + expr_size(then_e) + expr_size(else_e), 2nat, 0nat,
{
    proof {
        expr_parts(cond);
        expr_parts(then_e);
        expr_parts(else_e);
    }
    match bool_code(c, s, cond) {
        Err(e) => Err(e),
        Ok(s1) => match expr_code(c, s1.branch(Opcode::IfFalse, -1), then_e) {
            Err(e) => Err(e),
            Ok((s2, then_ty)) => {
                let s3 = s2.branch(Opcode::Goto, 0).aim_here(s1.pc());
                match expr_code(c, s3, else_e) {
                    Err(e) => Err(e),
                    Ok((s4, else_ty)) => match coerced(s4, else_ty, then_ty, "ternary branch"@) {
                        Err(e) => Err(e),
                        Ok(s5) => Ok((s5.aim_here(s2.pc()), then_ty)),
                    },
                }
            },
        },
    }
}

pub open spec fn coalesce_code(c: CxView, s: State, lhs: Expr, rhs: Expr) -> Typed
    decreases c.level, expr_size(lhs) + expr_size(rhs), 2nat, 0nat,
{
    proof {
        expr_parts(lhs);
        expr_parts(rhs);
    }
    match expr_code(c, s, lhs) {
        Err(e) => Err(e),
        Ok((s1, ty)) => {
            let s2 = s1.op(Opcode::Dup, 1).op(Opcode::IsNonNull, 0);
            let s3 = s2.branch(Opcode::IfTrue, -1).op(Opcode::Pop, -1);
            match expr_code(c, s3, rhs) {
                Err(e) => Err(e),
                Ok((s4, rhs_ty)) => match coerced(s4, rhs_ty, ty, "?? right operand"@) {
                    Err(e) => Err(e),
                    Ok(s5) => Ok((s5.aim_here(s2.pc()), ty)),
                },
            }
        },
    }
}

pub open spec fn elvis_code(c: CxView, s: State, lhs: Expr, rhs: Expr) -> Typed
    decreases c.level, expr_size(lhs) + expr_size(rhs), 2nat, 0nat,
{
    proof {
        expr_parts(lhs);
        expr_parts(rhs);
    }
    match expr_code(c, s, lhs) {
        Err(e) => Err(e),
        Ok((s1, ty)) => {
            let (s2, jumps) = falsy_jumps(s1, ty);
            let s3 = s2.branch(Opcode::Goto, 0);
            let s4 = s3.aim_all(jumps, s3.pc()).op(Opcode::Pop, -1);
            match expr_code(c, s4, rhs) {
                Err(e) => Err(e),
                Ok((s5, rhs_ty)) => match coerced(s5, rhs_ty, ty, "?: right operand"@) {
                    Err(e) => Err(e),
                    Ok(s6) => Ok((s6.aim_here(s2.pc()), ty)),
                },
            }
        },
    }
}

pub open spec fn match_code(c: CxView, s: State, subject: Expr, arms: Seq<MatchArm>) -> Typed
    decreases c.level, expr_size(subject) + arms_size(arms), 2nat, 0nat,
{
    proof {
        expr_parts(subject);
    }
    match expr_code(c, s, subject) {
        Err(e) => Err(e),
        Ok((s1, ty)) => match arms_code(c, s1, ty, arms, 0, Seq::empty(), None) {
            Err(e) => Err(e),
            Ok((s2, jumps, result)) => {
                Ok(
                    (
                        s2.aim_all(jumps, s2.pc()),
                        match result {
                            Some(t) => t,
                            None => ExprTyView::Void,
                        },
                    ),
                )
            },
        },
    }
}

/// The comparison of the subject with the pattern of an arm, and the jump past
/// the arm where they differ; a fallback arm has none.
pub open spec fn arm_test_code(c: CxView, s: State, ty: ExprTyView, pattern: Option<Expr>, last: bool) -> Result<
    (State, Option<int>),
    Seq<char>,
>
    decreases c.level, opt_size(pattern), 1nat, 0nat,
{
    match pattern {
        Some(p) => if last {
            Ok((s, None))
        } else {
            match expr_code(c, s.op(Opcode::Dup, 1), p) {
                Err(e) => Err(e),
                Ok((s1, pattern_ty)) => match coerced(s1, pattern_ty, ty, "match pattern"@) {
                    Err(e) => Err(e),
                    Ok(s2) => {
                        let s3 = s2.op(Opcode::CmpEq, -1);
                        Ok((s3.branch(Opcode::IfFalse, -1), Some(s3.pc())))
                    },
                },
            }
        },
        None => Ok((s, None)),
    }
}

/// The arms from the `i`-th on, after the jumps to the end and the result type
/// of those before.
pub open spec fn arms_code(
    c: CxView,
    s: State,
    ty: ExprTyView,
    arms: Seq<MatchArm>,
    i: int,
    jumps: Seq<int>,
    result: Option<ExprTyView>,
) -> Result<(State, Seq<int>, Option<ExprTyView>), Seq<char>>
    decreases c.level, arms_size(arms), 2nat, (arms.len() - i) as nat,
{
    if i < 0 || i >= arms.len() {
        Ok((s, jumps, result))
    } else {
        proof {
            arm_smaller(arms, i);
        }
        match arm_test_code(c, s, ty, arms[i].pattern, i == arms.len() - 1) {
            Err(e) => Err(e),
            Ok((s1, next)) => match expr_code(c, s1.op(Opcode::Pop, -1), arms[i].value) {
                Err(e) => Err(e),
                Ok((s2, value_ty)) => {
                    match match result {
                        Some(expected) => coerced(s2, value_ty, expected, "match arm"@),
                        None => Done::Ok(s2),
                    } {
                        Err(e) => Err(e),
                        Ok(s3) => {
                            let s4 = s3.branch(Opcode::Goto, 0);
                            let s5 = match next {
                                Some(pc) => s4.aim_here(pc),
                                None => s4,
                            };
                            arms_code(
                                c,
                                s5,
                                ty,
                                arms,
                                i + 1,
                                jumps.push(s3.pc()),
                                Some(
                                    match result {
                                        Some(t) => t,
                                        None => value_ty,
                                    },
                                ),
                            )
                        },
                    }
                },
            },
        }
    }
}

pub open spec fn assign_code(c: CxView, s: State, target: LValue, value: Expr) -> Typed
    decreases c.level, lvalue_size(target) + expr_size(value), 3nat, 0nat,
{
    match target {
        LValue::Local(name) => local_assign_code(c, s, name@, value),
        LValue::Field(object, name) => field_assign_code(c, s, *object, name@, value),
        LValue::Index(array, index) => index_assign_code(c, s, *array, *index, value),
    }
}

pub open spec fn local_assign_code(c: CxView, s: State, name: Seq<char>, value: Expr) -> Typed
    decreases c.level, expr_size(value), 2nat, 0nat,
{
    proof {
        expr_parts(value);
    }
    match ident(c, s, name) {
        None => Err(undefined(name)),
        Some(IdentView::Local(slot)) => match (compound_overload(c, s, name, slot, value), value) {
            (Some(o), Expr::Binary(_, _, rhs)) => {
                match expr_code(c, s.load(slot.index), *rhs) {
                    Err(e) => Err(e),
                    Ok((s1, _)) => {
                        let (s2, ty) = s1.operator_call(o.fqcn, o.name, seq![o.operand], o.return_ty);
                        Ok((s2.op(Opcode::Dup, 1).store(slot.index), ty))
                    },
                }
            },
            _ => {
                match expr_code(c, s, value) {
                    Err(e) => Err(e),
                    Ok((s1, value_ty)) => match slot.boxed {
                        Some(inner) => {
                            match coerced(s1, value_ty, inner, name) {
                                Err(e) => Err(e),
                                Ok(s2) => Ok((write_boxed(s2, slot.index, inner), inner)),
                            }
                        },
                        None => {
                            match coerced(s1, value_ty, slot.ty, name) {
                                Err(e) => Err(e),
                                Ok(s2) => Ok((s2.op(Opcode::Dup, 1).store(slot.index), slot.ty)),
                            }
                        },
                    },
                }
            },
        },
        Some(IdentView::Captured(field)) => {
            match expr_code(c, s, value) {
                Err(e) => Err(e),
                Ok((s1, value_ty)) => match coerced(s1, value_ty, field.ty, name) {
                    Err(e) => Err(e),
                    Ok(s2) => Ok((write_captured(s2, c.this_fqcn, name, field), field.ty)),
                },
            }
        },
    }
}

pub open spec fn field_assign_code(
    c: CxView,
    s: State,
    target: Expr,
    name: Seq<char>,
    value: Expr,
) -> Typed
    decreases c.level, expr_size(target) + expr_size(value), 2nat, 0nat,
{
    proof {
        expr_parts(target);
        expr_parts(value);
    }
    match static_field(c, s, target, name) {
        Some((owner, f)) => {
            match expr_code(c, s, value) {
                Err(e) => Err(e),
                Ok((s1, value_ty)) => match coerced(s1, value_ty, expr_ty(f.ty), name) {
                    Err(e) => Err(e),
                    Ok(s2) => {
                        let (s3, field) = s2.op(Opcode::Dup, 1).field_of(owner, name, f.ty);
                        Ok((s3.op_u16(Opcode::SetStatic, field, -1), expr_ty(f.ty)))
                    },
                },
            }
        },
        None => {
            match expr_code(c, s, target) {
                Err(e) => Err(e),
                Ok((s1, target_ty)) => match target_ty {
                    ExprTyView::Object(fqcn) => {
                        match field_type(c, fqcn, name) {
                            Err(e) => Err(e),
                            Ok(ty) => match expr_code(c, s1, value) {
                                Err(e) => Err(e),
                                Ok((s2, value_ty)) => match coerced(s2, value_ty, expr_ty(ty), name) {
                                    Err(e) => Err(e),
                                    Ok(s3) => {
                                        let s4 = s3.op(Opcode::Dup, 1);
                                        let tmp = s4.next_local;
                                        let (s5, field) = s4.declare_scratch(expr_ty(ty)).store(tmp).field_of(
                                            fqcn,
                                            name,
                                            ty,
                                        );
                                        Ok((s5.op_u16(Opcode::SetField, field, -2).load(tmp), expr_ty(ty)))
                                    },
                                },
                            },
                        }
                    },
                    _ => Err("field access on non-object type "@ + shown(target_ty)),
                },
            }
        },
    }
}

pub open spec fn index_assign_code(
    c: CxView,
    s: State,
    target: Expr,
    index: Expr,
    value: Expr,
) -> Typed
    decreases c.level, expr_size(target) + expr_size(index) + expr_size(value), 2nat, 0nat,
{
    proof {
        expr_parts(target);
        expr_parts(index);
        expr_parts(value);
    }
    match expr_code(c, s, target) {
        Err(e) => Err(e),
        Ok((s1, target_ty)) => match target_ty {
            ExprTyView::Array(elem) => {
                match expr_code(c, s1, index) {
                    Err(e) => Err(e),
                    Ok((s2, index_ty)) => {
                        if index_ty !is Int {
                            Err("array index must be int"@)
                        } else {
                            match expr_code(c, s2, value) {
                                Err(e) => Err(e),
                                Ok((s3, value_ty)) => match coerced(s3, value_ty, *elem, "array element"@) {
                                    Err(e) => Err(e),
                                    Ok(s4) => {
                                        let s5 = s4.op(Opcode::Dup, 1);
                                        let tmp = s5.next_local;
                                        Ok(
                                            (
                                                s5.declare_scratch(*elem).store(tmp).op(Opcode::ArrayStore, -3).load(tmp),
                                                *elem,
                                            ),
                                        )
                                    },
                                },
                            }
                        }
                    },
                }
            },
            _ => Err("indexed assignment on non-array type "@ + shown(target_ty)),
        },
    }
}

/// The values of the arguments from the `i`-th on, each fitted to its
/// parameter.
pub open spec fn arg_values_code(
    c: CxView,
    s: State,
    args: Seq<Arg>,
    acts: Seq<ActualView>,
    tys: Seq<ExprTyView>,
    plans: Seq<PlanView>,
    ctx: Seq<char>,
    i: int,
) -> Done
    decreases c.level, args_size(args), 1nat, (acts.len() - i) as nat,
{
    if i < 0 || i >= acts.len() {
        Ok(s)
    } else {
        match match plans[i] {
            PlanView::NewBox(b, _, _) => Done::Ok(s.load(b)),
            PlanView::Forward(b) => Done::Ok(s.load(b)),
            PlanView::Plain => {
                match match acts[i] {
                    ActualView::Given(j) => if 0 <= j < args.len() {
                        proof {
                            arg_smaller(args, j);
                        }
                        expr_code(c, s, args[j].value)
                    } else {
                        Typed::Err(unbound(ctx))
                    },
                    ActualView::Default(e) => if c.level > 0 {
                        expr_code(c.deeper(), s, e)
                    } else {
                        Typed::Err(circular_default(ctx))
                    },
                    ActualView::Missing => Typed::Err(unbound(ctx)),
                } {
                    Err(e) => Err(e),
                    Ok((s2, t)) => coerced(s2, t, tys[i], ctx),
                }
            },
        } {
            Err(e) => Err(e),
            Ok(s1) => arg_values_code(c, s1, args, acts, tys, plans, ctx, i + 1),
        }
    }
}

pub open spec fn unbound(ctx: Seq<char>) -> Seq<char> {
    "'"@ + ctx + "' leaves a required parameter without an argument"@
}

pub open spec fn circular_default(ctx: Seq<char>) -> Seq<char> {
    "a default value of '"@ + ctx + "' is defined in terms of itself"@
}

/// The arguments of a call, on the stack in the order of the parameters.
pub open spec fn args_code(
    c: CxView,
    s: State,
    args: Seq<Arg>,
    acts: Seq<ActualView>,
    tys: Seq<ExprTyView>,
    is_ref: Seq<bool>,
    ctx: Seq<char>,
) -> Passed
    decreases c.level, args_size(args), 2nat, 0nat,
{
    if acts.len() != tys.len() {
        Err(
            "'"@ + ctx + "' expects "@ + decimal_text(tys.len()) + " argument(s), got "@
                + decimal_text(acts.len()),
        )
    } else {
        match planned(s, args, acts, tys, is_ref, ctx, acts.len() as int) {
            Err(e) => Err(e),
            Ok((s1, plans)) => match arg_values_code(c, s1, args, acts, tys, plans, ctx, 0) {
                Err(e) => Err(e),
                Ok(s2) => Ok((s2, plans)),
            },
        }
    }
}

/// An unqualified call: of a closure in a variable, or of a static method of
/// the class itself.
pub open spec fn call_code(c: CxView, s: State, name: Seq<char>, args: Seq<Arg>) -> Typed
    decreases c.level, args_size(args), 4nat, 0nat,
{
    match ident(c, s, name) {
        Some(IdentView::Local(slot)) => match slot.ty {
            ExprTyView::Closure { params, return_ty, fqcn, .. } => invoke_code(
                c,
                load_value(s, slot),
                params,
                *return_ty,
                fqcn,
                args,
            ),
            _ => static_call_code(c, s, name, args),
        },
        Some(IdentView::Captured(field)) => match field.ty {
            ExprTyView::Closure { params, return_ty, fqcn, .. } => invoke_code(
                c,
                s.get_captured(c.this_fqcn, name, field),
                params,
                *return_ty,
                fqcn,
                args,
            ),
            _ => static_call_code(c, s, name, args),
        },
        None => static_call_code(c, s, name, args),
    }
}

pub open spec fn static_call_code(c: CxView, s: State, name: Seq<char>, args: Seq<Arg>) -> Typed
    decreases c.level, args_size(args), 3nat, 0nat,
{
    let sigs = own_statics(c, name);
    if sigs.len() == 0 {
        Err("call to unknown method '"@ + name + "'"@)
    } else {
        let sig = sigs[static_pick(c, sigs, args.len(), arg_types(c, args))];
        let acts = actuals(sig.param_names, sig.defaults, args);
        match args_code(c, s, args, acts, sig.param_types, sig.is_ref, name) {
            Err(e) => Err(e),
            Ok((s1, plans)) => {
                let s2 = s1.op_u16(
                    Opcode::InvokeStatic,
                    sig.method_ref_index,
                    call_delta(sig.return_ty is Void, acts.len(), false) as int,
                );
                Ok((unboxed(s2, plans, plans.len() as int), sig.return_ty))
            },
        }
    }
}

/// A call of a method of a class, whose receiver, if it has one, is on the
/// stack.
pub open spec fn invoke_method_code(
    c: CxView,
    s: State,
    op: Opcode,
    fqcn: Seq<char>,
    name: Seq<char>,
    params: Seq<TypeView>,
    is_ref: Seq<bool>,
    return_ty: TypeView,
    args: Seq<Arg>,
    acts: Seq<ActualView>,
) -> Typed
    decreases c.level, args_size(args), 3nat, 0nat,
{
    match args_code(c, s, args, acts, expr_tys(params), is_ref, name) {
        Err(e) => Err(e),
        Ok((s1, plans)) => {
            let (s2, m) = s1.named_method(
                fqcn,
                name,
                method_descriptor_text(passed_types(params, is_ref), return_ty),
            );
            let ret = expr_ty(return_ty);
            let s3 = s2.op_u16(
                op,
                m,
                call_delta(ret is Void, acts.len(), op !is InvokeStatic) as int,
            );
            Ok((unboxed(s3, plans, plans.len() as int), ret))
        },
    }
}

/// A call of the constructor of the object on the stack. Its class is entered
/// in the pool as `class`, or else is to be entered.
pub open spec fn construct_code(
    c: CxView,
    s: State,
    class: Option<u16>,
    fqcn: Seq<char>,
    ctx: Seq<char>,
    params: Seq<TypeView>,
    is_ref: Seq<bool>,
    args: Seq<Arg>,
    acts: Seq<ActualView>,
) -> Done
    decreases c.level, args_size(args), 3nat, 0nat,
{
    match args_code(c, s, args, acts, expr_tys(params), is_ref, ctx) {
        Err(e) => Err(e),
        Ok((s1, plans)) => {
            let (s2, n) = s1.utf8("<construct>"@);
            let (s3, d) = s2.type_desc(
                method_descriptor_text(passed_types(params, is_ref), TypeView::Void),
            );
            let (s4, index) = match class {
                Some(i) => (s3, i),
                None => s3.class(fqcn),
            };
            let (s5, m) = s4.method_ref(index, n, d);
            let s6 = s5.op_u16(Opcode::InvokeSpecial, m, call_delta(true, acts.len(), true) as int);
            Ok(unboxed(s6, plans, plans.len() as int))
        },
    }
}

/// The constructor that `new` calls: parameter types, which are passed by
/// reference, and what each is given.
pub open spec fn new_target(c: CxView, s: State, fqcn: Seq<char>, args: Seq<Arg>) -> Result<
    (Seq<TypeView>, Seq<bool>, Seq<ActualView>),
    Seq<char>,
> {
    let native = match native_ctor_params(c.natives, fqcn, args.len()) {
        Some(ps) => Some(ps),
        None => native_ctor(fqcn, args.len()),
    };
    match native {
        Some(ps) => match positional(args) {
            Err(e) => Err(e),
            Ok(acts) => Ok((ps, no_refs(ps.len()), acts)),
        },
        None => match ctor_overload(c.classes, fqcn, args.len(), arg_types(c, args)) {
            None => Err(no_constructor(fqcn, args.len(), Seq::empty())),
            Some(ctor) => Ok(
                (ctor.params, ctor.is_ref, actuals(ctor.param_names, ctor.defaults, args)),
            ),
        },
    }
}

pub open spec fn no_constructor(fqcn: Seq<char>, argc: nat, purpose: Seq<char>) -> Seq<char> {
    "no constructor of '"@ + fqcn + "' with "@ + decimal_text(argc) + " argument(s)"@ + purpose
}

pub open spec fn new_code(c: CxView, s: State, class: Seq<char>, args: Seq<Arg>) -> Typed
    decreases c.level, args_size(args), 4nat, 0nat,
{
    let fqcn = class_name(c, class);
    let (s1, index) = s.class(fqcn);
    let s2 = s1.op_u16(Opcode::New, index, 1).op(Opcode::Dup, 1);
    match new_target(c, s, fqcn, args) {
        Err(e) => Err(e),
        Ok((params, is_ref, acts)) => match construct_code(c, s2, Some(index), fqcn, fqcn, params, is_ref, args, acts) {
            Err(e) => Err(e),
            Ok(s3) => Ok((s3, ExprTyView::Object(fqcn))),
        },
    }
}

pub open spec fn this_call_code(c: CxView, s: State, args: Seq<Arg>) -> Done
    decreases c.level, args_size(args), 4nat, 0nat,
{
    match ctor_overload(c.classes, c.this_fqcn, args.len(), arg_types(c, args)) {
        None => Err(no_constructor(c.this_fqcn, args.len(), " for this(...)"@)),
        Some(ctor) => construct_code(
            c,
            s.load(0),
            Some(c.this_class),
            c.this_fqcn,
            "this(...)"@,
            ctor.params,
            ctor.is_ref,
            args,
            actuals(ctor.param_names, ctor.defaults, args),
        ),
    }
}

pub open spec fn super_call_code(c: CxView, s: State, args: Seq<Arg>) -> Done
    decreases c.level, args_size(args), 4nat, 0nat,
{
    match superclass(c) {
        Err(e) => Err(e),
        Ok(parent) => match ctor_overload(c.classes, parent, args.len(), arg_types(c, args)) {
            None => Err(no_constructor(parent, args.len(), " for super(...)"@)),
            Some(ctor) => construct_code(
                c,
                s.load(0),
                None,
                parent,
                "super(...)"@,
                ctor.params,
                ctor.is_ref,
                args,
                actuals(ctor.param_names, ctor.defaults, args),
            ),
        },
    }
}

/// `super.name(...)`, which is bound to the superclass's method.
pub open spec fn super_method_code(c: CxView, s: State, name: Seq<char>, args: Seq<Arg>) -> Typed
    decreases c.level, args_size(args), 4nat, 0nat,
{
    match superclass(c) {
        Err(e) => Err(e),
        Ok(parent) => match just_method(
            overload_found(c.classes, parent, name, args.len(), arg_types(c, args)),
        ) {
            None => Err(
                "unknown method '"@ + name + "' on superclass '"@ + parent + "' with "@ + decimal_text(
                    args.len(),
                ) + " argument(s)"@,
            ),
            Some(m) => invoke_method_code(
                c,
                s.load(0),
                Opcode::InvokeSpecial,
                parent,
                name,
                m.params,
                m.is_ref,
                m.return_ty,
                args,
                actuals(m.param_names, m.defaults, args),
            ),
        },
    }
}

/// The number of sizes, from the `i`-th on, before the first omitted one.
pub open spec fn leading_sizes(dims: Seq<Option<Expr>>, i: int) -> nat
    decreases dims.len() - i,
{
    if i < 0 || i >= dims.len() || dims[i] is None {
        0
    } else {
        1 + leading_sizes(dims, i + 1)
    }
}

pub open spec fn new_array_code(c: CxView, s: State, elem: TypeView, dims: Seq<Option<Expr>>) -> Typed
    decreases c.level, dims_size(dims), 2nat, 0nat,
{
    let base = resolved_type(elem, c.imports);
    let result = expr_ty(layered(base, dims.len()));
    if leading_sizes(dims, 0) == 0 {
        Ok((s.op(Opcode::ConstNull, 1), result))
    } else {
        match array_level_code(c, s, 0, leading_sizes(dims, 0) as int, base, dims) {
            Err(e) => Err(e),
            Ok(s1) => Ok((s1, result)),
        }
    }
}

/// The array of one dimension, filled with those of the next where that has a
/// size.
pub open spec fn array_level_code(
    c: CxView,
    s: State,
    level: int,
    m: int,
    base: TypeView,
    dims: Seq<Option<Expr>>,
) -> Done
    decreases c.level, dims_size(dims), 1nat, (m - level) as nat,
{
    if level < 0 || level >= dims.len() || dims[level] is None {
        Err("array size missing"@)
    } else {
        proof {
            dim_smaller(dims, level);
        }
        match expr_code(c, s, dims[level]->0) {
            Err(e) => Err(e),
            Ok((s1, size_ty)) => {
                if size_ty !is Int {
                    Err("array size must be int, found "@ + shown(size_ty))
                } else {
                    let size = s1.next_local;
                    let elem = layered(base, (dims.len() - level - 1) as nat);
                    let (s2, desc) = s1.declare_scratch(ExprTyView::Int).store(size).type_desc(
                        type_descriptor_text(elem),
                    );
                    let s3 = s2.load(size).op_u16(Opcode::NewArray, desc, 0);
                    if level + 1 >= m {
                        Ok(s3)
                    } else {
                        let array = s3.next_local;
                        let s4 = s3.declare_scratch(ExprTyView::Array(Box::new(expr_ty(elem)))).store(
                            array,
                        );
                        let index = s4.next_local;
                        let s5 = s4.declare_scratch(ExprTyView::Int).int_const(0).store(index);
                        let s6 = s5.load(index).load(size).op(Opcode::CmpLt, -1);
                        let s7 = s6.branch(Opcode::IfFalse, -1).load(array).load(index);
                        match array_level_code(c, s7, level + 1, m, base, dims) {
                            Err(e) => Err(e),
                            Ok(s8) => {
                                let s9 = s8.op(Opcode::ArrayStore, -3).op_iinc(index, 1).goto_to(s5.pc());
                                Ok(s9.aim_here(s6.pc()).load(array))
                            },
                        }
                    }
                }
            },
        }
    }
}

/// The elements of an array from the `i`-th on.
pub open spec fn elements_code(
    c: CxView,
    s: State,
    ty: ExprTyView,
    elements: Seq<Expr>,
    i: int,
) -> Done
    decreases c.level, exprs_size(elements), 1nat, (elements.len() - i) as nat,
{
    if i < 0 || i >= elements.len() {
        Ok(s)
    } else {
        proof {
            item_smaller(elements, i);
        }
        match expr_code(c, s, elements[i]) {
            Err(e) => Err(e),
            Ok((s1, t)) => match coerced(s1, t, ty, "array element"@) {
                Err(e) => Err(e),
                Ok(s2) => elements_code(c, s2, ty, elements, i + 1),
            },
        }
    }
}

pub open spec fn array_init_code(c: CxView, s: State, elem: TypeView, elements: Seq<Expr>) -> Typed
    decreases c.level, exprs_size(elements), 2nat, 0nat,
{
    let base = resolved_type(elem, c.imports);
    match elements_code(c, s, expr_ty(base), elements, 0) {
        Err(e) => Err(e),
        Ok(s1) => {
            if elements.len() > 0xffff {
                Err(
                    "array initializer list has "@ + decimal_text(elements.len())
                        + " elements, max supported is 65535"@,
                )
            } else {
                let (s2, desc) = s1.type_desc(type_descriptor_text(base));
                Ok(
                    (
                        s2.op_u16_u16(
                            Opcode::NewArrayInit,
                            desc,
                            elements.len() as u16,
                            1 - elements.len(),
                        ),
                        ExprTyView::Array(Box::new(expr_ty(base))),
                    ),
                )
            }
        },
    }
}

/// The value of an enum's case.
pub open spec fn enum_value_code(c: CxView, s: State, name: Seq<char>, init: Option<Expr>) -> Done
    decreases c.level, 0nat, 0nat, 0nat,
{
    match init {
        None => Err("enum case '"@ + name + "' has no value"@),
        Some(e) => if c.level == 0 {
            Err("enum case '"@ + name + "' is defined in terms of itself"@)
        } else {
            match expr_code(c.deeper(), s, e) {
                Err(e) => Err(e),
                Ok((s1, _)) => Ok(s1),
            }
        },
    }
}

pub open spec fn field_access_code(c: CxView, s: State, target: Expr, name: Seq<char>) -> Typed
    decreases c.level, expr_size(target), 2nat, 0nat,
{
    proof {
        expr_parts(target);
    }
    match path_of(target) {
        Some(path) => {
            let leading = head_text(path, '.');
            if s.lookup(leading) is Some {
                member_code(c, s, target, name)
            } else {
                match native_constant_value(path, name) {
                    Some(v) => Ok((s.int_const(v), ExprTyView::Object(path))),
                    None => match enum_case(c, leading, name) {
                        Some((fqcn, f)) => {
                            match enum_value_code(c, s, name, f.init) {
                                Err(e) => Err(e),
                                Ok(s1) => Ok((s1, ExprTyView::Object(fqcn))),
                            }
                        },
                        None => match static_field(c, s, target, name) {
                            Some((owner, f)) => {
                                let (s1, field) = s.field_of(owner, name, f.ty);
                                Ok((s1.op_u16(Opcode::GetStatic, field, 1), expr_ty(f.ty)))
                            },
                            None => member_code(c, s, target, name),
                        },
                    },
                }
            }
        },
        None => member_code(c, s, target, name),
    }
}

/// The type behind the cases of an enum.
pub open spec fn backing_type(c: CxView, fqcn: Seq<char>) -> ExprTyView {
    match bound_to(c.classes, fqcn) {
        Some(info) => if info.fields.len() > 0 {
            expr_ty(info.fields[0].ty)
        } else {
            ExprTyView::Int
        },
        None => ExprTyView::Int,
    }
}

/// A field of an object. An enum's case is its own `value`.
pub open spec fn member_code(c: CxView, s: State, target: Expr, name: Seq<char>) -> Typed
    decreases c.level, expr_size(target), 1nat, 0nat,
{
    match expr_code(c, s, target) {
        Err(e) => Err(e),
        Ok((s1, target_ty)) => match target_ty {
            ExprTyView::Object(fqcn) => if name == "value"@ && enum_class(c, fqcn) {
                Ok((s1, backing_type(c, fqcn)))
            } else {
                match member_type(c, fqcn, name) {
                    Some(ty) => {
                        let (s2, field) = s1.field_of(fqcn, name, ty);
                        Ok((s2.op_u16(Opcode::GetField, field, 0), expr_ty(ty)))
                    },
                    None => Err("unknown field '"@ + name + "' on '"@ + fqcn + "'"@),
                }
            },
            _ => Err("field access on non-object type "@ + shown(target_ty)),
        },
    }
}

pub open spec fn method_call_code(
    c: CxView,
    s: State,
    target: Expr,
    name: Seq<char>,
    args: Seq<Arg>,
) -> Typed
    decreases c.level, expr_size(target) + args_size(args), 6nat, 0nat,
{
    proof {
        expr_parts(target);
    }
    if target is Super {
        super_method_code(c, s, name, args)
    } else {
        match path_of(target) {
            Some(path) => {
                let leading = head_text(path, '.');
                let fqcn = class_name(c, path);
                if s.lookup(leading) is None && stdlib_class(path) {
                    match positional(args) {
                        Err(e) => Err(e),
                        Ok(acts) => stdlib_call_code(c, s, path, name, args, acts),
                    }
                } else {
                    match just_method(
                        overload_found(c.classes, fqcn, name, args.len(), arg_types(c, args)),
                    ) {
                        Some(m) => if ident(c, s, leading) is None && m.is_static {
                            invoke_method_code(
                                c,
                                s,
                                Opcode::InvokeStatic,
                                fqcn,
                                name,
                                m.params,
                                m.is_ref,
                                m.return_ty,
                                args,
                                actuals(m.param_names, m.defaults, args),
                            )
                        } else {
                            value_call_code(c, s, target, name, args)
                        },
                        None => value_call_code(c, s, target, name, args),
                    }
                }
            },
            None => value_call_code(c, s, target, name, args),
        }
    }
}

pub open spec fn unknown_method(name: Seq<char>, on: Seq<char>, argc: nat) -> Seq<char> {
    "unknown method '"@ + name + "' on "@ + on + " with "@ + decimal_text(argc) + " argument(s)"@
}

/// The parameters of a method of a string beside the string itself.
pub open spec fn after_first(params: Seq<TypeView>) -> Seq<TypeView> {
    Seq::new(
        if params.len() > 0 {
            (params.len() - 1) as nat
        } else {
            0
        },
        |i: int| params[i + 1],
    )
}

/// A call of a method of a value.
pub open spec fn value_call_code(
    c: CxView,
    s: State,
    target: Expr,
    name: Seq<char>,
    args: Seq<Arg>,
) -> Typed
    decreases c.level, expr_size(target) + args_size(args), 5nat, 0nat,
{
    proof {
        expr_parts(target);
    }
    match expr_code(c, s, target) {
        Err(e) => Err(e),
        Ok((s1, target_ty)) => match target_ty {
            ExprTyView::Array(elem) => if name == "length"@ && args.len() == 0 {
                Ok((s1.op(Opcode::ArrayLength, 0), ExprTyView::Int))
            } else {
                match positional(args) {
                    Err(e) => Err(e),
                    Ok(acts) => array_method_code(c, s1, *elem, name, args, acts),
                }
            },
            ExprTyView::StringT => match native_static("system.String"@, name, args.len() + 1) {
                None => Err(unknown_method(name, "string"@, args.len())),
                Some((params, ret)) => {
                    match positional(args) {
                        Err(e) => Err(e),
                        Ok(acts) => {
                            match args_code(
                                c,
                                s1,
                                args,
                                acts,
                                expr_tys(after_first(params)),
                                Seq::empty(),
                                name,
                            ) {
                                Err(e) => Err(e),
                                Ok((s2, plans)) => {
                                    Ok(s2.native_static("system.String"@, name, params, ret))
                                },
                            }
                        },
                    }
                },
            },
            ExprTyView::Object(fqcn) => object_call_code(c, s1, fqcn, name, args),
            _ => Err("method call on unsupported type "@ + shown(target_ty)),
        },
    }
}

/// A call of a method of the object on the stack.
pub open spec fn object_call_code(
    c: CxView,
    s: State,
    fqcn: Seq<char>,
    name: Seq<char>,
    args: Seq<Arg>,
) -> Typed
    decreases c.level, args_size(args), 4nat, 0nat,
{
    let op = if enum_class(c, fqcn) {
        Opcode::InvokeSpecial
    } else {
        Opcode::InvokeInstance
    };
    let native = match instance_sig(fqcn, name, args.len()) {
        Some(sig) => Some(sig),
        None => native_method_sig(c.natives, fqcn, name, args.len()),
    };
    match native {
        Some((params, ret)) => {
            match positional(args) {
                Err(e) => Err(e),
                Ok(acts) => {
                    invoke_method_code(
                        c,
                        s,
                        op,
                        fqcn,
                        name,
                        params,
                        no_refs(params.len()),
                        ret,
                        args,
                        acts,
                    )
                },
            }
        },
        None => match just_method(
            overload_found(c.classes, fqcn, name, args.len(), arg_types(c, args)),
        ) {
            None => Err(unknown_method(name, "'"@ + fqcn + "'"@, args.len())),
            Some(m) => invoke_method_code(
                c,
                s,
                op,
                fqcn,
                name,
                m.params,
                m.is_ref,
                m.return_ty,
                args,
                actuals(m.param_names, m.defaults, args),
            ),
        },
    }
}

/// The methods of an array that take a closure.
#[verifier::opaque]
pub open spec fn callback_method(name: Seq<char>) -> bool {
    name == "map"@ || name == "filter"@ || name == "forEach"@ || name == "sort"@ || name
        == "find"@
}

/// A part of an array.
pub open spec fn slice_code(
    c: CxView,
    s: State,
    elem: ExprTyView,
    name: Seq<char>,
    args: Seq<Arg>,
    acts: Seq<ActualView>,
) -> Typed
    decreases c.level, args_size(args), 3nat, 0nat,
{
    let ints = seq![ExprTyView::Int, ExprTyView::Int];
    let ret = ExprTyView::Array(Box::new(elem));
    match args_code(c, s, args, acts, ints, Seq::empty(), name) {
        Err(e) => Err(e),
        Ok((s1, plans)) => Ok((s1.array_call(name, ints, ret), ret)),
    }
}

/// A call of a built-in method of the array on the stack.
pub open spec fn array_method_code(
    c: CxView,
    s: State,
    elem: ExprTyView,
    name: Seq<char>,
    args: Seq<Arg>,
    acts: Seq<ActualView>,
) -> Typed
    decreases c.level, args_size(args), 4nat, 0nat,
{
    if name == "slice"@ && args.len() == 2 {
        slice_code(c, s, elem, name, args, acts)
    } else if args.len() == 1 && callback_method(name) {
        proof {
            arg_smaller(args, 0);
        }
        match expr_code(c, s, args[0].value) {
            Err(e) => Err(e),
            Ok((s1, closure_ty)) => match array_method_type(elem, name, closure_ty) {
                Err(e) => Err(e),
                Ok(ret) => match coerced(s1, closure_ty, ExprTyView::Void, name) {
                    Err(e) => Err(e),
                    Ok(s2) => Ok((s2.array_call(name, seq![ExprTyView::Void], ret), ret)),
                },
            },
        }
    } else {
        Err(
            "unknown array method '"@ + name + "' with "@ + decimal_text(args.len())
                + " argument(s)"@,
        )
    }
}

/// What an array's method returns that takes a closure.
#[verifier::opaque]
pub open spec fn array_method_type(elem: ExprTyView, name: Seq<char>, closure: ExprTyView) -> Result<
    ExprTyView,
    Seq<char>,
> {
    if name == "map"@ {
        match closure {
            ExprTyView::Closure { return_ty, .. } => Ok(ExprTyView::Array(return_ty)),
            _ => Err("'"@ + name + "' expects a closure argument"@),
        }
    } else if name == "filter"@ {
        Ok(ExprTyView::Array(Box::new(elem)))
    } else if name == "find"@ {
        Ok(elem)
    } else {
        Ok(ExprTyView::Void)
    }
}

/// Printing: one value, as a string.
pub open spec fn print_code(c: CxView, s: State, fqcn: Seq<char>, name: Seq<char>, args: Seq<Arg>) -> Typed
    decreases c.level, args_size(args), 2nat, 0nat,
{
    if args.len() != 1 {
        Err("'"@ + name + "' expects 1 argument, got "@ + decimal_text(args.len()))
    } else {
        proof {
            arg_smaller(args, 0);
        }
        match expr_code(c, s, args[0].value) {
            Err(e) => Err(e),
            Ok((s1, t)) => {
                if t is StringT || t is Int || t is Float || t is Bool {
                    Ok(
                        stringed(s1, t).native_static(
                            fqcn,
                            name,
                            seq![TypeView::StringT],
                            TypeView::Void,
                        ),
                    )
                } else {
                    Err("'"@ + name + "' expects a string/int/float/bool argument, got "@ + shown(t))
                }
            },
        }
    }
}

/// Whether a value is a string or a list of them.
pub open spec fn command_like(t: ExprTyView) -> bool {
    match t {
        ExprTyView::StringT => true,
        ExprTyView::Array(elem) => *elem is StringT,
        _ => false,
    }
}

/// Running a process, given as a command or as a list of arguments.
pub open spec fn run_code(c: CxView, s: State, fqcn: Seq<char>, name: Seq<char>, args: Seq<Arg>) -> Typed
    decreases c.level, args_size(args), 2nat, 0nat,
{
    if args.len() != 1 {
        Err("'run' expects 1 argument, got "@ + decimal_text(args.len()))
    } else {
        proof {
            arg_smaller(args, 0);
        }
        match expr_code(c, s, args[0].value) {
            Err(e) => Err(e),
            Ok((s1, t)) => {
                if command_like(t) {
                    Ok(
                        s1.native_static(
                            fqcn,
                            name,
                            seq![as_type(t)],
                            named_view("system.ps.ProcessResult"@),
                        ),
                    )
                } else {
                    Err("'run' expects a string or string[] argument, got "@ + shown(t))
                }
            },
        }
    }
}

/// A call of a static method of a native class.
pub open spec fn stdlib_call_code(
    c: CxView,
    s: State,
    fqcn: Seq<char>,
    name: Seq<char>,
    args: Seq<Arg>,
    acts: Seq<ActualView>,
) -> Typed
    decreases c.level, args_size(args), 3nat, 0nat,
{
    if printlike(fqcn, name) {
        print_code(c, s, fqcn, name, args)
    } else if fqcn == "system.ps.Process"@ && name == "run"@ {
        run_code(c, s, fqcn, name, args)
    } else {
        match native_static(fqcn, name, args.len()) {
            None => Err(
                "unknown stdlib method '"@ + fqcn + "."@ + name + "' with "@ + decimal_text(
                    args.len(),
                ) + " argument(s)"@,
            ),
            Some((params, ret)) => {
                match args_code(
                    c,
                    s,
                    args,
                    acts,
                    expr_tys(params),
                    Seq::empty(),
                    name,
                ) {
                    Err(e) => Err(e),
                    Ok((s1, plans)) => Ok(s1.native_static(fqcn, name, params, ret)),
                }
            },
        }
    }
}

pub open spec fn index_code(c: CxView, s: State, target: Expr, index: Expr) -> Typed
    decreases c.level, expr_size(target) + expr_size(index), 2nat, 0nat,
{
    proof {
        expr_parts(target);
        expr_parts(index);
    }
    match expr_code(c, s, target) {
        Err(e) => Err(e),
        Ok((s1, target_ty)) => match target_ty {
            ExprTyView::Array(elem) => {
                match expr_code(c, s1, index) {
                    Err(e) => Err(e),
                    Ok((s2, index_ty)) => {
                        if index_ty is Int {
                            Ok((s2.op(Opcode::ArrayLoad, -1), *elem))
                        } else {
                            Err("array index must be int"@)
                        }
                    },
                }
            },
            _ => Err("indexing on non-array type "@ + shown(target_ty)),
        },
    }
}

pub open spec fn instanceof_code(c: CxView, s: State, target: Expr, class: Seq<char>) -> Typed
    decreases c.level, expr_size(target), 1nat, 0nat,
{
    match expr_code(c, s, target) {
        Err(e) => Err(e),
        Ok((s1, _)) => {
            let (s2, index) = s1.class(class_name(c, class));
            Ok((s2.op_u16(Opcode::InstanceOf, index, 0), ExprTyView::Bool))
        },
    }
}

pub open spec fn cast_code(c: CxView, s: State, ty: TypeView, inner: Expr) -> Typed
    decreases c.level, expr_size(inner), 1nat, 0nat,
{
    match expr_code(c, s, inner) {
        Err(e) => Err(e),
        Ok((s1, actual)) => {
            let target = expr_ty(resolved_type(ty, c.imports));
            Ok((converted(s1, actual, target), target))
        },
    }
}

pub open spec fn unary_method(op: UnOp) -> Seq<char> {
    match op {
        UnOp::Neg => "operator-"@,
        UnOp::Not => "operator!"@,
    }
}

/// An operator applied to the value on the stack.
pub open spec fn unary_op(c: CxView, s: State, op: UnOp, ty: ExprTyView) -> Typed {
    let found = match ty {
        ExprTyView::Object(fqcn) => match method_found(
            c.classes,
            fqcn,
            Wanted::Operator { name: unary_method(op), params: Seq::empty() },
        ) {
            Some((_, m)) => Some((fqcn, m.return_ty)),
            None => None,
        },
        _ => None,
    };
    match (found, op, ty) {
        (Some((fqcn, ret)), _, _) => Ok(
            s.operator_call(fqcn, unary_method(op), Seq::empty(), ret),
        ),
        (None, UnOp::Neg, ExprTyView::Int) => Ok((s.op(Opcode::INeg, 0), ty)),
        (None, UnOp::Neg, ExprTyView::Float) => Ok((s.op(Opcode::FNeg, 0), ty)),
        (None, UnOp::Neg, _) => Err("unary '-' on "@ + shown(ty)),
        (None, UnOp::Not, ExprTyView::Bool) => Ok((s.op(Opcode::Not, 0), ty)),
        (None, UnOp::Not, _) => Err("unary '!' on "@ + shown(ty)),
    }
}

pub open spec fn unary_code(c: CxView, s: State, op: UnOp, inner: Expr) -> Typed
    decreases c.level, expr_size(inner), 1nat, 0nat,
{
    match expr_code(c, s, inner) {
        Err(e) => Err(e),
        Ok((s1, ty)) => unary_op(c, s1, op, ty),
    }
}

/// Turns the value on the stack into a string, if it is none.
pub open spec fn stringed(s: State, ty: ExprTyView) -> State {
    if ty is StringT {
        s
    } else {
        s.op(Opcode::ToString, 0)
    }
}

/// An operator applied to the two values on the stack.
pub open spec fn binary_op(s: State, op: BinOp, l: ExprTyView, r: ExprTyView) -> Typed {
    if (op is Eq || op is Ne) && !(number(l) && number(r)) {
        Ok(
            (
                s.op(
                    if op is Eq {
                        Opcode::CmpEq
                    } else {
                        Opcode::CmpNe
                    },
                    -1,
                ),
                ExprTyView::Bool,
            ),
        )
    } else {
        match promoted(s, l, r) {
            Err(e) => Err(e),
            Ok((s1, ty)) => match op {
                BinOp::Eq => Ok((s1.op(Opcode::CmpEq, -1), ExprTyView::Bool)),
                BinOp::Ne => Ok((s1.op(Opcode::CmpNe, -1), ExprTyView::Bool)),
                BinOp::Lt => Ok((s1.op(Opcode::CmpLt, -1), ExprTyView::Bool)),
                BinOp::Gt => Ok((s1.op(Opcode::CmpGt, -1), ExprTyView::Bool)),
                BinOp::Le => Ok((s1.op(Opcode::CmpLe, -1), ExprTyView::Bool)),
                BinOp::Ge => Ok((s1.op(Opcode::CmpGe, -1), ExprTyView::Bool)),
                BinOp::Cmp3 => Ok((s1.op(Opcode::CmpThreeWay, -1), ExprTyView::Int)),
                _ => Ok((s1.op(arithmetic(op, ty), -1), ty)),
            },
        }
    }
}

pub open spec fn binary_code(c: CxView, s: State, op: BinOp, lhs: Expr, rhs: Expr) -> Typed
    decreases c.level, expr_size(lhs) + expr_size(rhs), 3nat, 0nat,
{
    proof {
        expr_parts(lhs);
        expr_parts(rhs);
    }
    let (l, r) = (peeked(c, s, lhs), peeked(c, s, rhs));
    if op is And || op is Or {
        short_circuit_code(c, s, op is And, lhs, rhs)
    } else {
        match overloaded(c, op, l, r) {
            Some(o) => {
                match expr_code(c, s, lhs) {
                    Err(e) => Err(e),
                    Ok((s1, _)) => match expr_code(c, s1, rhs) {
                        Err(e) => Err(e),
                        Ok((s2, _)) => {
                            Ok(s2.operator_call(o.fqcn, o.name, seq![o.operand], o.return_ty))
                        },
                    },
                }
            },
            None => {
                match expr_code(c, s, lhs) {
                    Err(e) => Err(e),
                    Ok((s1, ty_l)) => {
                        if op is Add && joins_strings(l, r) {
                            match expr_code(c, stringed(s1, ty_l), rhs) {
                                Err(e) => Err(e),
                                Ok((s2, ty_r)) => {
                                    Ok((stringed(s2, ty_r).op(Opcode::StrConcat, -1), ExprTyView::StringT))
                                },
                            }
                        } else {
                            match expr_code(c, s1, rhs) {
                                Err(e) => Err(e),
                                Ok((s2, ty_r)) => binary_op(s2, op, ty_l, ty_r),
                            }
                        }
                    },
                }
            },
        }
    }
}

pub open spec fn short_circuit_code(c: CxView, s: State, is_and: bool, lhs: Expr, rhs: Expr) -> Typed
    decreases c.level, expr_size(lhs) + expr_size(rhs), 2nat, 0nat,
{
    proof {
        expr_parts(lhs);
        expr_parts(rhs);
    }
    match expr_code(c, s, lhs) {
        Err(e) => Err(e),
        Ok((s1, ty_l)) => {
            if ty_l !is Bool {
                Err("logical operator on non-bool "@ + shown(ty_l))
            } else {
                let s2 = s1.op(Opcode::Dup, 1);
                let s3 = s2.branch(
                    if is_and {
                        Opcode::IfFalse
                    } else {
                        Opcode::IfTrue
                    },
                    -1,
                );
                match expr_code(c, s3.op(Opcode::Pop, -1), rhs) {
                    Err(e) => Err(e),
                    Ok((s4, ty_r)) => {
                        if ty_r !is Bool {
                            Err("logical operator on non-bool "@ + shown(ty_r))
                        } else {
                            let s5 = s4.branch(Opcode::Goto, 0);
                            Ok((s5.aim_here(s2.pc()).aim_here(s4.pc()), ExprTyView::Bool))
                        }
                    },
                }
            }
        },
    }
}

/// A block, in a scope of its own.
pub open spec fn block_code(c: CxView, s: State, block: Seq<Stmt>, fin: Seq<Seq<Stmt>>) -> Done
    decreases c.level, block_size(block) + fin_size(fin), 2nat, 0nat,
{
    match stmts_code(c, s.push_scope(), block, fin, 0) {
        Err(e) => Err(e),
        Ok(s1) => Ok(s1.pop_scope()),
    }
}

/// The statements of a list from the `i`-th on.
pub open spec fn stmts_code(
    c: CxView,
    s: State,
    block: Seq<Stmt>,
    fin: Seq<Seq<Stmt>>,
    i: int,
) -> Done
    decreases c.level, block_size(block) + fin_size(fin), 1nat, (block.len() - i) as nat,
{
    if i < 0 || i >= block.len() {
        Ok(s)
    } else {
        proof {
            stmt_no_larger(block, i);
        }
        match stmt_code(c, s, block[i], fin) {
            Err(e) => Err(e),
            Ok(s1) => stmts_code(c.after(block[i]), s1, block, fin, i + 1),
        }
    }
}

/// The `finally` blocks that an exit passes through, from the innermost of the
/// first `k` down to the one above `from`. Inside each only those around it
/// are still to come.
pub open spec fn replay_code(c: CxView, s: State, fin: Seq<Seq<Stmt>>, from: int, k: int) -> Done
    decreases c.level, fin_size(fin.take(k)), 2nat, 0nat,
{
    if k <= 0 || k <= from || k > fin.len() {
        Ok(s)
    } else {
        proof {
            frame_smaller(fin, k - 1);
        }
        match stmts_code(c.at_try(k - 1), s, fin[k - 1], fin.take(k - 1), 0) {
            Err(e) => Err(e),
            Ok(s1) => replay_code(c, s1, fin, from, k - 1),
        }
    }
}

/// A statement.
pub open spec fn stmt_code(c: CxView, s: State, stmt: Stmt, fin: Seq<Seq<Stmt>>) -> Done
    decreases c.level, stmt_size(stmt) + fin_size(fin), 0nat, 0nat,
{
    let s0 = s.line(stmt.line);
    let n = fin.len() as int;
    proof {
        stack_prefix(fin, n);
    }
    match stmt.kind {
        StmtKind::Return(value) => match value {
            Some(e) => {
                match expr_code(c, s0, e) {
                    Err(e) => Err(e),
                    Ok((s1, ty)) => match replay_code(c, s1.infer_return(ty), fin, 0, n) {
                        Err(e) => Err(e),
                        Ok(s2) => Ok(s2.exit_op(Opcode::ReturnValue)),
                    },
                }
            },
            None => {
                match replay_code(c, s0, fin, 0, n) {
                    Err(e) => Err(e),
                    Ok(s1) => Ok(s1.exit_op(Opcode::Return)),
                }
            },
        },
        StmtKind::Expr(e) => dropped_code(c, s0, e),
        StmtKind::VarDecl { ty, name, init, .. } => match init {
            Some(e) => var_init_code(c, s0, ty, name@, e),
            None => var_decl_code(c, s0, ty, name@),
        },
        StmtKind::ThisCall(args) => this_call_code(c, s0, args@),
        StmtKind::SuperCall(args) => super_call_code(c, s0, args@),
        StmtKind::Throw(e) => {
            match expr_code(c, s0, e) {
                Err(e) => Err(e),
                Ok((s1, _)) => Ok(s1.op(Opcode::Throw, -1)),
            }
        },
        StmtKind::Try { body, catches, finally } => try_code(c, s0, body@, catches@, finally, fin),
        StmtKind::If { cond, then_branch, else_branch } => if_code(
            c,
            s0,
            cond,
            then_branch@,
            else_branch,
            fin,
        ),
        StmtKind::While { cond, body } => while_code(c, s0, cond, body@, fin),
        StmtKind::For { init, cond, step, body } => for_code(c, s0, init@, cond, step@, body@, fin),
        StmtKind::ForEach { ty, var, iterable, body } => foreach_code(
            c,
            s0,
            ty,
            var@,
            iterable,
            body@,
            fin,
        ),
        StmtKind::Break => if s0.loops.len() == 0 {
            Err("'break' outside a loop or switch"@)
        } else {
            match replay_code(c, s0, fin, s0.loops.last().finally_depth, n) {
                Err(e) => Err(e),
                Ok(s1) => {
                    let s2 = s1.branch(Opcode::Goto, 0);
                    Ok(s2.add_break(s2.loops.len() - 1, s1.pc()))
                },
            }
        },
        StmtKind::Continue => match real_loop(s0.loops, s0.loops.len() as int) {
            None => Err("'continue' outside a loop"@),
            Some(k) => {
                match replay_code(c, s0, fin, s0.loops[k].finally_depth, n) {
                    Err(e) => Err(e),
                    Ok(s1) => {
                        let s2 = s1.branch(Opcode::Goto, 0);
                        Ok(
                            match real_loop(s2.loops, s2.loops.len() as int) {
                                Some(j) => s2.add_continue(j, s1.pc()),
                                None => s2,
                            },
                        )
                    },
                }
            },
        },
        StmtKind::Block(block) => block_code(c, s0, block@, fin),
        StmtKind::Switch { subject, cases } => switch_code(c, s0, subject, cases@, fin),
    }
}

/// The type that a declaration gives a variable.
pub open spec fn declared_type(c: CxView, ty: Type) -> ExprTyView {
    expr_ty(resolved_type(ty@, c.imports))
}

pub open spec fn untyped(name: Seq<char>) -> Seq<char> {
    "variable '"@ + name + "' needs a declared type"@
}

/// A declaration with an initial value.
pub open spec fn var_init_code(
    c: CxView,
    s: State,
    ty: Option<Type>,
    name: Seq<char>,
    init: Expr,
) -> Done
    decreases c.level, expr_size(init), 1nat, 0nat,
{
    if c.boxed_captures.contains(name) {
        match ty {
            None => Err(untyped(name)),
            Some(t) => {
                let declared = declared_type(c, t);
                let s1 = s.new_of(box_name(as_type(declared))).op(Opcode::Dup, 1);
                match expr_code(c, s1, init) {
                    Err(e) => Err(e),
                    Ok((s2, init_ty)) => match coerced(s2, init_ty, declared, name) {
                        Err(e) => Err(e),
                        Ok(s3) => {
                            let (s4, field) = s3.box_value(declared);
                            let s5 = s4.op_u16(Opcode::SetField, field, -2);
                            Ok(s5.declare_ref(name, declared).store(s5.next_local))
                        },
                    },
                }
            },
        }
    } else {
        match expr_code(c, s, init) {
            Err(e) => Err(e),
            Ok((s1, init_ty)) => {
                let declared = match ty {
                    Some(t) => declared_type(c, t),
                    None => init_ty,
                };
                match coerced(s1, init_ty, declared, name) {
                    Err(e) => Err(e),
                    Ok(s2) => Ok(s2.declare_local(name, declared).store(s2.next_local)),
                }
            },
        }
    }
}

/// A declaration without an initial value.
pub open spec fn var_decl_code(c: CxView, s: State, ty: Option<Type>, name: Seq<char>) -> Done {
    match ty {
        None => Err(untyped(name)),
        Some(t) => if c.boxed_captures.contains(name) {
            Ok(s.empty_box(name, declared_type(c, t)))
        } else {
            Ok(s.declare_local(name, declared_type(c, t)))
        },
    }
}

pub open spec fn if_code(
    c: CxView,
    s: State,
    cond: Expr,
    then_branch: Seq<Stmt>,
    else_branch: Option<Vec<Stmt>>,
    fin: Seq<Seq<Stmt>>,
) -> Done
    decreases
        c.level,
        expr_size(cond) + block_size(then_branch) + opt_block_size(else_branch) + fin_size(fin),
        3nat,
        0nat,
{
    proof {
        expr_parts(cond);
    }
    match bool_code(c, s, cond) {
        Err(e) => Err(e),
        Ok(s1) => {
            let s2 = s1.branch(Opcode::IfFalse, -1);
            let narrow = narrowing(c, s2, cond);
            let inside = c.with_typings(cast(c.site(), c.typings, cond, then_branch));
            match block_code(inside, narrowed(s2, narrow), then_branch, fin) {
                Err(e) => Err(e),
                Ok(s3) => {
                    let s4 = widened_back(s3, narrow);
                    match else_branch {
                        Some(block) => {
                            let s5 = s4.branch(Opcode::Goto, 0).aim_here(s1.pc());
                            match block_code(c, s5, block@, fin) {
                                Err(e) => Err(e),
                                Ok(s6) => Ok(s6.aim_here(s4.pc())),
                            }
                        },
                        None => Ok(s4.aim_here(s1.pc())),
                    }
                },
            }
        },
    }
}

/// The end of a loop: back to `top`, with `exit` and the breaks aimed past it.
pub open spec fn loop_end(s: State, top: int, exit: Option<int>, breaks: Seq<int>) -> State {
    let s1 = s.goto_to(top);
    let s2 = match exit {
        Some(pc) => s1.aim_here(pc),
        None => s1,
    };
    s2.aim_all(breaks, s2.pc())
}

pub open spec fn while_code(
    c: CxView,
    s: State,
    cond: Expr,
    body: Seq<Stmt>,
    fin: Seq<Seq<Stmt>>,
) -> Done
    decreases c.level, expr_size(cond) + block_size(body) + fin_size(fin), 3nat, 0nat,
{
    proof {
        expr_parts(cond);
    }
    match bool_code(c, s, cond) {
        Err(e) => Err(e),
        Ok(s1) => {
            let s2 = s1.branch(Opcode::IfFalse, -1).enter_loop(new_loop(fin.len() as int, false));
            match block_code(c, s2, body, fin) {
                Err(e) => Err(e),
                Ok(s3) => {
                    let l = s3.this_loop();
                    let s4 = s3.leave_loop().aim_all(l.continue_patches, s.pc());
                    Ok(loop_end(s4, s.pc(), Some(s1.pc()), l.break_patches))
                },
            }
        },
    }
}

/// The step expressions of a loop from the `i`-th on.
pub open spec fn steps_code(c: CxView, s: State, steps: Seq<Expr>, i: int) -> Done
    decreases c.level, exprs_size(steps), 2nat, (steps.len() - i) as nat,
{
    if i < 0 || i >= steps.len() {
        Ok(s)
    } else {
        proof {
            item_smaller(steps, i);
        }
        match dropped_code(c, s, steps[i]) {
            Err(e) => Err(e),
            Ok(s1) => steps_code(c, s1, steps, i + 1),
        }
    }
}

/// The test of a loop, and the jump out of it, if it has a condition.
pub open spec fn loop_test_code(c: CxView, s: State, cond: Option<Expr>) -> Result<
    (State, Option<int>),
    Seq<char>,
>
    decreases c.level, opt_size(cond), 2nat, 0nat,
{
    match cond {
        Some(e) => {
            match bool_code(c, s, e) {
                Err(e) => Err(e),
                Ok(s1) => Ok((s1.branch(Opcode::IfFalse, -1), Some(s1.pc()))),
            }
        },
        None => Ok((s, None)),
    }
}

pub open spec fn for_code(
    c: CxView,
    s: State,
    init: Seq<Stmt>,
    cond: Option<Expr>,
    step: Seq<Expr>,
    body: Seq<Stmt>,
    fin: Seq<Seq<Stmt>>,
) -> Done
    decreases
        c.level,
        block_size(init) + opt_size(cond) + exprs_size(step) + block_size(body) + fin_size(fin),
        3nat,
        0nat,
{
    match stmts_code(c, s.push_scope(), init, fin, 0) {
        Err(e) => Err(e),
        Ok(s1) => {
            let c = c.with_typings(after_all(c.site(), c.typings, init, init.len() as int));
            match loop_test_code(c, s1, cond) {
                Err(e) => Err(e),
                Ok((s2, exit)) => {
                    let s3 = s2.enter_loop(new_loop(fin.len() as int, false));
                    match block_code(c, s3, body, fin) {
                        Err(e) => Err(e),
                        Ok(s4) => {
                            let l = s4.this_loop();
                            let s5 = s4.leave_loop().aim_all(l.continue_patches, s4.pc());
                            match steps_code(c, s5, step, 0) {
                                Err(e) => Err(e),
                                Ok(s6) => {
                                    Ok(loop_end(s6, s1.pc(), exit, l.break_patches).pop_scope())
                                },
                            }
                        },
                    }
                },
            }
        },
    }
}

/// The collection that a `for` loop walks, on the stack: an array, or a list
/// of the class given, and the type of its elements. A map is walked by its
/// entries.
pub open spec fn iterated(c: CxView, s: State, ty: ExprTyView) -> Result<
    (State, ExprTyView, Option<Seq<char>>, ExprTyView),
    Seq<char>,
> {
    let over_map = match ty {
        ExprTyView::Object(fqcn) => if begins_with(fqcn, "system.Map<"@) {
            match native_method_sig(c.natives, fqcn, "entries"@, 0) {
                Some((_, ret)) => match native_instance_call(c, s, fqcn, "entries"@, 0) {
                    Ok(s1) => Ok((s1, expr_ty(ret))),
                    Err(e) => Err(e),
                },
                None => Err("'"@ + fqcn + "' has no method entries()"@),
            }
        } else {
            Typed::Ok((s, ty))
        },
        _ => Typed::Ok((s, ty)),
    };
    match over_map {
        Err(e) => Err(e),
        Ok((s1, ty1)) => match ty1 {
            ExprTyView::Array(elem) => Ok((s1, ty1, None, *elem)),
            ExprTyView::Object(fqcn) => if begins_with(fqcn, "system.List<"@) {
                match native_method_sig(c.natives, fqcn, "get"@, 1) {
                    Some((_, ret)) => Ok((s1, ty1, Some(fqcn), expr_ty(ret))),
                    None => Err("'"@ + fqcn + "' has no method get(int)"@),
                }
            } else {
                Err(not_iterable(ty1))
            },
            _ => Err(not_iterable(ty1)),
        },
    }
}

pub open spec fn not_iterable(ty: ExprTyView) -> Seq<char> {
    "for-each over non-iterable type "@ + shown(ty)
        + " (arrays, system.List and system.Map only)"@
}

/// The number of elements of the collection on the stack.
pub open spec fn size_code(c: CxView, s: State, list: Option<Seq<char>>) -> Done {
    match list {
        Some(fqcn) => native_instance_call(c, s, fqcn, "size"@, 0),
        None => Ok(s.op(Opcode::ArrayLength, 0)),
    }
}

/// The element of the collection below the index on the stack.
pub open spec fn element_code(c: CxView, s: State, list: Option<Seq<char>>) -> Done {
    match list {
        Some(fqcn) => native_instance_call(c, s, fqcn, "get"@, 1),
        None => Ok(s.op(Opcode::ArrayLoad, -1)),
    }
}

pub open spec fn foreach_code(
    c: CxView,
    s: State,
    ty: Option<Type>,
    var: Seq<char>,
    iterable: Expr,
    body: Seq<Stmt>,
    fin: Seq<Seq<Stmt>>,
) -> Done
    decreases c.level, expr_size(iterable) + block_size(body) + fin_size(fin), 3nat, 0nat,
{
    proof {
        expr_parts(iterable);
    }
    match expr_code(c, s.push_scope(), iterable) {
        Err(e) => Err(e),
        Ok((s1, iterable_ty)) => match iterated(c, s1, iterable_ty) {
            Err(e) => Err(e),
            Ok((s2, coll_ty, list, elem_ty)) => {
                let coll = s2.next_local;
                let s3 = s2.declare_scratch(coll_ty).store(coll);
                let index = s3.next_local;
                let s4 = s3.declare_scratch(ExprTyView::Int).int_const(0).store(index);
                let item = s4.next_local;
                let item_ty = match ty {
                    Some(t) => declared_type(c, t),
                    None => elem_ty,
                };
                let s5 = s4.declare_local(var, item_ty);
                match size_code(c, s5.load(index).load(coll), list) {
                    Err(e) => Err(e),
                    Ok(s6) => {
                        let s7 = s6.op(Opcode::CmpLt, -1);
                        match element_code(c, s7.branch(Opcode::IfFalse, -1).load(coll).load(index), list) {
                            Err(e) => Err(e),
                            Ok(s8) => {
                                let s9 = s8.store(item).enter_loop(new_loop(fin.len() as int, false));
                                let inside = c.telling(
                                    var,
                                    item_type(c.site(), c.typings, ty, iterable),
                                );
                                match block_code(inside, s9, body, fin) {
                                    Err(e) => Err(e),
                                    Ok(s10) => {
                                        let l = s10.this_loop();
                                        let s11 = s10.leave_loop().aim_all(l.continue_patches, s10.pc()).op_iinc(index, 1);
                                        Ok(loop_end(s11, s5.pc(), Some(s7.pc()), l.break_patches).pop_scope())
                                    },
                                }
                            },
                        }
                    },
                }
            },
        },
    }
}

/// The comparisons of a `switch` from the `i`-th case on: the jump to each
/// case, and which is the default one.
pub open spec fn dispatch_code(
    c: CxView,
    s: State,
    subject: u16,
    ty: ExprTyView,
    cases: Seq<SwitchCase>,
    i: int,
    jumps: Seq<(int, int)>,
    default: Option<int>,
) -> Result<(State, Seq<(int, int)>, Option<int>), Seq<char>>
    decreases c.level, cases_size(cases), 1nat, (cases.len() - i) as nat,
{
    if i < 0 || i >= cases.len() {
        Ok((s, jumps, default))
    } else {
        proof {
            case_smaller(cases, i);
        }
        match cases[i].value {
            Some(value) => {
                match expr_code(c, s.load(subject), value) {
                    Err(e) => Err(e),
                    Ok((s1, value_ty)) => match coerced(s1, value_ty, ty, "switch case"@) {
                        Err(e) => Err(e),
                        Ok(s2) => {
                            let s3 = s2.op(Opcode::CmpEq, -1);
                            dispatch_code(
                                c,
                                s3.branch(Opcode::IfTrue, -1),
                                subject,
                                ty,
                                cases,
                                i + 1,
                                jumps.push((i, s3.pc())),
                                default,
                            )
                        },
                    },
                }
            },
            None => dispatch_code(c, s, subject, ty, cases, i + 1, jumps, Some(i)),
        }
    }
}

/// The bodies of a `switch` from the `i`-th case on, and where each begins.
pub open spec fn bodies_code(
    c: CxView,
    s: State,
    cases: Seq<SwitchCase>,
    fin: Seq<Seq<Stmt>>,
    i: int,
    starts: Seq<int>,
) -> Result<(State, Seq<int>), Seq<char>>
    decreases c.level, cases_size(cases) + fin_size(fin), 1nat, (cases.len() - i) as nat,
{
    if i < 0 || i >= cases.len() {
        Ok((s, starts))
    } else {
        proof {
            case_smaller(cases, i);
        }
        match block_code(c, s, cases[i].body@, fin) {
            Err(e) => Err(e),
            Ok(s1) => bodies_code(c, s1, cases, fin, i + 1, starts.push(s.pc())),
        }
    }
}

/// Aims the first `n` jumps of a `switch` at the bodies of their cases.
pub open spec fn aimed_cases(s: State, jumps: Seq<(int, int)>, starts: Seq<int>, n: int) -> State
    decreases n,
{
    if n <= 0 {
        s
    } else {
        let (case, pc) = jumps[n - 1];
        aimed_cases(s, jumps, starts, n - 1).aim(pc, starts[case])
    }
}

pub open spec fn switch_code(
    c: CxView,
    s: State,
    subject: Expr,
    cases: Seq<SwitchCase>,
    fin: Seq<Seq<Stmt>>,
) -> Done
    decreases c.level, expr_size(subject) + cases_size(cases) + fin_size(fin), 3nat, 0nat,
{
    proof {
        expr_parts(subject);
    }
    match expr_code(c, s, subject) {
        Err(e) => Err(e),
        Ok((s1, ty)) => {
            let local = s1.next_local;
            let s2 = s1.declare_scratch(ty).store(local);
            match dispatch_code(c, s2, local, ty, cases, 0, Seq::empty(), None) {
                Err(e) => Err(e),
                Ok((s3, jumps, default)) => {
                    let s4 = s3.branch(Opcode::Goto, 0).enter_loop(new_loop(fin.len() as int, true));
                    match bodies_code(c, s4, cases, fin, 0, Seq::empty()) {
                        Err(e) => Err(e),
                        Ok((s5, starts)) => {
                            let l = s5.this_loop();
                            let s6 = aimed_cases(s5.leave_loop(), jumps, starts, jumps.len() as int);
                            let s7 = s6.aim(
                                s3.pc(),
                                match default {
                                    Some(i) => starts[i],
                                    None => s5.pc(),
                                },
                            );
                            Ok(s7.aim_all(l.break_patches, s5.pc()))
                        },
                    }
                },
            }
        },
    }
}

/// The handlers of a `try` from the `i`-th `catch` on: the jumps past them,
/// and where each begins and what it catches.
pub open spec fn catches_code(
    c: CxView,
    s: State,
    catches: Seq<CatchClause>,
    fin: Seq<Seq<Stmt>>,
    i: int,
    jumps: Seq<int>,
    handlers: Seq<(int, u16)>,
) -> Result<(State, Seq<int>, Seq<(int, u16)>), Seq<char>>
    decreases c.level, catches_size(catches) + fin_size(fin), 1nat, (catches.len() - i) as nat,
{
    if i < 0 || i >= catches.len() {
        Ok((s, jumps, handlers))
    } else {
        proof {
            catch_smaller(catches, i);
        }
        let fqcn = class_name(c, catches[i].ty@);
        let (s1, class) = s.class(fqcn);
        let s2 = s1.push_scope();
        let s3 = s2.declare_local(catches[i].var@, ExprTyView::Object(fqcn)).store(s2.next_local);
        let inside = c.telling(catches[i].var@, Some(TypeView::Named(fqcn)));
        match stmts_code(inside, s3, catches[i].body@, fin, 0) {
            Err(e) => Err(e),
            Ok(s4) => {
                let s5 = s4.pop_scope();
                catches_code(
                    c,
                    s5.branch(Opcode::Goto, 0),
                    catches,
                    fin,
                    i + 1,
                    jumps.push(s5.pc()),
                    handlers.push((s.pc(), class)),
                )
            },
        }
    }
}

/// Enters the first `n` handlers for the code from `start` to `end`.
pub open spec fn guarded(
    s: State,
    handlers: Seq<(int, u16)>,
    start: int,
    end: int,
    n: int,
) -> State
    decreases n,
{
    if n <= 0 {
        s
    } else {
        let (handler, class) = handlers[n - 1];
        guarded(s, handlers, start, end, n - 1).protect(
            ExceptionTableEntry {
                start_pc: start as u16,
                end_pc: end as u16,
                handler_pc: handler as u16,
                catch_type: class,
            },
        )
    }
}

/// The `finally` blocks inside a `try` statement.
pub open spec fn inner_fin(fin: Seq<Seq<Stmt>>, finally: Option<Vec<Stmt>>) -> Seq<Seq<Stmt>> {
    match finally {
        Some(block) => fin.push(block@),
        None => fin,
    }
}

pub open spec fn try_code(
    c: CxView,
    s: State,
    body: Seq<Stmt>,
    catches: Seq<CatchClause>,
    finally: Option<Vec<Stmt>>,
    fin: Seq<Seq<Stmt>>,
) -> Done
    decreases
        c.level,
        block_size(body) + catches_size(catches) + opt_block_size(finally) + fin_size(fin),
        3nat,
        0nat,
{
    let inner = inner_fin(fin, finally);
    proof {
        if finally is Some {
            fin_push(fin, finally->0@);
        }
    }
    let inside = if finally is Some {
        c.guarded()
    } else {
        c
    };
    match block_code(inside, s, body, inner) {
        Err(e) => Err(e),
        Ok(s1) => {
            match catches_code(
                inside,
                s1.branch(Opcode::Goto, 0),
                catches,
                inner,
                0,
                seq![s1.pc()],
                Seq::empty(),
            ) {
                Err(e) => Err(e),
                Ok((s2, jumps, handlers)) => match finally {
                    Some(block) => {
                        let s3 = s2.declare_scratch(ExprTyView::Object("Exception"@)).store(s2.next_local);
                        match block_code(c, s3, block@, fin) {
                            Err(e) => Err(e),
                            Ok(s4) => {
                                let s5 = s4.load(s2.next_local).op(Opcode::Throw, -1);
                                match block_code(c, s5, block@, fin) {
                                    Err(e) => Err(e),
                                    Ok(s6) => {
                                        let s7 = s6.aim_all(jumps, s5.pc());
                                        Ok(
                                            guarded(s7, handlers, s.pc(), s1.pc(), handlers.len() as int).protect(
                                                ExceptionTableEntry {
                                                    start_pc: s.pc() as u16,
                                                    end_pc: s2.pc() as u16,
                                                    handler_pc: s2.pc() as u16,
                                                    catch_type: 0,
                                                },
                                            ),
                                        )
                                    },
                                }
                            },
                        }
                    },
                    None => {
                        let s3 = s2.aim_all(jumps, s2.pc());
                        Ok(guarded(s3, handlers, s.pc(), s1.pc(), handlers.len() as int))
                    },
                },
            }
        },
    }
}

} // verus!
