//! Compiling never touches the code before it: every construct keeps what was
//! there, and an expression leaves the loops and the exception table alone.

use crate::ast::{layered, Arg, BinOp, ClosureBody, Expr, LValue, MatchArm, Param, Type, TypeView};
use crate::bytecode::constant_pool::with_class;
use crate::bytecode::module::ModuleView;
use crate::bytecode::opcode::Opcode;
use crate::class_table::{ctor_overload, just_method, overload_found, param_names, param_types};
use crate::codegen::args::{actuals, planned, positional, unboxed, ActualView, PlanView};
use crate::codegen::emitter::{CxView, State};
use crate::codegen::expr_ty::{expr_ty, expr_tys, ExprTyView};
use crate::codegen::frame::{all_from, plain};
use crate::codegen::lowered::{
    after_first, arg_values_code, args_code, arm_test_code, arms_code, array_init_code,
    array_level_code, array_method_code, assign_code, binary_code, binary_op, bool_code, call_code,
    cast_code, closure_body_code, closure_code, closure_cx, closure_module, closure_name,
    closure_start, coalesce_code, construct_code, dropped_code, elements_code, elvis_code,
    enum_value_code, expr_code, field_access_code, field_assign_code, index_assign_code, index_code,
    instanceof_code, invoke_code, invoke_method_code, leading_sizes, local_assign_code, match_code,
    member_code, method_call_code, new_array_code, new_code, new_target, no_refs, object_call_code,
    print_code, run_code, short_circuit_code, slice_code, static_call_code, stdlib_call_code,
    stringed, super_call_code, super_method_code, ternary_code, this_call_code, unary_code,
    unary_op, value_call_code, Passed,
};
use crate::codegen::ops::{
    class_name, coerced, falsy_jumps, ident, promoted, superclass, Done, IdentView, Typed,
};
use crate::codegen::overload::{arg_types, own_statics, static_pick};
use crate::codegen::stdlib::native_static;
use crate::codegen::type_desc::type_descriptor_text;
use crate::codegen::vars::{
    captures, copied, enum_case, enum_class, ident_code, incr_code, load_value, CaptureView,
};
use crate::native::instance_sig;
use crate::native_generics::native_method_sig;
use crate::resolve::{path_of, resolved_type};
use crate::size::{
    arg_smaller, args_size, arm_smaller, arms_size, dim_smaller, dims_size, expr_parts, expr_size,
    exprs_size, item_smaller, lvalue_size, opt_size,
};
use crate::text::head_text;
use vstd::prelude::*;

verus! {

broadcast use crate::codegen::frame::group_frame;

pub open spec fn typed_plain(s: State, r: Typed) -> bool {
    r matches Ok((t, _)) ==> plain(s, t)
}

pub open spec fn done_plain(s: State, r: Done) -> bool {
    r matches Ok(t) ==> plain(s, t)
}

proof fn unboxed_plain(s: State, plans: Seq<PlanView>, n: int)
    ensures
        plain(s, unboxed(s, plans, n)),
    decreases n,
{
    if n > 0 {
        unboxed_plain(s, plans, n - 1);
    }
}

proof fn planned_plain(
    s: State,
    args: Seq<Arg>,
    acts: Seq<ActualView>,
    tys: Seq<ExprTyView>,
    is_ref: Seq<bool>,
    ctx: Seq<char>,
    n: int,
)
    ensures
        planned(s, args, acts, tys, is_ref, ctx, n) matches Ok((t, _)) ==> plain(s, t),
    decreases n,
{
    if n > 0 {
        planned_plain(s, args, acts, tys, is_ref, ctx, n - 1);
    }
}

pub proof fn copied_plain(c: CxView, s: State, caps: Seq<CaptureView>, n: int)
    ensures
        plain(s, copied(c, s, caps, n)),
    decreases n,
{
    if n > 0 {
        copied_plain(c, s, caps, n - 1);
    }
}

/// Compiling an expression keeps the code before it.
pub proof fn expr_plain(c: CxView, s: State, e: Expr)
    ensures
        typed_plain(s, expr_code(c, s, e)),
    decreases c.level, expr_size(e), 0nat, 0nat,
{
    expr_parts(e);
    match e {
        Expr::Ident(name) => {
            assert(typed_plain(s, ident_code(c, s, name@)));
        },
        Expr::Assign(target, value) => {
            assign_plain(c, s, target, *value);
        },
        Expr::Call(name, args) => {
            call_plain(c, s, name@, args@);
        },
        Expr::New(name, _, args) => {
            new_plain(c, s, name@, args@);
        },
        Expr::NewArray(elem, dims) => {
            if leading_sizes(dims@, 0) != 0 {
                let base = resolved_type(elem@, c.imports);
                array_level_plain(c, s, 0, leading_sizes(dims@, 0) as int, base, dims@);
            }
            assert(typed_plain(s, new_array_code(c, s, elem@, dims@)));
        },
        Expr::NewArrayInit(elem, elements) => {
            let base = resolved_type(elem@, c.imports);
            elements_plain(c, s, expr_ty(base), elements@, 0);
            assert(typed_plain(s, array_init_code(c, s, elem@, elements@)));
        },
        Expr::FieldAccess(target, name) => {
            field_access_plain(c, s, *target, name@);
        },
        Expr::MethodCall(target, name, args) => {
            method_call_plain(c, s, *target, name@, args@);
        },
        Expr::Index(target, index) => {
            both_plain(c, s, *target, *index);
            assert(typed_plain(s, index_code(c, s, *target, *index)));
        },
        Expr::InstanceOf(target, class) => {
            expr_plain(c, s, *target);
            assert(typed_plain(s, instanceof_code(c, s, *target, class@)));
        },
        Expr::Cast(ty, inner) => {
            expr_plain(c, s, *inner);
            assert(typed_plain(s, cast_code(c, s, ty@, *inner)));
        },
        Expr::PostIncr(name) => {
            assert(typed_plain(s, incr_code(c, s, name@, 1)));
        },
        Expr::PostDecr(name) => {
            assert(typed_plain(s, incr_code(c, s, name@, -1i16)));
        },
        Expr::Unary(op, inner) => {
            expr_plain(c, s, *inner);
            if let Ok((s1, ty)) = expr_code(c, s, *inner) {
                assert(typed_plain(s1, unary_op(c, s1, op, ty)));
            }
            assert(typed_plain(s, unary_code(c, s, op, *inner)));
        },
        Expr::Binary(op, lhs, rhs) => {
            binary_plain(c, s, op, *lhs, *rhs);
        },
        Expr::Match(subject, arms) => {
            match_plain(c, s, *subject, arms@);
        },
        Expr::Ternary(cond, then_e, else_e) => {
            ternary_plain(c, s, *cond, *then_e, *else_e);
        },
        Expr::Coalesce(lhs, rhs) => {
            coalesce_plain(c, s, *lhs, *rhs);
        },
        Expr::Elvis(lhs, rhs) => {
            elvis_plain(c, s, *lhs, *rhs);
        },
        Expr::Closure { params, return_type, body, .. } => {
            closure_plain(c, s, params@, return_type, body);
        },
        _ => {},
    }
}

proof fn closure_plain(
    c: CxView,
    s: State,
    params: Seq<Param>,
    return_type: Option<Type>,
    body: ClosureBody,
)
    ensures
        typed_plain(s, closure_code(c, s, params, return_type, body)),
{
    let caps = captures(c, s, params, body);
    let fqcn = closure_name(c, s);
    let tys = expr_tys(param_types(params, c.imports));
    let (cp, this_class) = with_class(Seq::empty(), fqcn);
    let inner = closure_cx(c, this_class, fqcn, caps, params, body);
    let start = closure_start(cp, fqcn, inner.boxed_captures, param_names(params), tys);
    if let Ok((s1, ret)) = closure_body_code(inner, start, return_type, body) {
        let module = closure_module(s1.pop_scope(), this_class, caps, tys, ret);
        made_plain(s, seq![module] + s1.closures, fqcn);
        let s2 = s.count_closure().add_closures(seq![module] + s1.closures).new_of(fqcn);
        copied_plain(c, s2, caps, caps.len() as int);
    }
}

/// Keeping the modules of a closure and making its object.
pub proof fn made_plain(s: State, ms: Seq<ModuleView>, fqcn: Seq<char>)
    ensures
        plain(s, s.count_closure().add_closures(ms).new_of(fqcn)),
{
}

proof fn both_plain(c: CxView, s: State, a: Expr, b: Expr)
    ensures
        typed_plain(s, expr_code(c, s, a)),
        expr_code(c, s, a) matches Ok((s1, _)) ==> typed_plain(s1, expr_code(c, s1, b)),
    decreases c.level, expr_size(a) + expr_size(b), 1nat, 0nat,
{
    expr_parts(a);
    expr_parts(b);
    expr_plain(c, s, a);
    if let Ok((s1, _)) = expr_code(c, s, a) {
        expr_plain(c, s1, b);
    }
}

pub proof fn bool_plain(c: CxView, s: State, e: Expr)
    ensures
        done_plain(s, bool_code(c, s, e)),
    decreases c.level, expr_size(e), 1nat, 0nat,
{
    expr_plain(c, s, e);
}

pub proof fn dropped_plain(c: CxView, s: State, e: Expr)
    ensures
        done_plain(s, dropped_code(c, s, e)),
    decreases c.level, expr_size(e), 1nat, 0nat,
{
    expr_plain(c, s, e);
}

proof fn ternary_plain(c: CxView, s: State, cond: Expr, then_e: Expr, else_e: Expr)
    ensures
        typed_plain(s, ternary_code(c, s, cond, then_e, else_e)),
    decreases c.level, expr_size(cond) + expr_size(then_e) + expr_size(else_e), 2nat, 0nat,
{
    expr_parts(cond);
    expr_parts(then_e);
    expr_parts(else_e);
    bool_plain(c, s, cond);
    if let Ok(s1) = bool_code(c, s, cond) {
        let s1b = s1.branch(Opcode::IfFalse, -1);
        expr_plain(c, s1b, then_e);
        if let Ok((s2, _)) = expr_code(c, s1b, then_e) {
            let s3 = s2.branch(Opcode::Goto, 0).aim_here(s1.pc());
            assert(plain(s1, s3));
            expr_plain(c, s3, else_e);
        }
    }
}

proof fn coalesce_plain(c: CxView, s: State, lhs: Expr, rhs: Expr)
    ensures
        typed_plain(s, coalesce_code(c, s, lhs, rhs)),
    decreases c.level, expr_size(lhs) + expr_size(rhs), 2nat, 0nat,
{
    expr_parts(lhs);
    expr_parts(rhs);
    expr_plain(c, s, lhs);
    if let Ok((s1, _)) = expr_code(c, s, lhs) {
        let s2 = s1.op(Opcode::Dup, 1).op(Opcode::IsNonNull, 0);
        expr_plain(c, s2.branch(Opcode::IfTrue, -1).op(Opcode::Pop, -1), rhs);
    }
}

proof fn falsy_plain(s: State, ty: ExprTyView)
    ensures
        plain(s, falsy_jumps(s, ty).0),
        all_from(falsy_jumps(s, ty).1, s.pc()),
{
}

proof fn elvis_plain(c: CxView, s: State, lhs: Expr, rhs: Expr)
    ensures
        typed_plain(s, elvis_code(c, s, lhs, rhs)),
    decreases c.level, expr_size(lhs) + expr_size(rhs), 2nat, 0nat,
{
    expr_parts(lhs);
    expr_parts(rhs);
    expr_plain(c, s, lhs);
    if let Ok((s1, ty)) = expr_code(c, s, lhs) {
        falsy_plain(s1, ty);
        let (s2, jumps) = falsy_jumps(s1, ty);
        let s3 = s2.branch(Opcode::Goto, 0);
        let s4 = s3.aim_all(jumps, s3.pc()).op(Opcode::Pop, -1);
        assert(plain(s1, s4));
        expr_plain(c, s4, rhs);
        if let Ok((s5, rhs_ty)) = expr_code(c, s4, rhs) {
            assert(done_plain(s5, coerced(s5, rhs_ty, ty, "?: right operand"@)));
            assert(plain(s1, s5));
        }
    }
}

proof fn match_plain(c: CxView, s: State, subject: Expr, arms: Seq<MatchArm>)
    ensures
        typed_plain(s, match_code(c, s, subject, arms)),
    decreases c.level, expr_size(subject) + arms_size(arms), 2nat, 1nat,
{
    expr_parts(subject);
    expr_plain(c, s, subject);
    if let Ok((s1, ty)) = expr_code(c, s, subject) {
        arms_plain(c, s1, s1, ty, arms, 0, Seq::empty(), None);
    }
}

proof fn arm_test_plain(c: CxView, s: State, ty: ExprTyView, pattern: Option<Expr>, last: bool)
    ensures
        arm_test_code(c, s, ty, pattern, last) matches Ok((t, next)) ==> plain(s, t) && (next
            matches Some(pc) ==> s.pc() <= pc),
    decreases c.level, opt_size(pattern), 1nat, 0nat,
{
    if let Some(p) = pattern {
        expr_plain(c, s.op(Opcode::Dup, 1), p);
    }
}

proof fn arms_plain(
    c: CxView,
    s0: State,
    s: State,
    ty: ExprTyView,
    arms: Seq<MatchArm>,
    i: int,
    jumps: Seq<int>,
    result: Option<ExprTyView>,
)
    requires
        plain(s0, s),
        all_from(jumps, s0.pc()),
    ensures
        arms_code(c, s, ty, arms, i, jumps, result) matches Ok((t, js, _)) ==> plain(s, t)
            && all_from(js, s0.pc()),
    decreases c.level, arms_size(arms), 2nat, (arms.len() - i) as nat,
{
    if 0 <= i < arms.len() {
        arm_smaller(arms, i);
        let last = i == arms.len() - 1;
        arm_test_plain(c, s, ty, arms[i].pattern, last);
        if let Ok((s1, next)) = arm_test_code(c, s, ty, arms[i].pattern, last) {
            expr_plain(c, s1.op(Opcode::Pop, -1), arms[i].value);
            if let Ok((s2, value_ty)) = expr_code(c, s1.op(Opcode::Pop, -1), arms[i].value) {
                let r = match result {
                    Some(expected) => coerced(s2, value_ty, expected, "match arm"@),
                    None => Done::Ok(s2),
                };
                assert(done_plain(s2, r));
                if let Ok(s3) = r {
                    let s4 = s3.branch(Opcode::Goto, 0);
                    let s5 = match next {
                        Some(pc) => s4.aim_here(pc),
                        None => s4,
                    };
                    assert(plain(s, s4));
                    assert(plain(s, s5));
                    let t = Some(
                        match result {
                            Some(t) => t,
                            None => value_ty,
                        },
                    );
                    assert(plain(s0, s3));
                    arms_plain(c, s0, s5, ty, arms, i + 1, jumps.push(s3.pc()), t);
                }
            }
        }
    }
}

proof fn assign_plain(c: CxView, s: State, target: LValue, value: Expr)
    ensures
        typed_plain(s, assign_code(c, s, target, value)),
    decreases c.level, lvalue_size(target) + expr_size(value), 3nat, 0nat,
{
    match target {
        LValue::Local(name) => {
            local_assign_plain(c, s, name@, value);
        },
        LValue::Field(object, name) => {
            field_assign_plain(c, s, *object, name@, value);
        },
        LValue::Index(array, index) => {
            index_assign_plain(c, s, *array, *index, value);
        },
    }
}

proof fn local_assign_plain(c: CxView, s: State, name: Seq<char>, value: Expr)
    ensures
        typed_plain(s, local_assign_code(c, s, name, value)),
    decreases c.level, expr_size(value), 2nat, 0nat,
{
    expr_parts(value);
    expr_plain(c, s, value);
    if let Some(IdentView::Local(slot)) = ident(c, s, name) {
        if let Expr::Binary(_, _, rhs) = value {
            expr_plain(c, s.load(slot.index), *rhs);
        }
    }
}

proof fn field_assign_plain(c: CxView, s: State, target: Expr, name: Seq<char>, value: Expr)
    ensures
        typed_plain(s, field_assign_code(c, s, target, name, value)),
    decreases c.level, expr_size(target) + expr_size(value), 2nat, 0nat,
{
    expr_parts(target);
    expr_parts(value);
    expr_plain(c, s, value);
    both_plain(c, s, target, value);
}

proof fn index_assign_plain(c: CxView, s: State, target: Expr, index: Expr, value: Expr)
    ensures
        typed_plain(s, index_assign_code(c, s, target, index, value)),
    decreases c.level, expr_size(target) + expr_size(index) + expr_size(value), 2nat, 0nat,
{
    expr_parts(target);
    expr_parts(index);
    expr_parts(value);
    expr_plain(c, s, target);
    if let Ok((s1, _)) = expr_code(c, s, target) {
        expr_plain(c, s1, index);
        if let Ok((s2, _)) = expr_code(c, s1, index) {
            expr_plain(c, s2, value);
        }
    }
}

proof fn arg_values_plain(
    c: CxView,
    s: State,
    args: Seq<Arg>,
    acts: Seq<ActualView>,
    tys: Seq<ExprTyView>,
    plans: Seq<PlanView>,
    ctx: Seq<char>,
    i: int,
)
    ensures
        done_plain(s, arg_values_code(c, s, args, acts, tys, plans, ctx, i)),
    decreases c.level, args_size(args), 1nat, (acts.len() - i) as nat,
{
    if 0 <= i < acts.len() {
        match plans[i] {
            PlanView::NewBox(b, _, _) => {
                arg_values_plain(c, s.load(b), args, acts, tys, plans, ctx, i + 1);
            },
            PlanView::Forward(b) => {
                arg_values_plain(c, s.load(b), args, acts, tys, plans, ctx, i + 1);
            },
            PlanView::Plain => {
                let r = match acts[i] {
                    ActualView::Given(j) => if 0 <= j < args.len() {
                        arg_smaller(args, j);
                        expr_plain(c, s, args[j].value);
                        expr_code(c, s, args[j].value)
                    } else {
                        Typed::Err(Seq::empty())
                    },
                    ActualView::Default(e) => if c.level > 0 {
                        expr_plain(c.deeper(), s, e);
                        expr_code(c.deeper(), s, e)
                    } else {
                        Typed::Err(Seq::empty())
                    },
                    ActualView::Missing => Typed::Err(Seq::empty()),
                };
                assert(typed_plain(s, r));
                if let Ok((s2, t)) = r {
                    if let Ok(s1) = coerced(s2, t, tys[i], ctx) {
                        assert(plain(s2, s1));
                        arg_values_plain(c, s1, args, acts, tys, plans, ctx, i + 1);
                    }
                }
            },
        }
    }
}

pub open spec fn passed_plain(s: State, r: Passed) -> bool {
    r matches Ok((t, _)) ==> plain(s, t)
}

proof fn args_plain(
    c: CxView,
    s: State,
    args: Seq<Arg>,
    acts: Seq<ActualView>,
    tys: Seq<ExprTyView>,
    is_ref: Seq<bool>,
    ctx: Seq<char>,
)
    ensures
        passed_plain(s, args_code(c, s, args, acts, tys, is_ref, ctx)),
    decreases c.level, args_size(args), 2nat, 0nat,
{
    planned_plain(s, args, acts, tys, is_ref, ctx, acts.len() as int);
    if let Ok((s1, plans)) = planned(s, args, acts, tys, is_ref, ctx, acts.len() as int) {
        arg_values_plain(c, s1, args, acts, tys, plans, ctx, 0);
    }
}

proof fn invoke_plain(
    c: CxView,
    s: State,
    params: Seq<ExprTyView>,
    ret: ExprTyView,
    fqcn: Seq<char>,
    args: Seq<Arg>,
)
    ensures
        typed_plain(s, invoke_code(c, s, params, ret, fqcn, args)),
    decreases c.level, args_size(args), 3nat, 0nat,
{
    if let Ok(acts) = positional(args) {
        args_plain(c, s, args, acts, params, Seq::empty(), "closure call"@);
    }
}

proof fn call_plain(c: CxView, s: State, name: Seq<char>, args: Seq<Arg>)
    ensures
        typed_plain(s, call_code(c, s, name, args)),
    decreases c.level, args_size(args), 4nat, 0nat,
{
    static_call_plain(c, s, name, args);
    match ident(c, s, name) {
        Some(IdentView::Local(slot)) => match slot.ty {
            ExprTyView::Closure { params, return_ty, fqcn, .. } => {
                let s1 = load_value(s, slot);
                assert(plain(s, s1));
                invoke_plain(c, s1, params, *return_ty, fqcn, args);
            },
            _ => {},
        },
        Some(IdentView::Captured(field)) => match field.ty {
            ExprTyView::Closure { params, return_ty, fqcn, .. } => {
                let s1 = s.get_captured(c.this_fqcn, name, field);
                assert(plain(s, s1));
                invoke_plain(c, s1, params, *return_ty, fqcn, args);
            },
            _ => {},
        },
        None => {},
    }
}

proof fn static_call_plain(c: CxView, s: State, name: Seq<char>, args: Seq<Arg>)
    ensures
        typed_plain(s, static_call_code(c, s, name, args)),
    decreases c.level, args_size(args), 3nat, 0nat,
{
    assert forall|acts: Seq<ActualView>, tys: Seq<ExprTyView>, is_ref: Seq<bool>| #[trigger]
        passed_plain(s, args_code(c, s, args, acts, tys, is_ref, name)) by {
        args_plain(c, s, args, acts, tys, is_ref, name);
    }
    assert forall|t: State, plans: Seq<PlanView>, n: int| plain(t, #[trigger] unboxed(t, plans, n)) by {
        unboxed_plain(t, plans, n);
    }
    let sigs = own_statics(c, name);
    if sigs.len() > 0 {
        let sig = sigs[static_pick(
            c,
            sigs,
            args.len(),
            arg_types(c, args),
        )];
        let acts = actuals(sig.param_names, sig.defaults, args);
        assert(passed_plain(s, args_code(c, s, args, acts, sig.param_types, sig.is_ref, name)));
    }
}

proof fn invoke_method_plain(
    c: CxView,
    s: State,
    op: Opcode,
    fqcn: Seq<char>,
    name: Seq<char>,
    params: Seq<TypeView>,
    is_ref: Seq<bool>,
    return_ty: TypeView,
    args: Seq<Arg>,
    acts: Seq<ActualView>,
)
    ensures
        typed_plain(
            s,
            invoke_method_code(c, s, op, fqcn, name, params, is_ref, return_ty, args, acts),
        ),
    decreases c.level, args_size(args), 3nat, 0nat,
{
    args_plain(c, s, args, acts, expr_tys(params), is_ref, name);
    assert forall|t: State, plans: Seq<PlanView>, n: int| plain(t, #[trigger] unboxed(t, plans, n)) by {
        unboxed_plain(t, plans, n);
    }
}

proof fn construct_plain(
    c: CxView,
    s: State,
    class: Option<u16>,
    fqcn: Seq<char>,
    ctx: Seq<char>,
    params: Seq<TypeView>,
    is_ref: Seq<bool>,
    args: Seq<Arg>,
    acts: Seq<ActualView>,
)
    ensures
        done_plain(s, construct_code(c, s, class, fqcn, ctx, params, is_ref, args, acts)),
    decreases c.level, args_size(args), 3nat, 0nat,
{
    args_plain(c, s, args, acts, expr_tys(params), is_ref, ctx);
    assert forall|t: State, plans: Seq<PlanView>, n: int| plain(t, #[trigger] unboxed(t, plans, n)) by {
        unboxed_plain(t, plans, n);
    }
}

proof fn new_plain(c: CxView, s: State, class: Seq<char>, args: Seq<Arg>)
    ensures
        typed_plain(s, new_code(c, s, class, args)),
    decreases c.level, args_size(args), 4nat, 0nat,
{
    let fqcn = class_name(c, class);
    let (s1, index) = s.class(fqcn);
    let s2 = s1.op_u16(Opcode::New, index, 1).op(Opcode::Dup, 1);
    if let Ok((params, is_ref, acts)) = new_target(c, s, fqcn, args) {
        construct_plain(c, s2, Some(index), fqcn, fqcn, params, is_ref, args, acts);
    }
}

pub proof fn this_call_plain(c: CxView, s: State, args: Seq<Arg>)
    ensures
        done_plain(s, this_call_code(c, s, args)),
    decreases c.level, args_size(args), 4nat, 0nat,
{
    if let Some(k) = ctor_overload(
        c.classes,
        c.this_fqcn,
        args.len(),
        arg_types(c, args),
    ) {
        construct_plain(
            c,
            s.load(0),
            Some(c.this_class),
            c.this_fqcn,
            "this(...)"@,
            k.params,
            k.is_ref,
            args,
            actuals(k.param_names, k.defaults, args),
        );
    }
}

pub proof fn super_call_plain(c: CxView, s: State, args: Seq<Arg>)
    ensures
        done_plain(s, super_call_code(c, s, args)),
    decreases c.level, args_size(args), 4nat, 0nat,
{
    if let Ok(parent) = superclass(c) {
        if let Some(k) = ctor_overload(
            c.classes,
            parent,
            args.len(),
            arg_types(c, args),
        ) {
            construct_plain(
                c,
                s.load(0),
                None,
                parent,
                "super(...)"@,
                k.params,
                k.is_ref,
                args,
                actuals(k.param_names, k.defaults, args),
            );
        }
    }
}

proof fn super_method_plain(c: CxView, s: State, name: Seq<char>, args: Seq<Arg>)
    ensures
        typed_plain(s, super_method_code(c, s, name, args)),
    decreases c.level, args_size(args), 4nat, 0nat,
{
    if let Ok(parent) = superclass(c) {
        if let Some(m) = just_method(
            overload_found(
                c.classes,
                parent,
                name,
                args.len(),
                arg_types(c, args),
            ),
        ) {
            invoke_method_plain(
                c,
                s.load(0),
                Opcode::InvokeSpecial,
                parent,
                name,
                m.params,
                m.is_ref,
                m.return_ty,
                args,
                actuals(m.param_names, m.defaults, args),
            );
        }
    }
}

proof fn array_level_plain(
    c: CxView,
    s: State,
    level: int,
    m: int,
    base: TypeView,
    dims: Seq<Option<Expr>>,
)
    ensures
        done_plain(s, array_level_code(c, s, level, m, base, dims)),
    decreases c.level, dims_size(dims), 1nat, (m - level) as nat,
{
    if 0 <= level < dims.len() && dims[level] is Some {
        dim_smaller(dims, level);
        expr_plain(c, s, dims[level]->0);
        if let Ok((s1, _)) = expr_code(c, s, dims[level]->0) {
            if level + 1 < m {
                assert forall|t: State| #[trigger]
                    done_plain(t, array_level_code(c, t, level + 1, m, base, dims)) by {
                    array_level_plain(c, t, level + 1, m, base, dims);
                }
                let size = s1.next_local;
                let elem = layered(base, (dims.len() - level - 1) as nat);
                let (s2, desc) = s1.declare_scratch(ExprTyView::Int).store(size).type_desc(
                    type_descriptor_text(elem),
                );
                let s3 = s2.load(size).op_u16(Opcode::NewArray, desc, 0);
                let array = s3.next_local;
                let s4 = s3.declare_scratch(ExprTyView::Array(Box::new(expr_ty(elem)))).store(array);
                let index = s4.next_local;
                let s5 = s4.declare_scratch(ExprTyView::Int).int_const(0).store(index);
                let s6 = s5.load(index).load(size).op(Opcode::CmpLt, -1);
                let s7 = s6.branch(Opcode::IfFalse, -1).load(array).load(index);
                assert(done_plain(s7, array_level_code(c, s7, level + 1, m, base, dims)));
                assert(plain(s1, s6) && plain(s6, s7));
                if let Ok(s8) = array_level_code(c, s7, level + 1, m, base, dims) {
                    let s9 = s8.op(Opcode::ArrayStore, -3).op_iinc(index, 1).goto_to(s5.pc());
                    assert(plain(s6, s9));
                    assert(plain(s6, s9.aim_here(s6.pc())));
                }
            }
        }
    }
}

proof fn elements_plain(c: CxView, s: State, ty: ExprTyView, elements: Seq<Expr>, i: int)
    ensures
        done_plain(s, elements_code(c, s, ty, elements, i)),
    decreases c.level, exprs_size(elements), 1nat, (elements.len() - i) as nat,
{
    if 0 <= i < elements.len() {
        item_smaller(elements, i);
        expr_plain(c, s, elements[i]);
        if let Ok((s1, t)) = expr_code(c, s, elements[i]) {
            if let Ok(s2) = coerced(s1, t, ty, "array element"@) {
                assert(plain(s1, s2));
                elements_plain(c, s2, ty, elements, i + 1);
            }
        }
    }
}

proof fn enum_value_plain(c: CxView, s: State, name: Seq<char>, init: Option<Expr>)
    ensures
        done_plain(s, enum_value_code(c, s, name, init)),
    decreases c.level, 0nat, 0nat, 0nat,
{
    if let Some(e) = init {
        if c.level > 0 {
            expr_plain(c.deeper(), s, e);
        }
    }
}

proof fn member_plain(c: CxView, s: State, target: Expr, name: Seq<char>)
    ensures
        typed_plain(s, member_code(c, s, target, name)),
    decreases c.level, expr_size(target), 1nat, 0nat,
{
    expr_plain(c, s, target);
}

proof fn field_access_plain(c: CxView, s: State, target: Expr, name: Seq<char>)
    ensures
        typed_plain(s, field_access_code(c, s, target, name)),
    decreases c.level, expr_size(target), 2nat, 0nat,
{
    expr_parts(target);
    member_plain(c, s, target, name);
    if let Some(path) = path_of(target) {
        if let Some((_, f)) = enum_case(c, head_text(path, '.'), name) {
            enum_value_plain(c, s, name, f.init);
        }
    }
}

proof fn method_call_plain(c: CxView, s: State, target: Expr, name: Seq<char>, args: Seq<Arg>)
    ensures
        typed_plain(s, method_call_code(c, s, target, name, args)),
    decreases c.level, expr_size(target) + args_size(args), 6nat, 0nat,
{
    expr_parts(target);
    super_method_plain(c, s, name, args);
    value_call_plain(c, s, target, name, args);
    if let Some(path) = path_of(target) {
        if let Ok(acts) = positional(args) {
            stdlib_call_plain(c, s, path, name, args, acts);
        }
        let fqcn = class_name(c, path);
        if let Some(m) = just_method(
            overload_found(
                c.classes,
                fqcn,
                name,
                args.len(),
                arg_types(c, args),
            ),
        ) {
            invoke_method_plain(
                c,
                s,
                Opcode::InvokeStatic,
                fqcn,
                name,
                m.params,
                m.is_ref,
                m.return_ty,
                args,
                actuals(m.param_names, m.defaults, args),
            );
        }
    }
}

proof fn value_call_plain(c: CxView, s: State, target: Expr, name: Seq<char>, args: Seq<Arg>)
    ensures
        typed_plain(s, value_call_code(c, s, target, name, args)),
    decreases c.level, expr_size(target) + args_size(args), 5nat, 0nat,
{
    expr_parts(target);
    expr_plain(c, s, target);
    if let Ok((s1, target_ty)) = expr_code(c, s, target) {
        match target_ty {
            ExprTyView::Array(elem) => {
                if let Ok(acts) = positional(args) {
                    array_method_plain(c, s1, *elem, name, args, acts);
                }
            },
            ExprTyView::StringT => {
                if let Some((params, ret)) = native_static("system.String"@, name, args.len() + 1) {
                    if let Ok(acts) = positional(args) {
                        args_plain(
                            c,
                            s1,
                            args,
                            acts,
                            expr_tys(after_first(params)),
                            Seq::empty(),
                            name,
                        );
                    }
                }
            },
            ExprTyView::Object(fqcn) => {
                object_call_plain(c, s1, fqcn, name, args);
            },
            _ => {},
        }
    }
}

proof fn object_call_plain(c: CxView, s: State, fqcn: Seq<char>, name: Seq<char>, args: Seq<Arg>)
    ensures
        typed_plain(s, object_call_code(c, s, fqcn, name, args)),
    decreases c.level, args_size(args), 4nat, 0nat,
{
    let op = if enum_class(c, fqcn) {
        Opcode::InvokeSpecial
    } else {
        Opcode::InvokeInstance
    };
    let native = match instance_sig(fqcn, name, args.len()) {
        Some(sig) => Some(sig),
        None => native_method_sig(c.natives, fqcn, name, args.len()),
    };
    match native {
        Some((params, ret)) => {
            if let Ok(acts) = positional(args) {
                let refs = no_refs(params.len());
                invoke_method_plain(c, s, op, fqcn, name, params, refs, ret, args, acts);
            }
        },
        None => {
            if let Some(m) = just_method(
                overload_found(c.classes, fqcn, name, args.len(), arg_types(c, args)),
            ) {
                invoke_method_plain(
                    c,
                    s,
                    op,
                    fqcn,
                    name,
                    m.params,
                    m.is_ref,
                    m.return_ty,
                    args,
                    actuals(m.param_names, m.defaults, args),
                );
            }
        },
    }
}

proof fn slice_plain(
    c: CxView,
    s: State,
    elem: ExprTyView,
    name: Seq<char>,
    args: Seq<Arg>,
    acts: Seq<ActualView>,
)
    ensures
        typed_plain(s, slice_code(c, s, elem, name, args, acts)),
    decreases c.level, args_size(args), 3nat, 0nat,
{
    let ints = seq![ExprTyView::Int, ExprTyView::Int];
    args_plain(c, s, args, acts, ints, Seq::empty(), name);
}

proof fn array_method_plain(
    c: CxView,
    s: State,
    elem: ExprTyView,
    name: Seq<char>,
    args: Seq<Arg>,
    acts: Seq<ActualView>,
)
    ensures
        typed_plain(s, array_method_code(c, s, elem, name, args, acts)),
    decreases c.level, args_size(args), 4nat, 0nat,
{
    slice_plain(c, s, elem, name, args, acts);
    if args.len() == 1 {
        arg_smaller(args, 0);
        expr_plain(c, s, args[0].value);
    }
}

proof fn stdlib_call_plain(
    c: CxView,
    s: State,
    fqcn: Seq<char>,
    name: Seq<char>,
    args: Seq<Arg>,
    acts: Seq<ActualView>,
)
    ensures
        typed_plain(s, stdlib_call_code(c, s, fqcn, name, args, acts)),
    decreases c.level, args_size(args), 3nat, 0nat,
{
    if args.len() == 1 {
        arg_smaller(args, 0);
        expr_plain(c, s, args[0].value);
    }
    assert(typed_plain(s, print_code(c, s, fqcn, name, args)));
    assert(typed_plain(s, run_code(c, s, fqcn, name, args)));
    if let Some((params, _)) = native_static(fqcn, name, args.len()) {
        args_plain(c, s, args, acts, expr_tys(params), Seq::empty(), name);
    }
}

proof fn binary_plain(c: CxView, s: State, op: BinOp, lhs: Expr, rhs: Expr)
    ensures
        typed_plain(s, binary_code(c, s, op, lhs, rhs)),
    decreases c.level, expr_size(lhs) + expr_size(rhs), 3nat, 0nat,
{
    expr_parts(lhs);
    expr_parts(rhs);
    short_circuit_plain(c, s, op is And, lhs, rhs);
    both_plain(c, s, lhs, rhs);
    if let Ok((s1, ty_l)) = expr_code(c, s, lhs) {
        assert(plain(s1, stringed(s1, ty_l)));
        expr_plain(c, stringed(s1, ty_l), rhs);
        if let Ok((s2, ty_r)) = expr_code(c, s1, rhs) {
            assert(typed_plain(s2, promoted(s2, ty_l, ty_r)));
            assert(typed_plain(s2, binary_op(s2, op, ty_l, ty_r)));
        }
    }
}

/// Aiming two jumps of the code since `a`.
pub proof fn aim_later_plain(a: State, b: State, p: int, q: int)
    requires
        plain(a, b),
        a.pc() <= p,
        a.pc() <= q,
    ensures
        plain(a, b.aim_here(p).aim_here(q)),
{
    assert(plain(a, b.aim_here(p)));
}

proof fn short_circuit_plain(c: CxView, s: State, is_and: bool, lhs: Expr, rhs: Expr)
    ensures
        typed_plain(s, short_circuit_code(c, s, is_and, lhs, rhs)),
    decreases c.level, expr_size(lhs) + expr_size(rhs), 2nat, 0nat,
{
    expr_parts(lhs);
    expr_parts(rhs);
    expr_plain(c, s, lhs);
    if let Ok((s1, _)) = expr_code(c, s, lhs) {
        let s2 = s1.op(Opcode::Dup, 1);
        let s3 = s2.branch(
            if is_and {
                Opcode::IfFalse
            } else {
                Opcode::IfTrue
            },
            -1,
        );
        let s3b = s3.op(Opcode::Pop, -1);
        assert(plain(s1, s2) && plain(s2, s3b));
        expr_plain(c, s3b, rhs);
        if let Ok((s4, _)) = expr_code(c, s3b, rhs) {
            let s5 = s4.branch(Opcode::Goto, 0);
            assert(plain(s4, s5));
            assert(plain(s2, s5));
            let s6 = s5.aim_here(s2.pc());
            assert(plain(s2, s6));
            assert(plain(s2, s4));
            aim_later_plain(s1, s5, s2.pc(), s4.pc());
        }
    }
}

} // verus!
