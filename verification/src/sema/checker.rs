//! The check of a method body.

use crate::ast::{
    clone_type, type_views, Arg, BinOp, CatchClause, ClosureBody, Expr, LValue, MatchArm, Param,
    Stmt, StmtKind, SwitchCase, Type, TypeView, UnOp,
};
use crate::resolve::{resolve_name, resolve_type, resolved_type};
use crate::sema::checked::{
    args_checked, arms_checked, array_init_checked, assign_checked, binary_checked, block_checked,
    body_checked, call_checked, cases_checked, cast_block, cast_checked, catches_checked,
    closure_checked, dims_checked, expr_checked, expr_stmt_checked, exprs_checked, fallback_checked,
    field_access_checked, if_checked, index_checked, inits_checked, instanceof_checked,
    loop_entered, match_checked, method_call_checked, narrowed_block, narrowed_expr,
    new_array_checked, new_checked, opt_checked, param_declared, params_declared, return_checked,
    stmt_checked, stmts_checked, ternary_checked, throw_checked, try_checked, unary_checked,
    var_declared, AllTyped, Ended, OptTyped, Passed, Typed,
};
use crate::sema::error::{SemaError, SemaWarning};
use crate::sema::flow::{
    carries, closure_settles, known_again, narrowing_view, settles, Flow, MethodChecker,
};
use crate::sema::members::{
    catch_types, check_catches_reached, check_element_store, check_field_store, check_object_field,
    iterated_ty,
};
use crate::probe::{after, told_decl, told_item};
use crate::sema::rules::{
    check_assignable, check_cast, check_new_array, check_operands, check_unary, is_arm_repeated,
    is_const_expr, is_exhaustive, op_symbol, require_bool, type_or_void, MethodEnv,
};
use crate::sema::types::{opt_type, strip_null};
use crate::size::{
    arg_smaller, args_size, arm_smaller, arms_size, block_size, body_size, case_smaller, cases_size,
    catch_smaller, catches_size, dim_smaller, dims_size, expr_parts, expr_size, exprs_size,
    item_smaller, lvalue_size, opt_block_size, opt_size, stmt_no_larger, stmt_size,
};
use crate::text::owned;
use vstd::prelude::*;

verus! {

broadcast use crate::sema::flow::group_flow;

pub open spec fn typed_as(r: Result<Type, SemaError>, s: Flow, want: Typed) -> bool {
    match r {
        Ok(t) => want == Typed::Ok((t@, s)),
        Err(e) => want == Typed::Err((s.line, e@)),
    }
}

pub open spec fn all_typed_as(r: Result<Vec<Type>, SemaError>, s: Flow, want: AllTyped) -> bool {
    match r {
        Ok(v) => want == AllTyped::Ok((type_views(v@), s)),
        Err(e) => want == AllTyped::Err((s.line, e@)),
    }
}

pub open spec fn opt_typed_as(r: Result<Option<Type>, SemaError>, s: Flow, want: OptTyped) -> bool {
    match r {
        Ok(o) => want == OptTyped::Ok((opt_type(o), s)),
        Err(e) => want == OptTyped::Err((s.line, e@)),
    }
}

pub open spec fn ended_as(r: Result<bool, SemaError>, s: Flow, want: Ended) -> bool {
    match r {
        Ok(b) => want == Ended::Ok((b, s)),
        Err(e) => want == Ended::Err((s.line, e@)),
    }
}

pub open spec fn passed_as(r: Result<(), SemaError>, s: Flow, want: Passed) -> bool {
    match r {
        Ok(_) => want == Passed::Ok(s),
        Err(e) => want == Passed::Err((s.line, e@)),
    }
}

impl MethodChecker {
    pub fn check_expr(&mut self, c: &MethodEnv, expr: &Expr) -> (r: Result<Type, SemaError>)
        ensures
            typed_as(r, final(self)@, expr_checked(c@, old(self)@, *expr)),
            r is Ok ==> settles(old(self)@, final(self)@),
        decreases expr_size(*expr), 0nat, 0nat,
    {
        proof {
            expr_parts(*expr);
        }
        match expr {
            Expr::IntLit(_) => Ok(Type::Int),
            Expr::FloatLit(_) => Ok(Type::Float),
            Expr::BoolLit(_) => Ok(Type::Bool),
            Expr::StringLit(_) => Ok(Type::StringT),
            Expr::NullLit => Ok(Type::NullT),
            Expr::This => {
                if c.is_static {
                    return Err(SemaError::StaticContextMisuse(owned("this")));
                }
                Ok(Type::Named(c.this_fqcn.clone()))
            },
            Expr::Super => {
                if c.is_static {
                    return Err(SemaError::StaticContextMisuse(owned("super")));
                }
                match &c.super_fqcn {
                    Some(fqcn) => Ok(Type::Named(fqcn.clone())),
                    None => Ok(Type::Void),
                }
            },
            Expr::Ident(name) => self.check_variable(name.as_str()),
            Expr::Assign(target, value) => self.check_assign(c, target, value),
            Expr::Call(name, args) => self.check_call(c, name.as_str(), args),
            Expr::New(class, _, args) => self.check_new_object(c, class.as_str(), args),
            Expr::NewArray(elem, dims) => self.check_array(c, elem, dims),
            Expr::NewArrayInit(elem, elements) => self.check_array_init(c, elem, elements),
            Expr::FieldAccess(target, name) => self.check_field(c, target, name.as_str()),
            Expr::MethodCall(target, name, args) => self.check_method_call(
                c,
                target,
                name.as_str(),
                args,
            ),
            Expr::Index(target, index) => self.check_index(c, target, index),
            Expr::InstanceOf(target, _) => self.check_instanceof(c, target),
            Expr::Cast(ty, inner) => self.check_cast_expr(c, ty, inner),
            Expr::PostIncr(name) => self.check_counted(name.as_str()),
            Expr::PostDecr(name) => self.check_counted(name.as_str()),
            Expr::Unary(op, inner) => self.check_unary_expr(c, *op, inner),
            Expr::Binary(op, lhs, rhs) => self.check_binary(c, *op, lhs, rhs),
            Expr::Match(subject, arms) => self.check_match(c, subject, arms),
            Expr::Ternary(cond, then_e, else_e) => self.check_ternary(c, cond, then_e, else_e),
            Expr::Coalesce(lhs, rhs) => self.check_fallback(c, lhs, rhs),
            Expr::Elvis(lhs, rhs) => self.check_fallback(c, lhs, rhs),
            Expr::Closure { params, return_type, body, .. } => self.check_closure(
                c,
                params,
                return_type,
                body,
            ),
        }
    }

    fn check_call(&mut self, c: &MethodEnv, name: &str, args: &Vec<Arg>) -> (r: Result<
        Type,
        SemaError,
    >)
        ensures
            typed_as(r, final(self)@, call_checked(c@, old(self)@, name@, args@)),
            r is Ok ==> settles(old(self)@, final(self)@),
        decreases args_size(args@), 2nat, 0nat,
    {
        let arg_types = self.check_args(c, args)?;
        self.check_sig_use(c, name, args, &arg_types)
    }

    fn check_new_object(&mut self, c: &MethodEnv, class: &str, args: &Vec<Arg>) -> (r: Result<
        Type,
        SemaError,
    >)
        ensures
            typed_as(r, final(self)@, new_checked(c@, old(self)@, class@, args@)),
            r is Ok ==> settles(old(self)@, final(self)@),
        decreases args_size(args@), 2nat, 0nat,
    {
        let _ = self.check_args(c, args)?;
        self.check_new(c, class, args)
    }

    fn check_array(&mut self, c: &MethodEnv, elem: &Type, dims: &Vec<Option<Expr>>) -> (r: Result<
        Type,
        SemaError,
    >)
        ensures
            typed_as(r, final(self)@, new_array_checked(c@, old(self)@, *elem, dims@)),
            r is Ok ==> settles(old(self)@, final(self)@),
        decreases dims_size(dims@), 2nat, 0nat,
    {
        let ghost whole = dims_checked(c@, self@, dims@, 0);
        let mut i: usize = 0;
        while i < dims.len()
            invariant
                settles(old(self)@, self@),
                i <= dims@.len(),
                whole == dims_checked(c@, old(self)@, dims@, 0),
                whole == dims_checked(c@, self@, dims@, i as int),
            decreases dims@.len() - i,
        {
            proof {
                dim_smaller(dims@, i as int);
            }
            let _ = self.check_opt(c, &dims[i])?;
            i = i + 1;
        }
        check_new_array(c, elem, dims)
    }

    fn check_array_init(&mut self, c: &MethodEnv, elem: &Type, elements: &Vec<Expr>) -> (r: Result<
        Type,
        SemaError,
    >)
        ensures
            typed_as(r, final(self)@, array_init_checked(c@, old(self)@, *elem, elements@)),
            r is Ok ==> settles(old(self)@, final(self)@),
        decreases exprs_size(elements@), 2nat, 0nat,
    {
        self.check_exprs(c, elements)?;
        Ok(Type::Array(Box::new(resolve_type(elem, c.imports))))
    }

    fn check_field(&mut self, c: &MethodEnv, target: &Expr, name: &str) -> (r: Result<
        Type,
        SemaError,
    >)
        ensures
            typed_as(r, final(self)@, field_access_checked(c@, old(self)@, *target, name@)),
            r is Ok ==> settles(old(self)@, final(self)@),
        decreases expr_size(*target), 1nat, 0nat,
    {
        if let Some(t) = self.static_member_ty(c, target, name) {
            return Ok(t);
        }
        let t = self.check_expr(c, target)?;
        check_object_field(c, &t, name)
    }

    fn check_method_call(
        &mut self,
        c: &MethodEnv,
        target: &Expr,
        name: &str,
        args: &Vec<Arg>,
    ) -> (r: Result<Type, SemaError>)
        ensures
            typed_as(
                r,
                final(self)@,
                method_call_checked(c@, old(self)@, *target, name@, args@),
            ),
            r is Ok ==> settles(old(self)@, final(self)@),
        decreases expr_size(*target) + args_size(args@), 2nat, 0nat,
    {
        let t = self.check_expr(c, target)?;
        let arg_types = self.check_args(c, args)?;
        match self.check_static_use(c, target, name, args, &arg_types) {
            Some(r) => r,
            None => self.check_instance_use(c, target, &t, name, args, &arg_types),
        }
    }

    fn check_index(&mut self, c: &MethodEnv, target: &Expr, index: &Expr) -> (r: Result<
        Type,
        SemaError,
    >)
        ensures
            typed_as(r, final(self)@, index_checked(c@, old(self)@, *target, *index)),
            r is Ok ==> settles(old(self)@, final(self)@),
        decreases expr_size(*target) + expr_size(*index), 1nat, 0nat,
    {
        let t = self.check_expr(c, target)?;
        let _ = self.check_expr(c, index)?;
        match t {
            Type::Array(elem) => Ok(*elem),
            _ => Ok(Type::Void),
        }
    }

    fn check_instanceof(&mut self, c: &MethodEnv, target: &Expr) -> (r: Result<Type, SemaError>)
        ensures
            typed_as(r, final(self)@, instanceof_checked(c@, old(self)@, *target)),
            r is Ok ==> settles(old(self)@, final(self)@),
        decreases expr_size(*target), 1nat, 0nat,
    {
        let _ = self.check_expr(c, target)?;
        Ok(Type::Bool)
    }

    fn check_cast_expr(&mut self, c: &MethodEnv, ty: &Type, inner: &Expr) -> (r: Result<
        Type,
        SemaError,
    >)
        ensures
            typed_as(r, final(self)@, cast_checked(c@, old(self)@, *ty, *inner)),
            r is Ok ==> settles(old(self)@, final(self)@),
        decreases expr_size(*inner), 1nat, 0nat,
    {
        let t = self.check_expr(c, inner)?;
        let to = resolve_type(ty, c.imports);
        check_cast(c.classes, &t, &to)?;
        Ok(to)
    }

    fn check_unary_expr(&mut self, c: &MethodEnv, op: UnOp, inner: &Expr) -> (r: Result<
        Type,
        SemaError,
    >)
        ensures
            typed_as(r, final(self)@, unary_checked(c@, old(self)@, op, *inner)),
            r is Ok ==> settles(old(self)@, final(self)@),
        decreases expr_size(*inner), 1nat, 0nat,
    {
        let t = self.check_expr(c, inner)?;
        check_unary(op, t)
    }

    fn check_binary(&mut self, c: &MethodEnv, op: BinOp, lhs: &Expr, rhs: &Expr) -> (r: Result<
        Type,
        SemaError,
    >)
        ensures
            typed_as(r, final(self)@, binary_checked(c@, old(self)@, op, *lhs, *rhs)),
            r is Ok ==> settles(old(self)@, final(self)@),
        decreases expr_size(*lhs) + expr_size(*rhs), 2nat, 0nat,
    {
        if op == BinOp::And || op == BinOp::Or {
            let l = self.check_expr(c, lhs)?;
            require_bool(op_symbol(op), &l)?;
            let ns = self.narrowing_from_cond(c, lhs);
            let narrow = if op == BinOp::And {
                &ns.0
            } else {
                &ns.1
            };
            let r = self.narrow_and_check_expr(c, rhs, narrow)?;
            require_bool(op_symbol(op), &r)?;
            return Ok(Type::Bool);
        }
        let l = self.check_expr(c, lhs)?;
        let r = self.check_expr(c, rhs)?;
        check_operands(op, &l, &r)
    }

    /// Checks a branch with what is known there. Afterwards, whether it passed
    /// or not, no more is known than before.
    pub fn narrow_and_check_expr(&mut self, c: &MethodEnv, expr: &Expr, ns: &Vec<(u32, Type)>) -> (r:
        Result<Type, SemaError>)
        ensures
            typed_as(
                r,
                final(self)@,
                narrowed_expr(c@, old(self)@, *expr, narrowing_view(ns@)),
            ),
            known_again(old(self)@, final(self)@, narrowing_view(ns@)),
            r is Ok ==> settles(old(self)@, final(self)@),
        decreases expr_size(*expr), 1nat, 0nat,
    {
        let saved = self.narrow(ns);
        let r = self.check_expr(c, expr);
        self.restore(saved, Ghost(old(self)@.narrowed), Ghost(narrowing_view(ns@)));
        r
    }

    fn check_ternary(&mut self, c: &MethodEnv, cond: &Expr, then_e: &Expr, else_e: &Expr) -> (r:
        Result<Type, SemaError>)
        ensures
            typed_as(
                r,
                final(self)@,
                ternary_checked(c@, old(self)@, *cond, *then_e, *else_e),
            ),
            r is Ok ==> settles(old(self)@, final(self)@),
        decreases expr_size(*cond) + expr_size(*then_e) + expr_size(*else_e), 2nat, 0nat,
    {
        let t = self.check_expr(c, cond)?;
        require_bool(owned("?:"), &t)?;
        let ns = self.narrowing_from_cond(c, cond);
        let a = self.narrow_and_check_expr(c, then_e, &ns.0)?;
        let _ = self.narrow_and_check_expr(c, else_e, &ns.1)?;
        Ok(a)
    }

    fn check_fallback(&mut self, c: &MethodEnv, lhs: &Expr, rhs: &Expr) -> (r: Result<
        Type,
        SemaError,
    >)
        ensures
            typed_as(r, final(self)@, fallback_checked(c@, old(self)@, *lhs, *rhs)),
            r is Ok ==> settles(old(self)@, final(self)@),
        decreases expr_size(*lhs) + expr_size(*rhs), 1nat, 0nat,
    {
        let t = self.check_expr(c, lhs)?;
        let _ = self.check_expr(c, rhs)?;
        Ok(strip_null(&t))
    }

    fn check_args(&mut self, c: &MethodEnv, args: &Vec<Arg>) -> (r: Result<Vec<Type>, SemaError>)
        ensures
            all_typed_as(
                r,
                final(self)@,
                args_checked(c@, old(self)@, args@, Seq::empty(), 0),
            ),
            r matches Ok(v) ==> v@.len() == args@.len(),
            r is Ok ==> settles(old(self)@, final(self)@),
        decreases args_size(args@), 1nat, 0nat,
    {
        let ghost whole = args_checked(c@, self@, args@, Seq::empty(), 0);
        let mut out: Vec<Type> = Vec::new();
        let mut i: usize = 0;
        assert(type_views(out@) =~= Seq::<TypeView>::empty());
        while i < args.len()
            invariant
                settles(old(self)@, self@),
                i <= args@.len(),
                out@.len() == i,
                whole == args_checked(c@, old(self)@, args@, Seq::empty(), 0),
                whole == args_checked(c@, self@, args@, type_views(out@), i as int),
            decreases args@.len() - i,
        {
            proof {
                arg_smaller(args@, i as int);
            }
            let t = self.check_expr(c, &args[i].value)?;
            let ghost acc = type_views(out@);
            out.push(t);
            assert(type_views(out@) =~= acc.push(t@));
            i = i + 1;
        }
        Ok(out)
    }

    fn check_exprs(&mut self, c: &MethodEnv, exprs: &Vec<Expr>) -> (r: Result<(), SemaError>)
        ensures
            passed_as(r, final(self)@, exprs_checked(c@, old(self)@, exprs@, 0)),
            r is Ok ==> settles(old(self)@, final(self)@),
        decreases exprs_size(exprs@), 1nat, 0nat,
    {
        let ghost whole = exprs_checked(c@, self@, exprs@, 0);
        let mut i: usize = 0;
        while i < exprs.len()
            invariant
                settles(old(self)@, self@),
                i <= exprs@.len(),
                whole == exprs_checked(c@, old(self)@, exprs@, 0),
                whole == exprs_checked(c@, self@, exprs@, i as int),
            decreases exprs@.len() - i,
        {
            proof {
                item_smaller(exprs@, i as int);
            }
            let _ = self.check_expr(c, &exprs[i])?;
            i = i + 1;
        }
        Ok(())
    }

    fn check_opt(&mut self, c: &MethodEnv, e: &Option<Expr>) -> (r: Result<Option<Type>, SemaError>)
        ensures
            opt_typed_as(r, final(self)@, opt_checked(c@, old(self)@, *e)),
            r is Ok ==> settles(old(self)@, final(self)@),
        decreases opt_size(*e), 1nat, 0nat,
    {
        match e {
            Some(e) => {
                let t = self.check_expr(c, e)?;
                Ok(Some(t))
            },
            None => Ok(None),
        }
    }

    fn check_match(&mut self, c: &MethodEnv, subject: &Expr, arms: &Vec<MatchArm>) -> (r: Result<
        Type,
        SemaError,
    >)
        ensures
            typed_as(r, final(self)@, match_checked(c@, old(self)@, *subject, arms@)),
            r is Ok ==> settles(old(self)@, final(self)@),
        decreases expr_size(*subject) + arms_size(arms@), 2nat, 0nat,
    {
        let t = self.check_expr(c, subject)?;
        let first = self.check_arms(c, arms)?;
        if is_exhaustive(c.classes, &t, arms) {
            Ok(type_or_void(first))
        } else {
            Err(SemaError::MatchNotExhaustive(owned("default")))
        }
    }

    fn check_arms(&mut self, c: &MethodEnv, arms: &Vec<MatchArm>) -> (r: Result<
        Option<Type>,
        SemaError,
    >)
        ensures
            opt_typed_as(r, final(self)@, arms_checked(c@, old(self)@, arms@, None, 0)),
            r is Ok ==> settles(old(self)@, final(self)@),
        decreases arms_size(arms@), 1nat, 0nat,
    {
        let ghost whole = arms_checked(c@, self@, arms@, None, 0);
        let mut first: Option<Type> = None;
        let mut i: usize = 0;
        while i < arms.len()
            invariant
                settles(old(self)@, self@),
                i <= arms@.len(),
                whole == arms_checked(c@, old(self)@, arms@, None, 0),
                whole == arms_checked(c@, self@, arms@, opt_type(first), i as int),
            decreases arms@.len() - i,
        {
            if is_arm_repeated(arms, i) {
                return Err(SemaError::MatchNotExhaustive(owned("unreachable duplicate arm")));
            }
            proof {
                arm_smaller(arms@, i as int);
            }
            let _ = self.check_opt(c, &arms[i].pattern)?;
            let t = self.check_expr(c, &arms[i].value)?;
            if first.is_none() {
                first = Some(t);
            }
            i = i + 1;
        }
        Ok(first)
    }

    fn check_assign(&mut self, c: &MethodEnv, target: &LValue, value: &Expr) -> (r: Result<
        Type,
        SemaError,
    >)
        ensures
            typed_as(r, final(self)@, assign_checked(c@, old(self)@, *target, *value)),
            r is Ok ==> settles(old(self)@, final(self)@),
        decreases lvalue_size(*target) + expr_size(*value), 1nat, 0nat,
    {
        match target {
            LValue::Local(name) => {
                let t = self.check_expr(c, value)?;
                self.check_store(c, name.as_str(), t)
            },
            LValue::Field(object, name) => {
                if c.is_const_method && matches!(**object, Expr::This) {
                    return Err(SemaError::ConstMethodPropertyModification(name.clone()));
                }
                let t = self.check_expr(c, object)?;
                let v = self.check_expr(c, value)?;
                check_field_store(c, object, &t, name.as_str(), v)
            },
            LValue::Index(array, index) => {
                let t = self.check_expr(c, array)?;
                let _ = self.check_expr(c, index)?;
                let v = self.check_expr(c, value)?;
                check_element_store(c, t, v)
            },
        }
    }

    fn declare_param(&mut self, c: &MethodEnv, p: &Param, of_method: bool) -> (r: Result<
        (),
        SemaError,
    >)
        ensures
            passed_as(r, final(self)@, param_declared(c@, old(self)@, *p, of_method)),
            r is Ok ==> carries(old(self)@, final(self)@),
    {
        let id: u32 = self.declare(p.name.as_str(), resolve_type(&p.ty, c.imports));
        self.tell(p.name.as_str(), Some(resolve_type(&p.ty, c.imports)));
        self.mark_const(id, p.is_const);
        if let Some(default) = &p.default {
            if !is_const_expr(default) {
                return Err(SemaError::DefaultNotConstant(p.name.clone()));
            }
        }
        if of_method && p.is_ref && p.default.is_some() {
            return Err(SemaError::OptionalCannotBeRef);
        }
        self.assign(id);
        Ok(())
    }

    pub fn declare_params(&mut self, c: &MethodEnv, params: &Vec<Param>, of_method: bool) -> (r:
        Result<(), SemaError>)
        ensures
            passed_as(r, final(self)@, params_declared(c@, old(self)@, params@, of_method, 0)),
            r is Ok ==> carries(old(self)@, final(self)@),
    {
        let ghost whole = params_declared(c@, self@, params@, of_method, 0);
        let mut i: usize = 0;
        while i < params.len()
            invariant
                carries(old(self)@, self@),
                i <= params@.len(),
                whole == params_declared(c@, old(self)@, params@, of_method, 0),
                whole == params_declared(c@, self@, params@, of_method, i as int),
            decreases params@.len() - i,
        {
            self.declare_param(c, &params[i], of_method)?;
            i = i + 1;
        }
        Ok(())
    }

    fn check_closure(
        &mut self,
        c: &MethodEnv,
        params: &Vec<Param>,
        return_type: &Option<Type>,
        body: &ClosureBody,
    ) -> (r: Result<Type, SemaError>)
        ensures
            typed_as(
                r,
                final(self)@,
                closure_checked(c@, old(self)@, params@, *return_type, *body),
            ),
            r is Ok ==> settles(old(self)@, final(self)@),
        decreases body_size(*body), 1nat, 0nat,
    {
        let saved_assigned = self.assigned.copy();
        let saved_return = clone_type(&self.return_ty);
        let saved_skip = self.skip_return_check;
        let saved_typings = self.typings.copy();
        self.push_scope();
        self.declare_params(c, params, false)?;
        let ghost inside = self@;
        match return_type {
            Some(t) => self.set_return(resolve_type(t, c.imports), false),
            None => self.set_return(Type::Void, true),
        }
        let ghost start = self@;
        self.check_body(c, body)?;
        proof {
            let ty = match return_type {
                Some(t) => resolved_type(t@, c@.imports),
                None => TypeView::Void,
            };
            assert(start == inside.returning(ty, return_type is None));
            closure_settles(old(self)@, inside, ty, return_type is None, self@);
        }
        self.set_return(saved_return, saved_skip);
        self.pop_scope();
        self.set_typings(saved_typings);
        self.set_assigned(saved_assigned);
        Ok(Type::Void)
    }

    fn check_body(&mut self, c: &MethodEnv, body: &ClosureBody) -> (r: Result<(), SemaError>)
        ensures
            passed_as(r, final(self)@, body_checked(c@, old(self)@, *body)),
            r is Ok ==> carries(old(self)@, final(self)@),
        decreases body_size(*body), 0nat, 0nat,
    {
        match body {
            ClosureBody::Block(block) => {
                let _ = self.check_stmts(c, block)?;
                Ok(())
            },
            ClosureBody::Expr(e) => {
                let _ = self.check_expr(c, e)?;
                Ok(())
            },
        }
    }

    pub fn check_stmts(&mut self, c: &MethodEnv, stmts: &Vec<Stmt>) -> (r: Result<bool, SemaError>)
        ensures
            ended_as(r, final(self)@, stmts_checked(c@, old(self)@, stmts@, false, 0)),
            r is Ok ==> carries(old(self)@, final(self)@),
        decreases block_size(stmts@), 1nat, 0nat,
    {
        let ghost whole = stmts_checked(c@, self@, stmts@, false, 0);
        let mut ended = false;
        let mut i: usize = 0;
        while i < stmts.len() && !ended
            invariant
                carries(old(self)@, self@),
                i <= stmts@.len(),
                whole == stmts_checked(c@, old(self)@, stmts@, false, 0),
                whole == stmts_checked(c@, self@, stmts@, ended, i as int),
            decreases stmts@.len() - i,
        {
            proof {
                stmt_no_larger(stmts@, i as int);
            }
            ended = self.check_stmt(c, &stmts[i])?;
            i = i + 1;
        }
        Ok(ended)
    }

    fn check_block(&mut self, c: &MethodEnv, stmts: &Vec<Stmt>) -> (r: Result<bool, SemaError>)
        ensures
            ended_as(r, final(self)@, block_checked(c@, old(self)@, stmts@)),
            r is Ok ==> settles(old(self)@, final(self)@),
        decreases block_size(stmts@), 2nat, 0nat,
    {
        let typings = self.typings.copy();
        self.push_scope();
        let ended = self.check_stmts(c, stmts)?;
        self.pop_scope();
        self.set_typings(typings);
        Ok(ended)
    }

    pub fn narrow_and_check_block(
        &mut self,
        c: &MethodEnv,
        stmts: &Vec<Stmt>,
        ns: &Vec<(u32, Type)>,
    ) -> (r: Result<bool, SemaError>)
        ensures
            ended_as(
                r,
                final(self)@,
                narrowed_block(c@, old(self)@, stmts@, narrowing_view(ns@)),
            ),
            known_again(old(self)@, final(self)@, narrowing_view(ns@)),
            r is Ok ==> settles(old(self)@, final(self)@),
        decreases block_size(stmts@), 3nat, 0nat,
    {
        let saved = self.narrow(ns);
        let r = self.check_block(c, stmts);
        self.restore(saved, Ghost(old(self)@.narrowed), Ghost(narrowing_view(ns@)));
        r
    }

    fn cast_and_check_block(
        &mut self,
        c: &MethodEnv,
        cond: &Expr,
        stmts: &Vec<Stmt>,
        ns: &Vec<(u32, Type)>,
    ) -> (r: Result<bool, SemaError>)
        ensures
            ended_as(
                r,
                final(self)@,
                cast_block(c@, old(self)@, *cond, stmts@, narrowing_view(ns@)),
            ),
            r is Ok ==> settles(old(self)@, final(self)@),
        decreases block_size(stmts@), 4nat, 0nat,
    {
        let typings = self.typings.copy();
        let mut inside = self.typings.copy();
        inside.cast(&c.site(), cond, stmts);
        self.set_typings(inside);
        let ended = self.narrow_and_check_block(c, stmts, ns)?;
        self.set_typings(typings);
        Ok(ended)
    }

    fn check_stmt(&mut self, c: &MethodEnv, stmt: &Stmt) -> (r: Result<bool, SemaError>)
        ensures
            ended_as(r, final(self)@, stmt_checked(c@, old(self)@, *stmt)),
            r is Ok ==> carries(old(self)@, final(self)@),
            r is Ok ==> final(self)@.typings == after(c@.site(), old(self)@.typings, *stmt),
        decreases stmt_size(*stmt), 0nat, 0nat,
    {
        self.set_line(stmt.line);
        match &stmt.kind {
            StmtKind::Return(e) => self.check_return(c, e),
            StmtKind::Expr(e) => self.check_expr_stmt(c, e, stmt.line),
            StmtKind::ThisCall(args) => {
                let _ = self.check_args(c, args)?;
                self.check_ctor_args(c, c.this_fqcn.as_str(), args)?;
                Ok(false)
            },
            StmtKind::SuperCall(args) => {
                let _ = self.check_args(c, args)?;
                if let Some(fqcn) = &c.super_fqcn {
                    self.check_ctor_args(c, fqcn.as_str(), args)?;
                }
                Ok(false)
            },
            StmtKind::Throw(e) => self.check_throw(c, e),
            StmtKind::Try { body, catches, finally } => self.check_try(c, body, catches, finally),
            StmtKind::VarDecl { ty, name, init, is_const } => {
                let told = told_decl(&c.site(), &self.typings, ty, init);
                let value = self.check_opt(c, init)?;
                self.declare_var(c, ty, name.as_str(), value, told, *is_const)
            },
            StmtKind::If { cond, then_branch, else_branch } => self.check_if(
                c,
                cond,
                then_branch,
                else_branch,
            ),
            StmtKind::While { cond, body } => {
                let _ = self.check_expr(c, cond)?;
                let assigned = self.assigned.copy();
                let _ = self.check_block(c, body)?;
                self.set_assigned(assigned);
                Ok(false)
            },
            StmtKind::ForEach { ty, var, iterable, body } => {
                let t = self.check_expr(c, iterable)?;
                let assigned = self.assigned.copy();
                let typings = self.typings.copy();
                self.enter_loop(c, ty, var.as_str(), iterable, &t)?;
                let _ = self.check_stmts(c, body)?;
                self.pop_scope();
                self.set_typings(typings);
                self.set_assigned(assigned);
                Ok(false)
            },
            StmtKind::For { init, cond, step, body } => {
                let assigned = self.assigned.copy();
                let typings = self.typings.copy();
                self.push_scope();
                self.check_inits(c, init)?;
                let _ = self.check_opt(c, cond)?;
                let _ = self.check_block(c, body)?;
                self.check_exprs(c, step)?;
                self.pop_scope();
                self.set_typings(typings);
                self.set_assigned(assigned);
                Ok(false)
            },
            StmtKind::Break => Ok(true),
            StmtKind::Continue => Ok(true),
            StmtKind::Block(block) => self.check_block(c, block),
            StmtKind::Switch { subject, cases } => {
                let _ = self.check_expr(c, subject)?;
                self.check_cases(c, cases)?;
                Ok(false)
            },
        }
    }

    fn check_return(&mut self, c: &MethodEnv, e: &Option<Expr>) -> (r: Result<bool, SemaError>)
        ensures
            ended_as(r, final(self)@, return_checked(c@, old(self)@, *e)),
            r is Ok ==> settles(old(self)@, final(self)@),
        decreases opt_size(*e), 2nat, 0nat,
    {
        let t = self.check_opt(c, e)?;
        if let Some(t) = t {
            if !self.skip_return_check {
                check_assignable(c.classes, &t, &self.return_ty)?;
            }
        }
        Ok(true)
    }

    fn check_expr_stmt(&mut self, c: &MethodEnv, e: &Expr, line: u32) -> (r: Result<
        bool,
        SemaError,
    >)
        ensures
            ended_as(r, final(self)@, expr_stmt_checked(c@, old(self)@, *e, line)),
            r is Ok ==> settles(old(self)@, final(self)@),
        decreases expr_size(*e), 1nat, 0nat,
    {
        let _ = self.check_expr(c, e)?;
        if let Some(name) = self.nodiscard_call_name(c, e) {
            self.warn(line, SemaWarning::NodiscardDiscarded(name));
        }
        Ok(self.is_exit(e))
    }

    fn check_throw(&mut self, c: &MethodEnv, e: &Expr) -> (r: Result<bool, SemaError>)
        ensures
            ended_as(r, final(self)@, throw_checked(c@, old(self)@, *e)),
            r is Ok ==> settles(old(self)@, final(self)@),
        decreases expr_size(*e), 1nat, 0nat,
    {
        let t = self.check_expr(c, e)?;
        if let Type::Named(fqcn) = &t {
            self.require_handled(c, fqcn.as_str())?;
        }
        Ok(true)
    }

    fn declare_var(
        &mut self,
        c: &MethodEnv,
        ty: &Option<Type>,
        name: &str,
        value: Option<Type>,
        told: Option<Type>,
        is_const: bool,
    ) -> (r: Result<bool, SemaError>)
        ensures
            ended_as(
                r,
                final(self)@,
                var_declared(
                    c@,
                    old(self)@,
                    *ty,
                    name@,
                    opt_type(value),
                    opt_type(told),
                    is_const,
                ),
            ),
            r is Ok ==> carries(old(self)@, final(self)@),
            r is Ok ==> final(self)@.typings == old(self)@.typings.push((name@, opt_type(told))),
    {
        reveal(var_declared);
        let declared = match (ty, &value) {
            (Some(t), _) => resolve_type(t, c.imports),
            (None, Some(v)) => clone_type(v),
            (None, None) => return Err(SemaError::AutoWithoutInitializer),
        };
        if let Some(v) = &value {
            check_assignable(c.classes, v, &declared)?;
        }
        let id: u32 = self.declare(name, declared);
        self.tell(name, told);
        self.mark_const(id, is_const);
        if value.is_some() {
            self.assign(id);
        }
        Ok(false)
    }

    fn check_if(
        &mut self,
        c: &MethodEnv,
        cond: &Expr,
        then_branch: &Vec<Stmt>,
        else_branch: &Option<Vec<Stmt>>,
    ) -> (r: Result<bool, SemaError>)
        ensures
            ended_as(
                r,
                final(self)@,
                if_checked(c@, old(self)@, *cond, then_branch@, *else_branch),
            ),
            r is Ok ==> settles(old(self)@, final(self)@),
        decreases
                expr_size(*cond) + block_size(then_branch@) + opt_block_size(*else_branch),
                4nat,
                0nat,
    {
        let _ = self.check_expr(c, cond)?;
        let ghost start = self@;
        let ns = self.narrowing_from_cond(c, cond);
        let before = self.assigned.copy();
        let a_ends = self.cast_and_check_block(c, cond, then_branch, &ns.0)?;
        let a = self.assigned.copy();
        assert(settles(start, self@) && start.assigned.subset_of(a@));
        self.set_assigned(before);
        let b_ends = match else_branch {
            Some(block) => self.narrow_and_check_block(c, block, &ns.1)?,
            None => false,
        };
        let b = self.assigned.copy();
        assert(settles(start, self@) && start.assigned.subset_of(b@));
        if a_ends && !b_ends {
            self.keep(&ns.1);
        } else if b_ends && !a_ends {
            self.keep(&ns.0);
        }
        assert(settles(start, self@));
        let after = if a_ends && b_ends {
            a.union(&b)
        } else if a_ends {
            b
        } else if b_ends {
            a
        } else {
            a.intersection(&b)
        };
        assert(start.assigned.subset_of(after@));
        assert(settles(start, self@.with_assigned(after@)));
        self.set_assigned(after);
        Ok(a_ends && b_ends)
    }

    fn enter_loop(
        &mut self,
        c: &MethodEnv,
        ty: &Option<Type>,
        var: &str,
        iterable: &Expr,
        iterable_ty: &Type,
    ) -> (r: Result<(), SemaError>)
        ensures
            passed_as(
                r,
                final(self)@,
                loop_entered(c@, old(self)@, *ty, var@, *iterable, iterable_ty@),
            ),
            r is Ok ==> carries(old(self)@.push_scope(), final(self)@),
    {
        reveal(loop_entered);
        let elem = iterated_ty(c, iterable_ty);
        let told = told_item(&c.site(), &self.typings, ty, iterable);
        self.push_scope();
        let declared = match ty {
            Some(t) => {
                let declared = resolve_type(t, c.imports);
                check_assignable(c.classes, &elem, &declared)?;
                declared
            },
            None => elem,
        };
        let id: u32 = self.declare(var, declared);
        self.tell(var, told);
        let readonly = self.is_readonly_collection(c, iterable);
        self.mark_loop_var(id, readonly);
        self.assign(id);
        Ok(())
    }

    fn check_inits(&mut self, c: &MethodEnv, stmts: &Vec<Stmt>) -> (r: Result<(), SemaError>)
        ensures
            passed_as(r, final(self)@, inits_checked(c@, old(self)@, stmts@, 0)),
            r is Ok ==> carries(old(self)@, final(self)@),
        decreases block_size(stmts@), 1nat, 0nat,
    {
        let ghost whole = inits_checked(c@, self@, stmts@, 0);
        let mut i: usize = 0;
        while i < stmts.len()
            invariant
                carries(old(self)@, self@),
                i <= stmts@.len(),
                whole == inits_checked(c@, old(self)@, stmts@, 0),
                whole == inits_checked(c@, self@, stmts@, i as int),
            decreases stmts@.len() - i,
        {
            proof {
                stmt_no_larger(stmts@, i as int);
            }
            let _ = self.check_stmt(c, &stmts[i])?;
            i = i + 1;
        }
        Ok(())
    }

    fn check_cases(&mut self, c: &MethodEnv, cases: &Vec<SwitchCase>) -> (r: Result<(), SemaError>)
        ensures
            passed_as(r, final(self)@, cases_checked(c@, old(self)@, cases@, 0)),
            r is Ok ==> settles(old(self)@, final(self)@),
        decreases cases_size(cases@), 1nat, 0nat,
    {
        let ghost whole = cases_checked(c@, self@, cases@, 0);
        let mut i: usize = 0;
        while i < cases.len()
            invariant
                settles(old(self)@, self@),
                i <= cases@.len(),
                whole == cases_checked(c@, old(self)@, cases@, 0),
                whole == cases_checked(c@, self@, cases@, i as int),
            decreases cases@.len() - i,
        {
            proof {
                case_smaller(cases@, i as int);
            }
            let assigned = self.assigned.copy();
            let _ = self.check_opt(c, &cases[i].value)?;
            let _ = self.check_block(c, &cases[i].body)?;
            self.set_assigned(assigned);
            i = i + 1;
        }
        Ok(())
    }

    fn check_try(
        &mut self,
        c: &MethodEnv,
        body: &Vec<Stmt>,
        catches: &Vec<CatchClause>,
        finally: &Option<Vec<Stmt>>,
    ) -> (r: Result<bool, SemaError>)
        ensures
            ended_as(
                r,
                final(self)@,
                try_checked(c@, old(self)@, body@, catches@, *finally),
            ),
            r is Ok ==> settles(old(self)@, final(self)@),
        decreases
                block_size(body@) + catches_size(catches@) + opt_block_size(*finally),
                3nat,
                0nat,
    {
        check_catches_reached(c, catches)?;
        let assigned = self.assigned.copy();
        self.push_catches(catch_types(c, catches));
        let _ = self.check_block(c, body)?;
        self.pop_catches();
        self.set_assigned(assigned);
        self.check_catches(c, catches)?;
        match finally {
            Some(block) => self.check_block(c, block),
            None => Ok(false),
        }
    }

    fn check_catches(&mut self, c: &MethodEnv, catches: &Vec<CatchClause>) -> (r: Result<
        (),
        SemaError,
    >)
        ensures
            passed_as(r, final(self)@, catches_checked(c@, old(self)@, catches@, 0)),
            r is Ok ==> settles(old(self)@, final(self)@),
        decreases catches_size(catches@), 1nat, 0nat,
    {
        let ghost whole = catches_checked(c@, self@, catches@, 0);
        let mut i: usize = 0;
        while i < catches.len()
            invariant
                settles(old(self)@, self@),
                i <= catches@.len(),
                whole == catches_checked(c@, old(self)@, catches@, 0),
                whole == catches_checked(c@, self@, catches@, i as int),
            decreases catches@.len() - i,
        {
            proof {
                catch_smaller(catches@, i as int);
            }
            let catch = &catches[i];
            let assigned = self.assigned.copy();
            let typings = self.typings.copy();
            self.push_scope();
            let ty = Type::Named(resolve_name(catch.ty.as_str(), c.imports));
            let id: u32 = self.declare(catch.var.as_str(), clone_type(&ty));
            self.tell(catch.var.as_str(), Some(ty));
            self.assign(id);
            let _ = self.check_stmts(c, &catch.body)?;
            self.pop_scope();
            self.set_typings(typings);
            self.set_assigned(assigned);
            i = i + 1;
        }
        Ok(())
    }
}

} // verus!
