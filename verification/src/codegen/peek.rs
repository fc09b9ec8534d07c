//! The static type of an expression, as far as it can be told without
//! compiling the expression.

use crate::ast::{clone_type, BinOp, Expr, Type, TypeView};
use crate::class_table::{
    called_method, field_found, find_field, find_method, find_operator_method, just_method,
    method_found, Wanted,
};
use crate::codegen::emitter::{Cx, CxView, Emitter, State};
use crate::codegen::expr_ty::{as_type, expr_ty, expr_ty_of, expr_ty_to_type, ExprTy, ExprTyView};
use crate::codegen::ops::{
    class_name, ident, operator_method, operator_method_name, resolve_class_name, resolve_ident,
    IdentRef, IdentView,
};
use crate::names::opt_view;
use crate::native::{result_field, result_field_ty, types1};
use crate::native_generics::{field_ty, native_field};
use crate::sema::types::opt_type;
use crate::size::{expr_parts, expr_size};
use crate::text::owned;
use vstd::prelude::*;

verus! {

/// An operator that a class overloads for an operand type.
#[derive(Debug)]
pub struct Overload {
    pub fqcn: String,
    pub name: String,
    pub operand: Type,
    pub return_ty: Type,
}

pub struct OverloadView {
    pub fqcn: Seq<char>,
    pub name: Seq<char>,
    pub operand: TypeView,
    pub return_ty: TypeView,
}

impl View for Overload {
    type V = OverloadView;

    open spec fn view(&self) -> OverloadView {
        OverloadView {
            fqcn: self.fqcn@,
            name: self.name@,
            operand: self.operand@,
            return_ty: self.return_ty@,
        }
    }
}

/// The method `name` of class `fqcn` that overloads an operator for a right
/// operand of type `rhs`.
pub open spec fn overload_for(c: CxView, fqcn: Seq<char>, name: Seq<char>, rhs: ExprTyView) -> Option<
    OverloadView,
> {
    match method_found(
        c.classes,
        fqcn,
        Wanted::Operator { name, params: seq![as_type(rhs)] },
    ) {
        Some((_, m)) => Some(
            OverloadView { fqcn, name, operand: as_type(rhs), return_ty: m.return_ty },
        ),
        None => None,
    }
}

pub fn find_overload(c: Cx, fqcn: &str, name: &str, rhs: &ExprTy) -> (r: Option<Overload>)
    ensures
        opt_view(r) == overload_for(c@, fqcn@, name@, rhs@),
{
    let operand = expr_ty_to_type(rhs);
    match find_operator_method(c.unit.classes, fqcn, name, &types1(expr_ty_to_type(rhs))) {
        Some((_, m)) => Some(
            Overload {
                fqcn: owned(fqcn),
                name: owned(name),
                operand,
                return_ty: clone_type(&m.return_ty),
            },
        ),
        None => None,
    }
}

/// The overload that `op` means between operands of these types.
pub open spec fn overloaded(
    c: CxView,
    op: BinOp,
    l: Option<ExprTyView>,
    r: Option<ExprTyView>,
) -> Option<OverloadView> {
    match (operator_method(op), l, r) {
        (Some(name), Some(ExprTyView::Object(fqcn)), Some(rhs)) => overload_for(c, fqcn, name, rhs),
        _ => None,
    }
}

pub fn operator_overload(c: Cx, op: BinOp, l: &Option<ExprTy>, r: &Option<ExprTy>) -> (o: Option<
    Overload,
>)
    ensures
        opt_view(o) == overloaded(c@, op, opt_view(*l), opt_view(*r)),
{
    match operator_method_name(op) {
        Some(name) => match (l, r) {
            (Some(ExprTy::Object(fqcn)), Some(rhs)) => find_overload(c, fqcn.as_str(), name, rhs),
            _ => None,
        },
        None => None,
    }
}

/// The type of a field of an object: of a native class, or of one declared.
pub open spec fn member_type(c: CxView, fqcn: Seq<char>, name: Seq<char>) -> Option<TypeView> {
    match native_field(c.natives, fqcn, name) {
        Some(t) => Some(t),
        None => match result_field(fqcn, name) {
            Some(t) => Some(t),
            None => match field_found(c.classes, fqcn, name) {
                Some((_, f)) => Some(f.ty),
                None => None,
            },
        },
    }
}

pub fn member_ty(c: Cx, fqcn: &str, name: &str) -> (r: Option<Type>)
    ensures
        opt_type(r) == member_type(c@, fqcn@, name@),
{
    if let Some(t) = field_ty(c.unit.natives, fqcn, name) {
        return Some(t);
    }
    if let Some(t) = result_field_ty(fqcn, name) {
        return Some(t);
    }
    match find_field(c.unit.classes, fqcn, name) {
        Some(f) => Some(clone_type(&f.ty)),
        None => None,
    }
}

/// The static type of `e`, if it can be told.
pub open spec fn peeked(c: CxView, s: State, e: Expr) -> Option<ExprTyView>
    decreases expr_size(e),
{
    proof {
        expr_parts(e);
    }
    match e {
        Expr::StringLit(_) => Some(ExprTyView::StringT),
        Expr::IntLit(_) => Some(ExprTyView::Int),
        Expr::FloatLit(_) => Some(ExprTyView::Float),
        Expr::BoolLit(_) => Some(ExprTyView::Bool),
        Expr::NullLit => Some(ExprTyView::Null),
        Expr::Ident(name) => match ident(c, s, name@) {
            Some(IdentView::Local(slot)) => Some(slot.ty),
            Some(IdentView::Captured(field)) => Some(field.ty),
            None => None,
        },
        Expr::Binary(op, l, r) => {
            let (tl, tr) = (peeked(c, s, *l), peeked(c, s, *r));
            match overloaded(c, op, tl, tr) {
                Some(o) => Some(expr_ty(o.return_ty)),
                None => if op is Add && joins_strings(tl, tr) {
                    Some(ExprTyView::StringT)
                } else {
                    None
                },
            }
        },
        Expr::New(name, _, _) => Some(ExprTyView::Object(class_name(c, name@))),
        Expr::FieldAccess(target, name) => match peeked(c, s, *target) {
            Some(ExprTyView::Object(fqcn)) => match member_type(c, fqcn, name@) {
                Some(t) => Some(expr_ty(t)),
                None => None,
            },
            _ => None,
        },
        Expr::MethodCall(target, name, args) => match peeked(c, s, *target) {
            Some(ExprTyView::Object(fqcn)) => match just_method(
                called_method(c.classes, fqcn, name@, args@.len()),
            ) {
                Some(m) => Some(expr_ty(m.return_ty)),
                None => None,
            },
            _ => None,
        },
        _ => None,
    }
}

/// Whether either side of a `+` is a string.
pub open spec fn joins_strings(l: Option<ExprTyView>, r: Option<ExprTyView>) -> bool {
    l == Some(ExprTyView::StringT) || r == Some(ExprTyView::StringT)
}

pub fn is_concatenation(l: &Option<ExprTy>, r: &Option<ExprTy>) -> (b: bool)
    ensures
        b == joins_strings(opt_view(*l), opt_view(*r)),
{
    matches!(l, Some(ExprTy::StringT)) || matches!(r, Some(ExprTy::StringT))
}

pub fn peek_type(c: Cx, em: &Emitter, expr: &Expr) -> (r: Option<ExprTy>)
    ensures
        opt_view(r) == peeked(c@, em@, *expr),
    decreases expr_size(*expr),
{
    proof {
        expr_parts(*expr);
    }
    match expr {
        Expr::StringLit(_) => Some(ExprTy::StringT),
        Expr::IntLit(_) => Some(ExprTy::Int),
        Expr::FloatLit(_) => Some(ExprTy::Float),
        Expr::BoolLit(_) => Some(ExprTy::Bool),
        Expr::NullLit => Some(ExprTy::Null),
        Expr::Ident(name) => match resolve_ident(c, em, name.as_str()) {
            Some(IdentRef::Local(slot)) => Some(slot.ty),
            Some(IdentRef::Captured(field)) => Some(field.ty),
            None => None,
        },
        Expr::Binary(op, l, r) => {
            let tl = peek_type(c, em, l);
            let tr = peek_type(c, em, r);
            match operator_overload(c, *op, &tl, &tr) {
                Some(o) => Some(expr_ty_of(&o.return_ty)),
                None => if matches!(op, BinOp::Add) && is_concatenation(&tl, &tr) {
                    Some(ExprTy::StringT)
                } else {
                    None
                },
            }
        },
        Expr::New(name, _, _) => Some(ExprTy::Object(resolve_class_name(c, name.as_str()))),
        Expr::FieldAccess(target, name) => match peek_type(c, em, target) {
            Some(ExprTy::Object(fqcn)) => match member_ty(c, fqcn.as_str(), name.as_str()) {
                Some(t) => Some(expr_ty_of(&t)),
                None => None,
            },
            _ => None,
        },
        Expr::MethodCall(target, name, args) => match peek_type(c, em, target) {
            Some(ExprTy::Object(fqcn)) => match find_method(
                c.unit.classes,
                fqcn.as_str(),
                name.as_str(),
                args.len(),
            ) {
                Some(m) => Some(expr_ty_of(&m.return_ty)),
                None => None,
            },
            _ => None,
        },
        _ => None,
    }
}

} // verus!
