//! The static type of an argument, as far as it can be told from the source
//! around it. By these types a call is bound to one of several overloads, in
//! the check of a program and in its code alike.

use crate::ast::{
    clone_type, layered, plain_array_of, Arg, BinOp, Expr, LValue, Param, Stmt, StmtKind,
    Type, TypeView, UnOp,
};
use crate::class_table::{
    field_found, find_field, find_method_owner_overload, find_operator_method, method_found,
    opt_types, overload_found, parent_of, ClassTable, Classes, Wanted,
};
use crate::codegen::closure::{collect_block, in_block, Occurs};
use crate::codegen::ops::{operator_method, operator_method_name};
use crate::names::{bound_to, NameMap, NameSet};
use crate::native::{instance_lookup, instance_sig, result_field, result_field_ty, types1};
use crate::native_generics::{
    element_type, field_ty, foreach_element_ty, is_instance, method_signature, native_class,
    native_field, native_method_sig, NativeClasses, Natives,
};
use crate::resolve::{
    dotted_path, opt_string, path_of, resolve_name, resolve_type, resolved_name, resolved_type,
};
use crate::sema::stdlib::{
    enum_const_ty, is_native_instance, lookup, native_constant, native_instance, static_sig,
};
use crate::sema::types::{opt_type, strip_null, without_null};
use crate::size::{arg_smaller, args_size, arm_smaller, expr_parts, expr_size};
use crate::text::{head, head_text, holds, owned, str_eq};
use vstd::prelude::*;

verus! {

/// The variables in sight, the innermost last, each with its type where that
/// can be told.
#[derive(Debug)]
pub struct Typings {
    pub vars: Vec<(String, Option<Type>)>,
}

pub type TypingsView = Seq<(Seq<char>, Option<TypeView>)>;

pub open spec fn typing_view(v: (String, Option<Type>)) -> (Seq<char>, Option<TypeView>) {
    (v.0@, opt_type(v.1))
}

impl View for Typings {
    type V = TypingsView;

    open spec fn view(&self) -> TypingsView {
        self.vars@.map_values(|v: (String, Option<Type>)| typing_view(v))
    }
}

/// What is told of the variable that a name means, if it means one, by the
/// first `n` of them.
pub open spec fn typing_below(k: TypingsView, name: Seq<char>, n: int) -> Option<Option<TypeView>>
    decreases n,
{
    if n <= 0 {
        None
    } else if k[n - 1].0 == name {
        Some(k[n - 1].1)
    } else {
        typing_below(k, name, n - 1)
    }
}

/// What is told of the variable that a name means, if it means one.
pub open spec fn typing(k: TypingsView, name: Seq<char>) -> Option<Option<TypeView>> {
    typing_below(k, name, k.len() as int)
}

/// The type of a variable, if there is one of that name and its type is told.
pub open spec fn var_type(k: TypingsView, name: Seq<char>) -> Option<TypeView> {
    match typing(k, name) {
        Some(Some(t)) => Some(without_null(t)),
        _ => None,
    }
}

pub fn copy_opt_type(o: &Option<Type>) -> (r: Option<Type>)
    ensures
        opt_type(r) == opt_type(*o),
{
    match o {
        Some(t) => Some(clone_type(t)),
        None => None,
    }
}

impl Typings {
    pub fn new() -> (r: Typings)
        ensures
            r@ == TypingsView::empty(),
    {
        let r = Typings { vars: Vec::new() };
        assert(r@ =~= TypingsView::empty());
        r
    }

    /// A variable comes into sight.
    pub fn tell(&mut self, name: &str, ty: Option<Type>)
        ensures
            final(self)@ == old(self)@.push((name@, opt_type(ty))),
    {
        let ghost view = opt_type(ty);
        self.vars.push((owned(name), ty));
        assert(self@ =~= old(self)@.push((name@, view)));
    }

    pub fn copy(&self) -> (r: Typings)
        ensures
            r@ == self@,
    {
        let mut out = Typings { vars: Vec::new() };
        let mut i: usize = 0;
        while i < self.vars.len()
            invariant
                i <= self.vars@.len(),
                out@ =~= self@.take(i as int),
            decreases self.vars@.len() - i,
        {
            let entry = &self.vars[i];
            assert(self@[i as int] == typing_view(*entry));
            out.tell(entry.0.as_str(), copy_opt_type(&entry.1));
            i = i + 1;
        }
        assert(self@.take(i as int) =~= self@);
        out
    }

    /// Where the variable that a name means stands.
    fn position(&self, name: &str) -> (r: Option<usize>)
        ensures
            match r {
                Some(i) => i < self.vars@.len() && typing(self@, name@) == Some(self@[i as int].1),
                None => typing(self@, name@) is None,
            },
    {
        let mut n: usize = self.vars.len();
        while n > 0
            invariant
                n <= self.vars@.len(),
                typing(self@, name@) == typing_below(self@, name@, n as int),
            decreases n,
        {
            assert(self@[n as int - 1] == typing_view(self.vars@[n as int - 1]));
            if str_eq(self.vars[n - 1].0.as_str(), name) {
                return Some(n - 1);
            }
            n = n - 1;
        }
        None
    }

    pub fn has(&self, name: &str) -> (r: bool)
        ensures
            r == typing(self@, name@) is Some,
    {
        self.position(name).is_some()
    }

    pub fn var_ty(&self, name: &str) -> (r: Option<Type>)
        ensures
            opt_type(r) == var_type(self@, name@),
    {
        match self.position(name) {
            Some(i) => {
                assert(self@[i as int] == typing_view(self.vars@[i as int]));
                match &self.vars[i].1 {
                    Some(t) => Some(strip_null(t)),
                    None => None,
                }
            },
            None => None,
        }
    }
}

/// Where types are told from: the classes of the program, what the names of
/// the file stand for, the native classes, and the class that is looked at.
pub struct Site<'s> {
    pub classes: &'s ClassTable<'s>,
    pub imports: &'s NameMap<String>,
    pub natives: &'s NativeClasses,
    pub home: &'s str,
}

pub struct SiteView {
    pub classes: Classes,
    pub imports: Seq<(Seq<char>, Seq<char>)>,
    pub natives: Natives,
    pub home: Seq<char>,
}

impl<'s> View for Site<'s> {
    type V = SiteView;

    open spec fn view(&self) -> SiteView {
        SiteView {
            classes: self.classes@,
            imports: self.imports@,
            natives: self.natives@,
            home: self.home@,
        }
    }
}

/// A type that is told: whether a value may be `null` is left out of it.
pub open spec fn plain(t: Option<TypeView>) -> Option<TypeView> {
    match t {
        Some(t) => Some(without_null(t)),
        None => None,
    }
}

fn plain_ty(t: Option<Type>) -> (r: Option<Type>)
    ensures
        opt_type(r) == plain(opt_type(t)),
{
    match t {
        Some(t) => Some(strip_null(&t)),
        None => None,
    }
}

/// The path that an expression spells, where it does not begin with a
/// variable.
pub open spec fn class_path(k: TypingsView, e: Expr) -> Option<Seq<char>> {
    match path_of(e) {
        Some(path) => if typing(k, head_text(path, '.')) is None {
            Some(path)
        } else {
            None
        },
        None => None,
    }
}

fn path_of_class(k: &Typings, e: &Expr) -> (r: Option<String>)
    ensures
        opt_string(r) == class_path(k@, *e),
{
    match dotted_path(e) {
        Some(path) => if k.has(head(path.as_str(), '.').as_str()) {
            None
        } else {
            Some(path)
        },
        None => None,
    }
}

/// The type of a field of an object.
pub open spec fn field_told(w: SiteView, fqcn: Seq<char>, name: Seq<char>) -> Option<TypeView> {
    match native_field(w.natives, fqcn, name) {
        Some(t) => Some(t),
        None => match result_field(fqcn, name) {
            Some(t) => Some(t),
            None => match field_found(w.classes, fqcn, name) {
                Some((_, f)) => Some(f.ty),
                None => None,
            },
        },
    }
}

fn told_field(w: &Site, fqcn: &str, name: &str) -> (r: Option<Type>)
    ensures
        opt_type(r) == field_told(w@, fqcn@, name@),
{
    if let Some(t) = field_ty(w.natives, fqcn, name) {
        return Some(t);
    }
    if let Some(t) = result_field_ty(fqcn, name) {
        return Some(t);
    }
    match find_field(w.classes, fqcn, name) {
        Some(f) => Some(clone_type(&f.ty)),
        None => None,
    }
}

/// The type of a constant or of a static field of the class that a path
/// spells.
pub open spec fn static_told(w: SiteView, path: Seq<char>, name: Seq<char>) -> Option<TypeView> {
    let fqcn = resolved_name(path, w.imports);
    match native_constant(path, name) {
        Some(t) => Some(t),
        None => match bound_to(w.classes, fqcn) {
            Some(info) => if info.is_enum && info.enum_cases.contains(name) {
                Some(TypeView::Named(fqcn))
            } else {
                match field_found(w.classes, fqcn, name) {
                    Some((_, f)) => if f.is_static {
                        Some(f.ty)
                    } else {
                        None
                    },
                    None => None,
                }
            },
            None => None,
        },
    }
}

fn told_static(w: &Site, path: &str, name: &str) -> (r: Option<Type>)
    ensures
        opt_type(r) == static_told(w@, path@, name@),
{
    if let Some(t) = enum_const_ty(path, name) {
        return Some(t);
    }
    let fqcn = resolve_name(path, w.imports);
    match w.classes.get(fqcn.as_str()) {
        Some(info) => {
            if info.is_enum && holds(&info.enum_cases, name) {
                return Some(Type::Named(fqcn));
            }
        },
        None => return None,
    }
    match find_field(w.classes, fqcn.as_str(), name) {
        Some(f) => if f.is_static {
            Some(clone_type(&f.ty))
        } else {
            None
        },
        None => None,
    }
}

/// What a static method gives that is called through the path of its class:
/// a native one, or one that is declared.
pub open spec fn static_call_told(
    w: SiteView,
    path: Seq<char>,
    name: Seq<char>,
    tys: Seq<Option<TypeView>>,
) -> Option<TypeView> {
    match static_sig(path, name, tys.len()) {
        Some(sig) => Some(sig.1),
        None => own_static_told(w, resolved_name(path, w.imports), name, tys),
    }
}

/// What a static method of a declared class gives.
pub open spec fn own_static_told(
    w: SiteView,
    fqcn: Seq<char>,
    name: Seq<char>,
    tys: Seq<Option<TypeView>>,
) -> Option<TypeView> {
    match overload_found(w.classes, fqcn, name, tys.len(), tys) {
        Some((_, m)) => if m.is_static {
            Some(m.return_ty)
        } else {
            None
        },
        None => None,
    }
}

fn told_own_static(w: &Site, fqcn: &str, name: &str, tys: &Vec<Option<Type>>) -> (r: Option<Type>)
    ensures
        opt_type(r) == own_static_told(w@, fqcn@, name@, opt_types(tys@)),
{
    match find_method_owner_overload(w.classes, fqcn, name, tys.len(), tys) {
        Some((_, m)) => if m.is_static {
            Some(clone_type(&m.return_ty))
        } else {
            None
        },
        None => None,
    }
}

fn told_static_call(w: &Site, path: &str, name: &str, tys: &Vec<Option<Type>>) -> (r: Option<Type>)
    ensures
        opt_type(r) == static_call_told(w@, path@, name@, opt_types(tys@)),
{
    match lookup(path, name, tys.len()) {
        Some((_, t)) => Some(t),
        None => told_own_static(w, resolve_name(path, w.imports).as_str(), name, tys),
    }
}

/// What a method gives that is called on a value of this type.
pub open spec fn method_told(
    w: SiteView,
    target: TypeView,
    name: Seq<char>,
    tys: Seq<Option<TypeView>>,
) -> Option<TypeView> {
    match target {
        TypeView::Array(elem) => array_told(*elem, name, tys.len()),
        TypeView::StringT => match static_sig("system.String"@, name, tys.len() + 1) {
            Some(sig) => Some(sig.1),
            None => None,
        },
        TypeView::Named(fqcn) => if native_instance(fqcn) {
            match instance_sig(fqcn, name, tys.len()) {
                Some(sig) => Some(sig.1),
                None => None,
            }
        } else if native_class(w.natives, fqcn) {
            match native_method_sig(w.natives, fqcn, name, tys.len()) {
                Some(sig) => Some(sig.1),
                None => None,
            }
        } else {
            match overload_found(w.classes, fqcn, name, tys.len(), tys) {
                Some((_, m)) => Some(m.return_ty),
                None => None,
            }
        },
        _ => None,
    }
}

/// What a method of an array gives; one that looks for an element may find
/// none.
pub open spec fn array_told(elem: TypeView, name: Seq<char>, argc: nat) -> Option<TypeView> {
    if name == "length"@ && argc == 0 {
        Some(TypeView::Int)
    } else if (name == "slice"@ && argc == 2) || (name == "filter"@ && argc == 1) {
        Some(TypeView::Array(Box::new(elem)))
    } else if name == "find"@ && argc == 1 {
        Some(elem)
    } else {
        None
    }
}

fn told_array(elem: &Type, name: &str, argc: usize) -> (r: Option<Type>)
    ensures
        opt_type(r) == array_told(elem@, name@, argc as nat),
{
    if str_eq(name, "length") && argc == 0 {
        Some(Type::Int)
    } else if (str_eq(name, "slice") && argc == 2) || (str_eq(name, "filter") && argc == 1) {
        Some(Type::Array(Box::new(clone_type(elem))))
    } else if str_eq(name, "find") && argc == 1 {
        Some(clone_type(elem))
    } else {
        None
    }
}

fn told_method(w: &Site, target: &Type, name: &str, tys: &Vec<Option<Type>>) -> (r: Option<Type>)
    ensures
        opt_type(r) == method_told(w@, target@, name@, opt_types(tys@)),
{
    match target {
        Type::Array(elem) => told_array(elem, name, tys.len()),
        Type::StringT => {
            if tys.len() == usize::MAX {
                assert(static_sig("system.String"@, name@, tys@.len() + 1) is None);
                return None;
            }
            match lookup("system.String", name, tys.len() + 1) {
                Some((_, t)) => Some(t),
                None => None,
            }
        },
        Type::Named(fqcn) => {
            if is_native_instance(fqcn.as_str()) {
                match instance_lookup(fqcn.as_str(), name, tys.len()) {
                    Some((_, t)) => Some(t),
                    None => None,
                }
            } else if is_instance(w.natives, fqcn.as_str()) {
                match method_signature(w.natives, fqcn.as_str(), name, tys.len()) {
                    Some((_, t)) => Some(t),
                    None => None,
                }
            } else {
                match find_method_owner_overload(w.classes, fqcn.as_str(), name, tys.len(), tys) {
                    Some((_, m)) => Some(clone_type(&m.return_ty)),
                    None => None,
                }
            }
        },
        _ => None,
    }
}

pub open spec fn numeric(t: Option<TypeView>) -> bool {
    t matches Some(n) && (n is Int || n is Float || n is Byte)
}

/// What an operator gives between operands of these types: by a method that
/// overloads it, or else by itself.
pub open spec fn operator_told(
    w: SiteView,
    op: BinOp,
    l: Option<TypeView>,
    r: Option<TypeView>,
) -> Option<TypeView> {
    match overload_told(w, op, l, r) {
        Some(t) => Some(t),
        None => match op {
            BinOp::Add | BinOp::Sub | BinOp::Mul | BinOp::Div | BinOp::Mod => if op is Add && (l
                == Some(TypeView::StringT) || r == Some(TypeView::StringT)) {
                Some(TypeView::StringT)
            } else if numeric(l) && numeric(r) {
                Some(
                    if l == Some(TypeView::Float) || r == Some(TypeView::Float) {
                        TypeView::Float
                    } else {
                        TypeView::Int
                    },
                )
            } else {
                None
            },
            BinOp::Cmp3 => Some(TypeView::Int),
            _ => Some(TypeView::Bool),
        },
    }
}

pub open spec fn overload_told(
    w: SiteView,
    op: BinOp,
    l: Option<TypeView>,
    r: Option<TypeView>,
) -> Option<TypeView> {
    match (operator_method(op), l, r) {
        (Some(name), Some(TypeView::Named(fqcn)), Some(rhs)) => match method_found(
            w.classes,
            fqcn,
            Wanted::Operator { name, params: seq![rhs] },
        ) {
            Some((_, m)) => Some(m.return_ty),
            None => None,
        },
        _ => None,
    }
}

fn told_overload(w: &Site, op: BinOp, l: &Option<Type>, r: &Option<Type>) -> (t: Option<Type>)
    ensures
        opt_type(t) == overload_told(w@, op, opt_type(*l), opt_type(*r)),
{
    match operator_method_name(op) {
        Some(name) => match (l, r) {
            (Some(Type::Named(fqcn)), Some(rhs)) => match find_operator_method(
                w.classes,
                fqcn.as_str(),
                name,
                &types1(clone_type(rhs)),
            ) {
                Some((_, m)) => Some(clone_type(&m.return_ty)),
                None => None,
            },
            _ => None,
        },
        None => None,
    }
}

fn is_numeric_told(t: &Option<Type>) -> (r: bool)
    ensures
        r == numeric(opt_type(*t)),
{
    matches!(t, Some(Type::Int) | Some(Type::Float) | Some(Type::Byte))
}

fn told_operator(w: &Site, op: BinOp, l: &Option<Type>, r: &Option<Type>) -> (t: Option<Type>)
    ensures
        opt_type(t) == operator_told(w@, op, opt_type(*l), opt_type(*r)),
{
    if let Some(t) = told_overload(w, op, l, r) {
        return Some(t);
    }
    match op {
        BinOp::Add | BinOp::Sub | BinOp::Mul | BinOp::Div | BinOp::Mod => {
            if matches!(op, BinOp::Add) && (matches!(l, Some(Type::StringT)) || matches!(
                r,
                Some(Type::StringT)
            )) {
                Some(Type::StringT)
            } else if !is_numeric_told(l) || !is_numeric_told(r) {
                None
            } else if matches!(l, Some(Type::Float)) || matches!(r, Some(Type::Float)) {
                Some(Type::Float)
            } else {
                Some(Type::Int)
            }
        },
        BinOp::Cmp3 => Some(Type::Int),
        _ => Some(Type::Bool),
    }
}

/// The static type of an expression, if it can be told.
pub open spec fn told(w: SiteView, k: TypingsView, e: Expr) -> Option<TypeView>
    decreases expr_size(e), 0int,
{
    proof {
        expr_parts(e);
    }
    match e {
        Expr::IntLit(_) => Some(TypeView::Int),
        Expr::FloatLit(_) => Some(TypeView::Float),
        Expr::BoolLit(_) => Some(TypeView::Bool),
        Expr::StringLit(_) => Some(TypeView::StringT),
        Expr::NullLit => Some(TypeView::NullT),
        Expr::This => Some(TypeView::Named(w.home)),
        Expr::Super => match parent_of(w.classes, w.home) {
            Some(p) => Some(TypeView::Named(p)),
            None => None,
        },
        Expr::Ident(name) => var_type(k, name@),
        Expr::PostIncr(name) => var_type(k, name@),
        Expr::PostDecr(name) => var_type(k, name@),
        Expr::Assign(target, _) => match target {
            LValue::Local(name) => var_type(k, name@),
            _ => None,
        },
        Expr::Call(name, args) => if typing(k, name@) is Some {
            match var_type(k, name@) {
                Some(TypeView::Function { return_type, .. }) => Some(without_null(*return_type)),
                _ => None,
            }
        } else {
            plain(
                own_static_told(
                    w,
                    w.home,
                    name@,
                    types_below(w, k, args@, args@.len() as int),
                ),
            )
        },
        Expr::New(name, _, _) => Some(TypeView::Named(resolved_name(name@, w.imports))),
        Expr::NewArray(elem, dims) => Some(layered(resolved_type(elem@, w.imports), dims@.len())),
        Expr::NewArrayInit(elem, _) => Some(
            TypeView::Array(Box::new(resolved_type(elem@, w.imports))),
        ),
        Expr::FieldAccess(target, name) => match static_part(w, k, *target, name@) {
            Some(t) => Some(without_null(t)),
            None => match told(w, k, *target) {
                Some(TypeView::Named(fqcn)) => plain(field_told(w, fqcn, name@)),
                _ => None,
            },
        },
        Expr::MethodCall(target, name, args) => {
            let tys = types_below(w, k, args@, args@.len() as int);
            match static_call_part(w, k, *target, name@, tys) {
                Some(t) => Some(without_null(t)),
                None => match told(w, k, *target) {
                    Some(t) => plain(method_told(w, t, name@, tys)),
                    None => None,
                },
            }
        },
        Expr::Index(target, _) => match told(w, k, *target) {
            Some(TypeView::Array(elem)) => Some(without_null(*elem)),
            _ => None,
        },
        Expr::InstanceOf(_, _) => Some(TypeView::Bool),
        Expr::Cast(ty, _) => Some(without_null(resolved_type(ty@, w.imports))),
        Expr::Unary(op, inner) => match (op, told(w, k, *inner)) {
            (UnOp::Neg, Some(TypeView::Int)) => Some(TypeView::Int),
            (UnOp::Neg, Some(TypeView::Float)) => Some(TypeView::Float),
            (UnOp::Not, Some(TypeView::Bool)) => Some(TypeView::Bool),
            _ => None,
        },
        Expr::Binary(op, l, r) => plain(operator_told(w, op, told(w, k, *l), told(w, k, *r))),
        Expr::Match(_, arms) => if arms@.len() == 0 {
            None
        } else {
            proof {
                arm_smaller(arms@, 0);
            }
            told(w, k, arms@[0].value)
        },
        Expr::Ternary(_, then_e, _) => told(w, k, *then_e),
        Expr::Coalesce(lhs, _) => told(w, k, *lhs),
        Expr::Elvis(lhs, _) => told(w, k, *lhs),
        Expr::Closure { .. } => None,
    }
}

/// The type of a member of the class that `target` spells, if it spells one.
pub open spec fn static_part(w: SiteView, k: TypingsView, target: Expr, name: Seq<char>) -> Option<
    TypeView,
> {
    match class_path(k, target) {
        Some(path) => static_told(w, path, name),
        None => None,
    }
}

/// What a static method gives of the class that `target` spells, if it spells
/// one.
pub open spec fn static_call_part(
    w: SiteView,
    k: TypingsView,
    target: Expr,
    name: Seq<char>,
    tys: Seq<Option<TypeView>>,
) -> Option<TypeView> {
    match class_path(k, target) {
        Some(path) => static_call_told(w, path, name, tys),
        None => None,
    }
}

/// The types of the first `n` arguments of a call. A named argument stands
/// for a parameter that its position does not give.
pub open spec fn types_below(w: SiteView, k: TypingsView, args: Seq<Arg>, n: int) -> Seq<
    Option<TypeView>,
>
    decreases args_size(args), n,
{
    if n <= 0 || n > args.len() {
        Seq::empty()
    } else {
        proof {
            arg_smaller(args, n - 1);
        }
        types_below(w, k, args, n - 1).push(
            if args[n - 1].name is Some {
                None
            } else {
                told(w, k, args[n - 1].value)
            },
        )
    }
}

/// The types of the arguments of a call, by which it is bound to one of
/// several overloads.
pub open spec fn call_types(w: SiteView, k: TypingsView, args: Seq<Arg>) -> Seq<Option<TypeView>> {
    types_below(w, k, args, args.len() as int)
}

pub fn overload_arg_ty(w: &Site, k: &Typings, expr: &Expr) -> (r: Option<Type>)
    ensures
        opt_type(r) == told(w@, k@, *expr),
    decreases expr_size(*expr), 0int,
{
    proof {
        expr_parts(*expr);
    }
    match expr {
        Expr::IntLit(_) => Some(Type::Int),
        Expr::FloatLit(_) => Some(Type::Float),
        Expr::BoolLit(_) => Some(Type::Bool),
        Expr::StringLit(_) => Some(Type::StringT),
        Expr::NullLit => Some(Type::NullT),
        Expr::This => Some(Type::Named(owned(w.home))),
        Expr::Super => match w.classes.get(w.home) {
            Some(info) => match &info.extends {
                Some(p) => Some(Type::Named(p.clone())),
                None => None,
            },
            None => None,
        },
        Expr::Ident(name) => k.var_ty(name.as_str()),
        Expr::PostIncr(name) => k.var_ty(name.as_str()),
        Expr::PostDecr(name) => k.var_ty(name.as_str()),
        Expr::Assign(target, _) => match target {
            LValue::Local(name) => k.var_ty(name.as_str()),
            _ => None,
        },
        Expr::Call(name, args) => {
            if k.has(name.as_str()) {
                return match k.var_ty(name.as_str()) {
                    Some(Type::Function { return_type, .. }) => Some(strip_null(&return_type)),
                    _ => None,
                };
            }
            let tys = overload_arg_tys(w, k, args);
            plain_ty(told_own_static(w, w.home, name.as_str(), &tys))
        },
        Expr::New(name, _, _) => Some(Type::Named(resolve_name(name.as_str(), w.imports))),
        Expr::NewArray(elem, dims) => Some(
            plain_array_of(&resolve_type(elem, w.imports), dims.len()),
        ),
        Expr::NewArrayInit(elem, _) => Some(Type::Array(Box::new(resolve_type(elem, w.imports)))),
        Expr::FieldAccess(target, name) => {
            if let Some(path) = path_of_class(k, target) {
                if let Some(t) = told_static(w, path.as_str(), name.as_str()) {
                    return Some(strip_null(&t));
                }
            }
            match overload_arg_ty(w, k, target) {
                Some(Type::Named(fqcn)) => plain_ty(told_field(w, fqcn.as_str(), name.as_str())),
                _ => None,
            }
        },
        Expr::MethodCall(target, name, args) => {
            let tys = overload_arg_tys(w, k, args);
            if let Some(path) = path_of_class(k, target) {
                if let Some(t) = told_static_call(w, path.as_str(), name.as_str(), &tys) {
                    return Some(strip_null(&t));
                }
            }
            match overload_arg_ty(w, k, target) {
                Some(t) => plain_ty(told_method(w, &t, name.as_str(), &tys)),
                None => None,
            }
        },
        Expr::Index(target, _) => match overload_arg_ty(w, k, target) {
            Some(Type::Array(elem)) => Some(strip_null(&elem)),
            _ => None,
        },
        Expr::InstanceOf(_, _) => Some(Type::Bool),
        Expr::Cast(ty, _) => Some(strip_null(&resolve_type(ty, w.imports))),
        Expr::Unary(op, inner) => match (op, overload_arg_ty(w, k, inner)) {
            (UnOp::Neg, Some(Type::Int)) => Some(Type::Int),
            (UnOp::Neg, Some(Type::Float)) => Some(Type::Float),
            (UnOp::Not, Some(Type::Bool)) => Some(Type::Bool),
            _ => None,
        },
        Expr::Binary(op, l, r) => {
            let tl = overload_arg_ty(w, k, l);
            let tr = overload_arg_ty(w, k, r);
            plain_ty(told_operator(w, *op, &tl, &tr))
        },
        Expr::Match(_, arms) => {
            if arms.len() == 0 {
                return None;
            }
            proof {
                arm_smaller(arms@, 0);
            }
            overload_arg_ty(w, k, &arms[0].value)
        },
        Expr::Ternary(_, then_e, _) => overload_arg_ty(w, k, then_e),
        Expr::Coalesce(lhs, _) => overload_arg_ty(w, k, lhs),
        Expr::Elvis(lhs, _) => overload_arg_ty(w, k, lhs),
        Expr::Closure { .. } => None,
    }
}

pub fn overload_arg_tys(w: &Site, k: &Typings, args: &Vec<Arg>) -> (r: Vec<Option<Type>>)
    ensures
        opt_types(r@) == call_types(w@, k@, args@),
        r@.len() == args@.len(),
    decreases args_size(args@), args@.len() + 1,
{
    let mut out: Vec<Option<Type>> = Vec::new();
    let mut i: usize = 0;
    while i < args.len()
        invariant
            i <= args@.len(),
            out@.len() == i,
            opt_types(out@) =~= types_below(w@, k@, args@, i as int),
        decreases args@.len() - i,
    {
        proof {
            arg_smaller(args@, i as int);
        }
        let ghost before = out@;
        let t: Option<Type> = if args[i].name.is_some() {
            None
        } else {
            overload_arg_ty(w, k, &args[i].value)
        };
        let ghost view = opt_type(t);
        out.push(t);
        assert(opt_types(out@) =~= opt_types(before).push(view));
        i = i + 1;
    }
    out
}

/// The type of a declared variable: the one that is written, or else that of
/// its initial value.
pub open spec fn decl_type(w: SiteView, k: TypingsView, ty: Option<Type>, init: Option<Expr>) -> Option<
    TypeView,
> {
    match (ty, init) {
        (Some(t), _) => Some(resolved_type(t@, w.imports)),
        (None, Some(e)) => told(w, k, e),
        (None, None) => None,
    }
}

pub fn told_decl(w: &Site, k: &Typings, ty: &Option<Type>, init: &Option<Expr>) -> (r: Option<Type>)
    ensures
        opt_type(r) == decl_type(w@, k@, *ty, *init),
{
    match ty {
        Some(t) => Some(resolve_type(t, w.imports)),
        None => match init {
            Some(e) => overload_arg_ty(w, k, e),
            None => None,
        },
    }
}

/// What is in sight where a body begins, after the first `n` of its
/// parameters.
pub open spec fn with_params(w: SiteView, k: TypingsView, params: Seq<Param>, n: int) -> TypingsView
    decreases n,
{
    if n <= 0 {
        k
    } else {
        with_params(w, k, params, n - 1).push(
            (params[n - 1].name@, Some(resolved_type(params[n - 1].ty@, w.imports))),
        )
    }
}

/// What is in sight after a statement: a declaration stays in sight to the end
/// of its block.
pub open spec fn after(w: SiteView, k: TypingsView, stmt: Stmt) -> TypingsView {
    match stmt.kind {
        StmtKind::VarDecl { ty, name, init, .. } => k.push((name@, decl_type(w, k, ty, init))),
        _ => k,
    }
}

/// What is in sight after the first `n` of these statements.
pub open spec fn after_all(w: SiteView, k: TypingsView, stmts: Seq<Stmt>, n: int) -> TypingsView
    decreases n,
{
    if n <= 0 {
        k
    } else {
        after(w, after_all(w, k, stmts, n - 1), stmts[n - 1])
    }
}

/// The type of a loop's variable: the one that is written, or else that of
/// the elements.
pub open spec fn item_type(w: SiteView, k: TypingsView, ty: Option<Type>, iterable: Expr) -> Option<
    TypeView,
> {
    match ty {
        Some(t) => Some(resolved_type(t@, w.imports)),
        None => match told(w, k, iterable) {
            Some(TypeView::Array(elem)) => Some(*elem),
            Some(TypeView::Named(fqcn)) => element_type(w.natives, fqcn),
            _ => None,
        },
    }
}

pub fn told_item(w: &Site, k: &Typings, ty: &Option<Type>, iterable: &Expr) -> (r: Option<Type>)
    ensures
        opt_type(r) == item_type(w@, k@, *ty, *iterable),
{
    match ty {
        Some(t) => Some(resolve_type(t, w.imports)),
        None => match overload_arg_ty(w, k, iterable) {
            Some(Type::Array(elem)) => Some(*elem),
            Some(Type::Named(fqcn)) => foreach_element_ty(w.natives, fqcn.as_str()),
            _ => None,
        },
    }
}

/// What is in sight where a condition holds: `name instanceof C` makes a `C`
/// of a variable, as long as nothing there is assigned to it.
pub open spec fn cast(w: SiteView, k: TypingsView, cond: Expr, branch: Seq<Stmt>) -> TypingsView {
    match cond {
        Expr::InstanceOf(target, class) => match *target {
            Expr::Ident(name) => if typing(k, name@) is Some && !in_block(
                branch,
                Occurs::Mutated,
            ).contains(name@) {
                k.push((name@, Some(TypeView::Named(resolved_name(class@, w.imports)))))
            } else {
                k
            },
            _ => k,
        },
        _ => k,
    }
}

impl Typings {
    /// The parameters of a body come into sight.
    pub fn enter(&mut self, w: &Site, params: &Vec<Param>)
        ensures
            final(self)@ == with_params(w@, old(self)@, params@, params@.len() as int),
    {
        let mut i: usize = 0;
        while i < params.len()
            invariant
                i <= params@.len(),
                self@ == with_params(w@, old(self)@, params@, i as int),
            decreases params@.len() - i,
        {
            self.tell(params[i].name.as_str(), Some(resolve_type(&params[i].ty, w.imports)));
            i = i + 1;
        }
    }

    /// A statement comes to its end.
    pub fn pass(&mut self, w: &Site, stmt: &Stmt)
        ensures
            final(self)@ == after(w@, old(self)@, *stmt),
    {
        if let StmtKind::VarDecl { ty, name, init, .. } = &stmt.kind {
            let told = told_decl(w, self, ty, init);
            self.tell(name.as_str(), told);
        }
    }

    /// Statements come to their end.
    pub fn pass_all(&mut self, w: &Site, stmts: &Vec<Stmt>)
        ensures
            final(self)@ == after_all(w@, old(self)@, stmts@, stmts@.len() as int),
    {
        let mut i: usize = 0;
        while i < stmts.len()
            invariant
                i <= stmts@.len(),
                self@ == after_all(w@, old(self)@, stmts@, i as int),
            decreases stmts@.len() - i,
        {
            self.pass(w, &stmts[i]);
            i = i + 1;
        }
    }

    pub fn cast(&mut self, w: &Site, cond: &Expr, branch: &Vec<Stmt>)
        ensures
            final(self)@ == cast(w@, old(self)@, *cond, branch@),
    {
        if let Expr::InstanceOf(target, class) = cond {
            if let Expr::Ident(name) = &**target {
                if self.has(name.as_str()) {
                    let mut mutated = NameSet::new();
                    collect_block(branch, Occurs::Mutated, &mut mutated);
                    if !mutated.contains(name.as_str()) {
                        self.tell(
                            name.as_str(),
                            Some(Type::Named(resolve_name(class.as_str(), w.imports))),
                        );
                    }
                }
            }
        }
    }
}

} // verus!
