//! The rules that a use of a type, a member or a variable is held to.

use crate::ast::{
    clone_type, layered, plain_array_of, same_type, type_views, Arg, BinOp, Expr, MatchArm, Param,
    Type, TypeView, UnOp, Visibility,
};
use crate::binding::{binder, find_binder, name_at, name_position};
use crate::class_table::{
    accessible, called_method, field_found, find_field_owner, find_method_owner, implementing,
    implements_interface, is_accessible, is_subclass_or_same, subclass, ClassTable, Classes,
};
use crate::names::{bound_to, NameMap};
use crate::native_generics::{NativeClasses, Natives};
use crate::resolve::{opt_string, resolve_name, resolve_type, resolved_name, resolved_type};
use crate::sema::class_rules::{checked_exception, is_checked_exception};
use crate::sema::error::{checked_as, Checked, ErrorView, SemaError};
use crate::probe::{Site, SiteView};
use crate::sema::flow::{catch_views, narrowing_view, var_view, Flow, MethodChecker, Narrowing};
use crate::sema::stdlib::{lookup, throws};
use crate::sema::types::{
    assignable, display, display_text, is_assignable, is_nullable, is_numeric, members, members_of,
    nullable, numeric, opt_type, ref_views, strip_null, widen_numeric, widened, without_null,
};
use crate::text::{cat2, holds, owned, str_eq, texts};
use vstd::prelude::*;

verus! {

/// A static method of the class, as calls by its bare name see it.
#[derive(Debug)]
pub struct StaticSig<'a> {
    pub name: &'a String,
    pub params: &'a Vec<Param>,
    /// The types of the parameters, resolved.
    pub param_types: Vec<Type>,
    pub return_ty: Type,
    pub throws: Vec<Type>,
}

pub struct StaticSigView {
    pub name: Seq<char>,
    pub params: Seq<Param>,
    pub param_types: Seq<TypeView>,
    pub return_ty: TypeView,
    pub throws: Seq<TypeView>,
}

impl<'a> View for StaticSig<'a> {
    type V = StaticSigView;

    open spec fn view(&self) -> StaticSigView {
        StaticSigView {
            name: self.name@,
            params: self.params@,
            param_types: type_views(self.param_types@),
            return_ty: self.return_ty@,
            throws: type_views(self.throws@),
        }
    }
}

pub open spec fn sig_views(v: Seq<StaticSig>) -> Seq<StaticSigView> {
    v.map_values(|s: StaticSig| s@)
}

/// What a method is checked against.
pub struct MethodEnv<'a> {
    pub sigs: &'a Vec<StaticSig<'a>>,
    pub classes: &'a ClassTable<'a>,
    pub imports: &'a NameMap<String>,
    pub natives: &'a NativeClasses,
    pub is_static: bool,
    pub is_const_method: bool,
    pub is_constructor: bool,
    pub this_fqcn: String,
    pub super_fqcn: Option<String>,
    /// The exceptions that the method declares.
    pub method_throws: Vec<String>,
}

pub struct EnvView {
    pub sigs: Seq<StaticSigView>,
    pub classes: Classes,
    pub imports: Seq<(Seq<char>, Seq<char>)>,
    pub natives: Natives,
    pub is_static: bool,
    pub is_const_method: bool,
    pub is_constructor: bool,
    pub this_fqcn: Seq<char>,
    pub super_fqcn: Option<Seq<char>>,
    pub method_throws: Seq<Seq<char>>,
}

impl EnvView {
    /// Where the types of arguments are told from.
    pub open spec fn site(self) -> SiteView {
        SiteView {
            classes: self.classes,
            imports: self.imports,
            natives: self.natives,
            home: self.this_fqcn,
        }
    }
}

impl<'a> MethodEnv<'a> {
    pub fn site<'s>(&'s self) -> (r: Site<'s>)
        ensures
            r@ == self@.site(),
    {
        Site {
            classes: self.classes,
            imports: self.imports,
            natives: self.natives,
            home: self.this_fqcn.as_str(),
        }
    }
}

impl<'a> View for MethodEnv<'a> {
    type V = EnvView;

    open spec fn view(&self) -> EnvView {
        EnvView {
            sigs: sig_views(self.sigs@),
            classes: self.classes@,
            imports: self.imports@,
            natives: self.natives@,
            is_static: self.is_static,
            is_const_method: self.is_const_method,
            is_constructor: self.is_constructor,
            this_fqcn: self.this_fqcn@,
            super_fqcn: opt_string(self.super_fqcn),
            method_throws: texts(self.method_throws@),
        }
    }
}

/// The type of an expression, or what is wrong with it.
pub type Judged = Result<TypeView, ErrorView>;

pub open spec fn judged_as(r: Result<Type, SemaError>, want: Judged) -> bool {
    match r {
        Ok(t) => want == Judged::Ok(t@),
        Err(e) => want == Judged::Err(e@),
    }
}

/// An unknown type where there is none.
pub open spec fn or_void(o: Option<TypeView>) -> TypeView {
    match o {
        Some(t) => t,
        None => TypeView::Void,
    }
}

pub fn type_or_void(o: Option<Type>) -> (r: Type)
    ensures
        r@ == or_void(opt_type(o)),
{
    match o {
        Some(t) => t,
        None => Type::Void,
    }
}

/// Whether a class names an interface among those that it implements.
pub open spec fn directly_implements(t: Classes, class: Seq<char>, iface: Seq<char>) -> bool {
    match bound_to(t, class) {
        Some(info) => info.implements.contains(iface),
        None => false,
    }
}

fn implements_directly(classes: &ClassTable, class: &str, iface: &str) -> (r: bool)
    ensures
        r == directly_implements(classes@, class@, iface@),
{
    match classes.get(class) {
        Some(info) => holds(&info.implements, iface),
        None => false,
    }
}

/// Whether every object of one class is one of another.
pub open spec fn object_flows(t: Classes, from: TypeView, to: TypeView) -> bool {
    match (from, to) {
        (TypeView::Named(f), TypeView::Named(g)) => subclass(t, f, g) || directly_implements(
            t,
            f,
            g,
        ),
        _ => false,
    }
}

fn flows_object(classes: &ClassTable, from: &Type, to: &Type) -> (r: bool)
    ensures
        r == object_flows(classes@, from@, to@),
{
    match (from, to) {
        (Type::Named(f), Type::Named(g)) => is_subclass_or_same(classes, f.as_str(), g.as_str())
            || implements_directly(classes, f.as_str(), g.as_str()),
        _ => false,
    }
}

pub open spec fn object_accepted(t: Classes, from: TypeView, targets: Seq<TypeView>) -> bool {
    exists|j: int| 0 <= j < targets.len() && object_flows(t, from, #[trigger] targets[j])
}

fn accepts_object(classes: &ClassTable, from: &Type, targets: &Vec<&Type>) -> (r: bool)
    ensures
        r == object_accepted(classes@, from@, ref_views(targets@)),
{
    let ghost ts = ref_views(targets@);
    let mut j: usize = 0;
    while j < targets.len()
        invariant
            j <= targets@.len(),
            ts == ref_views(targets@),
            forall|k: int| 0 <= k < j ==> !object_flows(classes@, from@, #[trigger] ts[k]),
        decreases targets@.len() - j,
    {
        assert(ts[j as int] == targets@[j as int]@);
        if flows_object(classes, from, targets[j]) {
            return true;
        }
        j = j + 1;
    }
    false
}

/// Whether every member of one type is an object that the other takes.
#[verifier::opaque]
pub open spec fn object_assignable(t: Classes, value: TypeView, target: TypeView) -> bool {
    forall|i: int|
        0 <= i < members_of(value).len() ==> object_accepted(
            t,
            #[trigger] members_of(value)[i],
            members_of(target),
        )
}

fn is_object_assignable(classes: &ClassTable, value: &Type, target: &Type) -> (r: bool)
    ensures
        r == object_assignable(classes@, value@, target@),
{
    reveal(object_assignable);
    let vs = members(value);
    let ts = members(target);
    let ghost vv = ref_views(vs@);
    let mut i: usize = 0;
    while i < vs.len()
        invariant
            i <= vs@.len(),
            vv == ref_views(vs@),
            vv == members_of(value@),
            ref_views(ts@) == members_of(target@),
            forall|k: int|
                0 <= k < i ==> object_accepted(
                    classes@,
                    #[trigger] vv[k],
                    members_of(target@),
                ),
        decreases vs@.len() - i,
    {
        assert(vv[i as int] == vs@[i as int]@);
        if !accepts_object(classes, vs[i], &ts) {
            assert(!object_accepted(
                classes@,
                members_of(value@)[i as int],
                members_of(target@),
            ));
            reveal(object_assignable);
            return false;
        }
        i = i + 1;
    }
    reveal(object_assignable);
    true
}

/// A value of one type may be stored where another is declared. An unknown
/// type goes everywhere.
#[verifier::opaque]
pub open spec fn assignment(t: Classes, value: TypeView, target: TypeView) -> Checked {
    if value is Void {
        Ok(())
    } else if value is NullT && !nullable(target) {
        Err(ErrorView::NullToNonNullable(display_text(target)))
    } else if object_assignable(t, value, target) || assignable(value, target) {
        Ok(())
    } else {
        Err(ErrorView::NotAssignable(display_text(value), display_text(target)))
    }
}

pub fn check_assignable(classes: &ClassTable, value: &Type, target: &Type) -> (r: Result<
    (),
    SemaError,
>)
    ensures
        checked_as(r, assignment(classes@, value@, target@)),
{
    reveal(assignment);
    if matches!(value, Type::Void) {
        return Ok(());
    }
    if matches!(value, Type::NullT) && !is_nullable(target) {
        return Err(SemaError::NullToNonNullable(display(target)));
    }
    if is_object_assignable(classes, value, target) || is_assignable(value, target) {
        return Ok(());
    }
    Err(SemaError::NotAssignable(display(value), display(target)))
}

/// Whether a value can be joined to a string.
pub open spec fn concatenable(t: TypeView) -> bool {
    t is Int || t is Float || t is Bool || t is Byte || t is StringT
}

pub fn is_concat_operand(ty: &Type) -> (r: bool)
    ensures
        r == concatenable(ty@),
{
    matches!(ty, Type::Int | Type::Float | Type::Bool | Type::Byte | Type::StringT)
}

/// Whether one of two classes is the other, above it, or an interface of it,
/// its own or an inherited one.
pub open spec fn related(t: Classes, f: Seq<char>, g: Seq<char>) -> bool {
    f == g || subclass(t, f, g) || subclass(t, g, f) || implementing(t, f, g) || implementing(
        t,
        g,
        f,
    )
}

fn are_related(classes: &ClassTable, f: &str, g: &str) -> (r: bool)
    ensures
        r == related(classes@, f@, g@),
{
    str_eq(f, g) || is_subclass_or_same(classes, f, g) || is_subclass_or_same(classes, g, f)
        || implements_interface(classes, f, g) || implements_interface(classes, g, f)
}

/// Whether a cast can succeed.
pub open spec fn castable(t: Classes, from: TypeView, to: TypeView) -> Checked
    decreases from,
{
    let bad = Checked::Err(ErrorView::BadCast(display_text(from), display_text(to)));
    if from is Void || to is Void || from is NullT {
        Ok(())
    } else if nullable(from) && !nullable(to) {
        bad
    } else if numeric(from) && numeric(to) {
        Ok(())
    } else if to is StringT {
        if concatenable(from) {
            Ok(())
        } else {
            bad
        }
    } else {
        match (from, to) {
            (TypeView::Named(f), TypeView::Named(g)) => if related(t, f, g) {
                Ok(())
            } else {
                bad
            },
            (TypeView::Array(f), TypeView::Array(g)) => castable(t, *f, *g),
            _ => if from == to {
                Ok(())
            } else {
                bad
            },
        }
    }
}

pub fn check_cast(classes: &ClassTable, from: &Type, to: &Type) -> (r: Result<(), SemaError>)
    ensures
        checked_as(r, castable(classes@, from@, to@)),
    decreases from,
{
    if matches!(from, Type::Void) || matches!(to, Type::Void) || matches!(from, Type::NullT) {
        return Ok(());
    }
    if is_nullable(from) && !is_nullable(to) {
        return Err(SemaError::BadCast(display(from), display(to)));
    }
    if is_numeric(from) && is_numeric(to) {
        return Ok(());
    }
    if matches!(to, Type::StringT) {
        return if is_concat_operand(from) {
            Ok(())
        } else {
            Err(SemaError::BadCast(display(from), display(to)))
        };
    }
    match (from, to) {
        (Type::Named(f), Type::Named(g)) => if are_related(classes, f.as_str(), g.as_str()) {
            Ok(())
        } else {
            Err(SemaError::BadCast(display(from), display(to)))
        },
        (Type::Array(f), Type::Array(g)) => check_cast(classes, f, g),
        _ => if same_type(from, to) {
            Ok(())
        } else {
            Err(SemaError::BadCast(display(from), display(to)))
        },
    }
}

pub open spec fn op_text(op: BinOp) -> Seq<char> {
    match op {
        BinOp::Add => "+"@,
        BinOp::Sub => "-"@,
        BinOp::Mul => "*"@,
        BinOp::Div => "/"@,
        BinOp::Mod => "%"@,
        BinOp::Eq => "=="@,
        BinOp::Ne => "!="@,
        BinOp::Lt => "<"@,
        BinOp::Gt => ">"@,
        BinOp::Le => "<="@,
        BinOp::Ge => ">="@,
        BinOp::Cmp3 => "<=>"@,
        BinOp::And => "&&"@,
        BinOp::Or => "||"@,
    }
}

pub fn op_symbol(op: BinOp) -> (r: String)
    ensures
        r@ == op_text(op),
{
    owned(
        match op {
            BinOp::Add => "+",
            BinOp::Sub => "-",
            BinOp::Mul => "*",
            BinOp::Div => "/",
            BinOp::Mod => "%",
            BinOp::Eq => "==",
            BinOp::Ne => "!=",
            BinOp::Lt => "<",
            BinOp::Gt => ">",
            BinOp::Le => "<=",
            BinOp::Ge => ">=",
            BinOp::Cmp3 => "<=>",
            BinOp::And => "&&",
            BinOp::Or => "||",
        },
    )
}

/// Whether two values can be tested for equality.
pub open spec fn equatable(l: TypeView, r: TypeView) -> bool {
    if l is NullT || r is NullT {
        let other = if l is NullT {
            r
        } else {
            l
        };
        other is NullT || nullable(other) || other is Named || other is Array
    } else {
        widened(l, r) is Some || assignable(l, r) || assignable(r, l)
    }
}

fn can_equate(l: &Type, r: &Type) -> (b: bool)
    ensures
        b == equatable(l@, r@),
{
    if matches!(l, Type::NullT) || matches!(r, Type::NullT) {
        let other = if matches!(l, Type::NullT) {
            r
        } else {
            l
        };
        matches!(other, Type::NullT) || is_nullable(other) || matches!(
            other,
            Type::Named(_) | Type::Array(_)
        )
    } else {
        widen_numeric(l, r).is_some() || is_assignable(l, r) || is_assignable(r, l)
    }
}

/// The type of an arithmetic operation or a comparison. Bytes are computed
/// with as integers.
#[verifier::opaque]
pub open spec fn operated(op: BinOp, l: TypeView, r: TypeView) -> Judged {
    let bad = Judged::Err(
        ErrorView::BadBinaryOperator(op_text(op), display_text(l), display_text(r)),
    );
    match op {
        BinOp::Add | BinOp::Sub | BinOp::Mul | BinOp::Div | BinOp::Mod => match widened(l, r) {
            Some(w) => Ok(
                if w is Byte {
                    TypeView::Int
                } else {
                    w
                },
            ),
            None => bad,
        },
        BinOp::Cmp3 => if widened(l, r) is Some {
            Ok(TypeView::Int)
        } else {
            bad
        },
        BinOp::Eq | BinOp::Ne => if equatable(l, r) {
            Ok(TypeView::Bool)
        } else {
            bad
        },
        _ => if widened(l, r) is Some {
            Ok(TypeView::Bool)
        } else {
            bad
        },
    }
}

pub fn check_numeric_or_eq(op: BinOp, lty: &Type, rty: &Type) -> (r: Result<Type, SemaError>)
    ensures
        judged_as(r, operated(op, lty@, rty@)),
{
    reveal(operated);
    let typed = match op {
        BinOp::Add | BinOp::Sub | BinOp::Mul | BinOp::Div | BinOp::Mod => match widen_numeric(
            lty,
            rty,
        ) {
            Some(Type::Byte) => Some(Type::Int),
            other => other,
        },
        BinOp::Cmp3 => match widen_numeric(lty, rty) {
            Some(_) => Some(Type::Int),
            None => None,
        },
        BinOp::Eq | BinOp::Ne => if can_equate(lty, rty) {
            Some(Type::Bool)
        } else {
            None
        },
        _ => match widen_numeric(lty, rty) {
            Some(_) => Some(Type::Bool),
            None => None,
        },
    };
    match typed {
        Some(t) => Ok(t),
        None => Err(SemaError::BadBinaryOperator(op_symbol(op), display(lty), display(rty))),
    }
}

/// The type of a binary operation other than `&&` and `||`: with a string,
/// `+` joins.
#[verifier::opaque]
pub open spec fn combined(op: BinOp, l: TypeView, r: TypeView) -> Judged {
    if op == BinOp::Add && (l is StringT || r is StringT) {
        if !(l is StringT) && !concatenable(l) {
            Err(ErrorView::BadConcatenation(display_text(l)))
        } else if !(r is StringT) && !concatenable(r) {
            Err(ErrorView::BadConcatenation(display_text(r)))
        } else {
            Ok(TypeView::StringT)
        }
    } else {
        operated(op, l, r)
    }
}

pub fn check_operands(op: BinOp, lty: &Type, rty: &Type) -> (r: Result<Type, SemaError>)
    ensures
        judged_as(r, combined(op, lty@, rty@)),
{
    reveal(combined);
    if op == BinOp::Add && (matches!(lty, Type::StringT) || matches!(rty, Type::StringT)) {
        if !matches!(lty, Type::StringT) && !is_concat_operand(lty) {
            return Err(SemaError::BadConcatenation(display(lty)));
        }
        if !matches!(rty, Type::StringT) && !is_concat_operand(rty) {
            return Err(SemaError::BadConcatenation(display(rty)));
        }
        return Ok(Type::StringT);
    }
    check_numeric_or_eq(op, lty, rty)
}

/// The type of a unary operation.
#[verifier::opaque]
pub open spec fn negated(op: UnOp, t: TypeView) -> Judged {
    match op {
        UnOp::Neg => if numeric(t) {
            Ok(t)
        } else {
            Err(ErrorView::BadUnaryOperator("-"@, display_text(t)))
        },
        UnOp::Not => if t is Bool {
            Ok(TypeView::Bool)
        } else {
            Err(ErrorView::BadUnaryOperator("!"@, display_text(t)))
        },
    }
}

pub fn check_unary(op: UnOp, ty: Type) -> (r: Result<Type, SemaError>)
    ensures
        judged_as(r, negated(op, ty@)),
{
    reveal(negated);
    match op {
        UnOp::Neg => if is_numeric(&ty) {
            Ok(ty)
        } else {
            Err(SemaError::BadUnaryOperator(owned("-"), display(&ty)))
        },
        UnOp::Not => if matches!(ty, Type::Bool) {
            Ok(Type::Bool)
        } else {
            Err(SemaError::BadUnaryOperator(owned("!"), display(&ty)))
        },
    }
}

/// A condition, or an operand of `&&` and `||`, is a boolean.
pub open spec fn boolean(symbol: Seq<char>, t: TypeView) -> Checked {
    if t is Bool {
        Ok(())
    } else {
        Err(ErrorView::BadUnaryOperator(symbol, display_text(t)))
    }
}

pub fn require_bool(symbol: String, ty: &Type) -> (r: Result<(), SemaError>)
    ensures
        checked_as(r, boolean(symbol@, ty@)),
{
    if matches!(ty, Type::Bool) {
        Ok(())
    } else {
        Err(SemaError::BadUnaryOperator(symbol, display(ty)))
    }
}

pub open spec fn visibility_text(v: Visibility) -> Seq<char> {
    match v {
        Visibility::Public => "public"@,
        Visibility::Protected => "protected"@,
        Visibility::Private => "private"@,
    }
}

pub fn visibility_str(v: Visibility) -> (r: String)
    ensures
        r@ == visibility_text(v),
{
    owned(
        match v {
            Visibility::Public => "public",
            Visibility::Protected => "protected",
            Visibility::Private => "private",
        },
    )
}

/// A member that `owner` declares may be used by the class.
#[verifier::opaque]
pub open spec fn member_access(
    c: EnvView,
    visibility: Visibility,
    owner: Seq<char>,
    name: Seq<char>,
) -> Checked {
    if accessible(c.classes, visibility, owner, c.this_fqcn) {
        Ok(())
    } else {
        Err(ErrorView::MemberNotAccessible(name, c.this_fqcn, visibility_text(visibility)))
    }
}

pub fn check_member_access(c: &MethodEnv, visibility: Visibility, owner: &str, name: &str) -> (r: Result<
    (),
    SemaError,
>)
    ensures
        checked_as(r, member_access(c@, visibility, owner@, name@)),
{
    reveal(member_access);
    if is_accessible(c.classes, visibility, owner, c.this_fqcn.as_str()) {
        Ok(())
    } else {
        Err(
            SemaError::MemberNotAccessible(
                owned(name),
                c.this_fqcn.clone(),
                visibility_str(visibility),
            ),
        )
    }
}

pub open spec fn field_access(c: EnvView, fqcn: Seq<char>, name: Seq<char>) -> Checked {
    match field_found(c.classes, fqcn, name) {
        Some((owner, f)) => member_access(c, f.visibility, owner, name),
        None => Ok(()),
    }
}

pub fn check_field_access(c: &MethodEnv, fqcn: &str, name: &str) -> (r: Result<(), SemaError>)
    ensures
        checked_as(r, field_access(c@, fqcn@, name@)),
{
    match find_field_owner(c.classes, fqcn, name) {
        Some((owner, f)) => check_member_access(c, f.visibility, owner.as_str(), name),
        None => Ok(()),
    }
}

/// The declared type of a field.
pub open spec fn field_type(t: Classes, fqcn: Seq<char>, name: Seq<char>) -> Option<TypeView> {
    match field_found(t, fqcn, name) {
        Some((_, f)) => Some(f.ty),
        None => None,
    }
}

pub fn declared_field_ty(classes: &ClassTable, fqcn: &str, name: &str) -> (r: Option<Type>)
    ensures
        opt_type(r) == field_type(classes@, fqcn@, name@),
{
    match find_field_owner(classes, fqcn, name) {
        Some((_, f)) => Some(clone_type(&f.ty)),
        None => None,
    }
}

/// The type that a call of a method gives.
pub open spec fn return_type(t: Classes, fqcn: Seq<char>, name: Seq<char>, argc: nat) -> Option<
    TypeView,
> {
    match called_method(t, fqcn, name, argc) {
        Some((_, m)) => Some(m.return_ty),
        None => None,
    }
}

pub fn method_return_ty(classes: &ClassTable, fqcn: &str, name: &str, argc: usize) -> (r: Option<Type>)
    ensures
        opt_type(r) == return_type(classes@, fqcn@, name@, argc as nat),
{
    match find_method_owner(classes, fqcn, name, argc) {
        Some((_, m)) => Some(clone_type(&m.return_ty)),
        None => None,
    }
}

/// Whether the class that declares a field is readonly as a whole.
pub open spec fn readonly_class(t: Classes, fqcn: Seq<char>) -> bool {
    match bound_to(t, fqcn) {
        Some(info) => info.is_readonly,
        None => false,
    }
}

/// A readonly property is only written by a constructor of its own class,
/// through `this`.
#[verifier::opaque]
pub open spec fn writable(c: EnvView, target: Expr, fqcn: Seq<char>, name: Seq<char>) -> Checked {
    match field_found(c.classes, fqcn, name) {
        None => Ok(()),
        Some((owner, f)) => {
            let whole = readonly_class(c.classes, owner);
            if !whole && !f.readonly {
                Ok(())
            } else if c.is_constructor && c.this_fqcn == owner && target is This {
                Ok(())
            } else if whole {
                Err(ErrorView::ReadonlyClassModification(name, owner))
            } else {
                Err(ErrorView::ReadonlyPropertyModification(name))
            }
        },
    }
}

pub fn check_readonly(c: &MethodEnv, target: &Expr, fqcn: &str, name: &str) -> (r: Result<
    (),
    SemaError,
>)
    ensures
        checked_as(r, writable(c@, *target, fqcn@, name@)),
{
    reveal(writable);
    let (owner, field) = match find_field_owner(c.classes, fqcn, name) {
        Some(found) => found,
        None => return Ok(()),
    };
    let whole = match c.classes.get(owner.as_str()) {
        Some(info) => info.is_readonly,
        None => false,
    };
    if !whole && !field.readonly {
        return Ok(());
    }
    if c.is_constructor && str_eq(c.this_fqcn.as_str(), owner.as_str()) && matches!(
        target,
        Expr::This
    ) {
        return Ok(());
    }
    if whole {
        Err(SemaError::ReadonlyClassModification(owned(name), owner))
    } else {
        Err(SemaError::ReadonlyPropertyModification(owned(name)))
    }
}

/// Whether one of the first `n` classes is an exception or above it.
pub open spec fn caught_by(t: Classes, exc: Seq<char>, names: Seq<Seq<char>>) -> bool {
    exists|i: int| 0 <= i < names.len() && subclass(t, exc, #[trigger] names[i])
}

fn is_caught_by(classes: &ClassTable, exc: &str, names: &Vec<String>) -> (r: bool)
    ensures
        r == caught_by(classes@, exc@, texts(names@)),
{
    let ghost ns = texts(names@);
    let mut i: usize = 0;
    while i < names.len()
        invariant
            i <= names@.len(),
            ns == texts(names@),
            forall|k: int| 0 <= k < i ==> !subclass(classes@, exc@, #[trigger] ns[k]),
        decreases names@.len() - i,
    {
        assert(ns[i as int] == names@[i as int]@);
        if is_subclass_or_same(classes, exc, names[i].as_str()) {
            return true;
        }
        i = i + 1;
    }
    false
}

/// Whether an enclosing `try` catches an exception.
pub open spec fn caught(t: Classes, exc: Seq<char>, stack: Seq<Seq<Seq<char>>>) -> bool {
    exists|i: int| 0 <= i < stack.len() && caught_by(t, exc, #[trigger] stack[i])
}

fn is_caught(classes: &ClassTable, exc: &str, stack: &Vec<Vec<String>>) -> (r: bool)
    ensures
        r == caught(classes@, exc@, catch_views(stack@)),
{
    let ghost ss = catch_views(stack@);
    let mut i: usize = 0;
    while i < stack.len()
        invariant
            i <= stack@.len(),
            ss == catch_views(stack@),
            forall|k: int| 0 <= k < i ==> !caught_by(classes@, exc@, #[trigger] ss[k]),
        decreases stack@.len() - i,
    {
        assert(ss[i as int] == texts(stack@[i as int]@));
        if is_caught_by(classes, exc, &stack[i]) {
            return true;
        }
        i = i + 1;
    }
    false
}

/// A checked exception is caught here or declared by the method.
#[verifier::opaque]
pub open spec fn handled(c: EnvView, s: Flow, exc: Seq<char>) -> Checked {
    if !checked_exception(c.classes, exc) || caught(c.classes, exc, s.catch_stack) || caught_by(
        c.classes,
        exc,
        c.method_throws,
    ) {
        Ok(())
    } else {
        Err(ErrorView::UnhandledCheckedException(exc))
    }
}

/// All exceptions of a list from the `i`-th on are handled.
pub open spec fn all_handled(c: EnvView, s: Flow, excs: Seq<TypeView>, i: int) -> Checked
    decreases excs.len() - i,
{
    if i < 0 || i >= excs.len() {
        Ok(())
    } else {
        match excs[i] {
            TypeView::Named(exc) => {
                match handled(c, s, exc) {
                    Err(e) => Err(e),
                    Ok(_) => all_handled(c, s, excs, i + 1),
                }
            },
            _ => all_handled(c, s, excs, i + 1),
        }
    }
}

pub open spec fn names_handled(c: EnvView, s: Flow, excs: Seq<Seq<char>>, i: int) -> Checked
    decreases excs.len() - i,
{
    if i < 0 || i >= excs.len() {
        Ok(())
    } else {
        match handled(c, s, excs[i]) {
            Err(e) => Err(e),
            Ok(_) => names_handled(c, s, excs, i + 1),
        }
    }
}

/// All values of a list from the `i`-th on may be stored as the types of
/// another, the first `skip` of which are passed over.
pub open spec fn all_assignable(
    t: Classes,
    values: Seq<TypeView>,
    targets: Seq<TypeView>,
    skip: int,
    i: int,
) -> Checked
    decreases values.len() - i,
{
    if i < 0 || i >= values.len() || i + skip >= targets.len() {
        Ok(())
    } else {
        match assignment(t, values[i], targets[i + skip]) {
            Err(e) => Err(e),
            Ok(_) => all_assignable(t, values, targets, skip, i + 1),
        }
    }
}

pub(crate) fn check_all_assignable(classes: &ClassTable, values: &Vec<Type>, targets: &Vec<Type>, skip: usize) -> (
    r: Result<(), SemaError>)
    requires
        skip <= 1,
    ensures
        checked_as(
            r,
            all_assignable(classes@, type_views(values@), type_views(targets@), skip as int, 0),
        ),
{
    let ghost vs = type_views(values@);
    let ghost ts = type_views(targets@);
    let ghost whole = all_assignable(classes@, vs, ts, skip as int, 0);
    let mut i: usize = 0;
    while i < values.len() && targets.len() > skip && i < targets.len() - skip
        invariant
            i <= values@.len(),
            skip <= 1,
            vs == type_views(values@),
            ts == type_views(targets@),
            whole == all_assignable(classes@, vs, ts, skip as int, 0),
            whole == all_assignable(classes@, vs, ts, skip as int, i as int),
        decreases values@.len() - i,
    {
        assert(vs[i as int] == values@[i as int]@);
        assert(ts[i + skip] == targets@[i + skip]@);
        check_assignable(classes, &values[i], &targets[i + skip])?;
        i = i + 1;
    }
    Ok(())
}

/// What is passed by reference is a variable that may be written, and marked
/// as such.
#[verifier::opaque]
pub open spec fn ref_arg(s: Flow, param: Seq<char>, arg: Arg) -> Checked {
    if !arg.is_ref {
        Err(ErrorView::MissingRefKeyword(param))
    } else {
        match arg.value {
            Expr::Ident(var) => match s.lookup(var@) {
                Some((id, _)) => if s.const_vars.contains(id) || s.readonly_loop_vars.contains(
                    id,
                ) {
                    Err(ErrorView::RefArgNotVariable(param))
                } else {
                    Ok(())
                },
                None => Ok(()),
            },
            _ => Err(ErrorView::RefArgNotVariable(param)),
        }
    }
}

/// So are the arguments of all reference parameters from the `i`-th on.
pub open spec fn ref_args(
    s: Flow,
    names: Seq<Seq<char>>,
    refs: Seq<bool>,
    args: Seq<Arg>,
    i: int,
) -> Checked
    decreases names.len() - i,
{
    if i < 0 || i >= names.len() || i >= refs.len() {
        Ok(())
    } else {
        match binder(names, args, i, args.len() as int) {
            Some(j) => if refs[i] {
                match ref_arg(s, names[i], args[j]) {
                    Err(e) => Err(e),
                    Ok(_) => ref_args(s, names, refs, args, i + 1),
                }
            } else {
                ref_args(s, names, refs, args, i + 1)
            },
            None => ref_args(s, names, refs, args, i + 1),
        }
    }
}

/// Whether one of the first `n` arguments is given by name.
pub open spec fn named_before(args: Seq<Arg>, n: int) -> bool {
    exists|j: int| 0 <= j < n && (#[trigger] args[j]).name is Some
}

/// The arguments from the `i`-th on do not go back to positions after names,
/// and give no parameter twice.
pub open spec fn args_in_order(names: Seq<Seq<char>>, args: Seq<Arg>, i: int) -> Checked
    decreases args.len() - i,
{
    if i < 0 || i >= args.len() {
        Ok(())
    } else {
        match args[i].name {
            None => if named_before(args, i) {
                Err(ErrorView::PositionalArgAfterNamed)
            } else {
                args_in_order(names, args, i + 1)
            },
            Some(name) => {
                let p = name_at(names, name@, 0);
                if p < names.len() && binder(names, args, p, i) is Some {
                    Err(ErrorView::ParamProvidedTwice(name@))
                } else {
                    args_in_order(names, args, i + 1)
                }
            },
        }
    }
}

/// Each of the first `required` parameters from the `p`-th on is given.
pub open spec fn required_given(
    names: Seq<Seq<char>>,
    required: nat,
    args: Seq<Arg>,
    p: int,
) -> Checked
    decreases names.len() - p,
{
    if p < 0 || p >= names.len() || p >= required {
        Ok(())
    } else if binder(names, args, p, args.len() as int) is None {
        Err(ErrorView::RequiredParamNotProvided(names[p]))
    } else {
        required_given(names, required, args, p + 1)
    }
}

/// The arguments of a call can be told apart, and none that is required is
/// missing.
#[verifier::opaque]
pub open spec fn bindable(names: Seq<Seq<char>>, required: nat, args: Seq<Arg>) -> Checked {
    match args_in_order(names, args, 0) {
        Err(e) => Err(e),
        Ok(_) => required_given(names, required, args, 0),
    }
}

fn check_args_in_order(names: &Vec<String>, args: &Vec<Arg>) -> (r: Result<(), SemaError>)
    ensures
        checked_as(r, args_in_order(texts(names@), args@, 0)),
{
    let ghost ns = texts(names@);
    let ghost whole = args_in_order(ns, args@, 0);
    let mut seen_named = false;
    let mut i: usize = 0;
    while i < args.len()
        invariant
            i <= args@.len(),
            ns == texts(names@),
            seen_named == named_before(args@, i as int),
            whole == args_in_order(ns, args@, 0),
            whole == args_in_order(ns, args@, i as int),
        decreases args@.len() - i,
    {
        match &args[i].name {
            None => {
                if seen_named {
                    return Err(SemaError::PositionalArgAfterNamed);
                }
                assert(named_before(args@, i as int + 1) == named_before(args@, i as int));
            },
            Some(name) => {
                assert(args@[i as int].name is Some);
                assert(named_before(args@, i as int + 1));
                seen_named = true;
                let p: usize = name_position(names, name.as_str());
                if p < names.len() && find_binder(names, args, p, i).is_some() {
                    return Err(SemaError::ParamProvidedTwice(name.clone()));
                }
            },
        }
        i = i + 1;
    }
    Ok(())
}

/// Which argument each parameter is given, where a call is in order.
pub fn bind_call_args(names: &Vec<String>, required: usize, args: &Vec<Arg>) -> (r: Result<
    Vec<Option<usize>>,
    SemaError,
>)
    ensures
        match r {
            Ok(b) => bindable(texts(names@), required as nat, args@) == Checked::Ok(())
                && binds(b@, texts(names@), args@),
            Err(e) => bindable(texts(names@), required as nat, args@) == Checked::Err(e@),
        },
{
    reveal(bindable);
    let ghost ns = texts(names@);
    check_args_in_order(names, args)?;
    let mut out: Vec<Option<usize>> = Vec::new();
    let mut p: usize = 0;
    while p < names.len()
        invariant
            p <= names@.len(),
            ns == texts(names@),
            out@.len() == p,
            args_in_order(ns, args@, 0) == Checked::Ok(()),
            bindable(ns, required as nat, args@) == required_given(ns, required as nat, args@, 0),
            p <= required ==> required_given(ns, required as nat, args@, 0) == required_given(
                ns,
                required as nat,
                args@,
                p as int,
            ),
            p > required ==> required_given(ns, required as nat, args@, 0) == Checked::Ok(()),
            forall|j: int| 0 <= j < p ==> bound_as(#[trigger] out@[j], ns, args@, j),
        decreases names@.len() - p,
    {
        let b = find_binder(names, args, p, args.len());
        assert(ns[p as int] == names@[p as int]@);
        if b.is_none() && p < required {
            return Err(SemaError::RequiredParamNotProvided(names[p].clone()));
        }
        out.push(b);
        p = p + 1;
    }
    Ok(out)
}

pub open spec fn bound_as(b: Option<usize>, names: Seq<Seq<char>>, args: Seq<Arg>, p: int) -> bool {
    match b {
        Some(j) => binder(names, args, p, args.len() as int) == Some(j as int) && j < args.len(),
        None => binder(names, args, p, args.len() as int) is None,
    }
}

/// Whether `b` says which argument each parameter is given.
pub open spec fn binds(b: Seq<Option<usize>>, names: Seq<Seq<char>>, args: Seq<Arg>) -> bool {
    b.len() == names.len() && forall|p: int|
        0 <= p < b.len() ==> bound_as(#[trigger] b[p], names, args, p)
}

/// The arguments of a call are in order, and those passed by reference may be.
pub open spec fn call_args(
    s: Flow,
    names: Seq<Seq<char>>,
    refs: Seq<bool>,
    required: nat,
    args: Seq<Arg>,
) -> Checked {
    match bindable(names, required, args) {
        Err(e) => Err(e),
        Ok(_) => ref_args(s, names, refs, args, 0),
    }
}

/// Whether an expression is a constant, as default values are.
pub open spec fn constant(e: Expr) -> bool {
    match e {
        Expr::IntLit(_)
        | Expr::FloatLit(_)
        | Expr::BoolLit(_)
        | Expr::StringLit(_)
        | Expr::NullLit => true,
        Expr::Unary(UnOp::Neg, inner) => *inner is IntLit || *inner is FloatLit,
        _ => false,
    }
}

pub fn is_const_expr(expr: &Expr) -> (r: bool)
    ensures
        r == constant(*expr),
{
    match expr {
        Expr::IntLit(_)
        | Expr::FloatLit(_)
        | Expr::BoolLit(_)
        | Expr::StringLit(_)
        | Expr::NullLit => true,
        Expr::Unary(UnOp::Neg, inner) => matches!(**inner, Expr::IntLit(_) | Expr::FloatLit(_)),
        _ => false,
    }
}

/// How many leading sizes of an array are given.
pub open spec fn sizes_given(dims: Seq<Option<Expr>>, i: int) -> nat
    decreases dims.len() - i,
{
    if i < 0 || i >= dims.len() || dims[i] is None {
        0
    } else {
        1 + sizes_given(dims, i + 1)
    }
}

fn count_sizes(dims: &Vec<Option<Expr>>) -> (r: usize)
    ensures
        r == sizes_given(dims@, 0),
        r <= dims@.len(),
{
    let mut i: usize = 0;
    while i < dims.len() && dims[i].is_some()
        invariant
            i <= dims@.len(),
            sizes_given(dims@, 0) == i + sizes_given(dims@, i as int),
        decreases dims@.len() - i,
    {
        i = i + 1;
    }
    i
}

/// Whether a size from the `i`-th on is given.
pub open spec fn any_size(dims: Seq<Option<Expr>>, i: int) -> bool {
    exists|j: int| i <= j < dims.len() && #[trigger] dims[j] is Some
}

fn has_size(dims: &Vec<Option<Expr>>, from: usize) -> (r: bool)
    ensures
        r == any_size(dims@, from as int),
{
    let mut i: usize = from;
    while i < dims.len()
        invariant
            from <= i,
            forall|j: int| from <= j < i && j < dims@.len() ==> #[trigger] dims@[j] is None,
        decreases dims@.len() - i,
    {
        if dims[i].is_some() {
            assert(dims@[i as int] is Some);
            return true;
        }
        i = i + 1;
    }
    false
}

/// The sizes from the `i`-th on, as they are shown.
pub open spec fn sizes_text(dims: Seq<Option<Expr>>, n: int) -> Seq<char>
    decreases n,
{
    if n <= 0 {
        Seq::empty()
    } else {
        sizes_text(dims, n - 1) + (if dims[n - 1] is Some {
            "[n]"@
        } else {
            "[]"@
        })
    }
}

fn new_array_source(elem_ty: &Type, dims: &Vec<Option<Expr>>) -> (r: String)
    ensures
        r@ == "new "@ + display_text(elem_ty@) + sizes_text(dims@, dims@.len() as int),
{
    let mut out: String = cat2("new ", display(elem_ty).as_str());
    let ghost base = out@;
    assert(base =~= base + sizes_text(dims@, 0));
    let mut i: usize = 0;
    while i < dims.len()
        invariant
            i <= dims@.len(),
            out@ == base + sizes_text(dims@, i as int),
        decreases dims@.len() - i,
    {
        let part = match &dims[i] {
            Some(_) => "[n]",
            None => "[]",
        };
        out = cat2(out.as_str(), part);
        assert(out@ =~= base + sizes_text(dims@, i as int + 1));
        i = i + 1;
    }
    out
}

/// The type of an array of `k` dimensions of which the first `m` are made:
/// what is not made yet is null.
pub open spec fn new_array_type(elem: TypeView, k: nat, m: nat) -> TypeView {
    if m >= k {
        layered(elem, k)
    } else {
        layered(
            TypeView::Union(seq![layered(elem, (k - m) as nat), TypeView::NullT]),
            m,
        )
    }
}

fn build_new_array_type(elem: &Type, k: usize, m: usize) -> (r: Type)
    ensures
        r@ == new_array_type(elem@, k as nat, m as nat),
{
    if m >= k {
        return plain_array_of(elem, k);
    }
    let ghost part = layered(elem@, (k - m) as nat);
    let mut parts: Vec<Type> = Vec::new();
    parts.push(plain_array_of(elem, k - m));
    parts.push(Type::NullT);
    assert(type_views(parts@) =~= seq![part, TypeView::NullT]);
    let nullable_ty = Type::Union(parts);
    assert(nullable_ty@ == TypeView::Union(seq![part, TypeView::NullT]));
    plain_array_of(&nullable_ty, m)
}

/// The type of a new array. Sizes are omitted from some point on; elements
/// that cannot be null are not made before they have a value.
#[verifier::opaque]
pub open spec fn array_made(c: EnvView, elem: Type, dims: Seq<Option<Expr>>) -> Judged {
    let m = sizes_given(dims, 0);
    let ty = resolved_type(elem@, c.imports);
    if any_size(dims, m as int) {
        Err(
            ErrorView::NonContiguousArrayDimensionOmission(
                "new "@ + display_text(elem@) + sizes_text(dims, dims.len() as int),
            ),
        )
    } else if dims.len() == m && ty is Named {
        Err(ErrorView::NonNullableArrayFixedSize(display_text(ty)))
    } else {
        Ok(new_array_type(ty, dims.len(), m))
    }
}

pub fn check_new_array(c: &MethodEnv, elem_ty: &Type, dims: &Vec<Option<Expr>>) -> (r: Result<
    Type,
    SemaError,
>)
    ensures
        judged_as(r, array_made(c@, *elem_ty, dims@)),
{
    reveal(array_made);
    let m: usize = count_sizes(dims);
    if has_size(dims, m) {
        return Err(
            SemaError::NonContiguousArrayDimensionOmission(new_array_source(elem_ty, dims)),
        );
    }
    let resolved = resolve_type(elem_ty, c.imports);
    if dims.len() == m && matches!(resolved, Type::Named(_)) {
        return Err(SemaError::NonNullableArrayFixedSize(display(&resolved)));
    }
    Ok(build_new_array_type(&resolved, dims.len(), m))
}

/// The bits of a double below its sign.
pub open spec fn magnitude(bits: u64) -> int {
    bits as int % 0x8000_0000_0000_0000
}

/// Whether the bits of a double stand for no number.
pub open spec fn not_a_number(bits: u64) -> bool {
    magnitude(bits) > 0x7ff0_0000_0000_0000
}

/// Whether the doubles with these bits compare equal: the two zeros do, and
/// what is no number equals nothing.
pub open spec fn same_double(x: u64, y: u64) -> bool {
    !not_a_number(x) && !not_a_number(y) && (x == y || magnitude(x) == 0 && magnitude(y) == 0)
}

pub fn double_eq(x: u64, y: u64) -> (r: bool)
    ensures
        r == same_double(x, y),
{
    let a: u64 = x % 0x8000_0000_0000_0000;
    let b: u64 = y % 0x8000_0000_0000_0000;
    a <= 0x7ff0_0000_0000_0000 && b <= 0x7ff0_0000_0000_0000 && (x == y || a == 0 && b == 0)
}

/// Whether two patterns are the same literal.
pub open spec fn same_literal(a: Expr, b: Expr) -> bool {
    match (a, b) {
        (Expr::IntLit(x), Expr::IntLit(y)) => x == y,
        (Expr::FloatLit(x), Expr::FloatLit(y)) => same_double(x, y),
        (Expr::StringLit(x), Expr::StringLit(y)) => x@ == y@,
        (Expr::BoolLit(x), Expr::BoolLit(y)) => x == y,
        (Expr::NullLit, Expr::NullLit) => true,
        _ => false,
    }
}

pub fn literal_eq(a: &Expr, b: &Expr) -> (r: bool)
    ensures
        r == same_literal(*a, *b),
{
    match (a, b) {
        (Expr::IntLit(x), Expr::IntLit(y)) => *x == *y,
        (Expr::FloatLit(x), Expr::FloatLit(y)) => double_eq(*x, *y),
        (Expr::StringLit(x), Expr::StringLit(y)) => str_eq(x.as_str(), y.as_str()),
        (Expr::BoolLit(x), Expr::BoolLit(y)) => *x == *y,
        (Expr::NullLit, Expr::NullLit) => true,
        _ => false,
    }
}

/// Whether an earlier arm has the literal of the `i`-th.
pub open spec fn arm_repeated(arms: Seq<MatchArm>, i: int) -> bool {
    exists|j: int| 0 <= j < i && same_pattern(#[trigger] arms[j], arms[i])
}

pub open spec fn same_pattern(a: MatchArm, b: MatchArm) -> bool {
    match (a.pattern, b.pattern) {
        (Some(p), Some(q)) => same_literal(p, q),
        _ => false,
    }
}

pub(crate) fn is_arm_repeated(arms: &Vec<MatchArm>, i: usize) -> (r: bool)
    requires
        i < arms@.len(),
    ensures
        r == arm_repeated(arms@, i as int),
{
    let mut j: usize = 0;
    while j < i
        invariant
            j <= i < arms@.len(),
            forall|k: int| 0 <= k < j ==> !same_pattern(#[trigger] arms@[k], arms@[i as int]),
        decreases i - j,
    {
        if let (Some(p), Some(q)) = (&arms[j].pattern, &arms[i].pattern) {
            if literal_eq(p, q) {
                assert(same_pattern(arms@[j as int], arms@[i as int]));
                return true;
            }
        }
        j = j + 1;
    }
    false
}

pub open spec fn has_default(arms: Seq<MatchArm>) -> bool {
    exists|i: int| 0 <= i < arms.len() && (#[trigger] arms[i]).pattern is None
}

pub open spec fn has_bool(arms: Seq<MatchArm>, b: bool) -> bool {
    exists|i: int| 0 <= i < arms.len() && bool_pattern(#[trigger] arms[i], b)
}

pub open spec fn bool_pattern(arm: MatchArm, b: bool) -> bool {
    match arm.pattern {
        Some(Expr::BoolLit(x)) => x == b,
        _ => false,
    }
}

/// Whether an arm is for an enum's case of this name.
pub open spec fn case_pattern(arm: MatchArm, name: Seq<char>) -> bool {
    match arm.pattern {
        Some(Expr::FieldAccess(_, case)) => case@ == name,
        _ => false,
    }
}

pub open spec fn has_case(arms: Seq<MatchArm>, name: Seq<char>) -> bool {
    exists|i: int| 0 <= i < arms.len() && case_pattern(#[trigger] arms[i], name)
}

pub open spec fn has_cases(arms: Seq<MatchArm>, names: Seq<Seq<char>>) -> bool {
    forall|i: int| 0 <= i < names.len() ==> has_case(arms, #[trigger] names[i])
}

/// Whether the arms cover every value of the subject's type.
#[verifier::opaque]
pub open spec fn exhaustive(t: Classes, subject: TypeView, arms: Seq<MatchArm>) -> bool {
    has_default(arms) || (subject is Bool && has_bool(arms, true) && has_bool(arms, false))
        || match subject {
        TypeView::Named(fqcn) => match bound_to(t, fqcn) {
            Some(info) => info.is_enum && has_cases(arms, info.enum_cases),
            None => false,
        },
        _ => false,
    }
}

fn find_default(arms: &Vec<MatchArm>) -> (r: bool)
    ensures
        r == has_default(arms@),
{
    let mut i: usize = 0;
    while i < arms.len()
        invariant
            i <= arms@.len(),
            forall|k: int| 0 <= k < i ==> (#[trigger] arms@[k]).pattern is Some,
        decreases arms@.len() - i,
    {
        if arms[i].pattern.is_none() {
            assert(arms@[i as int].pattern is None);
            return true;
        }
        i = i + 1;
    }
    false
}

fn find_bool(arms: &Vec<MatchArm>, b: bool) -> (r: bool)
    ensures
        r == has_bool(arms@, b),
{
    let mut i: usize = 0;
    while i < arms.len()
        invariant
            i <= arms@.len(),
            forall|k: int| 0 <= k < i ==> !bool_pattern(#[trigger] arms@[k], b),
        decreases arms@.len() - i,
    {
        if let Some(Expr::BoolLit(x)) = &arms[i].pattern {
            if *x == b {
                assert(bool_pattern(arms@[i as int], b));
                return true;
            }
        }
        i = i + 1;
    }
    false
}

fn find_case(arms: &Vec<MatchArm>, name: &str) -> (r: bool)
    ensures
        r == has_case(arms@, name@),
{
    let mut i: usize = 0;
    while i < arms.len()
        invariant
            i <= arms@.len(),
            forall|k: int| 0 <= k < i ==> !case_pattern(#[trigger] arms@[k], name@),
        decreases arms@.len() - i,
    {
        if let Some(Expr::FieldAccess(_, case)) = &arms[i].pattern {
            if str_eq(case.as_str(), name) {
                assert(case_pattern(arms@[i as int], name@));
                return true;
            }
        }
        i = i + 1;
    }
    false
}

fn find_cases(arms: &Vec<MatchArm>, names: &Vec<String>) -> (r: bool)
    ensures
        r == has_cases(arms@, texts(names@)),
{
    let ghost ns = texts(names@);
    let mut i: usize = 0;
    while i < names.len()
        invariant
            i <= names@.len(),
            ns == texts(names@),
            forall|k: int| 0 <= k < i ==> has_case(arms@, #[trigger] ns[k]),
        decreases names@.len() - i,
    {
        assert(ns[i as int] == names@[i as int]@);
        if !find_case(arms, names[i].as_str()) {
            return false;
        }
        i = i + 1;
    }
    true
}

pub fn is_exhaustive(classes: &ClassTable, subject: &Type, arms: &Vec<MatchArm>) -> (r: bool)
    ensures
        r == exhaustive(classes@, subject@, arms@),
{
    reveal(exhaustive);
    if find_default(arms) {
        return true;
    }
    match subject {
        Type::Bool => find_bool(arms, true) && find_bool(arms, false),
        Type::Named(fqcn) => match classes.get(fqcn.as_str()) {
            Some(info) => info.is_enum && find_cases(arms, &info.enum_cases),
            None => false,
        },
        _ => false,
    }
}

/// The variable that a test against `null` is about.
pub open spec fn null_tested(s: Flow, lhs: Expr, rhs: Expr) -> Option<(u32, TypeView)> {
    let e = if rhs is NullLit {
        lhs
    } else {
        rhs
    };
    if !(rhs is NullLit) && !(lhs is NullLit) {
        None
    } else {
        match e {
            Expr::Ident(name) => s.lookup(name@),
            _ => None,
        }
    }
}

/// What is known of variables where a condition holds, and where it does not.
pub open spec fn narrowings(c: EnvView, s: Flow, cond: Expr) -> (Narrowing, Narrowing)
    decreases cond,
{
    match cond {
        Expr::Binary(BinOp::Ne, lhs, rhs) => match null_tested(s, *lhs, *rhs) {
            Some((id, ty)) => (seq![(id, without_null(ty))], seq![(id, TypeView::NullT)]),
            None => (Seq::empty(), Seq::empty()),
        },
        Expr::Binary(BinOp::Eq, lhs, rhs) => match null_tested(s, *lhs, *rhs) {
            Some((id, ty)) => (seq![(id, TypeView::NullT)], seq![(id, without_null(ty))]),
            None => (Seq::empty(), Seq::empty()),
        },
        Expr::InstanceOf(target, class) => match *target {
            Expr::Ident(name) => match s.lookup(name@) {
                Some((id, _)) => (
                    seq![(id, TypeView::Named(resolved_name(class@, c.imports)))],
                    Seq::empty(),
                ),
                None => (Seq::empty(), Seq::empty()),
            },
            _ => (Seq::empty(), Seq::empty()),
        },
        Expr::Binary(BinOp::And, lhs, rhs) => (
            narrowings(c, s, *lhs).0 + narrowings(c, s, *rhs).0,
            Seq::empty(),
        ),
        Expr::Binary(BinOp::Or, lhs, rhs) => (
            Seq::empty(),
            narrowings(c, s, *lhs).1 + narrowings(c, s, *rhs).1,
        ),
        _ => (Seq::empty(), Seq::empty()),
    }
}

fn one(id: u32, ty: Type) -> (r: Vec<(u32, Type)>)
    ensures
        narrowing_view(r@) == seq![(id, ty@)],
{
    let mut v: Vec<(u32, Type)> = Vec::new();
    v.push((id, ty));
    assert(narrowing_view(v@) =~= seq![(id, ty@)]);
    v
}

fn none() -> (r: Vec<(u32, Type)>)
    ensures
        narrowing_view(r@) == Narrowing::empty(),
{
    let v: Vec<(u32, Type)> = Vec::new();
    assert(narrowing_view(v@) =~= Narrowing::empty());
    v
}

fn joined(a: Vec<(u32, Type)>, b: Vec<(u32, Type)>) -> (r: Vec<(u32, Type)>)
    ensures
        narrowing_view(r@) == narrowing_view(a@) + narrowing_view(b@),
{
    let mut out = a;
    let mut rest = b;
    out.append(&mut rest);
    assert(narrowing_view(out@) =~= narrowing_view(a@) + narrowing_view(b@));
    out
}

impl MethodChecker {
    fn narrowable_ident(&self, expr: &Expr) -> (r: Option<(u32, Type)>)
        ensures
            var_view(r) == (match *expr {
                Expr::Ident(name) => self@.lookup(name@),
                _ => None,
            }),
    {
        match expr {
            Expr::Ident(name) => self.resolve(name.as_str()),
            _ => None,
        }
    }

    fn null_test(&self, lhs: &Expr, rhs: &Expr) -> (r: Option<(u32, Type)>)
        ensures
            var_view(r) == null_tested(self@, *lhs, *rhs),
    {
        if matches!(rhs, Expr::NullLit) {
            self.narrowable_ident(lhs)
        } else if matches!(lhs, Expr::NullLit) {
            self.narrowable_ident(rhs)
        } else {
            None
        }
    }

    pub fn narrowing_from_cond(&self, c: &MethodEnv, cond: &Expr) -> (r: (
        Vec<(u32, Type)>,
        Vec<(u32, Type)>,
    ))
        ensures
            narrowing_view(r.0@) == narrowings(c@, self@, *cond).0,
            narrowing_view(r.1@) == narrowings(c@, self@, *cond).1,
        decreases cond,
    {
        match cond {
            Expr::Binary(BinOp::Ne, lhs, rhs) => match self.null_test(lhs, rhs) {
                Some((id, ty)) => (one(id, strip_null(&ty)), one(id, Type::NullT)),
                None => (none(), none()),
            },
            Expr::Binary(BinOp::Eq, lhs, rhs) => match self.null_test(lhs, rhs) {
                Some((id, ty)) => (one(id, Type::NullT), one(id, strip_null(&ty))),
                None => (none(), none()),
            },
            Expr::InstanceOf(target, class) => match self.narrowable_ident(target) {
                Some((id, _)) => (
                    one(id, Type::Named(resolve_name(class.as_str(), c.imports))),
                    none(),
                ),
                None => (none(), none()),
            },
            Expr::Binary(BinOp::And, lhs, rhs) => {
                let l = self.narrowing_from_cond(c, lhs);
                let r = self.narrowing_from_cond(c, rhs);
                (joined(l.0, r.0), none())
            },
            Expr::Binary(BinOp::Or, lhs, rhs) => {
                let l = self.narrowing_from_cond(c, lhs);
                let r = self.narrowing_from_cond(c, rhs);
                (none(), joined(l.1, r.1))
            },
            _ => (none(), none()),
        }
    }

    pub fn require_handled(&self, c: &MethodEnv, exc: &str) -> (r: Result<(), SemaError>)
        ensures
            checked_as(r, handled(c@, self@, exc@)),
    {
        reveal(handled);
        if !is_checked_exception(c.classes, exc) || is_caught(c.classes, exc, &self.catch_stack)
            || is_caught_by(c.classes, exc, &c.method_throws) {
            Ok(())
        } else {
            Err(SemaError::UnhandledCheckedException(owned(exc)))
        }
    }

    pub fn require_all_handled(&self, c: &MethodEnv, excs: &Vec<Type>) -> (r: Result<(), SemaError>)
        ensures
            checked_as(r, all_handled(c@, self@, type_views(excs@), 0)),
    {
        let ghost es = type_views(excs@);
        let ghost whole = all_handled(c@, self@, es, 0);
        let mut i: usize = 0;
        while i < excs.len()
            invariant
                i <= excs@.len(),
                es == type_views(excs@),
                whole == all_handled(c@, self@, es, 0),
                whole == all_handled(c@, self@, es, i as int),
            decreases excs@.len() - i,
        {
            assert(es[i as int] == excs@[i as int]@);
            if let Type::Named(exc) = &excs[i] {
                self.require_handled(c, exc.as_str())?;
            }
            i = i + 1;
        }
        Ok(())
    }

    pub fn require_names_handled(&self, c: &MethodEnv, excs: &Vec<String>) -> (r: Result<(), SemaError>)
        ensures
            checked_as(r, names_handled(c@, self@, texts(excs@), 0)),
    {
        let ghost es = texts(excs@);
        let ghost whole = names_handled(c@, self@, es, 0);
        let mut i: usize = 0;
        while i < excs.len()
            invariant
                i <= excs@.len(),
                es == texts(excs@),
                whole == names_handled(c@, self@, es, 0),
                whole == names_handled(c@, self@, es, i as int),
            decreases excs@.len() - i,
        {
            assert(es[i as int] == excs@[i as int]@);
            self.require_handled(c, excs[i].as_str())?;
            i = i + 1;
        }
        Ok(())
    }

    pub fn check_ref_arg(&self, param: &str, arg: &Arg) -> (r: Result<(), SemaError>)
        ensures
            checked_as(r, ref_arg(self@, param@, *arg)),
    {
        reveal(ref_arg);
        if !arg.is_ref {
            return Err(SemaError::MissingRefKeyword(owned(param)));
        }
        match &arg.value {
            Expr::Ident(var) => {
                if let Some((id, _)) = self.resolve(var.as_str()) {
                    if self.const_vars.contains(id) || self.readonly_loop_vars.contains(id) {
                        return Err(SemaError::RefArgNotVariable(owned(param)));
                    }
                }
                Ok(())
            },
            _ => Err(SemaError::RefArgNotVariable(owned(param))),
        }
    }

    fn check_ref_args(
        &self,
        names: &Vec<String>,
        refs: &Vec<bool>,
        binding: &Vec<Option<usize>>,
        args: &Vec<Arg>,
    ) -> (r: Result<(), SemaError>)
        requires
            binds(binding@, texts(names@), args@),
        ensures
            checked_as(r, ref_args(self@, texts(names@), refs@, args@, 0)),
    {
        let ghost ns = texts(names@);
        let ghost whole = ref_args(self@, ns, refs@, args@, 0);
        let mut i: usize = 0;
        while i < names.len() && i < refs.len()
            invariant
                i <= names@.len(),
                ns == texts(names@),
                binds(binding@, ns, args@),
                ns.len() == names@.len(),
                whole == ref_args(self@, ns, refs@, args@, 0),
                whole == ref_args(self@, ns, refs@, args@, i as int),
            decreases names@.len() - i,
        {
            assert(bound_as(binding@[i as int], ns, args@, i as int));
            assert(ns[i as int] == names@[i as int]@);
            if let Some(j) = binding[i] {
                if refs[i] {
                    self.check_ref_arg(names[i].as_str(), &args[j])?;
                }
            }
            i = i + 1;
        }
        Ok(())
    }

    pub fn check_call_args(
        &self,
        names: &Vec<String>,
        refs: &Vec<bool>,
        required: usize,
        args: &Vec<Arg>,
    ) -> (r: Result<(), SemaError>)
        ensures
            checked_as(r, call_args(self@, texts(names@), refs@, required as nat, args@)),
    {
        let binding = bind_call_args(names, required, args)?;
        self.check_ref_args(names, refs, &binding, args)
    }
}

} // verus!
