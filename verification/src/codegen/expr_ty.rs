//! The types that the code generator tells apart.

use crate::ast::{clone_type, same_strings, type_views, Type, TypeView};
use crate::sema::types::{debug, debug_text, display, display_text};
use crate::text::{
    cat2, cat3, cat7, clone_strings, join, join_text, owned, quoted, quoted_text, str_eq, texts,
};
use vstd::prelude::*;

verus! {

/// The static type of an expression. Values are tagged at run time, so a
/// union is its first member other than `null`.
#[derive(Debug)]
pub enum ExprTy {
    Int,
    Float,
    Bool,
    Byte,
    StringT,
    Null,
    Void,
    /// A class, by full name.
    Object(String),
    Array(Box<ExprTy>),
    /// A closure: of the class synthesized for a literal, or of the placeholder
    /// class that stands for a written function type, with the exceptions that
    /// the type declares.
    Closure { params: Vec<ExprTy>, return_ty: Box<ExprTy>, throws: Vec<String>, fqcn: String },
}

#[verifier::ext_equal]
pub enum ExprTyView {
    Int,
    Float,
    Bool,
    Byte,
    StringT,
    Null,
    Void,
    Object(Seq<char>),
    Array(Box<ExprTyView>),
    Closure {
        params: Seq<ExprTyView>,
        return_ty: Box<ExprTyView>,
        throws: Seq<Seq<char>>,
        fqcn: Seq<char>,
    },
}

/// The class of a closure value whose literal is not known. A call finds its
/// target by the receiver's own class, so the name is never looked up.
pub const FUNCTION_TYPE_FQCN: &'static str = "$FunctionType";

pub open spec fn expr_ty_view(t: ExprTy) -> ExprTyView
    decreases t,
{
    match t {
        ExprTy::Int => ExprTyView::Int,
        ExprTy::Float => ExprTyView::Float,
        ExprTy::Bool => ExprTyView::Bool,
        ExprTy::Byte => ExprTyView::Byte,
        ExprTy::StringT => ExprTyView::StringT,
        ExprTy::Null => ExprTyView::Null,
        ExprTy::Void => ExprTyView::Void,
        ExprTy::Object(fqcn) => ExprTyView::Object(fqcn@),
        ExprTy::Array(inner) => ExprTyView::Array(Box::new(expr_ty_view(*inner))),
        ExprTy::Closure { params, return_ty, throws, fqcn } => ExprTyView::Closure {
            params: expr_ty_views(params@),
            return_ty: Box::new(expr_ty_view(*return_ty)),
            throws: texts(throws@),
            fqcn: fqcn@,
        },
    }
}

pub open spec fn expr_ty_views(s: Seq<ExprTy>) -> Seq<ExprTyView>
    decreases s,
{
    Seq::new(
        s.len(),
        |i: int|
            if 0 <= i < s.len() {
                expr_ty_view(s[i])
            } else {
                ExprTyView::Void
            },
    )
}

impl View for ExprTy {
    type V = ExprTyView;

    open spec fn view(&self) -> ExprTyView {
        expr_ty_view(*self)
    }
}

impl ExprTy {
    pub fn copy(&self) -> (r: ExprTy)
        ensures
            r@ == self@,
        decreases self,
    {
        match self {
            ExprTy::Int => ExprTy::Int,
            ExprTy::Float => ExprTy::Float,
            ExprTy::Bool => ExprTy::Bool,
            ExprTy::Byte => ExprTy::Byte,
            ExprTy::StringT => ExprTy::StringT,
            ExprTy::Null => ExprTy::Null,
            ExprTy::Void => ExprTy::Void,
            ExprTy::Object(fqcn) => ExprTy::Object(fqcn.clone()),
            ExprTy::Array(inner) => ExprTy::Array(Box::new(inner.copy())),
            ExprTy::Closure { params, return_ty, throws, fqcn } => ExprTy::Closure {
                params: copy_expr_tys(params),
                return_ty: Box::new(return_ty.copy()),
                throws: clone_strings(throws),
                fqcn: fqcn.clone(),
            },
        }
    }

    /// Whether two types are the same.
    pub fn same(&self, other: &ExprTy) -> (r: bool)
        ensures
            r == (self@ == other@),
        decreases self,
    {
        match (self, other) {
            (ExprTy::Int, ExprTy::Int) => true,
            (ExprTy::Float, ExprTy::Float) => true,
            (ExprTy::Bool, ExprTy::Bool) => true,
            (ExprTy::Byte, ExprTy::Byte) => true,
            (ExprTy::StringT, ExprTy::StringT) => true,
            (ExprTy::Null, ExprTy::Null) => true,
            (ExprTy::Void, ExprTy::Void) => true,
            (ExprTy::Object(a), ExprTy::Object(b)) => str_eq(a.as_str(), b.as_str()),
            (ExprTy::Array(a), ExprTy::Array(b)) => a.same(b),
            (
                ExprTy::Closure { params: p, return_ty: r, throws: t, fqcn: f },
                ExprTy::Closure { params: q, return_ty: s, throws: u, fqcn: g },
            ) => same_expr_tys(p, q) && r.same(s) && same_strings(t, u) && str_eq(
                f.as_str(),
                g.as_str(),
            ),
            _ => false,
        }
    }

    pub fn is_void(&self) -> (r: bool)
        ensures
            r == (self@ is Void),
    {
        matches!(self, ExprTy::Void)
    }
}

pub fn copy_expr_tys(v: &Vec<ExprTy>) -> (r: Vec<ExprTy>)
    ensures
        expr_ty_views(r@) == expr_ty_views(v@),
    decreases v,
{
    let mut out: Vec<ExprTy> = Vec::new();
    let mut i: usize = 0;
    while i < v.len()
        invariant
            i <= v@.len(),
            out@.len() == i,
            forall|j: int| 0 <= j < i ==> (#[trigger] out@[j])@ == v@[j]@,
        decreases v@.len() - i,
    {
        assert(decreases_to!(v => v@[i as int]));
        out.push(v[i].copy());
        i = i + 1;
    }
    assert(expr_ty_views(out@) =~= expr_ty_views(v@));
    out
}

fn same_expr_tys(a: &Vec<ExprTy>, b: &Vec<ExprTy>) -> (r: bool)
    ensures
        r == (expr_ty_views(a@) == expr_ty_views(b@)),
    decreases a,
{
    if a.len() != b.len() {
        assert(expr_ty_views(a@).len() != expr_ty_views(b@).len());
        return false;
    }
    let mut i: usize = 0;
    while i < a.len()
        invariant
            a@.len() == b@.len(),
            i <= a@.len(),
            forall|j: int| 0 <= j < i ==> (#[trigger] a@[j])@ == b@[j]@,
        decreases a@.len() - i,
    {
        assert(decreases_to!(a => a@[i as int]));
        if !a[i].same(&b[i]) {
            assert(expr_ty_views(a@)[i as int] != expr_ty_views(b@)[i as int]);
            return false;
        }
        i = i + 1;
    }
    assert(expr_ty_views(a@) =~= expr_ty_views(b@));
    true
}

/// Whether two closure types have the same parameters and result, whatever
/// their classes and exceptions; other types are compared as they are.
pub open spec fn same_shape(a: ExprTyView, b: ExprTyView) -> bool
    decreases a,
{
    match (a, b) {
        (
            ExprTyView::Closure { params: pa, return_ty: ra, .. },
            ExprTyView::Closure { params: pb, return_ty: rb, .. },
        ) => pa.len() == pb.len() && same_shapes(pa, pb, pa.len() as int) && same_shape(*ra, *rb),
        (ExprTyView::Array(ea), ExprTyView::Array(eb)) => same_shape(*ea, *eb),
        _ => a == b,
    }
}

/// Whether the first `n` types of two lists have the same shape.
pub open spec fn same_shapes(a: Seq<ExprTyView>, b: Seq<ExprTyView>, n: int) -> bool
    decreases a, n,
{
    n <= 0 || n > a.len() || (same_shapes(a, b, n - 1) && same_shape(a[n - 1], b[n - 1]))
}

pub fn closure_shape_eq(a: &ExprTy, b: &ExprTy) -> (r: bool)
    ensures
        r == same_shape(a@, b@),
    decreases a,
{
    match (a, b) {
        (
            ExprTy::Closure { params: pa, return_ty: ra, .. },
            ExprTy::Closure { params: pb, return_ty: rb, .. },
        ) => {
            let ghost x = expr_ty_views(pa@);
            let ghost y = expr_ty_views(pb@);
            assert(x.len() == pa@.len() && y.len() == pb@.len());
            pa.len() == pb.len() && closure_shapes_eq(pa, pb) && closure_shape_eq(ra, rb)
        },
        (ExprTy::Array(ea), ExprTy::Array(eb)) => closure_shape_eq(ea, eb),
        _ => a.same(b),
    }
}

fn closure_shapes_eq(a: &Vec<ExprTy>, b: &Vec<ExprTy>) -> (r: bool)
    requires
        a@.len() == b@.len(),
    ensures
        r == same_shapes(expr_ty_views(a@), expr_ty_views(b@), a@.len() as int),
    decreases a,
{
    let ghost x = expr_ty_views(a@);
    let ghost y = expr_ty_views(b@);
    let mut i: usize = 0;
    while i < a.len()
        invariant
            a@.len() == b@.len(),
            i <= a@.len(),
            x == expr_ty_views(a@),
            y == expr_ty_views(b@),
            same_shapes(x, y, i as int),
        decreases a@.len() - i,
    {
        assert(decreases_to!(a => a@[i as int]));
        if !closure_shape_eq(&a[i], &b[i]) {
            proof {
                unlike_shapes(x, y, i as int + 1, x.len() as int);
            }
            return false;
        }
        i = i + 1;
    }
    true
}

proof fn unlike_shapes(a: Seq<ExprTyView>, b: Seq<ExprTyView>, i: int, n: int)
    requires
        0 < i <= n <= a.len(),
        !same_shapes(a, b, i),
    ensures
        !same_shapes(a, b, n),
    decreases n - i,
{
    if i < n {
        unlike_shapes(a, b, i, n - 1);
    }
}

/// The first member of a union other than `null`.
pub open spec fn first_non_null(m: Seq<TypeView>, i: int) -> int
    decreases m.len() - i,
{
    if i < 0 || i >= m.len() {
        m.len() as int
    } else if m[i] is NullT {
        first_non_null(m, i + 1)
    } else {
        i
    }
}

/// The static type of a value of a resolved type. A template that was not
/// expanded counts as the class that is written that way.
pub open spec fn expr_ty(t: TypeView) -> ExprTyView
    decreases t,
{
    match t {
        TypeView::Int => ExprTyView::Int,
        TypeView::Float => ExprTyView::Float,
        TypeView::Bool => ExprTyView::Bool,
        TypeView::Byte => ExprTyView::Byte,
        TypeView::StringT => ExprTyView::StringT,
        TypeView::Void => ExprTyView::Void,
        TypeView::NullT => ExprTyView::Null,
        TypeView::Array(inner) => ExprTyView::Array(Box::new(expr_ty(*inner))),
        TypeView::Named(name) => ExprTyView::Object(name),
        TypeView::Union(members) => {
            let k = first_non_null(members, 0);
            if 0 <= k < members.len() {
                expr_ty(members[k])
            } else {
                ExprTyView::Null
            }
        },
        TypeView::Generic(name, args) => ExprTyView::Object(display_text(t)),
        TypeView::Function { params, return_type, throws } => ExprTyView::Closure {
            params: expr_tys(params),
            return_ty: Box::new(expr_ty(*return_type)),
            throws,
            fqcn: FUNCTION_TYPE_FQCN@,
        },
    }
}

pub open spec fn expr_tys(s: Seq<TypeView>) -> Seq<ExprTyView>
    decreases s,
{
    Seq::new(
        s.len(),
        |i: int|
            if 0 <= i < s.len() {
                expr_ty(s[i])
            } else {
                ExprTyView::Void
            },
    )
}

pub fn expr_ty_of(ty: &Type) -> (r: ExprTy)
    ensures
        r@ == expr_ty(ty@),
    decreases ty,
{
    match ty {
        Type::Int => ExprTy::Int,
        Type::Float => ExprTy::Float,
        Type::Bool => ExprTy::Bool,
        Type::Byte => ExprTy::Byte,
        Type::StringT => ExprTy::StringT,
        Type::Void => ExprTy::Void,
        Type::NullT => ExprTy::Null,
        Type::Array(inner) => ExprTy::Array(Box::new(expr_ty_of(inner))),
        Type::Named(name) => ExprTy::Object(name.clone()),
        Type::Union(members) => {
            let ghost m = type_views(members@);
            let mut i: usize = 0;
            while i < members.len()
                invariant
                    i <= members@.len(),
                    m == type_views(members@),
                    ty@ == TypeView::Union(m),
                    *ty == Type::Union(*members),
                    first_non_null(m, 0) == first_non_null(m, i as int),
                decreases members@.len() - i,
            {
                if !matches!(members[i], Type::NullT) {
                    assert(m[i as int] == members@[i as int]@);
                    assert(decreases_to!(ty => members));
                    assert(decreases_to!(members => members@[i as int]));
                    return expr_ty_of(&members[i]);
                }
                i = i + 1;
            }
            ExprTy::Null
        },
        Type::Generic(name, args) => ExprTy::Object(display(ty)),
        Type::Function { params, return_type, throws } => ExprTy::Closure {
            params: expr_tys_of(params),
            return_ty: Box::new(expr_ty_of(return_type)),
            throws: clone_strings(throws),
            fqcn: owned(FUNCTION_TYPE_FQCN),
        },
    }
}

pub fn expr_tys_of(v: &Vec<Type>) -> (r: Vec<ExprTy>)
    ensures
        expr_ty_views(r@) == expr_tys(type_views(v@)),
    decreases v,
{
    let mut out: Vec<ExprTy> = Vec::new();
    let mut i: usize = 0;
    while i < v.len()
        invariant
            i <= v@.len(),
            out@.len() == i,
            forall|j: int| 0 <= j < i ==> (#[trigger] out@[j])@ == expr_ty(v@[j]@),
        decreases v@.len() - i,
    {
        assert(decreases_to!(v => v@[i as int]));
        out.push(expr_ty_of(&v[i]));
        i = i + 1;
    }
    assert(expr_ty_views(out@) =~= expr_tys(type_views(v@)));
    out
}

/// A type with this static type, for descriptors. The literal of a closure
/// has no written type and is `void`.
pub open spec fn as_type(t: ExprTyView) -> TypeView
    decreases t,
{
    match t {
        ExprTyView::Int => TypeView::Int,
        ExprTyView::Float => TypeView::Float,
        ExprTyView::Bool => TypeView::Bool,
        ExprTyView::Byte => TypeView::Byte,
        ExprTyView::StringT => TypeView::StringT,
        ExprTyView::Null => TypeView::NullT,
        ExprTyView::Void => TypeView::Void,
        ExprTyView::Object(fqcn) => TypeView::Named(fqcn),
        ExprTyView::Array(inner) => TypeView::Array(Box::new(as_type(*inner))),
        ExprTyView::Closure { params, return_ty, throws, fqcn } => if fqcn == FUNCTION_TYPE_FQCN@ {
            TypeView::Function {
                params: as_types(params),
                return_type: Box::new(as_type(*return_ty)),
                throws,
            }
        } else {
            TypeView::Void
        },
    }
}

pub open spec fn as_types(s: Seq<ExprTyView>) -> Seq<TypeView>
    decreases s,
{
    Seq::new(
        s.len(),
        |i: int|
            if 0 <= i < s.len() {
                as_type(s[i])
            } else {
                TypeView::Void
            },
    )
}

pub fn expr_ty_to_type(ty: &ExprTy) -> (r: Type)
    ensures
        r@ == as_type(ty@),
    decreases ty,
{
    match ty {
        ExprTy::Int => Type::Int,
        ExprTy::Float => Type::Float,
        ExprTy::Bool => Type::Bool,
        ExprTy::Byte => Type::Byte,
        ExprTy::StringT => Type::StringT,
        ExprTy::Null => Type::NullT,
        ExprTy::Void => Type::Void,
        ExprTy::Object(fqcn) => Type::Named(fqcn.clone()),
        ExprTy::Array(inner) => Type::Array(Box::new(expr_ty_to_type(inner))),
        ExprTy::Closure { params, return_ty, throws, fqcn } => {
            if str_eq(fqcn.as_str(), FUNCTION_TYPE_FQCN) {
                Type::Function {
                    params: expr_tys_to_types(params),
                    return_type: Box::new(expr_ty_to_type(return_ty)),
                    throws: clone_strings(throws),
                }
            } else {
                Type::Void
            }
        },
    }
}

pub fn expr_tys_to_types(v: &Vec<ExprTy>) -> (r: Vec<Type>)
    ensures
        type_views(r@) == as_types(expr_ty_views(v@)),
    decreases v,
{
    let mut out: Vec<Type> = Vec::new();
    let mut i: usize = 0;
    while i < v.len()
        invariant
            i <= v@.len(),
            out@.len() == i,
            forall|j: int| 0 <= j < i ==> (#[trigger] out@[j])@ == as_type(v@[j]@),
        decreases v@.len() - i,
    {
        assert(decreases_to!(v => v@[i as int]));
        out.push(expr_ty_to_type(&v[i]));
        i = i + 1;
    }
    assert(type_views(out@) =~= as_types(expr_ty_views(v@)));
    out
}

/// A static type as messages show it. What a closure throws is not shown.
pub open spec fn shown(t: ExprTyView) -> Seq<char>
    decreases t,
{
    match t {
        ExprTyView::Int => "Int"@,
        ExprTyView::Float => "Float"@,
        ExprTyView::Bool => "Bool"@,
        ExprTyView::Byte => "Byte"@,
        ExprTyView::StringT => "StringT"@,
        ExprTyView::Null => "Null"@,
        ExprTyView::Void => "Void"@,
        ExprTyView::Object(fqcn) => "Object("@ + quoted_text(fqcn) + ")"@,
        ExprTyView::Array(inner) => "Array("@ + shown(*inner) + ")"@,
        ExprTyView::Closure { params, return_ty, fqcn, .. } => "Closure { params: ["@ + join_text(
            shown_all(params),
            ", "@,
        ) + "], return_ty: "@ + shown(*return_ty) + ", fqcn: "@ + quoted_text(fqcn) + " }"@,
    }
}

pub open spec fn shown_all(s: Seq<ExprTyView>) -> Seq<Seq<char>>
    decreases s,
{
    Seq::new(
        s.len(),
        |i: int|
            if 0 <= i < s.len() {
                shown(s[i])
            } else {
                Seq::empty()
            },
    )
}

pub fn show(ty: &ExprTy) -> (r: String)
    ensures
        r@ == shown(ty@),
    decreases ty,
{
    match ty {
        ExprTy::Int => owned("Int"),
        ExprTy::Float => owned("Float"),
        ExprTy::Bool => owned("Bool"),
        ExprTy::Byte => owned("Byte"),
        ExprTy::StringT => owned("StringT"),
        ExprTy::Null => owned("Null"),
        ExprTy::Void => owned("Void"),
        ExprTy::Object(fqcn) => cat3("Object(", quoted(fqcn.as_str()).as_str(), ")"),
        ExprTy::Array(inner) => cat3("Array(", show(inner).as_str(), ")"),
        ExprTy::Closure { params, return_ty, fqcn, .. } => cat7(
            "Closure { params: [",
            join(&show_all(params), ", ").as_str(),
            "], return_ty: ",
            show(return_ty).as_str(),
            ", fqcn: ",
            quoted(fqcn.as_str()).as_str(),
            " }",
        ),
    }
}

fn show_all(v: &Vec<ExprTy>) -> (r: Vec<String>)
    ensures
        texts(r@) == shown_all(expr_ty_views(v@)),
    decreases v,
{
    let mut out: Vec<String> = Vec::new();
    let mut i: usize = 0;
    while i < v.len()
        invariant
            i <= v@.len(),
            out@.len() == i,
            forall|j: int| 0 <= j < i ==> (#[trigger] out@[j])@ == shown(v@[j]@),
        decreases v@.len() - i,
    {
        assert(decreases_to!(v => v@[i as int]));
        out.push(show(&v[i]));
        i = i + 1;
    }
    assert(texts(out@) =~= shown_all(expr_ty_views(v@)));
    out
}

/// A name for a flat type, as used in the names of expanded templates.
pub open spec fn mangled(t: TypeView) -> Seq<char>
    decreases t,
{
    match t {
        TypeView::Int => "int"@,
        TypeView::Float => "float"@,
        TypeView::Bool => "bool"@,
        TypeView::Byte => "byte"@,
        TypeView::StringT => "string"@,
        TypeView::Named(name) => name,
        TypeView::Array(inner) => mangled(*inner) + "[]"@,
        _ => debug_text(t),
    }
}

pub fn mangle_flat_type(ty: &Type) -> (r: String)
    ensures
        r@ == mangled(ty@),
    decreases ty,
{
    match ty {
        Type::Int => owned("int"),
        Type::Float => owned("float"),
        Type::Bool => owned("bool"),
        Type::Byte => owned("byte"),
        Type::StringT => owned("string"),
        Type::Named(name) => name.clone(),
        Type::Array(inner) => cat2(mangle_flat_type(inner).as_str(), "[]"),
        other => debug(other),
    }
}

/// The class of the box by which a value of type `inner` is shared.
pub open spec fn box_name(inner: TypeView) -> Seq<char> {
    "Box<"@ + mangled(inner) + ">"@
}

pub fn box_fqcn(inner: &Type) -> (r: String)
    ensures
        r@ == box_name(inner@),
{
    cat3("Box<", mangle_flat_type(inner).as_str(), ">")
}

/// The types in which parameters are passed: a `ref` parameter as its box.
pub open spec fn passed_types(params: Seq<TypeView>, is_ref: Seq<bool>) -> Seq<TypeView> {
    Seq::new(
        if params.len() <= is_ref.len() {
            params.len()
        } else {
            is_ref.len()
        },
        |i: int|
            if is_ref[i] {
                TypeView::Named(box_name(params[i]))
            } else {
                params[i]
            },
    )
}

pub fn calling_convention_params(params: &Vec<Type>, is_ref: &Vec<bool>) -> (r: Vec<Type>)
    ensures
        type_views(r@) == passed_types(type_views(params@), is_ref@),
{
    let ghost ps = type_views(params@);
    let mut out: Vec<Type> = Vec::new();
    let mut i: usize = 0;
    while i < params.len() && i < is_ref.len()
        invariant
            i <= params@.len(),
            i <= is_ref@.len(),
            ps == type_views(params@),
            out@.len() == i,
            forall|j: int|
                0 <= j < i ==> (#[trigger] out@[j])@ == (if is_ref@[j] {
                    TypeView::Named(box_name(ps[j]))
                } else {
                    ps[j]
                }),
        decreases params@.len() - i,
    {
        if is_ref[i] {
            out.push(Type::Named(box_fqcn(&params[i])));
        } else {
            out.push(clone_type(&params[i]));
        }
        i = i + 1;
    }
    assert(type_views(out@) =~= passed_types(ps, is_ref@));
    out
}

} // verus!
