//! The syntax tree of a program after aliases and templates were expanded.

use crate::text::{clone_strings, str_eq, texts};
use vstd::prelude::*;

verus! {

/// A type as written or as resolved; `Named` holds a class name.
#[derive(Debug)]
pub enum Type {
    Int,
    Float,
    Bool,
    Byte,
    StringT,
    Void,
    NullT,
    Array(Box<Type>),
    Named(String),
    Union(Vec<Type>),
    Generic(String, Vec<Type>),
    Function { params: Vec<Type>, return_type: Box<Type>, throws: Vec<String> },
}

/// A type with its names as sequences of characters.
#[verifier::ext_equal]
pub enum TypeView {
    Int,
    Float,
    Bool,
    Byte,
    StringT,
    Void,
    NullT,
    Array(Box<TypeView>),
    Named(Seq<char>),
    Union(Seq<TypeView>),
    Generic(Seq<char>, Seq<TypeView>),
    Function { params: Seq<TypeView>, return_type: Box<TypeView>, throws: Seq<Seq<char>> },
}

pub open spec fn type_view(t: Type) -> TypeView
    decreases t,
{
    match t {
        Type::Int => TypeView::Int,
        Type::Float => TypeView::Float,
        Type::Bool => TypeView::Bool,
        Type::Byte => TypeView::Byte,
        Type::StringT => TypeView::StringT,
        Type::Void => TypeView::Void,
        Type::NullT => TypeView::NullT,
        Type::Array(inner) => TypeView::Array(Box::new(type_view(*inner))),
        Type::Named(name) => TypeView::Named(name@),
        Type::Union(members) => TypeView::Union(type_views(members@)),
        Type::Generic(name, args) => TypeView::Generic(name@, type_views(args@)),
        Type::Function { params, return_type, throws } => TypeView::Function {
            params: type_views(params@),
            return_type: Box::new(type_view(*return_type)),
            throws: texts(throws@),
        },
    }
}

pub open spec fn type_views(s: Seq<Type>) -> Seq<TypeView>
    decreases s,
{
    Seq::new(
        s.len(),
        |i: int|
            if 0 <= i < s.len() {
                type_view(s[i])
            } else {
                TypeView::Void
            },
    )
}

impl View for Type {
    type V = TypeView;

    open spec fn view(&self) -> TypeView {
        type_view(*self)
    }
}

/// A copy of a type.
pub fn clone_type(t: &Type) -> (r: Type)
    ensures
        r@ == t@,
    decreases t,
{
    match t {
        Type::Int => Type::Int,
        Type::Float => Type::Float,
        Type::Bool => Type::Bool,
        Type::Byte => Type::Byte,
        Type::StringT => Type::StringT,
        Type::Void => Type::Void,
        Type::NullT => Type::NullT,
        Type::Array(inner) => Type::Array(Box::new(clone_type(inner))),
        Type::Named(name) => Type::Named(name.clone()),
        Type::Union(members) => Type::Union(clone_types(members)),
        Type::Generic(name, args) => Type::Generic(name.clone(), clone_types(args)),
        Type::Function { params, return_type, throws } => Type::Function {
            params: clone_types(params),
            return_type: Box::new(clone_type(return_type)),
            throws: clone_strings(throws),
        },
    }
}

pub fn clone_types(v: &Vec<Type>) -> (r: Vec<Type>)
    ensures
        type_views(r@) == type_views(v@),
    decreases v,
{
    let mut out: Vec<Type> = Vec::new();
    let mut i: usize = 0;
    while i < v.len()
        invariant
            i <= v@.len(),
            out@.len() == i,
            forall|j: int| 0 <= j < i ==> (#[trigger] out@[j])@ == v@[j]@,
        decreases v@.len() - i,
    {
        assert(decreases_to!(v => v@[i as int]));
        out.push(clone_type(&v[i]));
        i = i + 1;
    }
    assert(type_views(out@) =~= type_views(v@));
    out
}

/// Whether two types are written the same.
pub fn same_type(a: &Type, b: &Type) -> (r: bool)
    ensures
        r == (a@ == b@),
    decreases a,
{
    match (a, b) {
        (Type::Int, Type::Int) => true,
        (Type::Float, Type::Float) => true,
        (Type::Bool, Type::Bool) => true,
        (Type::Byte, Type::Byte) => true,
        (Type::StringT, Type::StringT) => true,
        (Type::Void, Type::Void) => true,
        (Type::NullT, Type::NullT) => true,
        (Type::Array(x), Type::Array(y)) => same_type(x, y),
        (Type::Named(x), Type::Named(y)) => str_eq(x.as_str(), y.as_str()),
        (Type::Union(x), Type::Union(y)) => same_types(x, y),
        (Type::Generic(n, x), Type::Generic(m, y)) => str_eq(n.as_str(), m.as_str()) && same_types(
            x,
            y,
        ),
        (
            Type::Function { params: p, return_type: r, throws: t },
            Type::Function { params: q, return_type: s, throws: u },
        ) => same_types(p, q) && same_type(r, s) && same_strings(t, u),
        _ => false,
    }
}

pub fn same_types(a: &Vec<Type>, b: &Vec<Type>) -> (r: bool)
    ensures
        r == (type_views(a@) == type_views(b@)),
    decreases a,
{
    if a.len() != b.len() {
        assert(type_views(a@).len() != type_views(b@).len());
        return false;
    }
    let mut i: usize = 0;
    while i < a.len()
        invariant
            a@.len() == b@.len(),
            i <= a@.len(),
            forall|j: int| 0 <= j < i ==> (#[trigger] a@[j])@ == b@[j]@,
        decreases a@.len() - i,
    {
        assert(decreases_to!(a => a@[i as int]));
        if !same_type(&a[i], &b[i]) {
            assert(type_views(a@)[i as int] != type_views(b@)[i as int]);
            return false;
        }
        i = i + 1;
    }
    assert(type_views(a@) =~= type_views(b@));
    true
}

pub fn same_strings(a: &Vec<String>, b: &Vec<String>) -> (r: bool)
    ensures
        r == (texts(a@) == texts(b@)),
{
    if a.len() != b.len() {
        assert(texts(a@).len() != texts(b@).len());
        return false;
    }
    let mut i: usize = 0;
    while i < a.len()
        invariant
            a@.len() == b@.len(),
            i <= a@.len(),
            forall|j: int| 0 <= j < i ==> (#[trigger] a@[j])@ == b@[j]@,
        decreases a@.len() - i,
    {
        if !str_eq(a[i].as_str(), b[i].as_str()) {
            assert(texts(a@)[i as int] != texts(b@)[i as int]);
            return false;
        }
        i = i + 1;
    }
    assert(texts(a@) =~= texts(b@));
    true
}

/// `base` in `depth` array layers.
pub open spec fn layered(base: TypeView, depth: nat) -> TypeView
    decreases depth,
{
    if depth == 0 {
        base
    } else {
        TypeView::Array(Box::new(layered(base, (depth - 1) as nat)))
    }
}

pub fn plain_array_of(base: &Type, depth: usize) -> (r: Type)
    ensures
        r@ == layered(base@, depth as nat),
    decreases depth,
{
    if depth == 0 {
        clone_type(base)
    } else {
        Type::Array(Box::new(plain_array_of(base, depth - 1)))
    }
}

#[derive(Debug, Clone, Copy, PartialEq, Eq, Structural)]
pub enum UnOp {
    Neg,
    Not,
}

#[derive(Debug, Clone, Copy, PartialEq, Eq, Structural)]
pub enum BinOp {
    Add,
    Sub,
    Mul,
    Div,
    Mod,
    Eq,
    Ne,
    Lt,
    Gt,
    Le,
    Ge,
    Cmp3,
    And,
    Or,
}

#[derive(Debug, Clone, Copy, PartialEq, Eq, Structural)]
pub enum Visibility {
    Public,
    Protected,
    Private,
}

#[derive(Debug, Clone, Copy, PartialEq, Eq, Structural)]
pub enum MethodKind {
    Normal,
    Constructor,
    Destructor,
}

/// An argument of a call, given by position or by name.
#[derive(Debug)]
pub struct Arg {
    pub name: Option<String>,
    pub value: Expr,
    pub is_ref: bool,
}

#[derive(Debug)]
pub struct Param {
    pub name: String,
    pub ty: Type,
    pub default: Option<Expr>,
    pub is_ref: bool,
    pub is_const: bool,
}

/// What an assignment writes to.
#[derive(Debug)]
pub enum LValue {
    Local(String),
    Field(Box<Expr>, String),
    Index(Box<Expr>, Box<Expr>),
}

/// One arm of a `match`; the default arm has no pattern.
#[derive(Debug)]
pub struct MatchArm {
    pub pattern: Option<Expr>,
    pub value: Expr,
}

#[derive(Debug)]
pub enum ClosureBody {
    Block(Vec<Stmt>),
    Expr(Box<Expr>),
}

/// An expression. A float literal is held as its IEEE 754 bit pattern.
#[derive(Debug)]
pub enum Expr {
    IntLit(i64),
    FloatLit(u64),
    BoolLit(bool),
    StringLit(String),
    NullLit,
    This,
    Super,
    Ident(String),
    Assign(LValue, Box<Expr>),
    Call(String, Vec<Arg>),
    New(String, Vec<Type>, Vec<Arg>),
    /// Element type and sizes; an omitted size is `None`.
    NewArray(Type, Vec<Option<Expr>>),
    NewArrayInit(Type, Vec<Expr>),
    FieldAccess(Box<Expr>, String),
    MethodCall(Box<Expr>, String, Vec<Arg>),
    Index(Box<Expr>, Box<Expr>),
    InstanceOf(Box<Expr>, String),
    Cast(Type, Box<Expr>),
    PostIncr(String),
    PostDecr(String),
    Unary(UnOp, Box<Expr>),
    Binary(BinOp, Box<Expr>, Box<Expr>),
    Match(Box<Expr>, Vec<MatchArm>),
    Ternary(Box<Expr>, Box<Expr>, Box<Expr>),
    Coalesce(Box<Expr>, Box<Expr>),
    Elvis(Box<Expr>, Box<Expr>),
    Closure {
        params: Vec<Param>,
        return_type: Option<Type>,
        throws: Vec<String>,
        body: ClosureBody,
    },
}

#[derive(Debug)]
pub struct CatchClause {
    pub ty: String,
    pub var: String,
    pub body: Vec<Stmt>,
}

/// One case of a `switch`; the default case has no value.
#[derive(Debug)]
pub struct SwitchCase {
    pub value: Option<Expr>,
    pub body: Vec<Stmt>,
}

#[derive(Debug)]
pub enum StmtKind {
    Return(Option<Expr>),
    Expr(Expr),
    VarDecl { ty: Option<Type>, name: String, init: Option<Expr>, is_const: bool },
    If { cond: Expr, then_branch: Vec<Stmt>, else_branch: Option<Vec<Stmt>> },
    While { cond: Expr, body: Vec<Stmt> },
    For { init: Vec<Stmt>, cond: Option<Expr>, step: Vec<Expr>, body: Vec<Stmt> },
    ForEach { ty: Option<Type>, var: String, iterable: Expr, body: Vec<Stmt> },
    Break,
    Continue,
    Block(Vec<Stmt>),
    ThisCall(Vec<Arg>),
    SuperCall(Vec<Arg>),
    Throw(Expr),
    Try { body: Vec<Stmt>, catches: Vec<CatchClause>, finally: Option<Vec<Stmt>> },
    Switch { subject: Expr, cases: Vec<SwitchCase> },
}

/// A statement and its source line; line 0 is no source position.
#[derive(Debug)]
pub struct Stmt {
    pub kind: StmtKind,
    pub line: u32,
}

#[derive(Debug)]
pub struct FieldDecl {
    pub name: String,
    pub ty: Type,
    pub init: Option<Expr>,
    pub visibility: Visibility,
    pub visibility_explicit: bool,
    pub is_static: bool,
    pub readonly: bool,
}

#[derive(Debug)]
pub struct MethodDecl {
    pub name: String,
    pub kind: MethodKind,
    pub visibility: Visibility,
    pub visibility_explicit: bool,
    pub is_static: bool,
    pub is_const: bool,
    pub is_abstract: bool,
    pub is_final: bool,
    pub is_nodiscard: bool,
    pub return_type: Type,
    pub params: Vec<Param>,
    pub throws: Vec<String>,
    pub body: Vec<Stmt>,
    pub decl_line: u32,
}

/// A method of an interface.
#[derive(Debug)]
pub struct MethodSig {
    pub name: String,
    pub params: Vec<Param>,
    pub return_type: Type,
    pub is_const: bool,
}

/// A type parameter of a template and the class or interface it is bounded by.
#[derive(Debug)]
pub struct TypeParam {
    pub name: String,
    pub bound: Option<String>,
}

#[derive(Debug)]
pub struct ClassDecl {
    pub name: String,
    pub type_params: Vec<TypeParam>,
    pub extends: Option<String>,
    pub implements: Vec<String>,
    pub fields: Vec<FieldDecl>,
    pub methods: Vec<MethodDecl>,
    pub is_readonly: bool,
    pub is_abstract: bool,
    pub is_final: bool,
    pub is_enum: bool,
    /// Names of the cases of an enum, in declaration order.
    pub enum_cases: Vec<String>,
    pub decl_line: u32,
}

#[derive(Debug)]
pub struct InterfaceDecl {
    pub name: String,
    pub extends: Vec<String>,
    pub methods: Vec<MethodSig>,
    pub decl_line: u32,
}

#[derive(Debug)]
pub enum SourceItem {
    Class(ClassDecl),
    Interface(InterfaceDecl),
}

/// An import: the full name of a class, under an alias where one is given.
#[derive(Debug)]
pub struct UseDecl {
    pub path: String,
    pub alias: Option<String>,
}

#[derive(Debug)]
pub struct SourceFile {
    pub path: String,
    pub namespace: Vec<String>,
    pub uses: Vec<UseDecl>,
    pub item: SourceItem,
}

} // verus!
