//! The classes and interfaces of a program, by full name, and the lookups in
//! them that follow `extends` and `implements`.

use crate::ast::{
    same_type, same_types, type_views, ClassDecl, Expr, FieldDecl, InterfaceDecl, MethodDecl,
    MethodKind, MethodSig, Param, SourceFile, SourceItem, Type, TypeView, Visibility,
};
use crate::names::{bound_to, NameMap, NameSet};
use crate::resolve::{
    fqcn_of, full_name, import_map, imports_of, opt_string, resolve_name, resolve_names,
    resolve_type, resolved_name, resolved_names, resolved_type, Prelude,
};
use crate::sema::types::{assignable, is_assignable, is_nullable, nullable};
use crate::text::{append_strings, clone_strings, holds, owned, str_eq, texts};
use vstd::prelude::*;

verus! {

/// A field, with its type resolved.
#[derive(Debug)]
pub struct FieldInfo<'a> {
    pub name: String,
    pub ty: Type,
    /// The declared initializer, if any; the value of an enum's case.
    pub init: Option<&'a Expr>,
    pub visibility: Visibility,
    pub readonly: bool,
    pub is_static: bool,
}

pub struct FieldInfoView {
    pub name: Seq<char>,
    pub ty: TypeView,
    pub init: Option<Expr>,
    pub visibility: Visibility,
    pub readonly: bool,
    pub is_static: bool,
}

/// An optional expression, by value.
pub open spec fn opt_expr(o: Option<&Expr>) -> Option<Expr> {
    match o {
        Some(e) => Some(*e),
        None => None,
    }
}

pub open spec fn opt_exprs(v: Seq<Option<&Expr>>) -> Seq<Option<Expr>> {
    v.map_values(|o: Option<&Expr>| opt_expr(o))
}

impl<'a> View for FieldInfo<'a> {
    type V = FieldInfoView;

    open spec fn view(&self) -> FieldInfoView {
        FieldInfoView {
            name: self.name@,
            ty: self.ty@,
            init: opt_expr(self.init),
            visibility: self.visibility,
            readonly: self.readonly,
            is_static: self.is_static,
        }
    }
}

/// A method, with its types resolved.
#[derive(Debug)]
pub struct MethodInfo<'a> {
    pub name: String,
    pub params: Vec<Type>,
    /// Parallel to `params`, like the two lists after it.
    pub param_names: Vec<String>,
    pub defaults: Vec<Option<&'a Expr>>,
    pub is_ref: Vec<bool>,
    /// How many leading parameters have no default value.
    pub required_count: usize,
    pub return_ty: Type,
    pub is_static: bool,
    pub is_const: bool,
    pub visibility: Visibility,
    pub is_abstract: bool,
    pub is_final: bool,
    pub is_nodiscard: bool,
    pub throws: Vec<Type>,
}

pub struct MethodInfoView {
    pub name: Seq<char>,
    pub params: Seq<TypeView>,
    pub param_names: Seq<Seq<char>>,
    pub defaults: Seq<Option<Expr>>,
    pub is_ref: Seq<bool>,
    pub required_count: nat,
    pub return_ty: TypeView,
    pub is_static: bool,
    pub is_const: bool,
    pub visibility: Visibility,
    pub is_abstract: bool,
    pub is_final: bool,
    pub is_nodiscard: bool,
    pub throws: Seq<TypeView>,
}

impl<'a> View for MethodInfo<'a> {
    type V = MethodInfoView;

    open spec fn view(&self) -> MethodInfoView {
        MethodInfoView {
            name: self.name@,
            params: type_views(self.params@),
            param_names: texts(self.param_names@),
            defaults: opt_exprs(self.defaults@),
            is_ref: self.is_ref@,
            required_count: self.required_count as nat,
            return_ty: self.return_ty@,
            is_static: self.is_static,
            is_const: self.is_const,
            visibility: self.visibility,
            is_abstract: self.is_abstract,
            is_final: self.is_final,
            is_nodiscard: self.is_nodiscard,
            throws: type_views(self.throws@),
        }
    }
}

/// A constructor, with its types resolved.
#[derive(Debug)]
pub struct CtorInfo<'a> {
    pub params: Vec<Type>,
    /// Parallel to `params`, like the two lists after it.
    pub param_names: Vec<String>,
    pub defaults: Vec<Option<&'a Expr>>,
    pub is_ref: Vec<bool>,
    pub required_count: usize,
    pub throws: Vec<Type>,
    pub visibility: Visibility,
}

pub struct CtorInfoView {
    pub params: Seq<TypeView>,
    pub param_names: Seq<Seq<char>>,
    pub defaults: Seq<Option<Expr>>,
    pub is_ref: Seq<bool>,
    pub required_count: nat,
    pub throws: Seq<TypeView>,
    pub visibility: Visibility,
}

impl<'a> View for CtorInfo<'a> {
    type V = CtorInfoView;

    open spec fn view(&self) -> CtorInfoView {
        CtorInfoView {
            params: type_views(self.params@),
            param_names: texts(self.param_names@),
            defaults: opt_exprs(self.defaults@),
            is_ref: self.is_ref@,
            required_count: self.required_count as nat,
            throws: type_views(self.throws@),
            visibility: self.visibility,
        }
    }
}

#[derive(Debug)]
pub struct ClassInfo<'a> {
    /// Full name of the superclass.
    pub extends: Option<String>,
    /// Full names of the interfaces that a class implements, or of those that
    /// an interface extends.
    pub implements: Vec<String>,
    pub fields: Vec<FieldInfo<'a>>,
    pub methods: Vec<MethodInfo<'a>>,
    pub ctors: Vec<CtorInfo<'a>>,
    pub is_readonly: bool,
    pub is_abstract: bool,
    pub is_final: bool,
    pub is_enum: bool,
    /// Names of an enum's cases in declaration order.
    pub enum_cases: Vec<String>,
}

pub struct ClassInfoView {
    pub extends: Option<Seq<char>>,
    pub implements: Seq<Seq<char>>,
    pub fields: Seq<FieldInfoView>,
    pub methods: Seq<MethodInfoView>,
    pub ctors: Seq<CtorInfoView>,
    pub is_readonly: bool,
    pub is_abstract: bool,
    pub is_final: bool,
    pub is_enum: bool,
    pub enum_cases: Seq<Seq<char>>,
}

pub open spec fn field_infos(v: Seq<FieldInfo>) -> Seq<FieldInfoView> {
    v.map_values(|f: FieldInfo| f@)
}

pub open spec fn method_infos(v: Seq<MethodInfo>) -> Seq<MethodInfoView> {
    v.map_values(|m: MethodInfo| m@)
}

pub open spec fn ctor_infos(v: Seq<CtorInfo>) -> Seq<CtorInfoView> {
    v.map_values(|c: CtorInfo| c@)
}

impl<'a> View for ClassInfo<'a> {
    type V = ClassInfoView;

    open spec fn view(&self) -> ClassInfoView {
        ClassInfoView {
            extends: opt_string(self.extends),
            implements: texts(self.implements@),
            fields: field_infos(self.fields@),
            methods: method_infos(self.methods@),
            ctors: ctor_infos(self.ctors@),
            is_readonly: self.is_readonly,
            is_abstract: self.is_abstract,
            is_final: self.is_final,
            is_enum: self.is_enum,
            enum_cases: texts(self.enum_cases@),
        }
    }
}

pub type ClassTable<'a> = NameMap<ClassInfo<'a>>;

pub type Classes = Seq<(Seq<char>, ClassInfoView)>;

/// The number of leading parameters, from the `i`-th on, without a default.
pub open spec fn leading_required(params: Seq<Param>, i: int) -> nat
    decreases params.len() - i,
{
    if i < 0 || i >= params.len() || params[i].default is Some {
        0
    } else {
        1 + leading_required(params, i + 1)
    }
}

pub fn required_count(params: &Vec<Param>) -> (r: usize)
    ensures
        r == leading_required(params@, 0),
{
    let mut i: usize = 0;
    while i < params.len() && params[i].default.is_none()
        invariant
            i <= params@.len(),
            leading_required(params@, 0) == i + leading_required(params@, i as int),
        decreases params@.len() - i,
    {
        i = i + 1;
    }
    i
}

/// Whether `argc` arguments can bind `required` of `total` parameters.
pub open spec fn arity_fits(required: nat, total: nat, argc: nat) -> bool {
    required <= argc <= total
}

pub fn arity_in_range(required: usize, total: usize, argc: usize) -> (r: bool)
    ensures
        r == arity_fits(required as nat, total as nat, argc as nat),
{
    required <= argc && argc <= total
}

/// The superclass of `c`, if `c` is known and has one.
pub open spec fn parent_of(t: Classes, c: Seq<char>) -> Option<Seq<char>> {
    match bound_to(t, c) {
        Some(info) => info.extends,
        None => None,
    }
}

/// Whether `sup` is among `c` and its first `n` ancestors.
pub open spec fn among_ancestors(t: Classes, c: Seq<char>, sup: Seq<char>, n: nat) -> bool
    decreases n,
{
    c == sup || (n > 0 && match parent_of(t, c) {
        Some(p) => among_ancestors(t, p, sup, (n - 1) as nat),
        None => false,
    })
}

/// Whether `sub` is `sup` or extends it. A chain of distinct classes is no
/// longer than the table.
pub open spec fn subclass(t: Classes, sub: Seq<char>, sup: Seq<char>) -> bool {
    among_ancestors(t, sub, sup, t.len())
}

pub fn is_subclass_or_same(classes: &ClassTable, sub: &str, sup: &str) -> (r: bool)
    ensures
        r == subclass(classes@, sub@, sup@),
{
    let mut current: String = owned(sub);
    let mut n: usize = classes.len();
    loop
        invariant
            subclass(classes@, sub@, sup@) == among_ancestors(
                classes@,
                current@,
                sup@,
                n as nat,
            ),
        decreases n,
    {
        if str_eq(current.as_str(), sup) {
            return true;
        }
        if n == 0 {
            return false;
        }
        let parent = match classes.get(current.as_str()) {
            Some(info) => match &info.extends {
                Some(p) => p.clone(),
                None => return false,
            },
            None => return false,
        };
        current = parent;
        n = n - 1;
    }
}

/// How many entries of the table bear a name outside `seen`.
pub open spec fn unseen(t: Classes, seen: Set<Seq<char>>) -> nat
    decreases t.len(),
{
    if t.len() == 0 {
        0
    } else {
        unseen(t.drop_last(), seen) + if seen.contains(t.last().0) {
            0nat
        } else {
            1nat
        }
    }
}

/// Seeing another name of the table leaves fewer unseen.
pub proof fn unseen_shrinks(t: Classes, seen: Set<Seq<char>>, x: Seq<char>)
    ensures
        unseen(t, seen.insert(x)) <= unseen(t, seen),
        bound_to(t, x) is Some && !seen.contains(x) ==> unseen(t, seen.insert(x)) < unseen(t, seen),
    decreases t.len(),
{
    if t.len() > 0 {
        unseen_shrinks(t.drop_last(), seen, x);
    }
}

/// The interfaces reached from a stack of them: each is taken from the end,
/// noted once, and replaced by those that it extends.
pub open spec fn closure_from(
    t: Classes,
    stack: Seq<Seq<char>>,
    seen: Set<Seq<char>>,
    out: Seq<Seq<char>>,
) -> Seq<Seq<char>>
    decreases unseen(t, seen), stack.len(),
{
    if stack.len() == 0 {
        out
    } else {
        let x = stack.last();
        let rest = stack.drop_last();
        if seen.contains(x) {
            closure_from(t, rest, seen, out)
        } else {
            proof {
                unseen_shrinks(t, seen, x);
            }
            match bound_to(t, x) {
                Some(info) => closure_from(
                    t,
                    rest + info.implements,
                    seen.insert(x),
                    out.push(x),
                ),
                None => closure_from(t, rest, seen.insert(x), out.push(x)),
            }
        }
    }
}

/// The given interfaces and all that they extend, each once.
pub open spec fn interfaces_from(t: Classes, direct: Seq<Seq<char>>) -> Seq<Seq<char>> {
    closure_from(t, direct, Set::empty(), Seq::empty())
}

pub fn interface_closure(classes: &ClassTable, direct: &Vec<String>) -> (r: Vec<String>)
    ensures
        texts(r@) == interfaces_from(classes@, texts(direct@)),
{
    let mut seen = NameSet::new();
    let mut stack: Vec<String> = clone_strings(direct);
    let mut out: Vec<String> = Vec::new();
    assert(texts(out@) =~= Seq::<Seq<char>>::empty());
    while stack.len() > 0
        invariant
            interfaces_from(classes@, texts(direct@)) == closure_from(
                classes@,
                texts(stack@),
                seen@,
                texts(out@),
            ),
        decreases unseen(classes@, seen@), stack@.len(),
    {
        let ghost s = texts(stack@);
        let ghost o = texts(out@);
        let x: String = stack.pop().unwrap();
        assert(texts(stack@) =~= s.drop_last());
        assert(s.last() == x@);
        if !seen.contains(x.as_str()) {
            proof {
                unseen_shrinks(classes@, seen@, x@);
            }
            if let Some(info) = classes.get(x.as_str()) {
                append_strings(&mut stack, &info.implements);
            }
            seen.insert(x.clone());
            out.push(x);
            assert(texts(out@) =~= o.push(x@));
        }
    }
    assert(texts(stack@) =~= Seq::<Seq<char>>::empty());
    out
}

/// Whether `c` or one of its first `n - 1` ancestors implements `target`,
/// itself or through an interface that extends it.
pub open spec fn implements_within(t: Classes, c: Seq<char>, target: Seq<char>, n: nat) -> bool
    decreases n,
{
    n > 0 && match bound_to(t, c) {
        Some(info) => interfaces_from(t, info.implements).contains(target) || match info.extends {
            Some(p) => implements_within(t, p, target, (n - 1) as nat),
            None => false,
        },
        None => false,
    }
}

pub open spec fn implementing(t: Classes, c: Seq<char>, target: Seq<char>) -> bool {
    implements_within(t, c, target, t.len())
}

pub fn implements_interface(classes: &ClassTable, fqcn: &str, target: &str) -> (r: bool)
    ensures
        r == implementing(classes@, fqcn@, target@),
{
    let mut current: String = owned(fqcn);
    let mut n: usize = classes.len();
    while n > 0
        invariant
            implementing(classes@, fqcn@, target@) == implements_within(
                classes@,
                current@,
                target@,
                n as nat,
            ),
        decreases n,
    {
        let info = match classes.get(current.as_str()) {
            Some(info) => info,
            None => return false,
        };
        if holds(&interface_closure(classes, &info.implements), target) {
            return true;
        }
        current = match &info.extends {
            Some(p) => p.clone(),
            None => return false,
        };
        n = n - 1;
    }
    false
}

/// Whether `concrete` may stand for a type parameter bounded by `bound`.
pub open spec fn bound_met(t: Classes, concrete: Seq<char>, bound: Seq<char>) -> bool {
    subclass(t, concrete, bound) || implementing(t, concrete, bound)
}

pub fn satisfies_bound(classes: &ClassTable, concrete_fqcn: &str, bound_fqcn: &str) -> (r: bool)
    ensures
        r == bound_met(classes@, concrete_fqcn@, bound_fqcn@),
{
    is_subclass_or_same(classes, concrete_fqcn, bound_fqcn) || implements_interface(
        classes,
        concrete_fqcn,
        bound_fqcn,
    )
}

/// Whether code of class `accessor` may use a member declared by `declaring`.
pub open spec fn accessible(
    t: Classes,
    visibility: Visibility,
    declaring: Seq<char>,
    accessor: Seq<char>,
) -> bool {
    match visibility {
        Visibility::Public => true,
        Visibility::Private => accessor == declaring,
        Visibility::Protected => subclass(t, accessor, declaring),
    }
}

pub fn is_accessible(
    classes: &ClassTable,
    visibility: Visibility,
    declaring_fqcn: &str,
    accessor_fqcn: &str,
) -> (r: bool)
    ensures
        r == accessible(classes@, visibility, declaring_fqcn@, accessor_fqcn@),
{
    match visibility {
        Visibility::Public => true,
        Visibility::Private => str_eq(accessor_fqcn, declaring_fqcn),
        Visibility::Protected => is_subclass_or_same(classes, accessor_fqcn, declaring_fqcn),
    }
}

/// Which methods of a class a lookup is after.
pub enum Wanted {
    /// Those of this name that take this many arguments.
    Call { name: Seq<char>, argc: nat },
    /// Those of this name and exactly these parameters.
    Exact { name: Seq<char>, params: Seq<TypeView> },
    /// Likewise, and not static.
    Operator { name: Seq<char>, params: Seq<TypeView> },
}

pub open spec fn wants(w: Wanted, m: MethodInfoView) -> bool {
    match w {
        Wanted::Call { name, argc } => m.name == name && arity_fits(
            m.required_count,
            m.params.len(),
            argc,
        ),
        Wanted::Exact { name, params } => m.name == name && m.params == params,
        Wanted::Operator { name, params } => m.name == name && !m.is_static && m.params == params,
    }
}

/// The first position from `i` on of a method that is wanted, or the length.
pub open spec fn wanted_at(ms: Seq<MethodInfoView>, w: Wanted, i: int) -> int
    decreases ms.len() - i,
{
    if i >= ms.len() {
        ms.len() as int
    } else if wants(w, ms[i]) {
        i
    } else {
        wanted_at(ms, w, i + 1)
    }
}

/// The nearest of `c` and its first `n - 1` ancestors that declares a wanted
/// method, and the first such method in it.
pub open spec fn method_within(t: Classes, c: Seq<char>, w: Wanted, n: nat) -> Option<
    (Seq<char>, MethodInfoView),
>
    decreases n,
{
    if n == 0 {
        None
    } else {
        match bound_to(t, c) {
            Some(info) => {
                let k = wanted_at(info.methods, w, 0);
                if k < info.methods.len() {
                    Some((c, info.methods[k]))
                } else {
                    match info.extends {
                        Some(p) => method_within(t, p, w, (n - 1) as nat),
                        None => None,
                    }
                }
            },
            None => None,
        }
    }
}

pub open spec fn method_found(t: Classes, c: Seq<char>, w: Wanted) -> Option<
    (Seq<char>, MethodInfoView),
> {
    method_within(t, c, w, t.len())
}

/// The method that a call with `argc` arguments is bound to.
pub open spec fn called_method(t: Classes, c: Seq<char>, name: Seq<char>, argc: nat) -> Option<
    (Seq<char>, MethodInfoView),
> {
    method_found(t, c, Wanted::Call { name, argc })
}

pub open spec fn owned_method(o: Option<(String, &MethodInfo)>) -> Option<
    (Seq<char>, MethodInfoView),
> {
    match o {
        Some((c, m)) => Some((c@, m@)),
        None => None,
    }
}

pub open spec fn just_method(o: Option<(Seq<char>, MethodInfoView)>) -> Option<MethodInfoView> {
    match o {
        Some((_, m)) => Some(m),
        None => None,
    }
}

pub open spec fn opt_method(o: Option<&MethodInfo>) -> Option<MethodInfoView> {
    match o {
        Some(m) => Some(m@),
        None => None,
    }
}

/// The method that a call is bound to, and the class that declares it.
pub fn find_method_owner<'c, 'a>(
    classes: &'c ClassTable<'a>,
    fqcn: &str,
    name: &str,
    argc: usize,
) -> (r: Option<(String, &'c MethodInfo<'a>)>)
    ensures
        owned_method(r) == called_method(classes@, fqcn@, name@, argc as nat),
{
    let ghost w = Wanted::Call { name: name@, argc: argc as nat };
    let mut current: String = owned(fqcn);
    let mut n: usize = classes.len();
    while n > 0
        invariant
            w == (Wanted::Call { name: name@, argc: argc as nat }),
            called_method(classes@, fqcn@, name@, argc as nat) == method_within(
                classes@,
                current@,
                w,
                n as nat,
            ),
        decreases n,
    {
        let info: &'c ClassInfo<'a> = match classes.get(current.as_str()) {
            Some(info) => info,
            None => return None,
        };
        let ghost ms = method_infos(info.methods@);
        let mut i: usize = 0;
        while i < info.methods.len()
            invariant
                i <= info.methods@.len(),
                ms == method_infos(info.methods@),
                w == (Wanted::Call { name: name@, argc: argc as nat }),
                wanted_at(ms, w, 0) == wanted_at(ms, w, i as int),
                called_method(classes@, fqcn@, name@, argc as nat) == method_within(
                    classes@,
                    current@,
                    w,
                    n as nat,
                ),
                n > 0,
                bound_to(classes@, current@) == Some(info@),
            decreases info.methods@.len() - i,
        {
            let m: &'c MethodInfo<'a> = &info.methods[i];
            assert(ms[i as int] == m@);
            if str_eq(m.name.as_str(), name) && arity_in_range(
                m.required_count,
                m.params.len(),
                argc,
            ) {
                return Some((current, m));
            }
            i = i + 1;
        }
        current = match &info.extends {
            Some(p) => p.clone(),
            None => return None,
        };
        n = n - 1;
    }
    None
}

pub fn find_method<'c, 'a>(
    classes: &'c ClassTable<'a>,
    fqcn: &str,
    name: &str,
    argc: usize,
) -> (r: Option<&'c MethodInfo<'a>>)
    ensures
        opt_method(r) == just_method(called_method(classes@, fqcn@, name@, argc as nat)),
{
    match find_method_owner(classes, fqcn, name, argc) {
        Some((_, m)) => Some(m),
        None => None,
    }
}

/// The method with exactly these parameters that `fqcn` has or inherits.
pub fn find_method_exact<'c, 'a>(
    classes: &'c ClassTable<'a>,
    fqcn: &str,
    name: &str,
    params: &Vec<Type>,
) -> (r: Option<&'c MethodInfo<'a>>)
    ensures
        opt_method(r) == just_method(
            method_found(
                classes@,
                fqcn@,
                Wanted::Exact { name: name@, params: type_views(params@) },
            ),
        ),
{
    match find_declared(classes, fqcn, name, params, false) {
        Some((_, m)) => Some(m),
        None => None,
    }
}

/// The operator overload for exactly these operand types, and its class.
pub fn find_operator_method<'c, 'a>(
    classes: &'c ClassTable<'a>,
    fqcn: &str,
    name: &str,
    params: &Vec<Type>,
) -> (r: Option<(String, &'c MethodInfo<'a>)>)
    ensures
        owned_method(r) == method_found(
            classes@,
            fqcn@,
            Wanted::Operator { name: name@, params: type_views(params@) },
        ),
{
    find_declared(classes, fqcn, name, params, true)
}

spec fn declared_wanted(name: Seq<char>, params: Seq<TypeView>, operator: bool) -> Wanted {
    if operator {
        Wanted::Operator { name, params }
    } else {
        Wanted::Exact { name, params }
    }
}

fn find_declared<'c, 'a>(
    classes: &'c ClassTable<'a>,
    fqcn: &str,
    name: &str,
    params: &Vec<Type>,
    operator: bool,
) -> (r: Option<(String, &'c MethodInfo<'a>)>)
    ensures
        owned_method(r) == method_found(
            classes@,
            fqcn@,
            declared_wanted(name@, type_views(params@), operator),
        ),
{
    let ghost w = declared_wanted(name@, type_views(params@), operator);
    let mut current: String = owned(fqcn);
    let mut n: usize = classes.len();
    while n > 0
        invariant
            w == declared_wanted(name@, type_views(params@), operator),
            method_found(classes@, fqcn@, w) == method_within(classes@, current@, w, n as nat),
        decreases n,
    {
        let info: &'c ClassInfo<'a> = match classes.get(current.as_str()) {
            Some(info) => info,
            None => return None,
        };
        let ghost ms = method_infos(info.methods@);
        let mut i: usize = 0;
        while i < info.methods.len()
            invariant
                i <= info.methods@.len(),
                ms == method_infos(info.methods@),
                w == declared_wanted(name@, type_views(params@), operator),
                wanted_at(ms, w, 0) == wanted_at(ms, w, i as int),
                method_found(classes@, fqcn@, w) == method_within(
                    classes@,
                    current@,
                    w,
                    n as nat,
                ),
                n > 0,
                bound_to(classes@, current@) == Some(info@),
            decreases info.methods@.len() - i,
        {
            let m: &'c MethodInfo<'a> = &info.methods[i];
            assert(ms[i as int] == m@);
            if str_eq(m.name.as_str(), name) && !(operator && m.is_static) && same_types(
                &m.params,
                params,
            ) {
                return Some((current, m));
            }
            i = i + 1;
        }
        current = match &info.extends {
            Some(p) => p.clone(),
            None => return None,
        };
        n = n - 1;
    }
    None
}

/// The first position from `i` on of a field called `name`, or the length.
pub open spec fn field_at(fs: Seq<FieldInfoView>, name: Seq<char>, i: int) -> int
    decreases fs.len() - i,
{
    if i >= fs.len() {
        fs.len() as int
    } else if fs[i].name == name {
        i
    } else {
        field_at(fs, name, i + 1)
    }
}

/// The nearest of `c` and its first `n - 1` ancestors that declares the
/// field, and the field.
pub open spec fn field_within(t: Classes, c: Seq<char>, name: Seq<char>, n: nat) -> Option<
    (Seq<char>, FieldInfoView),
>
    decreases n,
{
    if n == 0 {
        None
    } else {
        match bound_to(t, c) {
            Some(info) => {
                let k = field_at(info.fields, name, 0);
                if k < info.fields.len() {
                    Some((c, info.fields[k]))
                } else {
                    match info.extends {
                        Some(p) => field_within(t, p, name, (n - 1) as nat),
                        None => None,
                    }
                }
            },
            None => None,
        }
    }
}

pub open spec fn field_found(t: Classes, c: Seq<char>, name: Seq<char>) -> Option<
    (Seq<char>, FieldInfoView),
> {
    field_within(t, c, name, t.len())
}

pub open spec fn owned_field(o: Option<(String, &FieldInfo)>) -> Option<
    (Seq<char>, FieldInfoView),
> {
    match o {
        Some((c, f)) => Some((c@, f@)),
        None => None,
    }
}

/// The field that `name` means in `fqcn`, and the class that declares it.
pub fn find_field_owner<'c, 'a>(
    classes: &'c ClassTable<'a>,
    fqcn: &str,
    name: &str,
) -> (r: Option<(String, &'c FieldInfo<'a>)>)
    ensures
        owned_field(r) == field_found(classes@, fqcn@, name@),
{
    let mut current: String = owned(fqcn);
    let mut n: usize = classes.len();
    while n > 0
        invariant
            field_found(classes@, fqcn@, name@) == field_within(
                classes@,
                current@,
                name@,
                n as nat,
            ),
        decreases n,
    {
        let info: &'c ClassInfo<'a> = match classes.get(current.as_str()) {
            Some(info) => info,
            None => return None,
        };
        let ghost fs = field_infos(info.fields@);
        let mut i: usize = 0;
        while i < info.fields.len()
            invariant
                i <= info.fields@.len(),
                fs == field_infos(info.fields@),
                field_at(fs, name@, 0) == field_at(fs, name@, i as int),
                field_found(classes@, fqcn@, name@) == field_within(
                    classes@,
                    current@,
                    name@,
                    n as nat,
                ),
                n > 0,
                bound_to(classes@, current@) == Some(info@),
            decreases info.fields@.len() - i,
        {
            let f: &'c FieldInfo<'a> = &info.fields[i];
            assert(fs[i as int] == f@);
            if str_eq(f.name.as_str(), name) {
                return Some((current, f));
            }
            i = i + 1;
        }
        current = match &info.extends {
            Some(p) => p.clone(),
            None => return None,
        };
        n = n - 1;
    }
    None
}

pub fn find_field<'c, 'a>(classes: &'c ClassTable<'a>, fqcn: &str, name: &str) -> (r: Option<
    &'c FieldInfo<'a>,
>)
    ensures
        match r {
            Some(f) => field_found(classes@, fqcn@, name@) matches Some((_, g)) && f@ == g,
            None => field_found(classes@, fqcn@, name@) is None,
        },
{
    match find_field_owner(classes, fqcn, name) {
        Some((_, f)) => Some(f),
        None => None,
    }
}

pub open spec fn opt_ctor(o: Option<&CtorInfo>) -> Option<CtorInfoView> {
    match o {
        Some(c) => Some(c@),
        None => None,
    }
}

/// How well an argument matches a parameter: 0 for the same type or one that
/// is not known, 1 for one that is compatible, nothing for another.
pub open spec fn param_score(t: Classes, arg: Option<TypeView>, param: TypeView) -> Option<nat> {
    match arg {
        None => Some(0),
        Some(a) => if a == param || a is Void {
            Some(0)
        } else if a is NullT {
            if nullable(param) {
                Some(1)
            } else {
                None
            }
        } else {
            match (a, param) {
                (TypeView::Named(from), TypeView::Named(to)) => if subclass(t, from, to)
                    || implementing(t, from, to) {
                    Some(1)
                } else {
                    None
                },
                _ => if assignable(a, param) {
                    Some(1)
                } else {
                    None
                },
            }
        },
    }
}

pub(crate) fn overload_param_score(classes: &ClassTable, arg: Option<&Type>, param: &Type) -> (r:
    Option<usize>)
    ensures
        match r {
            Some(n) => param_score(
                classes@,
                (match arg {
                    Some(a) => Some(a@),
                    None => None,
                }),
                param@,
            ) == Some(n as nat) && n <= 1,
            None => param_score(
                classes@,
                (match arg {
                    Some(a) => Some(a@),
                    None => None,
                }),
                param@,
            ) is None,
        },
{
    let arg = match arg {
        Some(a) => a,
        None => return Some(0),
    };
    if same_type(arg, param) {
        return Some(0);
    }
    if matches!(arg, Type::Void) {
        return Some(0);
    }
    if matches!(arg, Type::NullT) {
        return if is_nullable(param) {
            Some(1)
        } else {
            None
        };
    }
    if let (Type::Named(from), Type::Named(to)) = (arg, param) {
        return if is_subclass_or_same(classes, from.as_str(), to.as_str()) || implements_interface(
            classes,
            from.as_str(),
            to.as_str(),
        ) {
            Some(1)
        } else {
            None
        };
    }
    if is_assignable(arg, param) {
        Some(1)
    } else {
        None
    }
}

/// The type of the `i`-th argument, where there is one and it is known.
pub open spec fn arg_type(args: Seq<Option<TypeView>>, i: int) -> Option<TypeView> {
    if 0 <= i < args.len() {
        args[i]
    } else {
        None
    }
}

pub open spec fn opt_types(v: Seq<Option<Type>>) -> Seq<Option<TypeView>> {
    v.map_values(
        |o: Option<Type>|
            match o {
                Some(t) => Some(t@),
                None => None,
            },
    )
}

/// The sum of the scores of the first `n` parameters, if all are compatible.
pub open spec fn total_score(
    t: Classes,
    params: Seq<TypeView>,
    args: Seq<Option<TypeView>>,
    n: int,
) -> Option<nat>
    decreases n,
{
    if n <= 0 {
        Some(0)
    } else {
        match (total_score(t, params, args, n - 1), param_score(
            t,
            arg_type(args, n - 1),
            params[n - 1],
        )) {
            (Some(a), Some(b)) => Some(a + b),
            _ => None,
        }
    }
}

/// The score of an overload, if all its parameters are compatible.
pub open spec fn overload_score(
    t: Classes,
    params: Seq<TypeView>,
    args: Seq<Option<TypeView>>,
) -> Option<nat> {
    total_score(t, params, args, params.len() as int)
}

proof fn total_score_none(
    t: Classes,
    params: Seq<TypeView>,
    args: Seq<Option<TypeView>>,
    i: int,
    n: int,
)
    requires
        0 <= i <= n,
        total_score(t, params, args, i) is None,
    ensures
        total_score(t, params, args, n) is None,
    decreases n - i,
{
    if i < n {
        total_score_none(t, params, args, i, n - 1);
    }
}

fn score_overload(classes: &ClassTable, params: &Vec<Type>, arg_tys: &Vec<Option<Type>>) -> (r:
    Option<usize>)
    ensures
        match r {
            Some(n) => overload_score(classes@, type_views(params@), opt_types(arg_tys@)) == Some(
                n as nat,
            ),
            None => overload_score(classes@, type_views(params@), opt_types(arg_tys@)) is None,
        },
{
    let ghost ps = type_views(params@);
    let ghost args = opt_types(arg_tys@);
    let mut total: usize = 0;
    let mut i: usize = 0;
    while i < params.len()
        invariant
            i <= params@.len(),
            ps == type_views(params@),
            args == opt_types(arg_tys@),
            total <= i,
            total_score(classes@, ps, args, i as int) == Some(total as nat),
        decreases params@.len() - i,
    {
        let arg: Option<&Type> = if i < arg_tys.len() {
            arg_tys[i].as_ref()
        } else {
            None
        };
        match overload_param_score(classes, arg, &params[i]) {
            Some(score) => {
                total = total + score;
            },
            None => {
                proof {
                    total_score_none(classes@, ps, args, i as int + 1, ps.len() as int);
                }
                return None;
            },
        }
        i = i + 1;
    }
    Some(total)
}

/// Whether the `k`-th candidate is compatible and no other is better, nor an
/// earlier one as good.
pub open spec fn is_best(
    t: Classes,
    candidates: Seq<Seq<TypeView>>,
    args: Seq<Option<TypeView>>,
    k: int,
) -> bool {
    &&& 0 <= k < candidates.len()
    &&& overload_score(t, candidates[k], args) is Some
    &&& forall|j: int|
        #![trigger candidates[j]]
        0 <= j < candidates.len() && overload_score(t, candidates[j], args) is Some ==> {
            let (a, b) = (
                overload_score(t, candidates[k], args)->0,
                overload_score(t, candidates[j], args)->0,
            );
            a <= b && (j < k ==> a < b)
        }
}

/// Whether the `k`-th of several overloads is the one that a call means: the
/// only one, the best match, or the first where none matches.
pub open spec fn chosen(
    t: Classes,
    candidates: Seq<Seq<TypeView>>,
    args: Seq<Option<TypeView>>,
    k: int,
) -> bool {
    &&& 0 <= k < candidates.len()
    &&& if candidates.len() > 1 && exists|j: int|
        #![trigger candidates[j]]
        0 <= j < candidates.len() && overload_score(t, candidates[j], args) is Some {
        is_best(t, candidates, args, k)
    } else {
        k == 0
    }
}

/// At most one overload is the one that a call means.
pub proof fn chosen_unique(
    t: Classes,
    candidates: Seq<Seq<TypeView>>,
    args: Seq<Option<TypeView>>,
    j: int,
    k: int,
)
    requires
        chosen(t, candidates, args, j),
        chosen(t, candidates, args, k),
    ensures
        j == k,
{
    assert(candidates[j] == candidates[j] && candidates[k] == candidates[k]);
}

/// The overload that a call means.
pub open spec fn choice(
    t: Classes,
    candidates: Seq<Seq<TypeView>>,
    args: Seq<Option<TypeView>>,
) -> int {
    choose|k: int| chosen(t, candidates, args, k)
}

pub open spec fn param_lists(v: Seq<&Vec<Type>>) -> Seq<Seq<TypeView>> {
    v.map_values(|p: &Vec<Type>| type_views(p@))
}

pub fn best_overload(
    classes: &ClassTable,
    candidates: &Vec<&Vec<Type>>,
    arg_tys: &Vec<Option<Type>>,
) -> (r: Option<usize>)
    ensures
        match r {
            Some(k) => chosen(classes@, param_lists(candidates@), opt_types(arg_tys@), k as int)
                && k == choice(classes@, param_lists(candidates@), opt_types(arg_tys@)),
            None => candidates@.len() == 0,
        },
{
    if candidates.len() == 0 {
        return None;
    }
    let k: usize = best_of(classes, candidates, arg_tys);
    proof {
        let (cs, args) = (param_lists(candidates@), opt_types(arg_tys@));
        chosen_unique(classes@, cs, args, k as int, choice(classes@, cs, args));
    }
    Some(k)
}

/// The positions, below `n`, of the overloads that take `argc` arguments, by
/// their parameters and how many of these must be given.
pub open spec fn taking(
    params: Seq<Seq<TypeView>>,
    required: Seq<nat>,
    argc: nat,
    n: int,
) -> Seq<int>
    decreases n,
{
    if n <= 0 {
        Seq::empty()
    } else if arity_fits(required[n - 1], params[n - 1].len(), argc) {
        taking(params, required, argc, n - 1).push(n - 1)
    } else {
        taking(params, required, argc, n - 1)
    }
}

/// The overload of a static method that a call by its bare name means: of
/// those that take as many arguments the best match, or else the first of all.
pub open spec fn bare_choice(
    t: Classes,
    params: Seq<Seq<TypeView>>,
    required: Seq<nat>,
    argc: nat,
    args: Seq<Option<TypeView>>,
) -> int {
    let at = taking(params, required, argc, params.len() as int);
    if at.len() == 0 {
        0
    } else {
        at[choice(t, at.map_values(|i: int| params[i]), args)]
    }
}

pub open spec fn counts(v: Seq<usize>) -> Seq<nat> {
    v.map_values(|n: usize| n as nat)
}

pub fn bare_overload(
    classes: &ClassTable,
    lists: &Vec<&Vec<Type>>,
    required: &Vec<usize>,
    argc: usize,
    arg_tys: &Vec<Option<Type>>,
) -> (r: usize)
    requires
        lists@.len() > 0,
        required@.len() == lists@.len(),
    ensures
        r == bare_choice(
            classes@,
            param_lists(lists@),
            counts(required@),
            argc as nat,
            opt_types(arg_tys@),
        ),
        r < lists@.len(),
{
    let ghost (ps, rs) = (param_lists(lists@), counts(required@));
    let mut at: Vec<usize> = Vec::new();
    let mut fit: Vec<&Vec<Type>> = Vec::new();
    let mut i: usize = 0;
    let ghost mut found: Seq<int> = Seq::empty();
    while i < lists.len()
        invariant
            i <= lists@.len(),
            required@.len() == lists@.len(),
            ps == param_lists(lists@),
            rs == counts(required@),
            found == taking(ps, rs, argc as nat, i as int),
            found.len() == at@.len(),
            fit@.len() == at@.len(),
            forall|j: int|
                0 <= j < at@.len() ==> found[j] == #[trigger] at@[j] && at@[j] < i && param_lists(
                    fit@,
                )[j] == ps[at@[j] as int],
        decreases lists@.len() - i,
    {
        assert(ps[i as int] == type_views(lists@[i as int]@));
        assert(rs[i as int] == required@[i as int] as nat);
        if arity_in_range(required[i], lists[i].len(), argc) {
            let ghost (at0, fit0) = (at@, fit@);
            at.push(i);
            fit.push(lists[i]);
            proof {
                found = found.push(i as int);
                assert forall|j: int| 0 <= j < at@.len() implies found[j] == #[trigger] at@[j] && at@[j]
                    < i + 1 && param_lists(fit@)[j] == ps[at@[j] as int] by {
                    if j < at0.len() {
                        assert(at@[j] == at0[j]);
                        assert(param_lists(fit@)[j] == param_lists(fit0)[j]);
                    }
                }
            }
        }
        i = i + 1;
    }
    assert(param_lists(fit@) =~= found.map_values(|i: int| ps[i])) by {
        assert forall|j: int| 0 <= j < found.len() implies #[trigger] param_lists(fit@)[j]
            == found.map_values(|i: int| ps[i])[j] by {
            assert(found[j] == at@[j]);
        }
    }
    match best_overload(classes, &fit, arg_tys) {
        Some(k) => at[k],
        None => 0,
    }
}

fn best_of(classes: &ClassTable, candidates: &Vec<&Vec<Type>>, arg_tys: &Vec<Option<Type>>) -> (r:
    usize)
    requires
        candidates@.len() > 0,
    ensures
        chosen(classes@, param_lists(candidates@), opt_types(arg_tys@), r as int),
{
    if candidates.len() == 1 {
        return 0;
    }
    let ghost cs = param_lists(candidates@);
    let ghost args = opt_types(arg_tys@);
    let mut best: Option<(usize, usize)> = None;
    let mut i: usize = 0;
    while i < candidates.len()
        invariant
            i <= candidates@.len(),
            cs == param_lists(candidates@),
            args == opt_types(arg_tys@),
            match best {
                None => forall|j: int|
                    #![trigger cs[j]]
                    0 <= j < i ==> overload_score(classes@, cs[j], args) is None,
                Some((k, s)) => k < i && overload_score(classes@, cs[k as int], args) == Some(
                    s as nat,
                ) && forall|j: int|
                    #![trigger cs[j]]
                    0 <= j < i && overload_score(classes@, cs[j], args) is Some ==> s
                        <= overload_score(classes@, cs[j], args)->0 && (j < k ==> s
                        < overload_score(classes@, cs[j], args)->0),
            },
        decreases candidates@.len() - i,
    {
        assert(cs[i as int] == type_views(candidates@[i as int]@));
        if let Some(total) = score_overload(classes, candidates[i], arg_tys) {
            match best {
                None => {
                    best = Some((i, total));
                },
                Some((_, best_score)) => {
                    if total < best_score {
                        best = Some((i, total));
                    }
                },
            }
        }
        i = i + 1;
    }
    match best {
        Some((k, _)) => {
            assert(overload_score(classes@, cs[k as int], args) is Some);
            k
        },
        None => 0,
    }
}

/// The positions, below `n`, of the wanted methods of a class.
pub open spec fn wanted_positions(ms: Seq<MethodInfoView>, w: Wanted, n: int) -> Seq<int>
    decreases n,
{
    if n <= 0 {
        Seq::empty()
    } else if wants(w, ms[n - 1]) {
        wanted_positions(ms, w, n - 1).push(n - 1)
    } else {
        wanted_positions(ms, w, n - 1)
    }
}

/// The parameter lists of the methods at the given positions.
pub open spec fn params_at(ms: Seq<MethodInfoView>, at: Seq<int>) -> Seq<Seq<TypeView>> {
    at.map_values(|i: int| ms[i].params)
}

/// The method that a call with arguments of these types means, and its class,
/// looked for in `c` and at most `n - 1` of its ancestors: the one chosen among
/// the overloads of the nearest class that has any.
pub open spec fn overload_within(
    t: Classes,
    c: Seq<char>,
    w: Wanted,
    args: Seq<Option<TypeView>>,
    n: nat,
) -> Option<(Seq<char>, MethodInfoView)>
    decreases n,
{
    if n == 0 {
        None
    } else {
        match bound_to(t, c) {
            Some(info) => {
                let at = wanted_positions(info.methods, w, info.methods.len() as int);
                if at.len() > 0 {
                    Some((c, info.methods[at[choice(t, params_at(info.methods, at), args)]]))
                } else {
                    match info.extends {
                        Some(p) => overload_within(t, p, w, args, (n - 1) as nat),
                        None => None,
                    }
                }
            },
            None => None,
        }
    }
}

/// The method that a call of `name` on `c` with `argc` arguments of these types
/// means, and its class.
pub open spec fn overload_found(
    t: Classes,
    c: Seq<char>,
    name: Seq<char>,
    argc: nat,
    args: Seq<Option<TypeView>>,
) -> Option<(Seq<char>, MethodInfoView)> {
    overload_within(t, c, Wanted::Call { name, argc }, args, t.len())
}

/// Like `find_method_owner`, but among the overloads of one class the one
/// that matches the argument types best.
pub fn find_method_owner_overload<'c, 'a>(
    classes: &'c ClassTable<'a>,
    fqcn: &str,
    name: &str,
    argc: usize,
    arg_tys: &Vec<Option<Type>>,
) -> (r: Option<(String, &'c MethodInfo<'a>)>)
    ensures
        owned_method(r) == overload_found(
            classes@,
            fqcn@,
            name@,
            argc as nat,
            opt_types(arg_tys@),
        ),
{
    let ghost w = Wanted::Call { name: name@, argc: argc as nat };
    let ghost args = opt_types(arg_tys@);
    let mut current: String = owned(fqcn);
    let mut n: usize = classes.len();
    while n > 0
        invariant
            w == (Wanted::Call { name: name@, argc: argc as nat }),
            args == opt_types(arg_tys@),
            overload_within(classes@, fqcn@, w, args, classes@.len()) == overload_within(
                classes@,
                current@,
                w,
                args,
                n as nat,
            ),
        decreases n,
    {
        let info: &'c ClassInfo<'a> = match classes.get(current.as_str()) {
            Some(info) => info,
            None => return None,
        };
        let ghost ms = method_infos(info.methods@);
        let mut at: Vec<usize> = Vec::new();
        let mut candidates: Vec<&Vec<Type>> = Vec::new();
        let mut i: usize = 0;
        while i < info.methods.len()
            invariant
                i <= info.methods@.len(),
                ms == method_infos(info.methods@),
                w == (Wanted::Call { name: name@, argc: argc as nat }),
                at@.map_values(|p: usize| p as int) == wanted_positions(ms, w, i as int),
                candidates@.len() == at@.len(),
                forall|j: int| 0 <= j < at@.len() ==> #[trigger] at@[j] < i,
                forall|j: int|
                    0 <= j < at@.len() ==> type_views(candidates@[j]@) == ms[#[trigger] at@[j] as int].params,
            decreases info.methods@.len() - i,
        {
            let m: &'c MethodInfo<'a> = &info.methods[i];
            assert(ms[i as int] == m@);
            if str_eq(m.name.as_str(), name) && arity_in_range(
                m.required_count,
                m.params.len(),
                argc,
            ) {
                let ghost before = at@.map_values(|p: usize| p as int);
                let ghost old_at = at@;
                let ghost old_candidates = candidates@;
                at.push(i);
                candidates.push(&m.params);
                assert forall|j: int| 0 <= j < at@.len() implies type_views(candidates@[j]@)
                    == ms[#[trigger] at@[j] as int].params by {
                    if j < old_at.len() {
                        assert(at@[j] == old_at[j] && candidates@[j] == old_candidates[j]);
                    }
                }
                assert(at@.map_values(|p: usize| p as int) =~= before.push(i as int));
            }
            i = i + 1;
        }
        let ghost ats = wanted_positions(ms, w, ms.len() as int);
        assert(param_lists(candidates@) =~= params_at(ms, ats)) by {
            assert forall|j: int| 0 <= j < at@.len() implies #[trigger] ats[j] == at@[j] as int by {
                assert(at@.map_values(|p: usize| p as int)[j] == at@[j] as int);
            }
        }
        if let Some(k) = best_overload(classes, &candidates, arg_tys) {
            assert(ats[k as int] == at@.map_values(|p: usize| p as int)[k as int]);
            let m: &'c MethodInfo<'a> = &info.methods[at[k]];
            assert(ms[at@[k as int] as int] == m@);
            return Some((current, m));
        }
        assert(ats.len() == 0);
        current = match &info.extends {
            Some(p) => p.clone(),
            None => return None,
        };
        n = n - 1;
    }
    None
}

/// Like `find_method_owner_overload`, without the class that declares it.
pub fn find_method_overload<'c, 'a>(
    classes: &'c ClassTable<'a>,
    fqcn: &str,
    name: &str,
    argc: usize,
    arg_tys: &Vec<Option<Type>>,
) -> (r: Option<&'c MethodInfo<'a>>)
    ensures
        opt_method(r) == just_method(
            overload_found(classes@, fqcn@, name@, argc as nat, opt_types(arg_tys@)),
        ),
{
    match find_method_owner_overload(classes, fqcn, name, argc, arg_tys) {
        Some((_, m)) => Some(m),
        None => None,
    }
}

/// The positions, below `n`, of the constructors that take `argc` arguments.
pub open spec fn ctor_positions(cs: Seq<CtorInfoView>, argc: nat, n: int) -> Seq<int>
    decreases n,
{
    if n <= 0 {
        Seq::empty()
    } else if arity_fits(cs[n - 1].required_count, cs[n - 1].params.len(), argc) {
        ctor_positions(cs, argc, n - 1).push(n - 1)
    } else {
        ctor_positions(cs, argc, n - 1)
    }
}

/// The constructor of `c` that `argc` arguments of these types mean.
pub open spec fn ctor_overload(
    t: Classes,
    c: Seq<char>,
    argc: nat,
    args: Seq<Option<TypeView>>,
) -> Option<CtorInfoView> {
    match bound_to(t, c) {
        Some(info) => {
            let at = ctor_positions(info.ctors, argc, info.ctors.len() as int);
            if at.len() > 0 {
                Some(
                    info.ctors[at[choice(
                        t,
                        at.map_values(|i: int| info.ctors[i].params),
                        args,
                    )]],
                )
            } else {
                None
            }
        },
        None => None,
    }
}

/// The constructor of `fqcn` that takes `argc` arguments and matches the
/// argument types best. Constructors are not inherited.
pub fn find_ctor_overload<'c, 'a>(
    classes: &'c ClassTable<'a>,
    fqcn: &str,
    argc: usize,
    arg_tys: &Vec<Option<Type>>,
) -> (r: Option<&'c CtorInfo<'a>>)
    ensures
        opt_ctor(r) == ctor_overload(classes@, fqcn@, argc as nat, opt_types(arg_tys@)),
{
    let info: &'c ClassInfo<'a> = match classes.get(fqcn) {
        Some(info) => info,
        None => return None,
    };
    let ghost cs = ctor_infos(info.ctors@);
    let mut at: Vec<usize> = Vec::new();
    let mut candidates: Vec<&Vec<Type>> = Vec::new();
    let mut i: usize = 0;
    while i < info.ctors.len()
        invariant
            i <= info.ctors@.len(),
            cs == ctor_infos(info.ctors@),
            at@.map_values(|p: usize| p as int) == ctor_positions(cs, argc as nat, i as int),
            candidates@.len() == at@.len(),
            forall|j: int| 0 <= j < at@.len() ==> #[trigger] at@[j] < i,
            forall|j: int|
                0 <= j < at@.len() ==> type_views(candidates@[j]@) == cs[#[trigger] at@[j] as int].params,
        decreases info.ctors@.len() - i,
    {
        let c: &'c CtorInfo<'a> = &info.ctors[i];
        assert(cs[i as int] == c@);
        if arity_in_range(c.required_count, c.params.len(), argc) {
            let ghost before = at@.map_values(|p: usize| p as int);
            let ghost old_at = at@;
            let ghost old_candidates = candidates@;
            at.push(i);
            candidates.push(&c.params);
            assert forall|j: int| 0 <= j < at@.len() implies type_views(candidates@[j]@)
                == cs[#[trigger] at@[j] as int].params by {
                if j < old_at.len() {
                    assert(at@[j] == old_at[j] && candidates@[j] == old_candidates[j]);
                }
            }
            assert(at@.map_values(|p: usize| p as int) =~= before.push(i as int));
        }
        i = i + 1;
    }
    let ghost ats = ctor_positions(cs, argc as nat, cs.len() as int);
    assert(param_lists(candidates@) =~= ats.map_values(|i: int| cs[i].params)) by {
        assert forall|j: int| 0 <= j < at@.len() implies #[trigger] ats[j] == at@[j] as int by {
            assert(at@.map_values(|p: usize| p as int)[j] == at@[j] as int);
        }
    }
    if let Some(k) = best_overload(classes, &candidates, arg_tys) {
        assert(ats[k as int] == at@.map_values(|p: usize| p as int)[k as int]);
        let c: &'c CtorInfo<'a> = &info.ctors[at[k]];
        assert(cs[at@[k as int] as int] == c@);
        return Some(c);
    }
    assert(ats.len() == 0);
    None
}

/// The resolved types of parameters.
pub open spec fn param_types(params: Seq<Param>, imports: Seq<(Seq<char>, Seq<char>)>) -> Seq<
    TypeView,
> {
    params.map_values(|p: Param| resolved_type(p.ty@, imports))
}

pub open spec fn param_names(params: Seq<Param>) -> Seq<Seq<char>> {
    params.map_values(|p: Param| p.name@)
}

pub open spec fn param_defaults(params: Seq<Param>) -> Seq<Option<Expr>> {
    params.map_values(|p: Param| p.default)
}

pub open spec fn param_refs(params: Seq<Param>) -> Seq<bool> {
    params.map_values(|p: Param| p.is_ref)
}

pub fn param_types_of(params: &Vec<Param>, imports: &NameMap<String>) -> (r: Vec<Type>)
    ensures
        type_views(r@) == param_types(params@, imports@),
{
    let mut out: Vec<Type> = Vec::new();
    let mut i: usize = 0;
    while i < params.len()
        invariant
            i <= params@.len(),
            out@.len() == i,
            forall|j: int|
                0 <= j < i ==> (#[trigger] out@[j])@ == resolved_type(params@[j].ty@, imports@),
        decreases params@.len() - i,
    {
        out.push(resolve_type(&params[i].ty, imports));
        i = i + 1;
    }
    assert(type_views(out@) =~= param_types(params@, imports@));
    out
}

pub fn param_names_of(params: &Vec<Param>) -> (r: Vec<String>)
    ensures
        texts(r@) == param_names(params@),
{
    let mut out: Vec<String> = Vec::new();
    let mut i: usize = 0;
    while i < params.len()
        invariant
            i <= params@.len(),
            out@.len() == i,
            forall|j: int| 0 <= j < i ==> (#[trigger] out@[j])@ == params@[j].name@,
        decreases params@.len() - i,
    {
        out.push(params[i].name.clone());
        i = i + 1;
    }
    assert(texts(out@) =~= param_names(params@));
    out
}

pub fn param_defaults_of<'a>(params: &'a Vec<Param>) -> (r: Vec<Option<&'a Expr>>)
    ensures
        opt_exprs(r@) == param_defaults(params@),
{
    let mut out: Vec<Option<&'a Expr>> = Vec::new();
    let mut i: usize = 0;
    while i < params.len()
        invariant
            i <= params@.len(),
            out@.len() == i,
            forall|j: int| 0 <= j < i ==> opt_expr(#[trigger] out@[j]) == params@[j].default,
        decreases params@.len() - i,
    {
        out.push(params[i].default.as_ref());
        i = i + 1;
    }
    assert(opt_exprs(out@) =~= param_defaults(params@));
    out
}

pub fn param_refs_of(params: &Vec<Param>) -> (r: Vec<bool>)
    ensures
        r@ == param_refs(params@),
{
    let mut out: Vec<bool> = Vec::new();
    let mut i: usize = 0;
    while i < params.len()
        invariant
            i <= params@.len(),
            out@ =~= param_refs(params@).take(i as int),
        decreases params@.len() - i,
    {
        out.push(params[i].is_ref);
        i = i + 1;
    }
    assert(out@ =~= param_refs(params@));
    out
}

/// The declared exceptions of a method as class types.
pub open spec fn thrown_types(
    names: Seq<Seq<char>>,
    imports: Seq<(Seq<char>, Seq<char>)>,
) -> Seq<TypeView> {
    names.map_values(|n: Seq<char>| TypeView::Named(resolved_name(n, imports)))
}

pub fn resolve_throws(throws: &Vec<String>, imports: &NameMap<String>) -> (r: Vec<Type>)
    ensures
        type_views(r@) == thrown_types(texts(throws@), imports@),
{
    let mut out: Vec<Type> = Vec::new();
    let mut i: usize = 0;
    while i < throws.len()
        invariant
            i <= throws@.len(),
            out@.len() == i,
            forall|j: int|
                0 <= j < i ==> (#[trigger] out@[j])@ == TypeView::Named(
                    resolved_name(throws@[j]@, imports@),
                ),
        decreases throws@.len() - i,
    {
        out.push(Type::Named(resolve_name(throws[i].as_str(), imports)));
        i = i + 1;
    }
    assert(type_views(out@) =~= thrown_types(texts(throws@), imports@));
    out
}

pub open spec fn field_info(f: FieldDecl, imports: Seq<(Seq<char>, Seq<char>)>) -> FieldInfoView {
    FieldInfoView {
        name: f.name@,
        ty: resolved_type(f.ty@, imports),
        init: f.init,
        visibility: f.visibility,
        readonly: f.readonly,
        is_static: f.is_static,
    }
}

pub open spec fn method_info(
    m: MethodDecl,
    imports: Seq<(Seq<char>, Seq<char>)>,
) -> MethodInfoView {
    MethodInfoView {
        name: m.name@,
        params: param_types(m.params@, imports),
        param_names: param_names(m.params@),
        defaults: param_defaults(m.params@),
        is_ref: param_refs(m.params@),
        required_count: leading_required(m.params@, 0),
        return_ty: resolved_type(m.return_type@, imports),
        is_static: m.is_static,
        is_const: m.is_const,
        visibility: m.visibility,
        is_abstract: m.is_abstract,
        is_final: m.is_final,
        is_nodiscard: m.is_nodiscard,
        throws: thrown_types(texts(m.throws@), imports),
    }
}

pub open spec fn ctor_info(m: MethodDecl, imports: Seq<(Seq<char>, Seq<char>)>) -> CtorInfoView {
    CtorInfoView {
        params: param_types(m.params@, imports),
        param_names: param_names(m.params@),
        defaults: param_defaults(m.params@),
        is_ref: param_refs(m.params@),
        required_count: leading_required(m.params@, 0),
        throws: thrown_types(texts(m.throws@), imports),
        visibility: m.visibility,
    }
}

/// An interface's method: public, neither static nor marked abstract.
pub open spec fn signature_info(
    m: MethodSig,
    imports: Seq<(Seq<char>, Seq<char>)>,
) -> MethodInfoView {
    MethodInfoView {
        name: m.name@,
        params: param_types(m.params@, imports),
        param_names: param_names(m.params@),
        defaults: param_defaults(m.params@),
        is_ref: param_refs(m.params@),
        required_count: leading_required(m.params@, 0),
        return_ty: resolved_type(m.return_type@, imports),
        is_static: false,
        is_const: m.is_const,
        visibility: Visibility::Public,
        is_abstract: false,
        is_final: false,
        is_nodiscard: false,
        throws: Seq::empty(),
    }
}

/// The ordinary methods among the first `n`.
pub open spec fn methods_of(
    ms: Seq<MethodDecl>,
    imports: Seq<(Seq<char>, Seq<char>)>,
    n: int,
) -> Seq<MethodInfoView>
    decreases n,
{
    if n <= 0 {
        Seq::empty()
    } else if ms[n - 1].kind == MethodKind::Normal {
        methods_of(ms, imports, n - 1).push(method_info(ms[n - 1], imports))
    } else {
        methods_of(ms, imports, n - 1)
    }
}

/// The constructors among the first `n` methods.
pub open spec fn ctors_of(
    ms: Seq<MethodDecl>,
    imports: Seq<(Seq<char>, Seq<char>)>,
    n: int,
) -> Seq<CtorInfoView>
    decreases n,
{
    if n <= 0 {
        Seq::empty()
    } else if ms[n - 1].kind == MethodKind::Constructor {
        ctors_of(ms, imports, n - 1).push(ctor_info(ms[n - 1], imports))
    } else {
        ctors_of(ms, imports, n - 1)
    }
}

pub open spec fn class_info(c: ClassDecl, imports: Seq<(Seq<char>, Seq<char>)>) -> ClassInfoView {
    ClassInfoView {
        extends: match c.extends {
            Some(n) => Some(resolved_name(n@, imports)),
            None => None,
        },
        implements: resolved_names(texts(c.implements@), imports),
        fields: c.fields@.map_values(|f: FieldDecl| field_info(f, imports)),
        methods: methods_of(c.methods@, imports, c.methods@.len() as int),
        ctors: ctors_of(c.methods@, imports, c.methods@.len() as int),
        is_readonly: c.is_readonly,
        is_abstract: c.is_abstract,
        is_final: c.is_final,
        is_enum: c.is_enum,
        enum_cases: texts(c.enum_cases@),
    }
}

pub open spec fn interface_info(
    i: InterfaceDecl,
    imports: Seq<(Seq<char>, Seq<char>)>,
) -> ClassInfoView {
    ClassInfoView {
        extends: None,
        implements: resolved_names(texts(i.extends@), imports),
        fields: Seq::empty(),
        methods: i.methods@.map_values(|m: MethodSig| signature_info(m, imports)),
        ctors: Seq::empty(),
        is_readonly: false,
        is_abstract: false,
        is_final: false,
        is_enum: false,
        enum_cases: Seq::empty(),
    }
}

pub open spec fn file_info(f: SourceFile, files: Seq<SourceFile>, prelude: Prelude) -> (
    Seq<char>,
    ClassInfoView,
) {
    let imports = imports_of(f, files, prelude);
    (
        full_name(f),
        match f.item {
            SourceItem::Class(c) => class_info(c, imports),
            SourceItem::Interface(i) => interface_info(i, imports),
        },
    )
}

/// The table of all that the files declare.
pub open spec fn table_of(files: Seq<SourceFile>, prelude: Prelude) -> Classes {
    files.map_values(|f: SourceFile| file_info(f, files, prelude))
}

fn method_info_of<'a>(m: &'a MethodDecl, imports: &NameMap<String>) -> (r: MethodInfo<'a>)
    ensures
        r@ == method_info(*m, imports@),
{
    MethodInfo {
        name: m.name.clone(),
        params: param_types_of(&m.params, imports),
        param_names: param_names_of(&m.params),
        defaults: param_defaults_of(&m.params),
        is_ref: param_refs_of(&m.params),
        required_count: required_count(&m.params),
        return_ty: resolve_type(&m.return_type, imports),
        is_static: m.is_static,
        is_const: m.is_const,
        visibility: m.visibility,
        is_abstract: m.is_abstract,
        is_final: m.is_final,
        is_nodiscard: m.is_nodiscard,
        throws: resolve_throws(&m.throws, imports),
    }
}

fn ctor_info_of<'a>(m: &'a MethodDecl, imports: &NameMap<String>) -> (r: CtorInfo<'a>)
    ensures
        r@ == ctor_info(*m, imports@),
{
    CtorInfo {
        params: param_types_of(&m.params, imports),
        param_names: param_names_of(&m.params),
        defaults: param_defaults_of(&m.params),
        is_ref: param_refs_of(&m.params),
        required_count: required_count(&m.params),
        throws: resolve_throws(&m.throws, imports),
        visibility: m.visibility,
    }
}

fn class_info_of<'a>(c: &'a ClassDecl, imports: &NameMap<String>) -> (r: ClassInfo<'a>)
    ensures
        r@ == class_info(*c, imports@),
{
    let mut fields: Vec<FieldInfo<'a>> = Vec::new();
    let mut i: usize = 0;
    while i < c.fields.len()
        invariant
            i <= c.fields@.len(),
            fields@.len() == i,
            forall|j: int|
                0 <= j < i ==> (#[trigger] fields@[j])@ == field_info(c.fields@[j], imports@),
        decreases c.fields@.len() - i,
    {
        let f = &c.fields[i];
        fields.push(
            FieldInfo {
                name: f.name.clone(),
                ty: resolve_type(&f.ty, imports),
                init: f.init.as_ref(),
                visibility: f.visibility,
                readonly: f.readonly,
                is_static: f.is_static,
            },
        );
        i = i + 1;
    }
    assert(field_infos(fields@) =~= c.fields@.map_values(
        |f: FieldDecl| field_info(f, imports@),
    ));
    let mut methods: Vec<MethodInfo<'a>> = Vec::new();
    let mut ctors: Vec<CtorInfo<'a>> = Vec::new();
    let mut k: usize = 0;
    assert(method_infos(methods@) =~= Seq::<MethodInfoView>::empty());
    assert(ctor_infos(ctors@) =~= Seq::<CtorInfoView>::empty());
    while k < c.methods.len()
        invariant
            k <= c.methods@.len(),
            method_infos(methods@) == methods_of(c.methods@, imports@, k as int),
            ctor_infos(ctors@) == ctors_of(c.methods@, imports@, k as int),
        decreases c.methods@.len() - k,
    {
        let m = &c.methods[k];
        let ghost before_m = method_infos(methods@);
        let ghost before_c = ctor_infos(ctors@);
        match m.kind {
            MethodKind::Constructor => {
                ctors.push(ctor_info_of(m, imports));
                assert(ctor_infos(ctors@) =~= before_c.push(ctor_info(*m, imports@)));
            },
            MethodKind::Destructor => {},
            MethodKind::Normal => {
                methods.push(method_info_of(m, imports));
                assert(method_infos(methods@) =~= before_m.push(method_info(*m, imports@)));
            },
        }
        k = k + 1;
    }
    let extends = match &c.extends {
        Some(n) => Some(resolve_name(n.as_str(), imports)),
        None => None,
    };
    ClassInfo {
        extends,
        implements: resolve_names(&c.implements, imports),
        fields,
        methods,
        ctors,
        is_readonly: c.is_readonly,
        is_abstract: c.is_abstract,
        is_final: c.is_final,
        is_enum: c.is_enum,
        enum_cases: clone_strings(&c.enum_cases),
    }
}

fn interface_info_of<'a>(d: &'a InterfaceDecl, imports: &NameMap<String>) -> (r: ClassInfo<'a>)
    ensures
        r@ == interface_info(*d, imports@),
{
    let mut methods: Vec<MethodInfo<'a>> = Vec::new();
    let mut i: usize = 0;
    while i < d.methods.len()
        invariant
            i <= d.methods@.len(),
            methods@.len() == i,
            forall|j: int|
                0 <= j < i ==> (#[trigger] methods@[j])@ == signature_info(
                    d.methods@[j],
                    imports@,
                ),
        decreases d.methods@.len() - i,
    {
        let m = &d.methods[i];
        let info = MethodInfo {
            name: m.name.clone(),
            params: param_types_of(&m.params, imports),
            param_names: param_names_of(&m.params),
            defaults: param_defaults_of(&m.params),
            is_ref: param_refs_of(&m.params),
            required_count: required_count(&m.params),
            return_ty: resolve_type(&m.return_type, imports),
            is_static: false,
            is_const: m.is_const,
            visibility: Visibility::Public,
            is_abstract: false,
            is_final: false,
            is_nodiscard: false,
            throws: Vec::new(),
        };
        assert(info@.throws =~= Seq::<TypeView>::empty());
        methods.push(info);
        i = i + 1;
    }
    assert(method_infos(methods@) =~= d.methods@.map_values(
        |m: MethodSig| signature_info(m, imports@),
    ));
    let r = ClassInfo {
        extends: None,
        implements: resolve_names(&d.extends, imports),
        fields: Vec::new(),
        methods,
        ctors: Vec::new(),
        is_readonly: false,
        is_abstract: false,
        is_final: false,
        is_enum: false,
        enum_cases: Vec::new(),
    };
    assert(r@.fields =~= Seq::<FieldInfoView>::empty());
    assert(r@.ctors =~= Seq::<CtorInfoView>::empty());
    assert(r@.enum_cases =~= Seq::<Seq<char>>::empty());
    r
}

pub fn build_class_table<'a>(files: &'a Vec<SourceFile>, prelude: &Prelude) -> (r: ClassTable<'a>)
    ensures
        r@ == table_of(files@, *prelude),
{
    let mut table: ClassTable<'a> = NameMap::new();
    let ghost t = table_of(files@, *prelude);
    let mut i: usize = 0;
    while i < files.len()
        invariant
            i <= files@.len(),
            t == table_of(files@, *prelude),
            table@ == t.take(i as int),
        decreases files@.len() - i,
    {
        let file = &files[i];
        let imports = import_map(file, files, prelude);
        let info = match &file.item {
            SourceItem::Class(c) => class_info_of(c, &imports),
            SourceItem::Interface(d) => interface_info_of(d, &imports),
        };
        table.insert(fqcn_of(file), info);
        assert(t.take(i as int + 1) =~= t.take(i as int).push(t[i as int]));
        i = i + 1;
    }
    assert(t.take(i as int) =~= t);
    table
}

} // verus!
