//! Full names of classes, and the names that a file can use for them.

use crate::ast::{
    clone_type, same_strings, type_views, Expr, SourceFile, SourceItem, Type, TypeView, UseDecl,
};
use crate::names::{bound_to, NameMap};
use crate::text::{
    cat3, clone_strings, join, join_text, owned, str_eq, tail, tail_text, texts,
};
use vstd::prelude::*;

verus! {

/// The classes that every program has without an import, and further names
/// for some of them.
#[derive(Debug)]
pub struct Prelude {
    /// Full names of the built-in classes.
    pub classes: Vec<String>,
    /// A further name and the full name that it stands for.
    pub aliases: Vec<(String, String)>,
}

pub open spec fn prelude_bindings(p: Prelude) -> Seq<(Seq<char>, Seq<char>)> {
    p.classes@.map_values(|c: String| (c@, c@)) + p.aliases@.map_values(
        |a: (String, String)| (a.0@, a.1@),
    )
}

/// The name under which a file declares its class or interface.
pub open spec fn simple_name(f: SourceFile) -> Seq<char> {
    match f.item {
        SourceItem::Class(c) => c.name@,
        SourceItem::Interface(i) => i.name@,
    }
}

pub fn simple_name_of(file: &SourceFile) -> (r: &String)
    ensures
        r@ == simple_name(*file),
{
    match &file.item {
        SourceItem::Class(c) => &c.name,
        SourceItem::Interface(i) => &i.name,
    }
}

/// The full name of what a file declares: its namespace and its simple name.
pub open spec fn full_name(f: SourceFile) -> Seq<char> {
    if f.namespace@.len() == 0 {
        simple_name(f)
    } else {
        join_text(texts(f.namespace@), "."@) + "."@ + simple_name(f)
    }
}

pub fn fqcn_of(file: &SourceFile) -> (r: String)
    ensures
        r@ == full_name(*file),
{
    let name = simple_name_of(file);
    if file.namespace.len() == 0 {
        name.clone()
    } else {
        cat3(join(&file.namespace, ".").as_str(), ".", name.as_str())
    }
}

/// The name that an import binds: its alias, or else the last part of its path.
pub open spec fn import_name(u: UseDecl) -> Seq<char> {
    match u.alias {
        Some(a) => a@,
        None => tail_text(u.path@, '.'),
    }
}

pub fn import_name_of(u: &UseDecl) -> (r: String)
    ensures
        r@ == import_name(*u),
{
    match &u.alias {
        Some(a) => a.clone(),
        None => tail(u.path.as_str(), '.'),
    }
}

/// The simple and full names of those of the first `n` files that share the
/// namespace `ns`.
pub open spec fn neighbours(files: Seq<SourceFile>, ns: Seq<Seq<char>>, n: int) -> Seq<
    (Seq<char>, Seq<char>),
>
    decreases n,
{
    if n <= 0 {
        Seq::empty()
    } else if texts(files[n - 1].namespace@) == ns {
        neighbours(files, ns, n - 1).push((simple_name(files[n - 1]), full_name(files[n - 1])))
    } else {
        neighbours(files, ns, n - 1)
    }
}

/// What a file's names stand for: the prelude, then the other classes of its
/// namespace, its own class and its imports, each overriding what came before.
pub open spec fn imports_of(
    f: SourceFile,
    files: Seq<SourceFile>,
    prelude: Prelude,
) -> Seq<(Seq<char>, Seq<char>)> {
    prelude_bindings(prelude) + neighbours(files, texts(f.namespace@), files.len() as int) + seq![
        (simple_name(f), full_name(f)),
    ] + f.uses@.map_values(|u: UseDecl| (import_name(u), u.path@))
}

pub fn import_map(file: &SourceFile, all_files: &Vec<SourceFile>, prelude: &Prelude) -> (r: NameMap<
    String,
>)
    ensures
        r@ == imports_of(*file, all_files@, *prelude),
{
    let mut map: NameMap<String> = NameMap::new();
    let ghost cs = prelude.classes@.map_values(|c: String| (c@, c@));
    let ghost als = prelude.aliases@.map_values(|a: (String, String)| (a.0@, a.1@));
    let mut i: usize = 0;
    while i < prelude.classes.len()
        invariant
            i <= prelude.classes@.len(),
            cs == prelude.classes@.map_values(|c: String| (c@, c@)),
            map@ =~= cs.take(i as int),
        decreases prelude.classes@.len() - i,
    {
        map.insert(prelude.classes[i].clone(), prelude.classes[i].clone());
        i = i + 1;
    }
    let mut j: usize = 0;
    while j < prelude.aliases.len()
        invariant
            j <= prelude.aliases@.len(),
            als == prelude.aliases@.map_values(|a: (String, String)| (a.0@, a.1@)),
            map@ =~= cs + als.take(j as int),
        decreases prelude.aliases@.len() - j,
    {
        map.insert(prelude.aliases[j].0.clone(), prelude.aliases[j].1.clone());
        j = j + 1;
    }
    let ghost base = prelude_bindings(*prelude);
    let ghost ns = texts(file.namespace@);
    assert(map@ =~= base);
    let mut k: usize = 0;
    while k < all_files.len()
        invariant
            k <= all_files@.len(),
            ns == texts(file.namespace@),
            map@ =~= base + neighbours(all_files@, ns, k as int),
        decreases all_files@.len() - k,
    {
        if same_strings(&all_files[k].namespace, &file.namespace) {
            map.insert(simple_name_of(&all_files[k]).clone(), fqcn_of(&all_files[k]));
        }
        k = k + 1;
    }
    let ghost near = base + neighbours(all_files@, ns, all_files@.len() as int);
    map.insert(simple_name_of(file).clone(), fqcn_of(file));
    let ghost own = near + seq![(simple_name(*file), full_name(*file))];
    assert(map@ =~= own);
    let ghost us = file.uses@.map_values(|u: UseDecl| (import_name(u), u.path@));
    let mut l: usize = 0;
    while l < file.uses.len()
        invariant
            l <= file.uses@.len(),
            us == file.uses@.map_values(|u: UseDecl| (import_name(u), u.path@)),
            map@ =~= own + us.take(l as int),
        decreases file.uses@.len() - l,
    {
        map.insert(import_name_of(&file.uses[l]), file.uses[l].path.clone());
        l = l + 1;
    }
    assert(us.take(l as int) =~= us);
    map
}

/// What `name` stands for; a name that is not bound stands for itself.
pub open spec fn resolved_name(
    name: Seq<char>,
    imports: Seq<(Seq<char>, Seq<char>)>,
) -> Seq<char> {
    match bound_to(imports, name) {
        Some(f) => f,
        None => name,
    }
}

pub fn resolve_name(name: &str, imports: &NameMap<String>) -> (r: String)
    ensures
        r@ == resolved_name(name@, imports@),
{
    match imports.get(name) {
        Some(f) => f.clone(),
        None => owned(name),
    }
}

pub open spec fn resolved_names(
    names: Seq<Seq<char>>,
    imports: Seq<(Seq<char>, Seq<char>)>,
) -> Seq<Seq<char>> {
    names.map_values(|n: Seq<char>| resolved_name(n, imports))
}

pub fn resolve_names(names: &Vec<String>, imports: &NameMap<String>) -> (r: Vec<String>)
    ensures
        texts(r@) == resolved_names(texts(names@), imports@),
{
    let mut out: Vec<String> = Vec::new();
    let mut i: usize = 0;
    while i < names.len()
        invariant
            i <= names@.len(),
            out@.len() == i,
            forall|j: int|
                0 <= j < i ==> (#[trigger] out@[j])@ == resolved_name(names@[j]@, imports@),
        decreases names@.len() - i,
    {
        out.push(resolve_name(names[i].as_str(), imports));
        i = i + 1;
    }
    assert(texts(out@) =~= resolved_names(texts(names@), imports@));
    out
}

/// A type with its class names made full. Unexpanded templates stay as they
/// are.
pub open spec fn resolved_type(t: TypeView, imports: Seq<(Seq<char>, Seq<char>)>) -> TypeView
    decreases t,
{
    match t {
        TypeView::Named(name) => TypeView::Named(resolved_name(name, imports)),
        TypeView::Array(inner) => TypeView::Array(Box::new(resolved_type(*inner, imports))),
        TypeView::Union(members) => TypeView::Union(resolved_types(members, imports)),
        TypeView::Function { params, return_type, throws } => TypeView::Function {
            params: resolved_types(params, imports),
            return_type: Box::new(resolved_type(*return_type, imports)),
            throws,
        },
        _ => t,
    }
}

pub open spec fn resolved_types(
    s: Seq<TypeView>,
    imports: Seq<(Seq<char>, Seq<char>)>,
) -> Seq<TypeView>
    decreases s,
{
    Seq::new(
        s.len(),
        |i: int|
            if 0 <= i < s.len() {
                resolved_type(s[i], imports)
            } else {
                TypeView::Void
            },
    )
}

pub fn resolve_type(ty: &Type, imports: &NameMap<String>) -> (r: Type)
    ensures
        r@ == resolved_type(ty@, imports@),
    decreases ty,
{
    match ty {
        Type::Named(name) => Type::Named(resolve_name(name.as_str(), imports)),
        Type::Array(inner) => Type::Array(Box::new(resolve_type(inner, imports))),
        Type::Union(members) => Type::Union(resolve_types(members, imports)),
        Type::Function { params, return_type, throws } => Type::Function {
            params: resolve_types(params, imports),
            return_type: Box::new(resolve_type(return_type, imports)),
            throws: clone_strings(throws),
        },
        other => clone_type(other),
    }
}

pub fn resolve_types(v: &Vec<Type>, imports: &NameMap<String>) -> (r: Vec<Type>)
    ensures
        type_views(r@) == resolved_types(type_views(v@), imports@),
    decreases v,
{
    let mut out: Vec<Type> = Vec::new();
    let mut i: usize = 0;
    while i < v.len()
        invariant
            i <= v@.len(),
            out@.len() == i,
            forall|j: int|
                0 <= j < i ==> (#[trigger] out@[j])@ == resolved_type(v@[j]@, imports@),
        decreases v@.len() - i,
    {
        assert(decreases_to!(v => v@[i as int]));
        out.push(resolve_type(&v[i], imports));
        i = i + 1;
    }
    assert(type_views(out@) =~= resolved_types(type_views(v@), imports@));
    out
}

/// A type with the placeholder class `Self` replaced by `fqcn`.
pub open spec fn self_replaced(t: TypeView, fqcn: Seq<char>) -> TypeView
    decreases t,
{
    match t {
        TypeView::Named(name) => if name == "Self"@ {
            TypeView::Named(fqcn)
        } else {
            t
        },
        TypeView::Array(inner) => TypeView::Array(Box::new(self_replaced(*inner, fqcn))),
        TypeView::Union(members) => TypeView::Union(selves_replaced(members, fqcn)),
        TypeView::Generic(name, args) => TypeView::Generic(name, selves_replaced(args, fqcn)),
        TypeView::Function { params, return_type, throws } => TypeView::Function {
            params: selves_replaced(params, fqcn),
            return_type: Box::new(self_replaced(*return_type, fqcn)),
            throws,
        },
        _ => t,
    }
}

pub open spec fn selves_replaced(s: Seq<TypeView>, fqcn: Seq<char>) -> Seq<TypeView>
    decreases s,
{
    Seq::new(
        s.len(),
        |i: int|
            if 0 <= i < s.len() {
                self_replaced(s[i], fqcn)
            } else {
                TypeView::Void
            },
    )
}

pub fn substitute_self(ty: &Type, fqcn: &str) -> (r: Type)
    ensures
        r@ == self_replaced(ty@, fqcn@),
    decreases ty,
{
    match ty {
        Type::Named(name) => if str_eq(name.as_str(), "Self") {
            Type::Named(owned(fqcn))
        } else {
            clone_type(ty)
        },
        Type::Array(inner) => Type::Array(Box::new(substitute_self(inner, fqcn))),
        Type::Union(members) => Type::Union(substitute_selves(members, fqcn)),
        Type::Generic(name, args) => Type::Generic(name.clone(), substitute_selves(args, fqcn)),
        Type::Function { params, return_type, throws } => Type::Function {
            params: substitute_selves(params, fqcn),
            return_type: Box::new(substitute_self(return_type, fqcn)),
            throws: clone_strings(throws),
        },
        other => clone_type(other),
    }
}

fn substitute_selves(v: &Vec<Type>, fqcn: &str) -> (r: Vec<Type>)
    ensures
        type_views(r@) == selves_replaced(type_views(v@), fqcn@),
    decreases v,
{
    let mut out: Vec<Type> = Vec::new();
    let mut i: usize = 0;
    while i < v.len()
        invariant
            i <= v@.len(),
            out@.len() == i,
            forall|j: int|
                0 <= j < i ==> (#[trigger] out@[j])@ == self_replaced(v@[j]@, fqcn@),
        decreases v@.len() - i,
    {
        assert(decreases_to!(v => v@[i as int]));
        out.push(substitute_self(&v[i], fqcn));
        i = i + 1;
    }
    assert(type_views(out@) =~= selves_replaced(type_views(v@), fqcn@));
    out
}

/// The path that a chain of names and field accesses spells, as `system.Out`.
pub open spec fn path_of(e: Expr) -> Option<Seq<char>>
    decreases e,
{
    match e {
        Expr::Ident(name) => Some(name@),
        Expr::FieldAccess(base, name) => match path_of(*base) {
            Some(p) => Some(p + "."@ + name@),
            None => None,
        },
        _ => None,
    }
}

pub open spec fn opt_string(o: Option<String>) -> Option<Seq<char>> {
    match o {
        Some(s) => Some(s@),
        None => None,
    }
}

pub fn dotted_path(expr: &Expr) -> (r: Option<String>)
    ensures
        opt_string(r) == path_of(*expr),
    decreases expr,
{
    match expr {
        Expr::Ident(name) => Some(name.clone()),
        Expr::FieldAccess(base, name) => match dotted_path(base) {
            Some(p) => Some(cat3(p.as_str(), ".", name.as_str())),
            None => None,
        },
        _ => None,
    }
}

} // verus!
