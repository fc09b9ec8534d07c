//! The rules that calls, member accesses and assignments are held to, given
//! the types of their parts.

use crate::ast::{
    clone_type, type_views, Arg, CatchClause, Expr, Param, Type, TypeView,
};
use crate::binding::binder;
use crate::class_table::{
    bare_choice, bare_overload, called_method, counts, ctor_overload, find_ctor_overload,
    find_method_owner, find_method_owner_overload, is_subclass_or_same, leading_required, opt_types,
    overload_found, param_lists, param_names, param_names_of, required_count, subclass, Classes,
    MethodInfo, MethodInfoView,
};
use crate::names::bound_to;
use crate::native::{instance_lookup, instance_sig, result_field, result_field_ty};
use crate::native_generics::{
    element_type, field_ty, foreach_element_ty, is_instance, method_signature, native_class,
    native_field, native_method_sig,
};
use crate::probe::{call_types, overload_arg_tys};
use crate::resolve::{
    dotted_path, opt_string, path_of, resolve_name, resolve_type, resolved_name, resolved_type,
};
use crate::sema::error::{checked_as, Checked, ErrorView, SemaError};
use crate::sema::flow::{settles, Flow, MethodChecker};
use crate::sema::rules::{
    all_assignable, all_handled, assignment, binds, bind_call_args, bindable, bound_as, call_args,
    check_all_assignable, check_assignable, check_field_access, check_member_access, check_readonly,
    declared_field_ty, field_access, field_type, judged_as, member_access, method_return_ty,
    names_handled, or_void, ref_arg, return_type, type_or_void, writable, EnvView, Judged,
    MethodEnv, StaticSigView,
};
use crate::sema::stdlib::{
    enum_const_ty, is_native_instance, lookup, native_constant, native_instance, native_throws,
    static_sig, throws,
};
use crate::sema::types::opt_type;
use crate::text::{head, head_text, holds, owned, str_eq, texts};
use vstd::prelude::*;

verus! {

/// The type of `this`; there is none in a static method.
pub open spec fn this_type(c: EnvView) -> Option<TypeView> {
    if c.is_static {
        None
    } else {
        Some(TypeView::Named(c.this_fqcn))
    }
}

/// What an expression names before it is looked into: a class, where its
/// first name is not that of a variable.
pub open spec fn class_path(s: Flow, target: Expr) -> Option<Seq<char>> {
    match path_of(target) {
        Some(path) => if s.lookup(head_text(path, '.')) is None {
            Some(path)
        } else {
            None
        },
        None => None,
    }
}

/// The type of a constant of a class: of a native one, or an enum's case.
#[verifier::opaque]
pub open spec fn static_member(c: EnvView, s: Flow, target: Expr, name: Seq<char>) -> Option<
    TypeView,
> {
    match class_path(s, target) {
        Some(path) => match native_constant(path, name) {
            Some(t) => Some(t),
            None => {
                let fqcn = resolved_name(path, c.imports);
                match bound_to(c.classes, fqcn) {
                    Some(info) => if info.is_enum && info.enum_cases.contains(name) {
                        Some(TypeView::Named(fqcn))
                    } else {
                        None
                    },
                    None => None,
                }
            },
        },
        None => None,
    }
}

/// The class of an object that is looked into; of a union, the first.
pub open spec fn object_class(t: TypeView) -> Option<Seq<char>> {
    match t {
        TypeView::Named(fqcn) => Some(fqcn),
        TypeView::Union(ms) => first_class(ms, 0),
        _ => None,
    }
}

pub open spec fn first_class(ms: Seq<TypeView>, i: int) -> Option<Seq<char>>
    decreases ms.len() - i,
{
    if i < 0 || i >= ms.len() {
        None
    } else {
        match ms[i] {
            TypeView::Named(fqcn) => Some(fqcn),
            _ => first_class(ms, i + 1),
        }
    }
}

fn find_object_class(ty: &Type) -> (r: Option<String>)
    ensures
        opt_string(r) == object_class(ty@),
{
    match ty {
        Type::Named(fqcn) => Some(fqcn.clone()),
        Type::Union(ms) => {
            let ghost vs = type_views(ms@);
            assert(object_class(ty@) == first_class(vs, 0));
            let mut i: usize = 0;
            while i < ms.len()
                invariant
                    i <= ms@.len(),
                    vs == type_views(ms@),
                    object_class(ty@) == first_class(vs, i as int),
                decreases ms@.len() - i,
            {
                assert(vs[i as int] == ms@[i as int]@);
                if let Type::Named(fqcn) = &ms[i] {
                    return Some(fqcn.clone());
                }
                i = i + 1;
            }
            None
        },
        _ => None,
    }
}

/// The type of an enum's `value`.
pub open spec fn backing_type(t: Classes, fqcn: Seq<char>) -> Option<TypeView> {
    match bound_to(t, fqcn) {
        Some(info) => if info.is_enum {
            Some(
                if info.fields.len() > 0 {
                    info.fields[0].ty
                } else {
                    TypeView::Int
                },
            )
        } else {
            None
        },
        None => None,
    }
}

fn find_backing_type(c: &MethodEnv, fqcn: &str) -> (r: Option<Type>)
    ensures
        opt_type(r) == backing_type(c@.classes, fqcn@),
{
    match c.classes.get(fqcn) {
        Some(info) => if info.is_enum {
            if info.fields.len() > 0 {
                assert(info@.fields[0] == info.fields@[0]@);
                Some(clone_type(&info.fields[0].ty))
            } else {
                Some(Type::Int)
            }
        } else {
            None
        },
        None => None,
    }
}

/// The type of a field of an object, which may be used here.
#[verifier::opaque]
pub open spec fn object_field(c: EnvView, target: TypeView, name: Seq<char>) -> Judged {
    match object_class(target) {
        None => Ok(TypeView::Void),
        Some(fqcn) => if name == "value"@ && backing_type(c.classes, fqcn) is Some {
            Ok(backing_type(c.classes, fqcn)->0)
        } else {
            match native_field(c.natives, fqcn, name) {
                Some(t) => Ok(t),
                None => match result_field(fqcn, name) {
                    Some(t) => Ok(t),
                    None => {
                        match field_access(c, fqcn, name) {
                            Err(e) => Err(e),
                            Ok(_) => Ok(or_void(field_type(c.classes, fqcn, name))),
                        }
                    },
                },
            }
        },
    }
}

pub fn check_object_field(c: &MethodEnv, target: &Type, name: &str) -> (r: Result<Type, SemaError>)
    ensures
        judged_as(r, object_field(c@, target@, name@)),
{
    reveal(object_field);
    let fqcn = match find_object_class(target) {
        Some(fqcn) => fqcn,
        None => return Ok(Type::Void),
    };
    if str_eq(name, "value") {
        if let Some(t) = find_backing_type(c, fqcn.as_str()) {
            return Ok(t);
        }
    }
    if let Some(t) = field_ty(c.natives, fqcn.as_str(), name) {
        return Ok(t);
    }
    if let Some(t) = result_field_ty(fqcn.as_str(), name) {
        return Ok(t);
    }
    check_field_access(c, fqcn.as_str(), name)?;
    Ok(type_or_void(declared_field_ty(c.classes, fqcn.as_str(), name)))
}

/// A call of a method, whose arguments are in order and whose exceptions are
/// handled.
#[verifier::opaque]
pub open spec fn method_use(c: EnvView, s: Flow, m: MethodInfoView, args: Seq<Arg>) -> Judged {
    match call_args(s, m.param_names, m.is_ref, m.required_count, args) {
        Err(e) => Err(e),
        Ok(_) => match all_handled(c, s, m.throws, 0) {
            Err(e) => Err(e),
            Ok(_) => Ok(m.return_ty),
        },
    }
}

/// The type of a native function's call.
#[verifier::opaque]
pub open spec fn native_use(
    c: EnvView,
    s: Flow,
    class: Seq<char>,
    name: Seq<char>,
    sig: (Seq<TypeView>, TypeView),
    arg_types: Seq<TypeView>,
) -> Judged {
    match all_assignable(c.classes, arg_types, sig.0, 0, 0) {
        Err(e) => Err(e),
        Ok(_) => match names_handled(c, s, native_throws(class, name), 0) {
            Err(e) => Err(e),
            Ok(_) => Ok(sig.1),
        },
    }
}

/// The types of the arguments by which a call is bound to one of several
/// overloads.
pub open spec fn known_types(c: EnvView, s: Flow, args: Seq<Arg>) -> Seq<Option<TypeView>> {
    call_types(c.site(), s.typings, args)
}

/// The type of a call of a static method through its class's name, if it is
/// one.
#[verifier::opaque]
pub open spec fn static_use(
    c: EnvView,
    s: Flow,
    target: Expr,
    name: Seq<char>,
    args: Seq<Arg>,
    arg_types: Seq<TypeView>,
) -> Option<Judged> {
    match class_path(s, target) {
        None => None,
        Some(path) => match static_sig(path, name, args.len()) {
            Some(sig) => Some(native_use(c, s, path, name, sig, arg_types)),
            None => match overload_found(
                c.classes,
                resolved_name(path, c.imports),
                name,
                args.len(),
                known_types(c, s, args),
            ) {
                Some((owner, m)) => if m.is_static {
                    Some(
                        match member_access(c, m.visibility, owner, name) {
                            Err(e) => Err(e),
                            Ok(_) => method_use(c, s, m, args),
                        },
                    )
                } else {
                    None
                },
                None => None,
            },
        },
    }
}

/// The type of a call of an array's method.
#[verifier::opaque]
pub open spec fn array_use(
    t: Classes,
    elem: TypeView,
    name: Seq<char>,
    argc: nat,
    arg_types: Seq<TypeView>,
) -> Judged {
    if name == "length"@ && argc == 0 {
        Ok(TypeView::Int)
    } else if name == "slice"@ && argc == 2 {
        match all_ints(t, arg_types, 0) {
            Err(e) => Err(e),
            Ok(_) => Ok(TypeView::Array(Box::new(elem))),
        }
    } else if name == "filter"@ && argc == 1 {
        Ok(TypeView::Array(Box::new(elem)))
    } else if name == "find"@ && argc == 1 {
        Ok(TypeView::Union(seq![elem, TypeView::NullT]))
    } else {
        Ok(TypeView::Void)
    }
}

pub open spec fn all_ints(t: Classes, values: Seq<TypeView>, i: int) -> Checked
    decreases values.len() - i,
{
    if i < 0 || i >= values.len() {
        Ok(())
    } else {
        match assignment(t, values[i], TypeView::Int) {
            Err(e) => Err(e),
            Ok(_) => all_ints(t, values, i + 1),
        }
    }
}

fn check_all_ints(c: &MethodEnv, values: &Vec<Type>) -> (r: Result<(), SemaError>)
    ensures
        checked_as(r, all_ints(c@.classes, type_views(values@), 0)),
{
    let ghost vs = type_views(values@);
    let ghost whole = all_ints(c@.classes, vs, 0);
    let mut i: usize = 0;
    while i < values.len()
        invariant
            i <= values@.len(),
            vs == type_views(values@),
            whole == all_ints(c@.classes, vs, 0),
            whole == all_ints(c@.classes, vs, i as int),
        decreases values@.len() - i,
    {
        assert(vs[i as int] == values@[i as int]@);
        check_assignable(c.classes, &values[i], &Type::Int)?;
        i = i + 1;
    }
    Ok(())
}

fn check_array_method(c: &MethodEnv, elem: &Type, name: &str, argc: usize, arg_types: &Vec<Type>) -> (
    r: Result<Type, SemaError>)
    ensures
        judged_as(
            r,
            array_use(c@.classes, elem@, name@, argc as nat, type_views(arg_types@)),
        ),
{
    reveal(array_use);
    if str_eq(name, "length") && argc == 0 {
        return Ok(Type::Int);
    }
    if str_eq(name, "slice") && argc == 2 {
        check_all_ints(c, arg_types)?;
        return Ok(Type::Array(Box::new(clone_type(elem))));
    }
    if str_eq(name, "filter") && argc == 1 {
        return Ok(Type::Array(Box::new(clone_type(elem))));
    }
    if str_eq(name, "find") && argc == 1 {
        let mut parts: Vec<Type> = Vec::new();
        parts.push(clone_type(elem));
        parts.push(Type::NullT);
        assert(type_views(parts@) =~= seq![elem@, TypeView::NullT]);
        return Ok(Type::Union(parts));
    }
    Ok(Type::Void)
}

/// The type of a call of a string's method, which takes the string first.
#[verifier::opaque]
pub open spec fn string_use(
    t: Classes,
    name: Seq<char>,
    argc: nat,
    arg_types: Seq<TypeView>,
) -> Judged {
    match static_sig("system.String"@, name, argc + 1) {
        Some(sig) => {
            match all_assignable(t, arg_types, sig.0, 1, 0) {
                Err(e) => Err(e),
                Ok(_) => Ok(sig.1),
            }
        },
        None => Ok(TypeView::Void),
    }
}

fn check_string_method(c: &MethodEnv, name: &str, argc: usize, arg_types: &Vec<Type>) -> (r: Result<
    Type,
    SemaError,
>)
    ensures
        judged_as(r, string_use(c@.classes, name@, argc as nat, type_views(arg_types@))),
{
    reveal(string_use);
    if argc == usize::MAX {
        assert(static_sig("system.String"@, name@, argc as nat + 1) is None);
        return Ok(Type::Void);
    }
    match lookup("system.String", name, argc + 1) {
        Some((param_types, return_ty)) => {
            check_all_assignable(c.classes, arg_types, &param_types, 1)?;
            Ok(return_ty)
        },
        None => Ok(Type::Void),
    }
}

/// In a `const` method, and on a variable that may not change, only `const`
/// methods are called.
#[verifier::opaque]
pub open spec fn const_use(
    c: EnvView,
    s: Flow,
    target: Expr,
    m: MethodInfoView,
    name: Seq<char>,
) -> Checked {
    if m.is_const {
        Ok(())
    } else if c.is_const_method && target is This {
        Err(ErrorView::ConstMethodNonConstCall(name))
    } else {
        match target {
            Expr::Ident(var) => match s.lookup(var@) {
                Some((id, _)) => if s.readonly_loop_vars.contains(id) {
                    Err(ErrorView::ConstLoopVariableModification(var@))
                } else if s.const_vars.contains(id) {
                    Err(ErrorView::ConstModification(var@))
                } else {
                    Ok(())
                },
                None => Ok(()),
            },
            _ => Ok(()),
        }
    }
}

/// The type of a call of an object's method.
#[verifier::opaque]
pub open spec fn object_use(
    c: EnvView,
    s: Flow,
    target: Expr,
    fqcn: Seq<char>,
    name: Seq<char>,
    args: Seq<Arg>,
) -> Judged {
    match overload_found(c.classes, fqcn, name, args.len(), known_types(c, s, args)) {
        None => Ok(TypeView::Void),
        Some((owner, m)) => {
            match member_access(c, m.visibility, owner, name) {
                Err(e) => Err(e),
                Ok(_) => match call_args(s, m.param_names, m.is_ref, m.required_count, args) {
                    Err(e) => Err(e),
                    Ok(_) => match const_use(c, s, target, m, name) {
                        Err(e) => Err(e),
                        Ok(_) => match all_handled(c, s, m.throws, 0) {
                            Err(e) => Err(e),
                            Ok(_) => Ok(m.return_ty),
                        },
                    },
                },
            }
        },
    }
}

/// The type of a call of a method on a value.
#[verifier::opaque]
pub open spec fn instance_use(
    c: EnvView,
    s: Flow,
    target: Expr,
    target_ty: TypeView,
    name: Seq<char>,
    args: Seq<Arg>,
    arg_types: Seq<TypeView>,
) -> Judged {
    match target_ty {
        TypeView::Array(elem) => array_use(c.classes, *elem, name, args.len(), arg_types),
        TypeView::StringT => string_use(c.classes, name, args.len(), arg_types),
        TypeView::Named(fqcn) => if native_instance(fqcn) {
            match instance_sig(fqcn, name, args.len()) {
                Some(sig) => native_use(c, s, fqcn, name, sig, arg_types),
                None => Ok(TypeView::Void),
            }
        } else if native_class(c.natives, fqcn) {
            match native_method_sig(c.natives, fqcn, name, args.len()) {
                Some(sig) => {
                    match all_assignable(c.classes, arg_types, sig.0, 0, 0) {
                        Err(e) => Err(e),
                        Ok(_) => Ok(sig.1),
                    }
                },
                None => Ok(TypeView::Void),
            }
        } else {
            object_use(c, s, target, fqcn, name, args)
        },
        _ => Ok(TypeView::Void),
    }
}

/// The arguments from the `p`-th parameter on fit a static method of the
/// class.
pub open spec fn sig_args(
    c: EnvView,
    s: Flow,
    params: Seq<Param>,
    args: Seq<Arg>,
    arg_types: Seq<TypeView>,
    p: int,
) -> Checked
    decreases params.len() - p,
{
    if p < 0 || p >= params.len() {
        Ok(())
    } else {
        match binder(param_names(params), args, p, args.len() as int) {
            Some(j) => {
                match if params[p].is_ref {
                    ref_arg(s, params[p].name@, args[j])
                } else {
                    Ok(())
                } {
                    Err(e) => Err(e),
                    Ok(_) => {
                        match assignment(
                            c.classes,
                            arg_types[j],
                            resolved_type(params[p].ty@, c.imports),
                        ) {
                            Err(e) => Err(e),
                            Ok(_) => sig_args(c, s, params, args, arg_types, p + 1),
                        }
                    },
                }
            },
            None => sig_args(c, s, params, args, arg_types, p + 1),
        }
    }
}

/// The positions, below `n`, of the signatures of `name`.
pub open spec fn sigs_named(sigs: Seq<StaticSigView>, name: Seq<char>, n: int) -> Seq<int>
    decreases n,
{
    if n <= 0 {
        Seq::empty()
    } else if sigs[n - 1].name == name {
        sigs_named(sigs, name, n - 1).push(n - 1)
    } else {
        sigs_named(sigs, name, n - 1)
    }
}

/// The parameters of the signatures at these positions.
pub open spec fn params_at(sigs: Seq<StaticSigView>, at: Seq<int>) -> Seq<Seq<TypeView>> {
    at.map_values(|i: int| sigs[i].param_types)
}

/// How many arguments the signatures at these positions must be given.
pub open spec fn required_at(sigs: Seq<StaticSigView>, at: Seq<int>) -> Seq<nat> {
    at.map_values(|i: int| leading_required(sigs[i].params, 0))
}

/// The signature that a call by a bare name means, or the number of all where
/// there is none of that name.
pub open spec fn sig_pick(
    t: Classes,
    sigs: Seq<StaticSigView>,
    name: Seq<char>,
    argc: nat,
    tys: Seq<Option<TypeView>>,
) -> int {
    let at = sigs_named(sigs, name, sigs.len() as int);
    if at.len() == 0 {
        sigs.len() as int
    } else {
        at[bare_choice(t, params_at(sigs, at), required_at(sigs, at), argc, tys)]
    }
}

pub fn pick_sig(c: &MethodEnv, name: &str, argc: usize, tys: &Vec<Option<Type>>) -> (r: Option<usize>)
    ensures
        ({
            let k = sig_pick(c@.classes, c@.sigs, name@, argc as nat, opt_types(tys@));
            match r {
                Some(i) => i == k && k < c@.sigs.len(),
                None => k == c@.sigs.len(),
            }
        }),
{
    let ghost sigs = c@.sigs;
    let mut at: Vec<usize> = Vec::new();
    let mut lists: Vec<&Vec<Type>> = Vec::new();
    let mut required: Vec<usize> = Vec::new();
    let mut i: usize = 0;
    let ghost mut found: Seq<int> = Seq::empty();
    while i < c.sigs.len()
        invariant
            i <= c.sigs@.len(),
            sigs == c@.sigs,
            sigs.len() == c.sigs@.len(),
            found == sigs_named(sigs, name@, i as int),
            found.len() == at@.len(),
            lists@.len() == at@.len(),
            required@.len() == at@.len(),
            forall|j: int|
                0 <= j < at@.len() ==> found[j] == #[trigger] at@[j] && at@[j] < i && param_lists(
                    lists@,
                )[j] == sigs[at@[j] as int].param_types && required@[j] == leading_required(
                    sigs[at@[j] as int].params,
                    0,
                ),
        decreases c.sigs@.len() - i,
    {
        assert(sigs[i as int] == c.sigs@[i as int]@);
        if str_eq(c.sigs[i].name.as_str(), name) {
            let ghost (at0, lists0) = (at@, lists@);
            at.push(i);
            lists.push(&c.sigs[i].param_types);
            required.push(required_count(c.sigs[i].params));
            proof {
                found = found.push(i as int);
                assert forall|j: int| 0 <= j < at@.len() implies found[j] == #[trigger] at@[j] && at@[j]
                    < i + 1 && param_lists(lists@)[j] == sigs[at@[j] as int].param_types
                    && required@[j] == leading_required(sigs[at@[j] as int].params, 0) by {
                    if j < at0.len() {
                        assert(at@[j] == at0[j]);
                        assert(param_lists(lists@)[j] == param_lists(lists0)[j]);
                    }
                }
            }
        }
        i = i + 1;
    }
    if at.len() == 0 {
        return None;
    }
    proof {
        assert forall|j: int| 0 <= j < found.len() implies param_lists(lists@)[j] == params_at(
            sigs,
            found,
        )[j] && counts(required@)[j] == required_at(sigs, found)[j] by {
            assert(found[j] == at@[j]);
        }
        assert(param_lists(lists@) =~= params_at(sigs, found));
        assert(counts(required@) =~= required_at(sigs, found));
    }
    let k: usize = bare_overload(c.classes, &lists, &required, argc, tys);
    assert(found[k as int] == at@[k as int]);
    Some(at[k])
}

/// The type of a call by a bare name.
#[verifier::opaque]
pub open spec fn sig_use(
    c: EnvView,
    s: Flow,
    name: Seq<char>,
    args: Seq<Arg>,
    arg_types: Seq<TypeView>,
) -> Judged {
    let k = sig_pick(c.classes, c.sigs, name, args.len(), known_types(c, s, args));
    if k >= c.sigs.len() {
        Ok(TypeView::Void)
    } else {
        let sig = c.sigs[k];
        match bindable(param_names(sig.params), leading_required(sig.params, 0), args) {
            Err(e) => Err(e),
            Ok(_) => match sig_args(c, s, sig.params, args, arg_types, 0) {
                Err(e) => Err(e),
                Ok(_) => match all_handled(c, s, sig.throws, 0) {
                    Err(e) => Err(e),
                    Ok(_) => Ok(sig.return_ty),
                },
            },
        }
    }
}

/// The arguments of `this(...)` and `super(...)` are in order.
#[verifier::opaque]
pub open spec fn ctor_args(
    c: EnvView,
    s: Flow,
    fqcn: Seq<char>,
    args: Seq<Arg>,
) -> Checked {
    match ctor_overload(c.classes, fqcn, args.len(), known_types(c, s, args)) {
        Some(k) => call_args(s, k.param_names, k.is_ref, k.required_count, args),
        None => Ok(()),
    }
}

/// The type of a new object.
#[verifier::opaque]
pub open spec fn new_use(
    c: EnvView,
    s: Flow,
    class: Seq<char>,
    args: Seq<Arg>,
) -> Judged {
    let fqcn = resolved_name(class, c.imports);
    if bound_to(c.classes, fqcn) matches Some(info) && info.is_abstract {
        Err(ErrorView::InstantiateAbstractClass(fqcn))
    } else {
        match ctor_overload(c.classes, fqcn, args.len(), known_types(c, s, args)) {
            None => Ok(TypeView::Named(fqcn)),
            Some(k) => {
                match member_access(c, k.visibility, fqcn, "<construct>"@) {
                    Err(e) => Err(e),
                    Ok(_) => match call_args(s, k.param_names, k.is_ref, k.required_count, args) {
                        Err(e) => Err(e),
                        Ok(_) => match all_handled(c, s, k.throws, 0) {
                            Err(e) => Err(e),
                            Ok(_) => Ok(TypeView::Named(fqcn)),
                        },
                    },
                }
            },
        }
    }
}

/// The type of a variable, which has a value for sure.
#[verifier::opaque]
pub open spec fn variable(s: Flow, name: Seq<char>) -> Judged {
    match s.lookup(name) {
        None => Ok(TypeView::Void),
        Some((id, ty)) => if !s.assigned.contains(id) {
            Err(ErrorView::NotDefinitelyAssigned(name))
        } else {
            Ok(s.known_type(id, ty))
        },
    }
}

/// A variable that may be written.
pub open spec fn mutable(s: Flow, id: u32, name: Seq<char>) -> Checked {
    if s.readonly_loop_vars.contains(id) {
        Err(ErrorView::ConstLoopVariableModification(name))
    } else if s.const_vars.contains(id) {
        Err(ErrorView::ConstModification(name))
    } else {
        Ok(())
    }
}

/// The type of a variable that is counted up or down.
#[verifier::opaque]
pub open spec fn counted(s: Flow, name: Seq<char>) -> Judged {
    match s.lookup(name) {
        None => Ok(TypeView::Int),
        Some((id, ty)) => if !s.assigned.contains(id) {
            Err(ErrorView::NotDefinitelyAssigned(name))
        } else {
            match mutable(s, id, name) {
                Err(e) => Err(e),
                Ok(_) => Ok(ty),
            }
        },
    }
}

/// A value is assigned to a variable, which then has one, and no other type
/// than the declared one.
#[verifier::opaque]
pub open spec fn stored(c: EnvView, s: Flow, name: Seq<char>, value: TypeView) -> Result<
    (TypeView, Flow),
    ErrorView,
> {
    match s.lookup(name) {
        None => Ok((value, s)),
        Some((id, ty)) => {
            match mutable(s, id, name) {
                Err(e) => Err(e),
                Ok(_) => match assignment(c.classes, value, ty) {
                    Err(e) => Err(e),
                    Ok(_) => Ok((ty, s.assign(id).forget(id))),
                },
            }
        },
    }
}

/// A value is assigned to a field.
#[verifier::opaque]
pub open spec fn field_stored(
    c: EnvView,
    target: Expr,
    target_ty: TypeView,
    name: Seq<char>,
    value: TypeView,
) -> Judged {
    match target_ty {
        TypeView::Named(fqcn) => match field_type(c.classes, fqcn, name) {
            None => Ok(value),
            Some(ty) => {
                match field_access(c, fqcn, name) {
                    Err(e) => Err(e),
                    Ok(_) => match writable(c, target, fqcn, name) {
                        Err(e) => Err(e),
                        Ok(_) => match assignment(c.classes, value, ty) {
                            Err(e) => Err(e),
                            Ok(_) => Ok(ty),
                        },
                    },
                }
            },
        },
        _ => Ok(value),
    }
}

pub fn check_field_store(
    c: &MethodEnv,
    target: &Expr,
    target_ty: &Type,
    name: &str,
    value: Type,
) -> (r: Result<Type, SemaError>)
    ensures
        judged_as(r, field_stored(c@, *target, target_ty@, name@, value@)),
{
    reveal(field_stored);
    let fqcn = match target_ty {
        Type::Named(fqcn) => fqcn,
        _ => return Ok(value),
    };
    let ty = match declared_field_ty(c.classes, fqcn.as_str(), name) {
        Some(ty) => ty,
        None => return Ok(value),
    };
    check_field_access(c, fqcn.as_str(), name)?;
    check_readonly(c, target, fqcn.as_str(), name)?;
    check_assignable(c.classes, &value, &ty)?;
    Ok(ty)
}

/// A value is assigned to an element of an array.
#[verifier::opaque]
pub open spec fn element_stored(c: EnvView, target_ty: TypeView, value: TypeView) -> Judged {
    match target_ty {
        TypeView::Array(elem) => {
            match assignment(c.classes, value, *elem) {
                Err(e) => Err(e),
                Ok(_) => Ok(*elem),
            }
        },
        _ => Ok(value),
    }
}

pub fn check_element_store(c: &MethodEnv, target_ty: Type, value: Type) -> (r: Result<
    Type,
    SemaError,
>)
    ensures
        judged_as(r, element_stored(c@, target_ty@, value@)),
{
    reveal(element_stored);
    match target_ty {
        Type::Array(elem) => {
            check_assignable(c.classes, &value, &elem)?;
            Ok(*elem)
        },
        _ => Ok(value),
    }
}

/// The type of what a loop over a collection goes through.
pub open spec fn iterated(c: EnvView, t: TypeView) -> TypeView {
    match t {
        TypeView::Array(elem) => *elem,
        TypeView::Named(fqcn) => or_void(element_type(c.natives, fqcn)),
        _ => TypeView::Void,
    }
}

pub fn iterated_ty(c: &MethodEnv, ty: &Type) -> (r: Type)
    ensures
        r@ == iterated(c@, ty@),
{
    match ty {
        Type::Array(elem) => clone_type(elem),
        Type::Named(fqcn) => type_or_void(foreach_element_ty(c.natives, fqcn.as_str())),
        _ => Type::Void,
    }
}

/// Whether a collection may not change while a loop goes through it.
#[verifier::opaque]
pub open spec fn readonly_collection(c: EnvView, s: Flow, e: Expr) -> bool {
    match e {
        Expr::FieldAccess(target, _) => c.is_const_method && *target is This,
        Expr::Ident(name) => match s.lookup(name@) {
            Some((id, _)) => s.const_vars.contains(id),
            None => false,
        },
        _ => false,
    }
}

/// The type of a receiver, as far as it is seen without checking it.
pub open spec fn receiver_type(c: EnvView, s: Flow, e: Expr) -> Option<TypeView>
    decreases e,
{
    match e {
        Expr::This => this_type(c),
        Expr::Ident(name) => match s.lookup(name@) {
            Some((id, ty)) => Some(s.known_type(id, ty)),
            None => None,
        },
        Expr::FieldAccess(target, name) => match receiver_type(c, s, *target) {
            Some(TypeView::Named(fqcn)) => field_type(c.classes, fqcn, name@),
            _ => None,
        },
        Expr::New(class, _, _) => Some(TypeView::Named(resolved_name(class@, c.imports))),
        Expr::MethodCall(target, name, args) => match receiver_type(c, s, *target) {
            Some(TypeView::Named(fqcn)) => return_type(c.classes, fqcn, name@, args@.len()),
            _ => None,
        },
        _ => None,
    }
}

/// Whether the method that a call is bound to gives a value that must not be
/// discarded.
pub open spec fn keeps_result(t: Classes, fqcn: Seq<char>, name: Seq<char>, argc: nat) -> bool {
    match called_method(t, fqcn, name, argc) {
        Some((_, m)) => m.is_nodiscard,
        None => false,
    }
}

fn must_keep_result(c: &MethodEnv, fqcn: &str, name: &str, argc: usize) -> (r: bool)
    ensures
        r == keeps_result(c@.classes, fqcn@, name@, argc as nat),
{
    match find_method_owner(c.classes, fqcn, name, argc) {
        Some((_, m)) => m.is_nodiscard,
        None => false,
    }
}

/// The name of such a method, where an expression calls one.
#[verifier::opaque]
pub open spec fn nodiscard_name(c: EnvView, s: Flow, e: Expr) -> Option<Seq<char>> {
    match e {
        Expr::Call(name, args) => if keeps_result(
            c.classes,
            c.this_fqcn,
            name@,
            args@.len(),
        ) {
            Some(name@)
        } else {
            None
        },
        Expr::MethodCall(target, name, args) => match receiver_type(c, s, *target) {
            Some(TypeView::Named(fqcn)) => if keeps_result(c.classes, fqcn, name@, args@.len()) {
                Some(name@)
            } else {
                None
            },
            _ => None,
        },
        _ => None,
    }
}

/// Whether an expression ends the program.
#[verifier::opaque]
pub open spec fn exits(s: Flow, e: Expr) -> bool {
    match e {
        Expr::MethodCall(target, name, _) => name@ == "exit"@ && path_of(*target) == Some(
            "system.ps.Process"@,
        ) && s.lookup("system"@) is None,
        _ => false,
    }
}

/// The first handler before the `j`-th, from the `i`-th on, that leaves it
/// nothing to catch; else `j`.
pub open spec fn shadowing(c: EnvView, catches: Seq<CatchClause>, j: int, i: int) -> int
    decreases j - i,
{
    if i >= j {
        j
    } else if subclass(
        c.classes,
        resolved_name(catches[j].ty@, c.imports),
        resolved_name(catches[i].ty@, c.imports),
    ) {
        i
    } else {
        shadowing(c, catches, j, i + 1)
    }
}

/// Each handler from the `j`-th on can be reached.
pub open spec fn catches_reached(c: EnvView, catches: Seq<CatchClause>, j: int) -> Checked
    decreases catches.len() - j,
{
    if j < 0 || j >= catches.len() {
        Ok(())
    } else {
        let i = shadowing(c, catches, j, 0);
        if i < j {
            Err(ErrorView::UnreachableCatch(catches[j].ty@, catches[i].ty@))
        } else {
            catches_reached(c, catches, j + 1)
        }
    }
}

pub fn check_catches_reached(c: &MethodEnv, catches: &Vec<CatchClause>) -> (r: Result<
    (),
    SemaError,
>)
    ensures
        checked_as(r, catches_reached(c@, catches@, 0)),
{
    let ghost whole = catches_reached(c@, catches@, 0);
    let mut j: usize = 0;
    while j < catches.len()
        invariant
            j <= catches@.len(),
            whole == catches_reached(c@, catches@, 0),
            whole == catches_reached(c@, catches@, j as int),
        decreases catches@.len() - j,
    {
        let later = resolve_name(catches[j].ty.as_str(), c.imports);
        let mut i: usize = 0;
        while i < j
            invariant
                i <= j < catches@.len(),
                later@ == resolved_name(catches@[j as int].ty@, c@.imports),
                whole == catches_reached(c@, catches@, 0),
                whole == catches_reached(c@, catches@, j as int),
                shadowing(c@, catches@, j as int, 0) == shadowing(
                    c@,
                    catches@,
                    j as int,
                    i as int,
                ),
            decreases j - i,
        {
            let earlier = resolve_name(catches[i].ty.as_str(), c.imports);
            if is_subclass_or_same(c.classes, later.as_str(), earlier.as_str()) {
                return Err(
                    SemaError::UnreachableCatch(catches[j].ty.clone(), catches[i].ty.clone()),
                );
            }
            i = i + 1;
        }
        j = j + 1;
    }
    Ok(())
}

/// The classes that handlers catch.
pub open spec fn catch_classes(c: EnvView, catches: Seq<CatchClause>) -> Seq<Seq<char>> {
    catches.map_values(|k: CatchClause| resolved_name(k.ty@, c.imports))
}

pub fn catch_types(c: &MethodEnv, catches: &Vec<CatchClause>) -> (r: Vec<String>)
    ensures
        texts(r@) == catch_classes(c@, catches@),
{
    let mut out: Vec<String> = Vec::new();
    let mut i: usize = 0;
    while i < catches.len()
        invariant
            i <= catches@.len(),
            out@.len() == i,
            forall|j: int|
                0 <= j < i ==> (#[trigger] out@[j])@ == resolved_name(
                    catches@[j].ty@,
                    c@.imports,
                ),
        decreases catches@.len() - i,
    {
        out.push(resolve_name(catches[i].ty.as_str(), c.imports));
        i = i + 1;
    }
    assert(texts(out@) =~= catch_classes(c@, catches@));
    out
}

fn check_mutable(s: &MethodChecker, id: u32, name: &str) -> (r: Result<(), SemaError>)
    ensures
        checked_as(r, mutable(s@, id, name@)),
{
    if s.readonly_loop_vars.contains(id) {
        Err(SemaError::ConstLoopVariableModification(owned(name)))
    } else if s.const_vars.contains(id) {
        Err(SemaError::ConstModification(owned(name)))
    } else {
        Ok(())
    }
}

impl MethodChecker {
    fn class_path_of(&self, target: &Expr) -> (r: Option<String>)
        ensures
            opt_string(r) == class_path(self@, *target),
    {
        match dotted_path(target) {
            Some(path) => {
                let leading = head(path.as_str(), '.');
                if self.resolve(leading.as_str()).is_none() {
                    Some(path)
                } else {
                    None
                }
            },
            None => None,
        }
    }

    pub fn static_member_ty(&self, c: &MethodEnv, target: &Expr, name: &str) -> (r: Option<Type>)
        ensures
            opt_type(r) == static_member(c@, self@, *target, name@),
    {
        reveal(static_member);
        let path = match self.class_path_of(target) {
            Some(path) => path,
            None => return None,
        };
        if let Some(t) = enum_const_ty(path.as_str(), name) {
            return Some(t);
        }
        let fqcn = resolve_name(path.as_str(), c.imports);
        match c.classes.get(fqcn.as_str()) {
            Some(info) => if info.is_enum && holds(&info.enum_cases, name) {
                Some(Type::Named(fqcn))
            } else {
                None
            },
            None => None,
        }
    }

    fn check_native_use(
        &self,
        c: &MethodEnv,
        class: &str,
        name: &str,
        sig: (Vec<Type>, Type),
        arg_types: &Vec<Type>,
    ) -> (r: Result<Type, SemaError>)
        ensures
            judged_as(
                r,
                native_use(
                    c@,
                    self@,
                    class@,
                    name@,
                    (type_views(sig.0@), sig.1@),
                    type_views(arg_types@),
                ),
            ),
    {
        reveal(native_use);
        check_all_assignable(c.classes, arg_types, &sig.0, 0)?;
        let excs = throws(class, name);
        self.require_names_handled(c, &excs)?;
        Ok(sig.1)
    }

    fn check_method_use(&self, c: &MethodEnv, m: &MethodInfo, args: &Vec<Arg>) -> (r: Result<
        Type,
        SemaError,
    >)
        ensures
            judged_as(r, method_use(c@, self@, m@, args@)),
    {
        reveal(method_use);
        self.check_call_args(&m.param_names, &m.is_ref, m.required_count, args)?;
        self.require_all_handled(c, &m.throws)?;
        Ok(clone_type(&m.return_ty))
    }

    pub fn check_static_use(
        &self,
        c: &MethodEnv,
        target: &Expr,
        name: &str,
        args: &Vec<Arg>,
        arg_types: &Vec<Type>,
    ) -> (r: Option<Result<Type, SemaError>>)
        ensures
            match r {
                Some(u) => static_use(
                    c@,
                    self@,
                    *target,
                    name@,
                    args@,
                    type_views(arg_types@),
                ) matches Some(want) && judged_as(u, want),
                None => static_use(
                    c@,
                    self@,
                    *target,
                    name@,
                    args@,
                    type_views(arg_types@),
                ) is None,
            },
    {
        reveal(static_use);
        let path = match self.class_path_of(target) {
            Some(path) => path,
            None => return None,
        };
        if let Some(sig) = lookup(path.as_str(), name, args.len()) {
            return Some(self.check_native_use(c, path.as_str(), name, sig, arg_types));
        }
        let fqcn = resolve_name(path.as_str(), c.imports);
        match find_method_owner_overload(
            c.classes,
            fqcn.as_str(),
            name,
            args.len(),
            &overload_arg_tys(&c.site(), &self.typings, args),
        ) {
            Some((owner, m)) => if m.is_static {
                match check_member_access(c, m.visibility, owner.as_str(), name) {
                    Err(e) => Some(Err(e)),
                    Ok(_) => Some(self.check_method_use(c, m, args)),
                }
            } else {
                None
            },
            None => None,
        }
    }

    fn check_const_use(&self, c: &MethodEnv, target: &Expr, m: &MethodInfo, name: &str) -> (r: Result<
        (),
        SemaError,
    >)
        ensures
            checked_as(r, const_use(c@, self@, *target, m@, name@)),
    {
        reveal(const_use);
        if m.is_const {
            return Ok(());
        }
        if c.is_const_method && matches!(target, Expr::This) {
            return Err(SemaError::ConstMethodNonConstCall(owned(name)));
        }
        if let Expr::Ident(var) = target {
            if let Some((id, _)) = self.resolve(var.as_str()) {
                return check_mutable(self, id, var.as_str());
            }
        }
        Ok(())
    }

    fn check_object_use(
        &self,
        c: &MethodEnv,
        target: &Expr,
        fqcn: &str,
        name: &str,
        args: &Vec<Arg>,
    ) -> (r: Result<Type, SemaError>)
        ensures
            judged_as(r, object_use(c@, self@, *target, fqcn@, name@, args@)),
    {
        reveal(object_use);
        match find_method_owner_overload(
            c.classes,
            fqcn,
            name,
            args.len(),
            &overload_arg_tys(&c.site(), &self.typings, args),
        ) {
            None => Ok(Type::Void),
            Some((owner, m)) => {
                check_member_access(c, m.visibility, owner.as_str(), name)?;
                self.check_call_args(&m.param_names, &m.is_ref, m.required_count, args)?;
                self.check_const_use(c, target, m, name)?;
                self.require_all_handled(c, &m.throws)?;
                Ok(clone_type(&m.return_ty))
            },
        }
    }

    fn check_native_class_use(
        &self,
        c: &MethodEnv,
        fqcn: &str,
        name: &str,
        argc: usize,
        arg_types: &Vec<Type>,
    ) -> (r: Result<Type, SemaError>)
        ensures
            judged_as(
                r,
                match native_method_sig(c@.natives, fqcn@, name@, argc as nat) {
                    Some(sig) => match all_assignable(
                        c@.classes,
                        type_views(arg_types@),
                        sig.0,
                        0,
                        0,
                    ) {
                        Err(e) => Judged::Err(e),
                        Ok(_) => Judged::Ok(sig.1),
                    },
                    None => Judged::Ok(TypeView::Void),
                },
            ),
    {
        match method_signature(c.natives, fqcn, name, argc) {
            Some((param_types, return_ty)) => {
                check_all_assignable(c.classes, arg_types, &param_types, 0)?;
                Ok(return_ty)
            },
            None => Ok(Type::Void),
        }
    }

    pub fn check_instance_use(
        &self,
        c: &MethodEnv,
        target: &Expr,
        target_ty: &Type,
        name: &str,
        args: &Vec<Arg>,
        arg_types: &Vec<Type>,
    ) -> (r: Result<Type, SemaError>)
        ensures
            judged_as(
                r,
                instance_use(
                    c@,
                    self@,
                    *target,
                    target_ty@,
                    name@,
                    args@,
                    type_views(arg_types@),
                ),
            ),
    {
        reveal(instance_use);
        match target_ty {
            Type::Array(elem) => check_array_method(c, elem, name, args.len(), arg_types),
            Type::StringT => check_string_method(c, name, args.len(), arg_types),
            Type::Named(fqcn) => if is_native_instance(fqcn.as_str()) {
                match instance_lookup(fqcn.as_str(), name, args.len()) {
                    Some(sig) => self.check_native_use(c, fqcn.as_str(), name, sig, arg_types),
                    None => Ok(Type::Void),
                }
            } else if is_instance(c.natives, fqcn.as_str()) {
                self.check_native_class_use(c, fqcn.as_str(), name, args.len(), arg_types)
            } else {
                self.check_object_use(c, target, fqcn.as_str(), name, args)
            },
            _ => Ok(Type::Void),
        }
    }

    fn check_sig_args(
        &self,
        c: &MethodEnv,
        params: &Vec<Param>,
        binding: &Vec<Option<usize>>,
        args: &Vec<Arg>,
        arg_types: &Vec<Type>,
    ) -> (r: Result<(), SemaError>)
        requires
            binds(binding@, param_names(params@), args@),
            arg_types@.len() == args@.len(),
        ensures
            checked_as(r, sig_args(c@, self@, params@, args@, type_views(arg_types@), 0)),
    {
        let ghost ts = type_views(arg_types@);
        let ghost ns = param_names(params@);
        let ghost whole = sig_args(c@, self@, params@, args@, ts, 0);
        let mut p: usize = 0;
        while p < params.len()
            invariant
                p <= params@.len(),
                ts == type_views(arg_types@),
                ns == param_names(params@),
                binds(binding@, ns, args@),
                arg_types@.len() == args@.len(),
                whole == sig_args(c@, self@, params@, args@, ts, 0),
                whole == sig_args(c@, self@, params@, args@, ts, p as int),
            decreases params@.len() - p,
        {
            assert(ns.len() == params@.len());
            assert(bound_as(binding@[p as int], ns, args@, p as int));
            if let Some(j) = binding[p] {
                if params[p].is_ref {
                    self.check_ref_arg(params[p].name.as_str(), &args[j])?;
                }
                assert(ts[j as int] == arg_types@[j as int]@);
                let expected = resolve_type(&params[p].ty, c.imports);
                check_assignable(c.classes, &arg_types[j], &expected)?;
            }
            p = p + 1;
        }
        Ok(())
    }

    pub(crate) fn check_sig_use(
        &self,
        c: &MethodEnv,
        name: &str,
        args: &Vec<Arg>,
        arg_types: &Vec<Type>,
    ) -> (r: Result<Type, SemaError>)
        requires
            arg_types@.len() == args@.len(),
        ensures
            judged_as(r, sig_use(c@, self@, name@, args@, type_views(arg_types@))),
    {
        reveal(sig_use);
        let tys = overload_arg_tys(&c.site(), &self.typings, args);
        let sig = match pick_sig(c, name, args.len(), &tys) {
            Some(k) => &c.sigs[k],
            None => return Ok(Type::Void),
        };
        assert(c@.sigs[sig_pick(c@.classes, c@.sigs, name@, args@.len(), known_types(c@, self@, args@))]
            == sig@);
        let names = param_names_of(sig.params);
        let binding = bind_call_args(&names, required_count(sig.params), args)?;
        self.check_sig_args(c, sig.params, &binding, args, arg_types)?;
        self.require_all_handled(c, &sig.throws)?;
        Ok(clone_type(&sig.return_ty))
    }

    pub fn check_ctor_args(
        &self,
        c: &MethodEnv,
        fqcn: &str,
        args: &Vec<Arg>,
    ) -> (r: Result<(), SemaError>)
        ensures
            checked_as(r, ctor_args(c@, self@, fqcn@, args@)),
    {
        reveal(ctor_args);
        match find_ctor_overload(
            c.classes,
            fqcn,
            args.len(),
            &overload_arg_tys(&c.site(), &self.typings, args),
        ) {
            Some(k) => self.check_call_args(&k.param_names, &k.is_ref, k.required_count, args),
            None => Ok(()),
        }
    }

    pub fn check_new(
        &self,
        c: &MethodEnv,
        class: &str,
        args: &Vec<Arg>,
    ) -> (r: Result<Type, SemaError>)
        ensures
            judged_as(r, new_use(c@, self@, class@, args@)),
    {
        reveal(new_use);
        let fqcn = resolve_name(class, c.imports);
        if let Some(info) = c.classes.get(fqcn.as_str()) {
            if info.is_abstract {
                return Err(SemaError::InstantiateAbstractClass(fqcn));
            }
        }
        if let Some(k) = find_ctor_overload(
            c.classes,
            fqcn.as_str(),
            args.len(),
            &overload_arg_tys(&c.site(), &self.typings, args),
        ) {
            check_member_access(c, k.visibility, fqcn.as_str(), "<construct>")?;
            self.check_call_args(&k.param_names, &k.is_ref, k.required_count, args)?;
            self.require_all_handled(c, &k.throws)?;
        }
        Ok(Type::Named(fqcn))
    }

    pub fn check_variable(&self, name: &str) -> (r: Result<Type, SemaError>)
        ensures
            judged_as(r, variable(self@, name@)),
    {
        reveal(variable);
        let (id, ty) = match self.resolve(name) {
            Some(found) => found,
            None => return Ok(Type::Void),
        };
        if !self.assigned.contains(id) {
            return Err(SemaError::NotDefinitelyAssigned(owned(name)));
        }
        Ok(self.known_ty(id, ty))
    }

    pub fn check_counted(&self, name: &str) -> (r: Result<Type, SemaError>)
        ensures
            judged_as(r, counted(self@, name@)),
    {
        reveal(counted);
        let (id, ty) = match self.resolve(name) {
            Some(found) => found,
            None => return Ok(Type::Int),
        };
        if !self.assigned.contains(id) {
            return Err(SemaError::NotDefinitelyAssigned(owned(name)));
        }
        check_mutable(self, id, name)?;
        Ok(ty)
    }

    pub fn check_store(&mut self, c: &MethodEnv, name: &str, value: Type) -> (r: Result<
        Type,
        SemaError,
    >)
        ensures
            match r {
                Ok(t) => stored(c@, old(self)@, name@, value@) == Ok::<(TypeView, Flow), ErrorView>(
                    (t@, final(self)@),
                ),
                Err(e) => stored(c@, old(self)@, name@, value@) == Err::<
                    (TypeView, Flow),
                    ErrorView,
                >(e@) && final(self)@ == old(self)@,
            },
            r is Ok ==> settles(old(self)@, final(self)@),
    {
        reveal(stored);
        broadcast use crate::sema::flow::group_flow;

        let (id, ty) = match self.resolve(name) {
            Some(found) => found,
            None => return Ok(value),
        };
        check_mutable(self, id, name)?;
        check_assignable(c.classes, &value, &ty)?;
        self.assign(id);
        self.forget(id);
        Ok(ty)
    }

    pub fn is_readonly_collection(&self, c: &MethodEnv, e: &Expr) -> (r: bool)
        ensures
            r == readonly_collection(c@, self@, *e),
    {
        reveal(readonly_collection);
        match e {
            Expr::FieldAccess(target, _) => c.is_const_method && matches!(**target, Expr::This),
            Expr::Ident(name) => match self.resolve(name.as_str()) {
                Some((id, _)) => self.const_vars.contains(id),
                None => false,
            },
            _ => false,
        }
    }

    fn simple_receiver_ty(&self, c: &MethodEnv, e: &Expr) -> (r: Option<Type>)
        ensures
            opt_type(r) == receiver_type(c@, self@, *e),
        decreases e,
    {
        match e {
            Expr::This => if c.is_static {
                None
            } else {
                Some(Type::Named(c.this_fqcn.clone()))
            },
            Expr::Ident(name) => match self.resolve(name.as_str()) {
                Some((id, ty)) => Some(self.known_ty(id, ty)),
                None => None,
            },
            Expr::FieldAccess(target, name) => match self.simple_receiver_ty(c, target) {
                Some(Type::Named(fqcn)) => declared_field_ty(
                    c.classes,
                    fqcn.as_str(),
                    name.as_str(),
                ),
                _ => None,
            },
            Expr::New(class, _, _) => Some(
                Type::Named(resolve_name(class.as_str(), c.imports)),
            ),
            Expr::MethodCall(target, name, args) => match self.simple_receiver_ty(c, target) {
                Some(Type::Named(fqcn)) => method_return_ty(
                    c.classes,
                    fqcn.as_str(),
                    name.as_str(),
                    args.len(),
                ),
                _ => None,
            },
            _ => None,
        }
    }

    pub fn nodiscard_call_name(&self, c: &MethodEnv, e: &Expr) -> (r: Option<String>)
        ensures
            opt_string(r) == nodiscard_name(c@, self@, *e),
    {
        reveal(nodiscard_name);
        match e {
            Expr::Call(name, args) => if must_keep_result(
                c,
                c.this_fqcn.as_str(),
                name.as_str(),
                args.len(),
            ) {
                Some(name.clone())
            } else {
                None
            },
            Expr::MethodCall(target, name, args) => match self.simple_receiver_ty(c, target) {
                Some(Type::Named(fqcn)) => if must_keep_result(
                    c,
                    fqcn.as_str(),
                    name.as_str(),
                    args.len(),
                ) {
                    Some(name.clone())
                } else {
                    None
                },
                _ => None,
            },
            _ => None,
        }
    }

    pub fn is_exit(&self, e: &Expr) -> (r: bool)
        ensures
            r == exits(self@, *e),
    {
        reveal(exits);
        match e {
            Expr::MethodCall(target, name, _) => {
                if !str_eq(name.as_str(), "exit") {
                    return false;
                }
                match dotted_path(target) {
                    Some(path) => str_eq(path.as_str(), "system.ps.Process") && self.resolve(
                        "system",
                    ).is_none(),
                    None => false,
                }
            },
            _ => false,
        }
    }
}

} // verus!
