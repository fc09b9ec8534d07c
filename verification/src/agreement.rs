//! What the check of a program and the code generated for it agree on: which
//! method a call means.

use crate::ast::{Arg, ClosureBody, Expr, MethodDecl, Param, Stmt, Type, TypeView};
use crate::bytecode::constant_pool::EntryView;
use crate::class_table::{
    bare_choice, ctor_overload, leading_required, overload_found, param_names, taking, Classes,
};
use crate::codegen::emitter::{CxView, MethodSigView};
use crate::codegen::expr_ty::expr_ty;
use crate::codegen::lowered::closure_cx;
use crate::codegen::overload::{arg_types, own_statics, sig_params, sig_required, static_pick};
use crate::codegen::program::{callable, method_cx, overloads_of, static_methods, ClassCxView};
use crate::codegen::vars::CaptureView;
use crate::laws::choice_is_made;
use crate::names::bound_to_push;
use crate::probe::{cast, item_type, with_params, TypingsView};
use crate::sema::checked::{
    expr_checked, loop_entered, param_declared, params_declared, stmt_checked,
};
use crate::sema::flow::{flow_start, Flow};
use crate::sema::members::{known_types, params_at, required_at, sig_pick, sigs_named};
use crate::sema::program::static_sigs;
use crate::sema::rules::{EnvView, StaticSigView};
use crate::sema::sight::{expr_declares_nothing, statement_declares_its_own};
use vstd::prelude::*;

verus! {

/// Whether a place in the code is looked at like one in the check: in the
/// same class, with the same variables in sight.
pub open spec fn same_place(c: CxView, e: EnvView, f: Flow) -> bool {
    c.site() == e.site() && c.typings == f.typings
}

/// A call of a method of a class, on an object or through the name of the
/// class, means in the code the method that was checked; a call of a
/// constructor, by `new`, `this` or `super`, the constructor that was checked.
pub proof fn call_means_the_method_checked(
    c: CxView,
    e: EnvView,
    f: Flow,
    fqcn: Seq<char>,
    name: Seq<char>,
    args: Seq<Arg>,
)
    requires
        same_place(c, e, f),
    ensures
        arg_types(c, args) == known_types(e, f, args),
        overload_found(c.classes, fqcn, name, args.len(), arg_types(c, args)) == overload_found(
            e.classes,
            fqcn,
            name,
            args.len(),
            known_types(e, f, args),
        ),
        ctor_overload(c.classes, fqcn, args.len(), arg_types(c, args)) == ctor_overload(
            e.classes,
            fqcn,
            args.len(),
            known_types(e, f, args),
        ),
{
    assert(c.site().classes == e.site().classes);
}

/// Whether a static method is compiled by the signature by which it is
/// checked.
pub open spec fn same_signature(m: MethodSigView, g: StaticSigView) -> bool {
    &&& m.params == g.param_types
    &&& m.param_names == param_names(g.params)
    &&& m.required_count == leading_required(g.params, 0)
    &&& m.return_ty == expr_ty(g.return_ty)
}

proof fn named_in_prefix(a: Seq<StaticSigView>, b: Seq<StaticSigView>, name: Seq<char>, n: int)
    requires
        n <= a.len(),
        n <= b.len(),
        forall|i: int| 0 <= i < n ==> a[i] == b[i],
    ensures
        sigs_named(a, name, n) == sigs_named(b, name, n),
    decreases n,
{
    if n > 0 {
        named_in_prefix(a, b, name, n - 1);
    }
}

proof fn statics_correspond(
    cp: Seq<EntryView>,
    this_class: u16,
    ms: Seq<MethodDecl>,
    imports: Seq<(Seq<char>, Seq<char>)>,
    name: Seq<char>,
    n: int,
)
    ensures
        ({
            let sigs = static_sigs(ms, imports, n);
            let at = sigs_named(sigs, name, sigs.len() as int);
            let own = overloads_of(static_methods(cp, this_class, ms, imports, n).1, name);
            own.len() == at.len() && forall|j: int|
                0 <= j < at.len() ==> 0 <= #[trigger] at[j] < sigs.len() && sigs[at[j]].name == name
                    && same_signature(own[j], sigs[at[j]])
        }),
    decreases n,
{
    if n > 0 {
        statics_correspond(cp, this_class, ms, imports, name, n - 1);
        let m = ms[n - 1];
        let before = static_sigs(ms, imports, n - 1);
        let sigs = static_sigs(ms, imports, n);
        if callable(m) {
            let table = static_methods(cp, this_class, ms, imports, n - 1).1;
            let after = static_methods(cp, this_class, ms, imports, n).1;
            let at0 = sigs_named(before, name, before.len() as int);
            let at = sigs_named(sigs, name, sigs.len() as int);
            named_in_prefix(sigs, before, name, before.len() as int);
            bound_to_push(table, m.name@, after.last().1, name);
            assert(after =~= table.push((m.name@, after.last().1)));
            if m.name@ == name {
                assert(at =~= at0.push(before.len() as int));
                let own = overloads_of(after, name);
                assert forall|j: int| 0 <= j < at.len() implies 0 <= #[trigger] at[j] < sigs.len()
                    && sigs[at[j]].name == name && same_signature(own[j], sigs[at[j]]) by {
                    if j < at0.len() {
                        assert(at[j] == at0[j]);
                        assert(sigs[at0[j]] == before[at0[j]]);
                    }
                }
            } else {
                assert(at =~= at0);
                assert forall|j: int| 0 <= j < at.len() implies sigs[#[trigger] at[j]]
                    == before[at[j]] by {}
            }
        }
    }
}

proof fn taking_in_range(params: Seq<Seq<TypeView>>, required: Seq<nat>, argc: nat, n: int)
    ensures
        forall|j: int|
            0 <= j < taking(params, required, argc, n).len() ==> 0 <= #[trigger] taking(
                params,
                required,
                argc,
                n,
            )[j] < n,
    decreases n,
{
    if n > 0 {
        taking_in_range(params, required, argc, n - 1);
        let front = taking(params, required, argc, n - 1);
        let at = taking(params, required, argc, n);
        assert forall|j: int| 0 <= j < at.len() implies 0 <= #[trigger] at[j] < n by {
            if j < front.len() {
                assert(at[j] == front[j]);
            }
        }
    }
}

proof fn bare_choice_in_range(
    t: Classes,
    params: Seq<Seq<TypeView>>,
    required: Seq<nat>,
    argc: nat,
    args: Seq<Option<TypeView>>,
)
    requires
        params.len() > 0,
    ensures
        0 <= bare_choice(t, params, required, argc, args) < params.len(),
{
    let at = taking(params, required, argc, params.len() as int);
    if at.len() > 0 {
        let lists = at.map_values(|i: int| params[i]);
        choice_is_made(t, lists, args);
        taking_in_range(params, required, argc, params.len() as int);
    }
}

/// A call of a static method of the class itself, by its bare name, means in
/// the code the method that was checked; there is one in the code exactly
/// where there is one in the check.
pub proof fn bare_call_means_the_method_checked(
    c: CxView,
    e: EnvView,
    f: Flow,
    methods: Seq<MethodDecl>,
    cp: Seq<EntryView>,
    this_class: u16,
    name: Seq<char>,
    args: Seq<Arg>,
)
    requires
        same_place(c, e, f),
        e.sigs == static_sigs(methods, e.imports, methods.len() as int),
        c.static_sigs == static_methods(
            cp,
            this_class,
            methods,
            c.imports,
            methods.len() as int,
        ).1,
    ensures
        ({
            let k = sig_pick(e.classes, e.sigs, name, args.len(), known_types(e, f, args));
            let own = own_statics(c, name);
            let j = static_pick(c, own, args.len(), arg_types(c, args));
            &&& own.len() == 0 <==> k == e.sigs.len()
            &&& own.len() > 0 ==> 0 <= j < own.len() && 0 <= k < e.sigs.len() && e.sigs[k].name
                == name && same_signature(own[j], e.sigs[k])
        }),
{
    assert(c.site().classes == e.site().classes);
    assert(c.site().imports == e.site().imports);
    let sigs = e.sigs;
    let at = sigs_named(sigs, name, sigs.len() as int);
    let own = own_statics(c, name);
    statics_correspond(cp, this_class, methods, c.imports, name, methods.len() as int);
    assert(sig_params(own) =~= params_at(sigs, at)) by {
        assert forall|j: int| 0 <= j < at.len() implies #[trigger] sig_params(own)[j] == params_at(
            sigs,
            at,
        )[j] by {
            assert(same_signature(own[j], sigs[at[j]]));
        }
    }
    assert(sig_required(own) =~= required_at(sigs, at)) by {
        assert forall|j: int| 0 <= j < at.len() implies #[trigger] sig_required(own)[j]
            == required_at(sigs, at)[j] by {
            assert(same_signature(own[j], sigs[at[j]]));
        }
    }
    if own.len() > 0 {
        let tys = arg_types(c, args);
        bare_choice_in_range(c.classes, sig_params(own), sig_required(own), args.len(), tys);
        let j = static_pick(c, own, args.len(), tys);
        assert(same_signature(own[j], sigs[at[j]]));
    }
}

proof fn params_in_sight(e: EnvView, f: Flow, params: Seq<Param>, of_method: bool, k: TypingsView, i: int)
    requires
        0 <= i <= params.len(),
        f.typings == with_params(e.site(), k, params, i),
    ensures
        params_declared(e, f, params, of_method, i) matches Ok(g) ==> g.typings == with_params(
            e.site(),
            k,
            params,
            params.len() as int,
        ),
    decreases params.len() - i,
{
    reveal(Flow::declare);
    reveal(Flow::tell);
    reveal(Flow::mark_const);
    reveal(Flow::assign);
    if i < params.len() {
        if let Ok(g) = param_declared(e, f, params[i], of_method) {
            params_in_sight(e, g, params, of_method, k, i + 1);
        }
    }
}

/// After an expression and after a statement, the code has in sight what the
/// check has, if it had before.
pub proof fn places_stay_alike(c: CxView, e: EnvView, f: Flow, expr: Expr, stmt: Stmt)
    requires
        same_place(c, e, f),
    ensures
        expr_checked(e, f, expr) matches Ok((_, g)) ==> same_place(c, e, g),
        stmt_checked(e, f, stmt) matches Ok((_, g)) ==> same_place(c.after(stmt), e, g),
{
    expr_declares_nothing(e, f, expr);
    statement_declares_its_own(e, f, stmt);
}

/// Where the branch of a condition that holds begins, the code has in sight
/// what the check has; and so it has in a `finally` block, wherever inside the
/// `try` statement it is left for that block.
pub proof fn branches_begin_alike(
    c: CxView,
    e: EnvView,
    f: Flow,
    cond: Expr,
    branch: Seq<Stmt>,
    inside: TypingsView,
)
    requires
        same_place(c, e, f),
    ensures
        same_place(
            c.with_typings(cast(c.site(), c.typings, cond, branch)),
            e,
            f.with_typings(cast(e.site(), f.typings, cond, branch)),
        ),
        same_place(c.guarded().with_typings(inside).at_try(c.tries.len() as int), e, f),
{
    reveal(Flow::with_typings);
}

/// Where the body of a loop begins, the code has in sight what the check has,
/// if it had before the loop.
pub proof fn loops_begin_alike(
    c: CxView,
    e: EnvView,
    f: Flow,
    ty: Option<Type>,
    var: Seq<char>,
    iterable: Expr,
    iterable_ty: TypeView,
)
    requires
        same_place(c, e, f),
    ensures
        loop_entered(e, f, ty, var, iterable, iterable_ty) matches Ok(g) ==> same_place(
            c.telling(var, item_type(c.site(), c.typings, ty, iterable)),
            e,
            g,
        ),
{
    reveal(loop_entered);
    reveal(Flow::push_scope);
    reveal(Flow::declare);
    reveal(Flow::tell);
    reveal(Flow::mark_loop_var);
    reveal(Flow::assign);
}

/// Where the body of a closure begins, the code has in sight what the check
/// has, if it had where the closure stands.
pub proof fn closures_begin_alike(
    c: CxView,
    e: EnvView,
    f: Flow,
    this_class: u16,
    fqcn: Seq<char>,
    caps: Seq<CaptureView>,
    params: Seq<Param>,
    body: ClosureBody,
)
    requires
        same_place(c, e, f),
    ensures
        params_declared(e, f.push_scope(), params, false, 0) matches Ok(g) ==> same_place(
            closure_cx(c, this_class, fqcn, caps, params, body),
            e,
            g,
        ),
{
    reveal(Flow::push_scope);
    params_in_sight(e, f.push_scope(), params, false, f.typings, 0);
}

/// Where the body of a method begins, the code has in sight what the check
/// has.
pub proof fn bodies_begin_alike(
    k: ClassCxView,
    index: nat,
    boxed: Set<Seq<char>>,
    e: EnvView,
    return_ty: TypeView,
    line: u32,
    params: Seq<Param>,
)
    requires
        k.classes == e.classes,
        k.imports == e.imports,
        k.natives == e.natives,
        k.this_fqcn == e.this_fqcn,
    ensures
        params_declared(e, flow_start(return_ty, line).push_scope(), params, true, 0) matches Ok(f)
            ==> same_place(method_cx(k, index, params, boxed), e, f),
{
    reveal(Flow::push_scope);
    params_in_sight(
        e,
        flow_start(return_ty, line).push_scope(),
        params,
        true,
        Seq::empty(),
        0,
    );
}

} // verus!
