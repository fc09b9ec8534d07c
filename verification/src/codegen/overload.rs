//! Which overload a call is bound to in the code that is generated.

use crate::ast::{Arg, Type, TypeView};
use crate::class_table::{bare_choice, bare_overload, counts, opt_types, param_lists};
use crate::codegen::emitter::{sig_views, Cx, CxView, MethodSig, MethodSigView};
use crate::names::bound_to;
use crate::probe::call_types;
use vstd::prelude::*;

verus! {

/// The types of the arguments by which a call is bound to one of several
/// overloads.
pub open spec fn arg_types(c: CxView, args: Seq<Arg>) -> Seq<Option<TypeView>> {
    call_types(c.site(), c.typings, args)
}

/// The overloads of the static method `name` of the class itself.
pub open spec fn own_statics(c: CxView, name: Seq<char>) -> Seq<MethodSigView> {
    match bound_to(c.static_sigs, name) {
        Some(sigs) => sigs,
        None => Seq::empty(),
    }
}

/// The parameters of overloads.
pub open spec fn sig_params(sigs: Seq<MethodSigView>) -> Seq<Seq<TypeView>> {
    sigs.map_values(|s: MethodSigView| s.params)
}

/// How many arguments overloads must be given.
pub open spec fn sig_required(sigs: Seq<MethodSigView>) -> Seq<nat> {
    sigs.map_values(|s: MethodSigView| s.required_count)
}

/// The overload that a call by a bare name means.
pub open spec fn static_pick(
    c: CxView,
    sigs: Seq<MethodSigView>,
    argc: nat,
    tys: Seq<Option<TypeView>>,
) -> int {
    bare_choice(c.classes, sig_params(sigs), sig_required(sigs), argc, tys)
}

pub fn own_static_sigs<'u>(c: Cx<'u>, name: &str) -> (r: Option<&'u Vec<MethodSig<'u>>>)
    ensures
        match r {
            Some(sigs) => sigs@.len() > 0 && sig_views(sigs@) == own_statics(c@, name@),
            None => own_statics(c@, name@).len() == 0,
        },
{
    match c.unit.static_sigs.get(name) {
        Some(overloads) => if overloads.sigs.len() == 0 {
            None
        } else {
            Some(&overloads.sigs)
        },
        None => None,
    }
}

pub fn pick_static(c: Cx, sigs: &Vec<MethodSig>, argc: usize, tys: &Vec<Option<Type>>) -> (r: usize)
    requires
        sigs@.len() > 0,
    ensures
        r == static_pick(c@, sig_views(sigs@), argc as nat, opt_types(tys@)),
        r < sigs@.len(),
{
    let ghost svs = sig_views(sigs@);
    let mut lists: Vec<&Vec<Type>> = Vec::new();
    let mut required: Vec<usize> = Vec::new();
    let mut i: usize = 0;
    while i < sigs.len()
        invariant
            i <= sigs@.len(),
            svs == sig_views(sigs@),
            param_lists(lists@) =~= sig_params(svs).take(i as int),
            counts(required@) =~= sig_required(svs).take(i as int),
        decreases sigs@.len() - i,
    {
        let ghost (lists0, required0) = (lists@, required@);
        assert(svs[i as int] == sigs@[i as int]@);
        lists.push(&sigs[i].params);
        required.push(sigs[i].required_count);
        assert(param_lists(lists@) =~= param_lists(lists0).push(svs[i as int].params));
        assert(counts(required@) =~= counts(required0).push(svs[i as int].required_count));
        i = i + 1;
    }
    assert(param_lists(lists@) =~= sig_params(svs));
    assert(counts(required@) =~= sig_required(svs));
    bare_overload(c.unit.classes, &lists, &required, argc, tys)
}

} // verus!
