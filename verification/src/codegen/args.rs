//! The binding of the arguments of a call to the parameters of its target.

use crate::ast::{Arg, Expr};
use crate::binding::{binder, find_binder};
use crate::bytecode::opcode::Opcode;
use crate::class_table::{opt_expr, opt_exprs};
use crate::codegen::emitter::{Emitter, State};
use crate::codegen::error::CodegenError;
use crate::codegen::expr_ty::{expr_ty_views, ExprTy, ExprTyView};
use crate::codegen::growth::grows;
use crate::codegen::nesting::nests;
use crate::codegen::ops::{new_box_slot, undefined, undefined_variable};
use crate::text::{cat3, texts};
use vstd::prelude::*;

verus! {

broadcast use {crate::codegen::growth::group_growth, crate::codegen::nesting::group_nesting};

/// What a parameter is given: an argument of the call, its default value, or
/// nothing at all.
#[derive(Debug)]
pub enum Actual<'a> {
    Given(usize),
    Default(&'a Expr),
    Missing,
}

pub enum ActualView {
    Given(int),
    Default(Expr),
    Missing,
}

impl<'a> View for Actual<'a> {
    type V = ActualView;

    open spec fn view(&self) -> ActualView {
        match *self {
            Actual::Given(i) => ActualView::Given(i as int),
            Actual::Default(e) => ActualView::Default(*e),
            Actual::Missing => ActualView::Missing,
        }
    }
}

pub open spec fn actual_views(v: Seq<Actual>) -> Seq<ActualView> {
    v.map_values(|a: Actual| a@)
}

pub open spec fn actual(
    names: Seq<Seq<char>>,
    defaults: Seq<Option<Expr>>,
    args: Seq<Arg>,
    p: int,
) -> ActualView {
    match binder(names, args, p, args.len() as int) {
        Some(j) => ActualView::Given(j),
        None => if p < defaults.len() {
            match defaults[p] {
                Some(e) => ActualView::Default(e),
                None => ActualView::Missing,
            }
        } else {
            ActualView::Missing
        },
    }
}

/// What each parameter is given by a call.
pub open spec fn actuals(
    names: Seq<Seq<char>>,
    defaults: Seq<Option<Expr>>,
    args: Seq<Arg>,
) -> Seq<ActualView> {
    Seq::new(names.len(), |p: int| actual(names, defaults, args, p))
}

/// The arguments of a call by the positions of its target's parameters.
pub fn resolve_positional_args<'a>(
    param_names: &Vec<String>,
    defaults: &Vec<Option<&'a Expr>>,
    args: &Vec<Arg>,
) -> (r: Vec<Actual<'a>>)
    ensures
        actual_views(r@) == actuals(texts(param_names@), opt_exprs(defaults@), args@),
        given_within(actual_views(r@), args@.len() as int),
{
    let ghost ns = texts(param_names@);
    let ghost ds = opt_exprs(defaults@);
    let mut out: Vec<Actual<'a>> = Vec::new();
    let mut p: usize = 0;
    while p < param_names.len()
        invariant
            p <= param_names@.len(),
            ns == texts(param_names@),
            ds == opt_exprs(defaults@),
            out@.len() == p,
            forall|j: int| 0 <= j < p ==> (#[trigger] out@[j])@ == actual(ns, ds, args@, j),
            forall|j: int|
                0 <= j < p ==> ((#[trigger] out@[j])@ matches ActualView::Given(g) ==> 0 <= g
                    < args@.len()),
        decreases param_names@.len() - p,
    {
        let a: Actual<'a> = match find_binder(param_names, args, p, args.len()) {
            Some(j) => Actual::Given(j),
            None => if p < defaults.len() {
                assert(ds[p as int] == opt_expr(defaults@[p as int]));
                match defaults[p] {
                    Some(e) => Actual::Default(e),
                    None => Actual::Missing,
                }
            } else {
                Actual::Missing
            },
        };
        out.push(a);
        p = p + 1;
    }
    assert(actual_views(out@) =~= actuals(ns, ds, args@));
    out
}

/// That each argument taken from the call is one of its `n`.
pub open spec fn given_within(acts: Seq<ActualView>, n: int) -> bool {
    forall|i: int|
        0 <= i < acts.len() ==> ((#[trigger] acts[i]) matches ActualView::Given(g) ==> 0 <= g < n)
}

/// The arguments of a call in the order in which they are written.
pub open spec fn in_order(n: nat) -> Seq<ActualView> {
    Seq::new(n, |i: int| ActualView::Given(i))
}

/// The name of the first argument from the `i`-th on that is given by name.
pub open spec fn first_named(args: Seq<Arg>, i: int) -> Option<Seq<char>>
    decreases args.len() - i,
{
    if i < 0 || i >= args.len() {
        None
    } else {
        match args[i].name {
            Some(name) => Some(name@),
            None => first_named(args, i + 1),
        }
    }
}

/// The arguments of a call that takes none by name.
pub open spec fn positional(args: Seq<Arg>) -> Result<Seq<ActualView>, Seq<char>> {
    match first_named(args, 0) {
        Some(name) => Err(
            "named argument '"@ + name + "' is not supported when calling a closure"@,
        ),
        None => Ok(in_order(args.len())),
    }
}

pub fn require_positional_args(args: &Vec<Arg>) -> (r: Result<Vec<Actual<'static>>, CodegenError>)
    ensures
        match r {
            Ok(v) => positional(args@) == Result::<Seq<ActualView>, Seq<char>>::Ok(
                actual_views(v@),
            ) && given_within(actual_views(v@), args@.len() as int) && v@.len() == args@.len(),
            Err(e) => positional(args@) == Result::<Seq<ActualView>, Seq<char>>::Err(e@),
        },
{
    let mut out: Vec<Actual<'static>> = Vec::new();
    let mut i: usize = 0;
    while i < args.len()
        invariant
            i <= args@.len(),
            first_named(args@, 0) == first_named(args@, i as int),
            out@.len() == i,
            forall|j: int| 0 <= j < i ==> (#[trigger] out@[j])@ == ActualView::Given(j),
        decreases args@.len() - i,
    {
        if let Some(name) = &args[i].name {
            return Err(
                CodegenError::Unsupported(
                    cat3(
                        "named argument '",
                        name.as_str(),
                        "' is not supported when calling a closure",
                    ),
                ),
            );
        }
        out.push(Actual::Given(i));
        i = i + 1;
    }
    assert(actual_views(out@) =~= in_order(args@.len()));
    Ok(out)
}

/// The expression that a parameter is given.
pub open spec fn actual_expr(args: Seq<Arg>, a: ActualView) -> Option<Expr> {
    match a {
        ActualView::Given(j) => Some(args[j].value),
        ActualView::Default(e) => Some(e),
        ActualView::Missing => None,
    }
}

/// How an argument is passed: by value, by a new box for a variable (box slot,
/// variable slot, type), or by the box that the variable already has.
#[derive(Debug)]
pub enum RefPlan {
    Plain,
    NewBox(u16, u16, ExprTy),
    Forward(u16),
}

pub enum PlanView {
    Plain,
    NewBox(u16, u16, ExprTyView),
    Forward(u16),
}

impl View for RefPlan {
    type V = PlanView;

    open spec fn view(&self) -> PlanView {
        match *self {
            RefPlan::Plain => PlanView::Plain,
            RefPlan::NewBox(b, v, t) => PlanView::NewBox(b, v, t@),
            RefPlan::Forward(b) => PlanView::Forward(b),
        }
    }
}

pub open spec fn plan_views(v: Seq<RefPlan>) -> Seq<PlanView> {
    v.map_values(|p: RefPlan| p@)
}

pub open spec fn ref_at(is_ref: Seq<bool>, i: int) -> bool {
    0 <= i < is_ref.len() && is_ref[i]
}

/// Boxes the variables that are passed by reference, for the first `n`
/// parameters.
pub open spec fn planned(
    s: State,
    args: Seq<Arg>,
    acts: Seq<ActualView>,
    tys: Seq<ExprTyView>,
    is_ref: Seq<bool>,
    ctx: Seq<char>,
    n: int,
) -> Result<(State, Seq<PlanView>), Seq<char>>
    decreases n,
{
    if n <= 0 {
        Ok((s, Seq::empty()))
    } else {
        match planned(s, args, acts, tys, is_ref, ctx, n - 1) {
            Err(e) => Err(e),
            Ok((s1, plans)) => if !ref_at(is_ref, n - 1) {
                Ok((s1, plans.push(PlanView::Plain)))
            } else {
                match actual_expr(args, acts[n - 1]) {
                    Some(Expr::Ident(name)) => match s1.lookup(name@) {
                        None => Err(undefined(name@)),
                        Some(slot) => if slot.boxed is Some {
                            Ok((s1, plans.push(PlanView::Forward(slot.index))))
                        } else {
                            Ok(
                                (
                                    s1.new_box(tys[n - 1], slot.index),
                                    plans.push(
                                        PlanView::NewBox(
                                            new_box_slot(s1, tys[n - 1], slot.index),
                                            slot.index,
                                            tys[n - 1],
                                        ),
                                    ),
                                ),
                            )
                        },
                    },
                    _ => Err("'"@ + ctx + "' ref argument must be a variable"@),
                }
            },
        }
    }
}

proof fn planned_err(
    s: State,
    args: Seq<Arg>,
    acts: Seq<ActualView>,
    tys: Seq<ExprTyView>,
    is_ref: Seq<bool>,
    ctx: Seq<char>,
    i: int,
    n: int,
)
    requires
        0 <= i <= n,
        planned(s, args, acts, tys, is_ref, ctx, i) is Err,
    ensures
        planned(s, args, acts, tys, is_ref, ctx, n) == planned(s, args, acts, tys, is_ref, ctx, i),
    decreases n - i,
{
    if i < n {
        planned_err(s, args, acts, tys, is_ref, ctx, i, n - 1);
    }
}

impl Emitter {
    pub(crate) fn plan_refs(
        &mut self,
        args: &Vec<Arg>,
        acts: &Vec<Actual>,
        param_types: &Vec<ExprTy>,
        is_ref: &Vec<bool>,
        ctx: &str,
    ) -> (r: Result<Vec<RefPlan>, CodegenError>)
        requires
            acts@.len() == param_types@.len(),
            given_within(actual_views(acts@), args@.len() as int),
        ensures
            ({
                let want = planned(
                    old(self)@,
                    args@,
                    actual_views(acts@),
                    expr_ty_views(param_types@),
                    is_ref@,
                    ctx@,
                    acts@.len() as int,
                );
                match r {
                    Ok(plans) => want == Result::<(State, Seq<PlanView>), Seq<char>>::Ok(
                        (final(self)@, plan_views(plans@)),
                    ) && plans@.len() == acts@.len(),
                    Err(e) => want == Result::<(State, Seq<PlanView>), Seq<char>>::Err(e@),
                }
            }),
            grows(old(self)@, final(self)@),
            r is Ok ==> nests(old(self)@, final(self)@),
    {
        let ghost s0 = self@;
        let ghost acs = actual_views(acts@);
        let ghost tys = expr_ty_views(param_types@);
        let mut plans: Vec<RefPlan> = Vec::new();
        let mut i: usize = 0;
        assert(plan_views(plans@) =~= Seq::empty());
        while i < acts.len()
            invariant
                grows(old(self)@, self@),
                nests(old(self)@, self@),
                i <= acts@.len(),
                acts@.len() == param_types@.len(),
                s0 == old(self)@,
                acs == actual_views(acts@),
                tys == expr_ty_views(param_types@),
                given_within(acs, args@.len() as int),
                plans@.len() == i,
                planned(s0, args@, acs, tys, is_ref@, ctx@, i as int) == Result::<
                    (State, Seq<PlanView>),
                    Seq<char>,
                >::Ok((self@, plan_views(plans@))),
            decreases acts@.len() - i,
        {
            let ghost before = plan_views(plans@);
            assert(acs[i as int] == acts@[i as int]@);
            assert(tys[i as int] == param_types@[i as int]@);
            if i < is_ref.len() && is_ref[i] {
                let value: Option<&Expr> = match &acts[i] {
                    Actual::Given(j) => Some(&args[*j].value),
                    Actual::Default(e) => Some(*e),
                    Actual::Missing => None,
                };
                assert(actual_expr(args@, acs[i as int]) == opt_expr(value));
                let name: &String = match value {
                    Some(Expr::Ident(name)) => name,
                    _ => {
                        proof {
                            planned_err(
                                s0,
                                args@,
                                acs,
                                tys,
                                is_ref@,
                                ctx@,
                                i as int + 1,
                                acts@.len() as int,
                            );
                        }
                        return Err(
                            CodegenError::Unsupported(
                                cat3("'", ctx, "' ref argument must be a variable"),
                            ),
                        );
                    },
                };
                match self.lookup_local(name.as_str()) {
                    Some(slot) => {
                        if slot.boxed.is_some() {
                            plans.push(RefPlan::Forward(slot.index));
                        } else {
                            let b: u16 = self.emit_new_box(&param_types[i], slot.index);
                            plans.push(RefPlan::NewBox(b, slot.index, param_types[i].copy()));
                        }
                    },
                    None => {
                        proof {
                            planned_err(
                                s0,
                                args@,
                                acs,
                                tys,
                                is_ref@,
                                ctx@,
                                i as int + 1,
                                acts@.len() as int,
                            );
                        }
                        return Err(undefined_variable(name.as_str()));
                    },
                }
            } else {
                plans.push(RefPlan::Plain);
            }
            assert(plan_views(plans@) =~= before.push(plans@[i as int]@));
            i = i + 1;
        }
        Ok(plans)
    }

    /// Copies the values that a call left in new boxes back into the
    /// variables.
    pub fn emit_unbox_ref_args(&mut self, plans: &Vec<RefPlan>)
        ensures
            final(self)@ == unboxed(old(self)@, plan_views(plans@), plans@.len() as int),
            grows(old(self)@, final(self)@),
            nests(old(self)@, final(self)@),
    {
        let ghost s0 = self@;
        let ghost ps = plan_views(plans@);
        let mut i: usize = 0;
        while i < plans.len()
            invariant
                grows(old(self)@, self@),
                nests(old(self)@, self@),
                i <= plans@.len(),
                s0 == old(self)@,
                ps == plan_views(plans@),
                self@ == unboxed(s0, ps, i as int),
            decreases plans@.len() - i,
        {
            assert(ps[i as int] == plans@[i as int]@);
            if let RefPlan::NewBox(b, v, ty) = &plans[i] {
                self.emit_load(*b);
                let field: u16 = self.box_value_field_ref(ty);
                self.op_u16(Opcode::GetField, field, 0);
                self.emit_store(*v);
            }
            i = i + 1;
        }
    }
}

/// The state after the values of the first `n` boxes were copied back.
pub open spec fn unboxed(s: State, plans: Seq<PlanView>, n: int) -> State
    decreases n,
{
    if n <= 0 {
        s
    } else {
        let s1 = unboxed(s, plans, n - 1);
        match plans[n - 1] {
            PlanView::NewBox(b, v, ty) => {
                let (s2, field) = s1.load(b).box_value(ty);
                s2.op_u16(Opcode::GetField, field, 0).store(v)
            },
            _ => s1,
        }
    }
}

} // verus!
