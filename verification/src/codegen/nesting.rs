//! What emitting code leaves as it found it: the scopes and loops around it.

use crate::bytecode::constant_pool::EntryView;
use crate::bytecode::module::{ExceptionTableEntry, ModuleView};
use crate::codegen::emitter::{slot_in, LoopView, SlotView, State};
use crate::codegen::expr_ty::ExprTyView;
use crate::names::{bound_to, bound_to_push};
use vstd::prelude::*;

verus! {

/// Whether a variable is held where it was; what is known of its type may
/// have changed.
pub open spec fn same_place(a: Option<SlotView>, b: Option<SlotView>) -> bool {
    match (a, b) {
        (Some(x), Some(y)) => x.index == y.index && x.boxed == y.boxed,
        (None, None) => true,
        _ => false,
    }
}

/// Whether a loop is the one it was, with jumps added.
pub open spec fn same_loop(a: LoopView, b: LoopView) -> bool {
    &&& a.break_patches.is_prefix_of(b.break_patches)
    &&& a.continue_patches.is_prefix_of(b.continue_patches)
    &&& a.finally_depth == b.finally_depth
    &&& a.is_switch == b.is_switch
}

/// Whether all variables of the first `n` scopes are held where they were.
pub open spec fn scopes_kept(a: State, b: State, n: int) -> bool {
    forall|i: int, name: Seq<char>|
        0 <= i < n ==> same_place(
            #[trigger] bound_to(a.scopes[i], name),
            bound_to(b.scopes[i], name),
        )
}

pub open spec fn loops_kept(a: State, b: State, n: int) -> bool {
    forall|i: int| 0 <= i < n ==> same_loop(#[trigger] a.loops[i], b.loops[i])
}

/// Whether what was emitted between `a` and `b` has closed the scopes and
/// loops that it opened, and no others, and kept all variables of the scopes
/// around the innermost one.
#[verifier::opaque]
pub open spec fn nests(a: State, b: State) -> bool {
    &&& a.scopes.len() == b.scopes.len()
    &&& a.loops.len() == b.loops.len()
    &&& scopes_kept(a, b, a.scopes.len() - 1)
    &&& loops_kept(a, b, a.loops.len() as int)
}

pub broadcast proof fn nests_self(a: State)
    ensures
        #[trigger] nests(a, a),
{
    reveal(nests);
}

pub broadcast proof fn nests_trans(a: State, b: State, c: State)
    requires
        #[trigger] nests(a, b),
        #[trigger] nests(b, c),
    ensures
        nests(a, c),
{
    reveal(nests);
    assert forall|i: int, name: Seq<char>| 0 <= i < a.scopes.len() - 1 implies same_place(
        #[trigger] bound_to(a.scopes[i], name),
        bound_to(c.scopes[i], name),
    ) by {
        assert(same_place(bound_to(b.scopes[i], name), bound_to(c.scopes[i], name)));
    }
    assert forall|i: int| 0 <= i < a.loops.len() implies same_loop(
        #[trigger] a.loops[i],
        c.loops[i],
    ) by {
        let (x, y, z) = (a.loops[i], b.loops[i], c.loops[i]);
        assert(same_loop(x, y) && same_loop(y, z));
        assert(x.break_patches =~= z.break_patches.subrange(0, x.break_patches.len() as int));
        assert(x.continue_patches =~= z.continue_patches.subrange(
            0,
            x.continue_patches.len() as int,
        ));
    }
}

/// What is emitted in a scope of its own keeps all variables around it.
pub proof fn scope_nests(a: State, b: State)
    requires
        nests(a.push_scope(), b),
    ensures
        nests(a, b.pop_scope()),
        scopes_kept(a, b.pop_scope(), a.scopes.len() as int),
{
    reveal(nests);
    reveal(State::push_scope);
    reveal(State::pop_scope);
    let c = b.pop_scope();
    assert forall|i: int, name: Seq<char>| 0 <= i < a.scopes.len() implies same_place(
        #[trigger] bound_to(a.scopes[i], name),
        bound_to(c.scopes[i], name),
    ) by {
        assert(a.push_scope().scopes[i] == a.scopes[i]);
        assert(c.scopes[i] == b.scopes[i]);
        assert(same_place(
            bound_to(a.push_scope().scopes[i], name),
            bound_to(b.scopes[i], name),
        ));
    }
    assert forall|i: int| 0 <= i < a.loops.len() implies same_loop(
        #[trigger] a.loops[i],
        c.loops[i],
    ) by {
        assert(a.push_scope().loops[i] == a.loops[i]);
    }
}

/// What is emitted in a loop of its own keeps all loops around it.
pub proof fn loop_nests(a: State, l: LoopView, b: State)
    requires
        nests(a.enter_loop(l), b),
    ensures
        nests(a, b.leave_loop()),
{
    reveal(nests);
    reveal(State::enter_loop);
    reveal(State::leave_loop);
    let c = b.leave_loop();
    assert forall|i: int, name: Seq<char>| 0 <= i < a.scopes.len() - 1 implies same_place(
        #[trigger] bound_to(a.scopes[i], name),
        bound_to(c.scopes[i], name),
    ) by {
        assert(same_place(
            bound_to(a.enter_loop(l).scopes[i], name),
            bound_to(b.scopes[i], name),
        ));
    }
    assert forall|i: int| 0 <= i < a.loops.len() implies same_loop(
        #[trigger] a.loops[i],
        c.loops[i],
    ) by {
        assert(a.enter_loop(l).loops[i] == a.loops[i]);
        assert(c.loops[i] == b.loops[i]);
    }
}

pub broadcast proof fn track_nests(a: State, delta: int)
    ensures
        nests(a, #[trigger] a.track(delta)),
{
    reveal(nests);
    reveal(State::track);
}

pub broadcast proof fn bytes_nests(a: State, b: Seq<u8>)
    ensures
        nests(a, #[trigger] a.bytes(b)),
{
    reveal(nests);
    reveal(State::bytes);
}

pub broadcast proof fn aim_nests(a: State, pc: int, target: int)
    ensures
        nests(a, #[trigger] a.aim(pc, target)),
{
    reveal(nests);
    reveal(State::aim);
}

pub broadcast proof fn aim_all_nests(a: State, pcs: Seq<int>, target: int)
    ensures
        nests(a, #[trigger] a.aim_all(pcs, target)),
{
    reveal(nests);
    reveal(State::aim_all);
}

pub broadcast proof fn line_nests(a: State, line: u32)
    ensures
        nests(a, #[trigger] a.line(line)),
{
    reveal(nests);
    reveal(State::line);
}

pub broadcast proof fn declare_nests(
    a: State,
    name: Seq<char>,
    ty: ExprTyView,
    boxed: Option<ExprTyView>,
)
    ensures
        nests(a, #[trigger] a.declare(name, ty, boxed)),
{
    reveal(nests);
    reveal(State::declare);
}

proof fn slot_in_scope(scopes: Seq<Seq<(Seq<char>, SlotView)>>, name: Seq<char>, n: int)
    requires
        n <= scopes.len(),
    ensures
        slot_in(scopes, name, n) matches Some((k, slot)) ==> 0 <= k < n && bound_to(
            scopes[k],
            name,
        ) == Some(slot),
    decreases n,
{
    if n > 0 {
        slot_in_scope(scopes, name, n - 1);
    }
}

pub broadcast proof fn retype_nests(a: State, name: Seq<char>, ty: ExprTyView)
    ensures
        nests(a, #[trigger] a.retype(name, ty)),
{
    reveal(nests);
    reveal(State::retype);
    let b = a.retype(name, ty);
    let n = a.scopes.len() as int;
    slot_in_scope(a.scopes, name, n);
    if let Some((k, slot)) = slot_in(a.scopes, name, n) {
        assert forall|i: int, other: Seq<char>| 0 <= i < n - 1 implies same_place(
            #[trigger] bound_to(a.scopes[i], other),
            bound_to(b.scopes[i], other),
        ) by {
            bound_to_push(a.scopes[k], name, SlotView { ty, ..slot }, other);
        }
    }
}

pub broadcast proof fn with_pool_nests(a: State, cp: Seq<EntryView>)
    ensures
        nests(a, #[trigger] a.with_pool(cp)),
{
    reveal(nests);
    reveal(State::with_pool);
}

pub broadcast proof fn add_break_nests(a: State, k: int, pc: int)
    ensures
        nests(a, #[trigger] a.add_break(k, pc)),
{
    reveal(nests);
    reveal(State::add_break);
    let b = a.add_break(k, pc);
    assert forall|i: int| 0 <= i < a.loops.len() implies same_loop(
        #[trigger] a.loops[i],
        b.loops[i],
    ) by {
        let x = a.loops[i].break_patches;
        assert(x =~= b.loops[i].break_patches.subrange(0, x.len() as int));
    }
}

pub broadcast proof fn add_continue_nests(a: State, k: int, pc: int)
    ensures
        nests(a, #[trigger] a.add_continue(k, pc)),
{
    reveal(nests);
    reveal(State::add_continue);
    let b = a.add_continue(k, pc);
    assert forall|i: int| 0 <= i < a.loops.len() implies same_loop(
        #[trigger] a.loops[i],
        b.loops[i],
    ) by {
        let x = a.loops[i].continue_patches;
        assert(x =~= b.loops[i].continue_patches.subrange(0, x.len() as int));
    }
}

pub broadcast proof fn protect_nests(a: State, e: ExceptionTableEntry)
    ensures
        nests(a, #[trigger] a.protect(e)),
{
    reveal(nests);
    reveal(State::protect);
}

pub broadcast proof fn infer_return_nests(a: State, ty: ExprTyView)
    ensures
        nests(a, #[trigger] a.infer_return(ty)),
{
    reveal(nests);
    reveal(State::infer_return);
}

pub broadcast proof fn count_closure_nests(a: State)
    ensures
        nests(a, #[trigger] a.count_closure()),
{
    reveal(nests);
    reveal(State::count_closure);
}

pub broadcast proof fn add_closures_nests(a: State, ms: Seq<ModuleView>)
    ensures
        nests(a, #[trigger] a.add_closures(ms)),
{
    reveal(nests);
    reveal(State::add_closures);
}

/// What each step does.
pub broadcast group group_nested_steps {
    track_nests,
    bytes_nests,
    aim_nests,
    aim_all_nests,
    line_nests,
    declare_nests,
    retype_nests,
    with_pool_nests,
    add_break_nests,
    add_continue_nests,
    protect_nests,
    infer_return_nests,
    count_closure_nests,
    add_closures_nests,
}

/// What steps after steps do.
pub broadcast group group_nesting {
    nests_self,
    nests_trans,
}

} // verus!
