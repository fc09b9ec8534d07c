//! What compiling a construct leaves as it found it: the code, the pool and
//! the jumps that were there before.

use crate::bytecode::constant_pool::{
    interned, with_class, with_field_ref, with_method_ref, with_type_desc, with_utf8, EntryView,
};
use crate::bytecode::module::{ExceptionTableEntry, ModuleView};
use crate::codegen::emitter::{aimed, aimed_all, LoopView, State};
use crate::codegen::expr_ty::ExprTyView;
use crate::codegen::growth::{extended, extended_self, extended_trans, interned_grows, pool_grows};
use vstd::prelude::*;

verus! {

/// Whether the jumps of `b` are those of `a` and others, all in the code
/// between `lo` and `hi`.
pub open spec fn jumps_added(a: Seq<int>, b: Seq<int>, lo: int, hi: int) -> bool {
    &&& a.is_prefix_of(b)
    &&& forall|i: int| a.len() <= i < b.len() ==> lo <= #[trigger] b[i] && b[i] + 3 <= hi
}

/// Whether each loop has kept its jumps, and the others lie between `lo` and
/// `hi`.
pub open spec fn loops_added(a: Seq<LoopView>, b: Seq<LoopView>, lo: int, hi: int) -> bool {
    &&& a.len() == b.len()
    &&& forall|k: int|
        0 <= k < a.len() ==> jumps_added((#[trigger] a[k]).break_patches, b[k].break_patches, lo, hi)
            && jumps_added(a[k].continue_patches, b[k].continue_patches, lo, hi)
}

/// Whether no slot is given out twice between `a` and `b`.
pub open spec fn slots_added(a: State, b: State) -> bool {
    &&& a.max_locals <= b.max_locals
    &&& a.next_local <= a.max_locals ==> b.next_local <= b.max_locals
    &&& a.next_local <= a.max_locals && b.max_locals < 0xffff ==> a.next_local <= b.next_local
}

/// Whether a statement may have been compiled between `a` and `b`.
#[verifier::opaque]
pub open spec fn keeps(a: State, b: State) -> bool {
    &&& a.code.is_prefix_of(b.code)
    &&& extended(a.cp, b.cp)
    &&& loops_added(a.loops, b.loops, a.pc(), b.pc())
    &&& a.exception_table.is_prefix_of(b.exception_table)
    &&& slots_added(a, b)
}

/// Whether an expression may have been compiled between `a` and `b`.
#[verifier::opaque]
pub open spec fn plain(a: State, b: State) -> bool {
    &&& a.code.is_prefix_of(b.code)
    &&& extended(a.cp, b.cp)
    &&& a.loops == b.loops
    &&& a.exception_table == b.exception_table
    &&& slots_added(a, b)
}

pub broadcast proof fn plain_self(a: State)
    ensures
        #[trigger] plain(a, a),
{
    reveal(plain);
    extended_self(a.cp);
}

pub broadcast proof fn plain_trans(a: State, b: State, c: State)
    requires
        #[trigger] plain(a, b),
        #[trigger] plain(b, c),
    ensures
        plain(a, c),
{
    reveal(plain);
    extended_trans(a.cp, b.cp, c.cp);
    assert(a.code =~= c.code.subrange(0, a.code.len() as int));
}

pub broadcast proof fn plain_keeps(a: State, b: State)
    requires
        #[trigger] plain(a, b),
    ensures
        keeps(a, b),
        a.pc() <= b.pc(),
        a.loops == b.loops,
{
    reveal(plain);
    reveal(keeps);
    assert forall|k: int| 0 <= k < a.loops.len() implies jumps_added(
        (#[trigger] a.loops[k]).break_patches,
        b.loops[k].break_patches,
        a.pc(),
        b.pc(),
    ) && jumps_added(
        a.loops[k].continue_patches,
        b.loops[k].continue_patches,
        a.pc(),
        b.pc(),
    ) by {
        let l = a.loops[k];
        assert(l.break_patches =~= l.break_patches.subrange(0, l.break_patches.len() as int));
        assert(l.continue_patches =~= l.continue_patches.subrange(
            0,
            l.continue_patches.len() as int,
        ));
    }
    assert(a.exception_table =~= b.exception_table.subrange(0, a.exception_table.len() as int));
}

proof fn jumps_added_trans(a: Seq<int>, b: Seq<int>, c: Seq<int>, lo: int, mid: int, hi: int)
    requires
        lo <= mid <= hi,
        jumps_added(a, b, lo, mid),
        jumps_added(b, c, mid, hi),
    ensures
        jumps_added(a, c, lo, hi),
{
    assert(a =~= c.subrange(0, a.len() as int));
    assert forall|i: int| a.len() <= i < c.len() implies lo <= #[trigger] c[i] && c[i] + 3 <= hi by {
        if i < b.len() {
            assert(c[i] == b[i]);
        }
    }
}

pub broadcast proof fn keeps_trans(a: State, b: State, c: State)
    requires
        #[trigger] keeps(a, b),
        #[trigger] keeps(b, c),
    ensures
        keeps(a, c),
{
    reveal(keeps);
    extended_trans(a.cp, b.cp, c.cp);
    assert(a.code =~= c.code.subrange(0, a.code.len() as int));
    assert(a.exception_table =~= c.exception_table.subrange(0, a.exception_table.len() as int));
    assert forall|k: int| 0 <= k < a.loops.len() implies jumps_added(
        (#[trigger] a.loops[k]).break_patches,
        c.loops[k].break_patches,
        a.pc(),
        c.pc(),
    ) && jumps_added(
        a.loops[k].continue_patches,
        c.loops[k].continue_patches,
        a.pc(),
        c.pc(),
    ) by {
        let (x, y, z) = (a.loops[k], b.loops[k], c.loops[k]);
        jumps_added_trans(
            x.break_patches,
            y.break_patches,
            z.break_patches,
            a.pc(),
            b.pc(),
            c.pc(),
        );
        jumps_added_trans(
            x.continue_patches,
            y.continue_patches,
            z.continue_patches,
            a.pc(),
            b.pc(),
            c.pc(),
        );
    }
}

pub broadcast proof fn keeps_longer(a: State, b: State)
    requires
        #[trigger] keeps(a, b),
    ensures
        a.pc() <= b.pc(),
{
    reveal(keeps);
}

pub broadcast proof fn bytes_plain(a: State, b: Seq<u8>)
    ensures
        plain(a, #[trigger] a.bytes(b)),
{
    reveal(plain);
    reveal(State::bytes);
    extended_self(a.cp);
    assert(a.code =~= (a.code + b).subrange(0, a.code.len() as int));
}

pub broadcast proof fn track_plain(a: State, delta: int)
    ensures
        plain(a, #[trigger] a.track(delta)),
{
    reveal(plain);
    reveal(State::track);
    extended_self(a.cp);
}

pub broadcast proof fn declare_plain(
    a: State,
    name: Seq<char>,
    ty: ExprTyView,
    boxed: Option<ExprTyView>,
)
    ensures
        plain(a, #[trigger] a.declare(name, ty, boxed)),
{
    reveal(plain);
    reveal(State::declare);
    extended_self(a.cp);
}

pub broadcast proof fn push_scope_plain(a: State)
    ensures
        plain(a, #[trigger] a.push_scope()),
{
    reveal(plain);
    reveal(State::push_scope);
    extended_self(a.cp);
}

pub broadcast proof fn pop_scope_plain(a: State)
    ensures
        plain(a, #[trigger] a.pop_scope()),
{
    reveal(plain);
    reveal(State::pop_scope);
    extended_self(a.cp);
}

pub broadcast proof fn retype_plain(a: State, name: Seq<char>, ty: ExprTyView)
    ensures
        plain(a, #[trigger] a.retype(name, ty)),
{
    reveal(plain);
    reveal(State::retype);
    extended_self(a.cp);
}

pub broadcast proof fn line_plain(a: State, line: u32)
    ensures
        plain(a, #[trigger] a.line(line)),
{
    reveal(plain);
    reveal(State::line);
    extended_self(a.cp);
}

pub broadcast proof fn infer_return_plain(a: State, ty: ExprTyView)
    ensures
        plain(a, #[trigger] a.infer_return(ty)),
{
    reveal(plain);
    reveal(State::infer_return);
    extended_self(a.cp);
}

pub broadcast proof fn count_closure_plain(a: State)
    ensures
        plain(a, #[trigger] a.count_closure()),
{
    reveal(plain);
    reveal(State::count_closure);
    extended_self(a.cp);
}

pub broadcast proof fn add_closures_plain(a: State, ms: Seq<ModuleView>)
    ensures
        plain(a, #[trigger] a.add_closures(ms)),
{
    reveal(plain);
    reveal(State::add_closures);
    extended_self(a.cp);
}

proof fn with_pool_plain(a: State, cp: Seq<EntryView>)
    requires
        extended(a.cp, cp),
    ensures
        plain(a, a.with_pool(cp)),
{
    reveal(plain);
    reveal(State::with_pool);
}

pub broadcast proof fn utf8_plain(a: State, s: Seq<char>)
    ensures
        plain(a, (#[trigger] a.utf8(s)).0),
{
    pool_grows(a.cp, s);
    with_pool_plain(a, with_utf8(a.cp, s).0);
}

pub broadcast proof fn class_plain(a: State, s: Seq<char>)
    ensures
        plain(a, (#[trigger] a.class(s)).0),
{
    pool_grows(a.cp, s);
    with_pool_plain(a, with_class(a.cp, s).0);
}

pub broadcast proof fn type_desc_plain(a: State, s: Seq<char>)
    ensures
        plain(a, (#[trigger] a.type_desc(s)).0),
{
    pool_grows(a.cp, s);
    with_pool_plain(a, with_type_desc(a.cp, s).0);
}

pub broadcast proof fn field_ref_plain(a: State, x: u16, y: u16, z: u16)
    ensures
        plain(a, (#[trigger] a.field_ref(x, y, z)).0),
{
    interned_grows(
        a.cp,
        EntryView::FieldRef { class_index: x, name_index: y, type_index: z },
    );
    with_pool_plain(a, with_field_ref(a.cp, x, y, z).0);
}

pub broadcast proof fn method_ref_plain(a: State, x: u16, y: u16, z: u16)
    ensures
        plain(a, (#[trigger] a.method_ref(x, y, z)).0),
{
    interned_grows(
        a.cp,
        EntryView::MethodRef { class_index: x, name_index: y, descriptor_index: z },
    );
    with_pool_plain(a, with_method_ref(a.cp, x, y, z).0);
}

pub broadcast proof fn int_entry_plain(a: State, v: i64)
    ensures
        plain(a, (#[trigger] a.int_entry(v)).0),
{
    interned_grows(a.cp, EntryView::Int(v));
    with_pool_plain(a, interned(a.cp, EntryView::Int(v)).0);
}

pub broadcast proof fn float_entry_plain(a: State, v: u64)
    ensures
        plain(a, (#[trigger] a.float_entry(v)).0),
{
    interned_grows(a.cp, EntryView::Float(v));
    with_pool_plain(a, interned(a.cp, EntryView::Float(v)).0);
}

/// Aiming a jump changes no code before it.
pub broadcast proof fn aim_plain(a: State, b: State, pc: int, target: int)
    requires
        #[trigger] plain(a, b),
        a.pc() <= pc,
    ensures
        plain(a, #[trigger] b.aim(pc, target)),
{
    reveal(plain);
    reveal(State::aim);
    assert(a.code =~= aimed(b.code, pc, target).subrange(0, a.code.len() as int));
}

pub broadcast proof fn aim_keeps(a: State, b: State, pc: int, target: int)
    requires
        #[trigger] keeps(a, b),
        a.pc() <= pc,
    ensures
        keeps(a, #[trigger] b.aim(pc, target)),
{
    reveal(keeps);
    reveal(State::aim);
    assert(a.code =~= aimed(b.code, pc, target).subrange(0, a.code.len() as int));
}

pub open spec fn all_from(pcs: Seq<int>, lo: int) -> bool {
    forall|i: int| 0 <= i < pcs.len() ==> lo <= #[trigger] pcs[i]
}

pub proof fn aimed_all_after(code: Seq<u8>, pcs: Seq<int>, target: int, lo: int, i: int)
    requires
        0 <= i <= pcs.len(),
        all_from(pcs, lo),
    ensures
        aimed_all(code, pcs, target, i).len() == code.len(),
        forall|j: int|
            0 <= j < code.len() && j <= lo ==> #[trigger] aimed_all(code, pcs, target, i)[j]
                == code[j],
    decreases i,
{
    if i > 0 {
        aimed_all_after(code, pcs, target, lo, i - 1);
    }
}

pub broadcast proof fn aim_all_plain(a: State, b: State, pcs: Seq<int>, target: int)
    requires
        #[trigger] plain(a, b),
        all_from(pcs, a.pc()),
    ensures
        plain(a, #[trigger] b.aim_all(pcs, target)),
{
    reveal(plain);
    reveal(State::aim_all);
    aimed_all_after(b.code, pcs, target, a.pc(), pcs.len() as int);
    let code = b.aim_all(pcs, target).code;
    assert(a.code =~= code.subrange(0, a.code.len() as int));
}

pub broadcast proof fn aim_all_keeps(a: State, b: State, pcs: Seq<int>, target: int)
    requires
        #[trigger] keeps(a, b),
        all_from(pcs, a.pc()),
    ensures
        keeps(a, #[trigger] b.aim_all(pcs, target)),
{
    reveal(keeps);
    reveal(State::aim_all);
    aimed_all_after(b.code, pcs, target, a.pc(), pcs.len() as int);
    let code = b.aim_all(pcs, target).code;
    assert(a.code =~= code.subrange(0, a.code.len() as int));
}

pub broadcast proof fn protect_keeps(a: State, e: ExceptionTableEntry)
    ensures
        keeps(a, #[trigger] a.protect(e)),
{
    plain_self(a);
    plain_keeps(a, a);
    reveal(keeps);
    reveal(State::protect);
    assert(a.exception_table =~= a.protect(e).exception_table.subrange(
        0,
        a.exception_table.len() as int,
    ));
}

pub proof fn add_break_keeps(a: State, b: State, k: int, pc: int)
    requires
        keeps(a, b),
        a.pc() <= pc,
        pc + 3 <= b.pc(),
    ensures
        keeps(a, b.add_break(k, pc)),
{
    reveal(keeps);
    reveal(State::add_break);
    if 0 <= k < b.loops.len() {
        let c = b.add_break(k, pc);
        let (x, y, z) = (a.loops[k], b.loops[k], c.loops[k]);
        assert(x.break_patches =~= z.break_patches.subrange(0, x.break_patches.len() as int));
        assert forall|i: int| x.break_patches.len() <= i < z.break_patches.len() implies a.pc()
            <= #[trigger] z.break_patches[i] && z.break_patches[i] + 3 <= c.pc() by {
            if i < y.break_patches.len() {
                assert(z.break_patches[i] == y.break_patches[i]);
            }
        }
        assert(jumps_added(x.break_patches, z.break_patches, a.pc(), c.pc()));
    }
}

pub proof fn add_continue_keeps(a: State, b: State, k: int, pc: int)
    requires
        keeps(a, b),
        a.pc() <= pc,
        pc + 3 <= b.pc(),
    ensures
        keeps(a, b.add_continue(k, pc)),
{
    reveal(keeps);
    reveal(State::add_continue);
    if 0 <= k < b.loops.len() {
        let c = b.add_continue(k, pc);
        let (x, y, z) = (a.loops[k], b.loops[k], c.loops[k]);
        assert(x.continue_patches =~= z.continue_patches.subrange(
            0,
            x.continue_patches.len() as int,
        ));
        assert forall|i: int| x.continue_patches.len() <= i < z.continue_patches.len() implies a.pc()
            <= #[trigger] z.continue_patches[i] && z.continue_patches[i] + 3 <= c.pc() by {
            if i < y.continue_patches.len() {
                assert(z.continue_patches[i] == y.continue_patches[i]);
            }
        }
        assert(jumps_added(x.continue_patches, z.continue_patches, a.pc(), c.pc()));
    }
}

/// What is compiled inside a loop keeps what was there before it; the jumps
/// out of the loop, and to its next round, are all inside.
pub proof fn loop_keeps(a: State, l: LoopView, b: State)
    requires
        l.break_patches.len() == 0,
        l.continue_patches.len() == 0,
        keeps(a.enter_loop(l), b),
    ensures
        keeps(a, b.leave_loop()),
        jumps_added(Seq::empty(), b.this_loop().break_patches, a.pc(), b.pc()),
        jumps_added(Seq::empty(), b.this_loop().continue_patches, a.pc(), b.pc()),
        all_from(b.this_loop().break_patches, a.pc()),
        all_from(b.this_loop().continue_patches, a.pc()),
{
    reveal(keeps);
    reveal(State::enter_loop);
    reveal(State::leave_loop);
    let e = a.enter_loop(l);
    let c = b.leave_loop();
    let n = a.loops.len() as int;
    assert(e.loops[n] == l);
    assert(b.this_loop() == b.loops[n]);
    assert(jumps_added(l.break_patches, b.loops[n].break_patches, a.pc(), b.pc()));
    assert(jumps_added(l.continue_patches, b.loops[n].continue_patches, a.pc(), b.pc()));
    assert(Seq::<int>::empty() =~= b.loops[n].break_patches.subrange(0, 0));
    assert(Seq::<int>::empty() =~= b.loops[n].continue_patches.subrange(0, 0));
    assert forall|k: int| 0 <= k < a.loops.len() implies jumps_added(
        (#[trigger] a.loops[k]).break_patches,
        c.loops[k].break_patches,
        a.pc(),
        c.pc(),
    ) && jumps_added(
        a.loops[k].continue_patches,
        c.loops[k].continue_patches,
        a.pc(),
        c.pc(),
    ) by {
        assert(e.loops[k] == a.loops[k]);
        assert(c.loops[k] == b.loops[k]);
    }
}

pub broadcast group group_frame {
    plain_self,
    plain_trans,
    plain_keeps,
    keeps_trans,
    keeps_longer,
    bytes_plain,
    track_plain,
    declare_plain,
    push_scope_plain,
    pop_scope_plain,
    retype_plain,
    line_plain,
    infer_return_plain,
    count_closure_plain,
    add_closures_plain,
    utf8_plain,
    class_plain,
    type_desc_plain,
    field_ref_plain,
    method_ref_plain,
    int_entry_plain,
    float_entry_plain,
    aim_plain,
    aim_keeps,
    aim_all_plain,
    aim_all_keeps,
    protect_keeps,
}

} // verus!
