//! What the code of the loops does when it runs.

use crate::ast::{Expr, Stmt, Type};
use crate::bytecode::opcode::Opcode;
use crate::codegen::branching::{decides, goes_on, test_runs};
use crate::codegen::emitter::{aimed_all, new_loop, CxView, LoopView, SlotView, State};
use crate::codegen::expr_ty::ExprTyView;
use crate::codegen::frame::{group_frame, keeps, keeps_longer, keeps_trans, loop_keeps, plain};
use crate::codegen::laws::{aimed_jump_arrives, aiming_changes_operand_only, jump_target};
use crate::codegen::kept::{block_keeps, loop_end_keeps, steps_keeps, stmts_keeps};
use crate::codegen::lowered::{
    block_code, declared_type, expr_code, for_code, foreach_code, iterated, loop_end, steps_code,
    stmts_code, while_code,
};
use crate::codegen::machine::{
    is_int, reaches, reaches_self, reaches_trans, shows, Machine, Program, Value, World,
};
use crate::codegen::ops::{Done, Typed};
use crate::codegen::placed::{
    aim_all_fits, aim_all_same, aimed_all_length, aim_fits, body_laid, branch_kept, branch_shows, fits, goto_shows,
    iinc_shows, in_operand, laid, op_kept, op_shows, operand_at, operands, part_fits, part_laid,
    plain_kept, road, road_keeps, same_code_fits, settled, settled_kept, still_open, u16_kept, u16_shows,
};
use crate::codegen::running::topped;
use crate::codegen::steps::{
    compare_steps, const_steps, goto_steps, if_steps, iinc_steps, item_steps, length_steps,
    load_steps, pushed, store_steps,
};
use crate::codegen::straight::expr_plain;
use crate::names::bound_to_push;
use crate::probe::{after_all, item_type};
use crate::text::decimal_text;
use vstd::prelude::*;

verus! {

/// A state with a variable of the generator's own, and the value on top of the
/// stack in it.
pub open spec fn kept_in(s: State, ty: ExprTyView) -> State {
    s.declare_scratch(ty).store(s.next_local)
}

proof fn declared(s: State, name: Seq<char>, ty: ExprTyView, boxed: Option<ExprTyView>)
    ensures
        keeps(s, s.declare(name, ty, boxed)),
        s.declare(name, ty, boxed).pc() == s.pc(),
        s.declare(name, ty, boxed).code == s.code,
        s.declare(name, ty, boxed).next_local == s.next_local.wrapping_add(1),
{
    broadcast use group_frame;

    assert(plain(s, s.declare(name, ty, boxed)));
    reveal(State::declare);
}

proof fn plain_kept_self(s: State)
    ensures
        keeps(s, s),
{
    broadcast use group_frame;

    assert(plain(s, s));
}

pub proof fn loop_states(y: State, l0: LoopView, v: State)
    requires
        l0.break_patches.len() == 0,
        l0.continue_patches.len() == 0,
        keeps(y.enter_loop(l0), v),
    ensures
        y.enter_loop(l0).pc() == y.pc(),
        v.loops.len() > 0,
        y.pc() <= v.pc(),
        keeps(y, v.leave_loop()),
        v.leave_loop().pc() == v.pc(),
        v.leave_loop().cp == v.cp,
        forall|i: int|
            #![trigger in_operand(v.this_loop().break_patches, i)]
            in_operand(v.this_loop().break_patches, i) ==> y.pc() < i < v.pc(),
        forall|i: int|
            #![trigger in_operand(v.this_loop().continue_patches, i)]
            in_operand(v.this_loop().continue_patches, i) ==> y.pc() < i < v.pc(),
{
    loop_keeps(y, l0, v);
    reveal(State::enter_loop);
    reveal(State::leave_loop);
    reveal(keeps);
    let l = v.this_loop();
    assert forall|i: int| in_operand(l.break_patches, i) implies y.pc() < i < v.pc() by {
        let j = choose|j: int|
            0 <= j < l.break_patches.len() && (#[trigger] l.break_patches[j]) < i
                <= l.break_patches[j] + 2;
        assert(l.break_patches[j] + 3 <= v.pc());
    }
    assert forall|i: int| in_operand(l.continue_patches, i) implies y.pc() < i < v.pc() by {
        let j = choose|j: int|
            0 <= j < l.continue_patches.len() && (#[trigger] l.continue_patches[j]) < i
                <= l.continue_patches[j] + 2;
        assert(l.continue_patches[j] + 3 <= v.pc());
    }
}

/// The end of the code of a loop.
pub open spec fn looped(x: State, v: State, s11: State, top: int) -> State {
    loop_end(s11, top, Some(x.pc()), v.this_loop().break_patches)
}

/// A loop with a test at its top: the code of the test ends at `x`, the jump
/// out of the loop follows, then comes the code to `y` and the body to `v`,
/// and what is done after each round, to `s11`.
proof fn loop_shape(
    p: Program,
    s: State,
    x: State,
    y: State,
    l0: LoopView,
    v: State,
    to: int,
    s11: State,
    top: int,
)
    requires
        settled(s),
        keeps(s, x),
        plain(x.branch(Opcode::IfFalse, -1), y),
        l0.break_patches.len() == 0,
        l0.continue_patches.len() == 0,
        keeps(y.enter_loop(l0), v),
        plain(v.leave_loop().aim_all(v.this_loop().continue_patches, to), s11),
        0 <= top <= s11.pc(),
        laid(p, s, looped(x, v, s11, top)),
    ensures
        laid(p, s, x),
        shows(p, x.pc(), Opcode::IfFalse),
        jump_target(p.code, x.pc()) == looped(x, v, s11, top).pc(),
        x.branch(Opcode::IfFalse, -1).pc() == x.pc() + 3,
        laid(p, x.branch(Opcode::IfFalse, -1), y),
        settled(x.branch(Opcode::IfFalse, -1)),
        settled(y.enter_loop(l0)),
        laid(p, y.enter_loop(l0), v),
        y.enter_loop(l0).pc() == y.pc(),
        laid(p, v.leave_loop().aim_all(v.this_loop().continue_patches, to), s11),
        settled(v.leave_loop().aim_all(v.this_loop().continue_patches, to)),
        v.leave_loop().aim_all(v.this_loop().continue_patches, to).pc() == v.pc(),
        shows(p, s11.pc(), Opcode::Goto),
        jump_target(p.code, s11.pc()) == top,
        fits(
            p,
            s,
            v.leave_loop().aim_all(v.this_loop().continue_patches, to),
            operands(v.this_loop().break_patches).union(operand_at(x.pc())),
        ),
        looped(x, v, s11, top).loops == v.leave_loop().loops,
        y.pc() >= x.pc() + 3,
{
    let l = v.this_loop();
    let z0 = v.leave_loop();
    let z = z0.aim_all(l.continue_patches, to);
    let xb = x.branch(Opcode::IfFalse, -1);
    let e1 = s11.goto_to(top);
    let e2 = e1.aim_here(x.pc());
    let t = looped(x, v, s11, top);
    loop_states(y, l0, v);
    branch_kept(x, Opcode::IfFalse, -1);
    plain_kept(xb, y);
    aim_all_same(z0, l.continue_patches, to);
    assert(keeps(y, z)) by {
        broadcast use group_frame;

        loop_keeps(y, l0, v);
    }
    plain_kept(z, s11);
    assert(keeps(s11, e1)) by {
        broadcast use group_frame;

        assert(plain(s11, e1));
    }
    let q = seq![s, x, xb, y, z, s11, e1];
    assert(road(q)) by {
        reveal(road);
    }
    road_keeps(q);
    assert(q[0] == s && q[1] == x && q[2] == xb && q[3] == y && q[4] == z && q[5] == s11 && q[6]
        == e1);
    assert(e2.pc() == e1.pc() && e2.loops == e1.loops) by {
        reveal(State::aim);
    }
    let n0 = Set::<int>::empty();
    aim_all_fits(p, s, e2, l.break_patches, e2.pc(), n0);
    let n1 = n0.union(operands(l.break_patches));
    aim_fits(p, s, e1, x.pc(), e1.pc(), n1);
    let n2 = n1.union(operand_at(x.pc()));
    assert(n2 =~= operands(l.break_patches).union(operand_at(x.pc())));
    assert(e1.loops == s11.loops) by {
        reveal(State::bytes);
        reveal(State::track);
    }
    assert(s11.loops == z.loops) by {
        reveal(plain);
    }
    branch_shows(p, s, x, Opcode::IfFalse, -1, e1, n2);
    goto_shows(p, s, s11, top, e1, n2);
    part_laid(p, s, s, x, e1, n2);
    part_laid(p, s, xb, y, e1, n2);
    part_laid(p, s, z, s11, e1, n2);
    part_fits(p, s, s, z, e1, n2);
    aim_all_fits(p, s, z0, l.continue_patches, to, n2);
    let n3 = n2.union(operands(l.continue_patches));
    body_laid(p, s, y.enter_loop(l0), v, n3);
    settled_kept(s, xb);
    settled_kept(s, y);
    settled_kept(s, z);
    assert(settled(y.enter_loop(l0))) by {
        entered_settled(y, l0);
    }
}

pub proof fn entered_settled(y: State, l0: LoopView)
    requires
        settled(y),
        l0.break_patches.len() == 0,
        l0.continue_patches.len() == 0,
    ensures
        settled(y.enter_loop(l0)),
{
    reveal(settled);
    reveal(State::enter_loop);
    let u = y.enter_loop(l0);
    assert forall|i: int| u.pc() <= i implies !#[trigger] still_open(u.loops, i) by {
        if still_open(u.loops, i) {
            let k = choose|k: int|
                0 <= k < u.loops.len() && (in_operand((#[trigger] u.loops[k]).break_patches, i)
                    || in_operand(u.loops[k].continue_patches, i));
            if k < y.loops.len() {
                assert(u.loops[k] == y.loops[k]);
                assert(still_open(y.loops, i));
            } else {
                assert(u.loops[k] == l0);
            }
        }
    }
}

/// The test of a loop over an array.
pub open spec fn array_test(s: State, coll: u16, index: u16) -> State {
    s.load(index).load(coll).op(Opcode::ArrayLength, 0).op(Opcode::CmpLt, -1)
}

/// The element of an array, into the loop's variable.
pub open spec fn array_item(s: State, coll: u16, index: u16, item: u16) -> State {
    s.load(coll).load(index).op(Opcode::ArrayLoad, -1).store(item)
}

/// Whether the machine walks the array `r`, of elements `xs`, and is to take
/// the `k`-th next.
pub open spec fn walking(
    m: Machine,
    coll: u16,
    index: u16,
    r: int,
    xs: Seq<Value>,
    k: int,
) -> bool {
    &&& m.holds(coll as int, Value::Ref(r))
    &&& m.holds(index as int, Value::Int(k))
    &&& m.is_array(r)
    &&& m.items(r) == xs
}

proof fn array_test_runs(w: World, p: Program, s: State, coll: u16, index: u16)
    requires
        settled(s),
        laid(p, s, array_test(s, coll, index)),
    ensures
        keeps(s, array_test(s, coll, index)),
        forall|m: Machine, r: int, xs: Seq<Value>, k: int|
            m.pc == s.pc() && #[trigger] walking(m, coll, index, r, xs, k) ==> reaches(
                w,
                p,
                m,
                m.has(
                    array_test(s, coll, index).pc(),
                    m.stack.push(Value::Bool(k < xs.len())),
                ),
            ),
{
    let a1 = s.load(index);
    let a2 = a1.load(coll);
    let a3 = a2.op(Opcode::ArrayLength, 0);
    let a4 = a3.op(Opcode::CmpLt, -1);
    u16_kept(s, Opcode::Load, index, 1);
    u16_kept(a1, Opcode::Load, coll, 1);
    op_kept(a2, Opcode::ArrayLength, 0);
    op_kept(a3, Opcode::CmpLt, -1);
    let q = seq![s, a1, a2, a3, a4];
    assert(road(q)) by {
        reveal(road);
    }
    road_keeps(q);
    assert(q[0] == s && q[1] == a1 && q[2] == a2 && q[3] == a3 && q[4] == a4);
    u16_shows(p, s, s, Opcode::Load, index, 1, a4, Set::empty());
    u16_shows(p, s, a1, Opcode::Load, coll, 1, a4, Set::empty());
    op_shows(p, s, a2, Opcode::ArrayLength, 0, a4, Set::empty());
    op_shows(p, s, a3, Opcode::CmpLt, -1, a4, Set::empty());
    assert forall|m: Machine, r: int, xs: Seq<Value>, k: int|
        m.pc == s.pc() && #[trigger] walking(m, coll, index, r, xs, k) implies reaches(
        w,
        p,
        m,
        m.has(a4.pc(), m.stack.push(Value::Bool(k < xs.len()))),
    ) by {
        load_steps(w, p, m, index as int, Value::Int(k));
        let m1 = pushed(m, 3, Value::Int(k));
        load_steps(w, p, m1, coll as int, Value::Ref(r));
        let m2 = pushed(m1, 3, Value::Ref(r));
        length_steps(w, p, m2, m1.stack, r);
        let len = xs.len() as int;
        let m3 = m2.has(m2.pc + 1, m1.stack.push(Value::Int(len)));
        compare_steps(w, p, m3, Opcode::CmpLt, m.stack, k, len);
        reaches_trans(w, p, m, m1, m2);
        reaches_trans(w, p, m, m2, m3);
        reaches_trans(w, p, m, m3, m3.has(m3.pc + 1, m.stack.push(Value::Bool(k < len))));
    }
}

proof fn array_item_runs(w: World, p: Program, s: State, coll: u16, index: u16, item: u16)
    requires
        settled(s),
        laid(p, s, array_item(s, coll, index, item)),
    ensures
        keeps(s, array_item(s, coll, index, item)),
        forall|m: Machine, r: int, xs: Seq<Value>, k: int|
            m.pc == s.pc() && 0 <= k < xs.len() && #[trigger] walking(m, coll, index, r, xs, k)
                ==> reaches(
                w,
                p,
                m,
                m.sets(item as int, xs[k]).goes(array_item(s, coll, index, item).pc()),
            ),
{
    let a1 = s.load(coll);
    let a2 = a1.load(index);
    let a3 = a2.op(Opcode::ArrayLoad, -1);
    let a4 = a3.store(item);
    u16_kept(s, Opcode::Load, coll, 1);
    u16_kept(a1, Opcode::Load, index, 1);
    op_kept(a2, Opcode::ArrayLoad, -1);
    u16_kept(a3, Opcode::Store, item, -1);
    let q = seq![s, a1, a2, a3, a4];
    assert(road(q)) by {
        reveal(road);
    }
    road_keeps(q);
    assert(q[0] == s && q[1] == a1 && q[2] == a2 && q[3] == a3 && q[4] == a4);
    u16_shows(p, s, s, Opcode::Load, coll, 1, a4, Set::empty());
    u16_shows(p, s, a1, Opcode::Load, index, 1, a4, Set::empty());
    op_shows(p, s, a2, Opcode::ArrayLoad, -1, a4, Set::empty());
    u16_shows(p, s, a3, Opcode::Store, item, -1, a4, Set::empty());
    assert forall|m: Machine, r: int, xs: Seq<Value>, k: int|
        m.pc == s.pc() && 0 <= k < xs.len() && #[trigger] walking(
            m,
            coll,
            index,
            r,
            xs,
            k,
        ) implies reaches(w, p, m, m.sets(item as int, xs[k]).goes(a4.pc())) by {
        load_steps(w, p, m, coll as int, Value::Ref(r));
        let m1 = pushed(m, 3, Value::Ref(r));
        load_steps(w, p, m1, index as int, Value::Int(k));
        let m2 = pushed(m1, 3, Value::Int(k));
        item_steps(w, p, m2, m.stack, r, k);
        let m3 = m2.has(m2.pc + 1, m.stack.push(xs[k]));
        store_steps(w, p, m3, item as int, m.stack, xs[k]);
        reaches_trans(w, p, m, m1, m2);
        reaches_trans(w, p, m, m2, m3);
        reaches_trans(w, p, m, m3, m3.sets(item as int, xs[k]).has(m3.pc + 3, m.stack));
    }
}

/// What comes before the first round: the collection and the index are in
/// slots of their own, and the loop's variable has one.
pub open spec fn walk_begun(
    s: State,
    coll_ty: ExprTyView,
    var: Seq<char>,
    item_ty: ExprTyView,
) -> State {
    let s3 = kept_in(s, coll_ty);
    s3.declare_scratch(ExprTyView::Int).int_const(0).store(s3.next_local).declare_local(var, item_ty)
}

proof fn walk_begins(
    w: World,
    p: Program,
    s: State,
    coll_ty: ExprTyView,
    var: Seq<char>,
    item_ty: ExprTyView,
)
    requires
        settled(s),
        s.next_local < 0xfffd,
        laid(p, s, walk_begun(s, coll_ty, var, item_ty)),
    ensures
        keeps(s, walk_begun(s, coll_ty, var, item_ty)),
        kept_in(s, coll_ty).next_local == s.next_local + 1,
        forall|m: Machine, rest: Seq<Value>, v: Value| #[trigger]
            topped(m, s.pc(), rest, v) ==> reaches(
                w,
                p,
                m,
                m.sets(s.next_local as int, v).sets(s.next_local + 1, Value::Int(0)).has(
                    walk_begun(s, coll_ty, var, item_ty).pc(),
                    rest,
                ),
            ),
{
    let coll = s.next_local;
    let s3 = kept_in(s, coll_ty);
    let d1 = s.declare_scratch(coll_ty);
    declared(s, "$tmp"@ + decimal_text(s.next_local as nat), coll_ty, None);
    u16_kept(d1, Opcode::Store, coll, -1);
    assert(s3.next_local == d1.next_local) by {
        reveal(State::bytes);
        reveal(State::track);
    }
    let index = s3.next_local;
    let d2 = s3.declare_scratch(ExprTyView::Int);
    declared(s3, "$tmp"@ + decimal_text(s3.next_local as nat), ExprTyView::Int, None);
    let i1 = d2.int_const(0);
    op_kept(d2, Opcode::ConstIZero, 1);
    let s4 = i1.store(index);
    u16_kept(i1, Opcode::Store, index, -1);
    let s5 = s4.declare_local(var, item_ty);
    declared(s4, var, item_ty, None);
    let q = seq![s, d1, s3, d2, i1, s4, s5];
    assert(road(q)) by {
        reveal(road);
    }
    road_keeps(q);
    assert(q[0] == s && q[1] == d1 && q[2] == s3 && q[3] == d2 && q[4] == i1 && q[5] == s4 && q[6]
        == s5);
    u16_shows(p, s, d1, Opcode::Store, coll, -1, s5, Set::empty());
    op_shows(p, s, d2, Opcode::ConstIZero, 1, s5, Set::empty());
    u16_shows(p, s, i1, Opcode::Store, index, -1, s5, Set::empty());
    assert forall|m: Machine, rest: Seq<Value>, v: Value| #[trigger]
        topped(m, s.pc(), rest, v) implies reaches(
        w,
        p,
        m,
        m.sets(coll as int, v).sets(index as int, Value::Int(0)).has(s5.pc(), rest),
    ) by {
        store_steps(w, p, m, coll as int, rest, v);
        let m1 = m.sets(coll as int, v).has(m.pc + 3, rest);
        const_steps(w, p, m1, Opcode::ConstIZero, Value::Int(0));
        let m2 = pushed(m1, 1, Value::Int(0));
        store_steps(w, p, m2, index as int, rest, Value::Int(0));
        let m3 = m2.sets(index as int, Value::Int(0)).has(m2.pc + 3, rest);
        reaches_trans(w, p, m, m1, m2);
        reaches_trans(w, p, m, m2, m3);
        assert(m3 == m.sets(coll as int, v).sets(index as int, Value::Int(0)).has(s5.pc(), rest));
    }
}

/// The slots of a loop over an array, and where its parts are.
pub struct Walk {
    pub coll: u16,
    pub index: u16,
    pub item: u16,
    /// Where each round begins.
    pub top: int,
    /// Where the body begins, and where it ends.
    pub body: int,
    pub end: int,
    /// Where the code goes on after the loop.
    pub out: int,
}

/// How a loop over an array runs: from `begin`, with the array on top of the
/// stack, the first round is for the element number 0; a round for an element
/// puts it into the loop's variable and runs the body; after the body comes
/// the round for the next element; after the last element the loop is over.
pub open spec fn walks(w: World, p: Program, begin: int, k: Walk) -> bool {
    &&& k.coll != k.index && k.index != k.item && k.coll != k.item
    &&& forall|m: Machine, rest: Seq<Value>, v: Value| #[trigger]
        topped(m, begin, rest, v) ==> reaches(
            w,
            p,
            m,
            m.sets(k.coll as int, v).sets(k.index as int, Value::Int(0)).has(k.top, rest),
        )
    &&& forall|m: Machine, r: int, xs: Seq<Value>, i: int|
        m.pc == k.top && 0 <= i && #[trigger] walking(m, k.coll, k.index, r, xs, i) ==> reaches(
            w,
            p,
            m,
            if i < xs.len() {
                m.sets(k.item as int, xs[i]).goes(k.body)
            } else {
                m.goes(k.out)
            },
        )
    &&& forall|m: Machine, r: int, xs: Seq<Value>, i: int|
        m.pc == k.end && is_int(i + 1) && #[trigger] walking(m, k.coll, k.index, r, xs, i)
            ==> reaches(w, p, m, m.sets(k.index as int, Value::Int(i + 1)).goes(k.top))
}

/// The code after a round of a loop over an array.
pub open spec fn walk_counted(v: State, index: u16) -> State {
    v.leave_loop().aim_all(v.this_loop().continue_patches, v.pc()).op_iinc(index, 1)
}

proof fn array_walk_runs(
    w: World,
    p: Program,
    s: State,
    coll_ty: ExprTyView,
    var: Seq<char>,
    item_ty: ExprTyView,
    l0: LoopView,
    v: State,
) -> (k: Walk)
    requires
        settled(s),
        s.next_local < 0xfffd,
        l0.break_patches.len() == 0,
        l0.continue_patches.len() == 0,
        ({
            let coll = s.next_local;
            let index = kept_in(s, coll_ty).next_local;
            let s5 = walk_begun(s, coll_ty, var, item_ty);
            let x = array_test(s5, coll, index);
            let y = array_item(x.branch(Opcode::IfFalse, -1), coll, index, (coll + 2) as u16);
            &&& keeps(y.enter_loop(l0), v)
            &&& laid(p, s, looped(x, v, walk_counted(v, index), s5.pc()))
        }),
    ensures
        ({
            let coll = s.next_local;
            let index = kept_in(s, coll_ty).next_local;
            let s5 = walk_begun(s, coll_ty, var, item_ty);
            let x = array_test(s5, coll, index);
            let y = array_item(x.branch(Opcode::IfFalse, -1), coll, index, (coll + 2) as u16);
            &&& walks(w, p, s.pc(), k)
            &&& k.item == coll + 2
            &&& k.body == y.pc() && k.end == v.pc()
            &&& k.out == looped(x, v, walk_counted(v, index), s5.pc()).pc()
            &&& laid(p, y.enter_loop(l0), v)
            &&& settled(y.enter_loop(l0))
        }),
{
    let coll = s.next_local;
    let index = kept_in(s, coll_ty).next_local;
    let item = (coll + 2) as u16;
    let s5 = walk_begun(s, coll_ty, var, item_ty);
    let x = array_test(s5, coll, index);
    let xb = x.branch(Opcode::IfFalse, -1);
    let y = array_item(xb, coll, index, item);
    let s11 = walk_counted(v, index);
    let t = looped(x, v, s11, s5.pc());
    let z = v.leave_loop().aim_all(v.this_loop().continue_patches, v.pc());
    assert(plain(s, s5) && plain(s5, x)) by {
        broadcast use group_frame;

    }
    assert(plain(xb, y) && plain(z, s11)) by {
        broadcast use group_frame;

    }
    plain_kept(s, s5);
    plain_kept(s5, x);
    keeps_trans(s, s5, x);
    plain_kept_self(s);
    plain_kept_self(x);
    loop_states(y, l0, v);
    branch_kept(x, Opcode::IfFalse, -1);
    plain_kept(xb, y);
    plain_kept(z, s11);
    aim_all_same(v.leave_loop(), v.this_loop().continue_patches, v.pc());
    loop_shape(p, s, x, y, l0, v, v.pc(), s11, s5.pc());
    part_laid(p, s, s, s5, x, Set::empty());
    part_laid(p, s, s5, x, x, Set::empty());
    settled_kept(s, s5);
    walk_begins(w, p, s, coll_ty, var, item_ty);
    array_test_runs(w, p, s5, coll, index);
    array_item_runs(w, p, xb, coll, index, item);
    plain_kept_self(s11);
    plain_kept_self(z);
    iinc_shows(p, z, z, index, 1, s11, Set::empty());
    let k = Walk { coll, index, item, top: s5.pc(), body: y.pc(), end: v.pc(), out: t.pc() };
    assert forall|m: Machine, r: int, xs: Seq<Value>, i: int|
        m.pc == k.top && 0 <= i && #[trigger] walking(m, coll, index, r, xs, i) implies reaches(
        w,
        p,
        m,
        if i < xs.len() {
            m.sets(item as int, xs[i]).goes(k.body)
        } else {
            m.goes(k.out)
        },
    ) by {
        let b = i < xs.len();
        let m1 = m.has(x.pc(), m.stack.push(Value::Bool(b)));
        if_steps(w, p, m1, Opcode::IfFalse, m.stack, b);
        if b {
            let m2 = m1.has(m1.pc + 3, m.stack);
            reaches_trans(w, p, m, m1, m2);
            assert(walking(m2, coll, index, r, xs, i));
            let m3 = m2.sets(item as int, xs[i]).goes(y.pc());
            reaches_trans(w, p, m, m2, m3);
            assert(m3 == m.sets(item as int, xs[i]).goes(k.body));
        } else {
            let m2 = m1.has(t.pc(), m.stack);
            reaches_trans(w, p, m, m1, m2);
            assert(m2 == m.goes(k.out));
        }
    }
    assert forall|m: Machine, r: int, xs: Seq<Value>, i: int|
        m.pc == k.end && is_int(i + 1) && #[trigger] walking(
            m,
            coll,
            index,
            r,
            xs,
            i,
        ) implies reaches(w, p, m, m.sets(index as int, Value::Int(i + 1)).goes(k.top)) by {
        assert(1i16 as u16 == 1u16) by (bit_vector);
        iinc_steps(w, p, m, index as int, i);
        let m1 = m.sets(index as int, Value::Int(i + 1)).goes(m.pc + 5);
        goto_steps(w, p, m1);
        reaches_trans(w, p, m, m1, m1.goes(k.top));
    }
    k
}

proof fn after_scope(p: Program, a: State, t: State, but: Set<int>)
    requires
        fits(p, a, t.pop_scope(), but),
    ensures
        fits(p, a, t, but),
        t.pop_scope().pc() == t.pc(),
{
    reveal(State::pop_scope);
    same_code_fits(p, a, t.pop_scope(), t, but);
}

proof fn walk_slots(s: State, coll_ty: ExprTyView, var: Seq<char>, item_ty: ExprTyView)
    requires
        s.next_local < 0xfffd,
    ensures
        ({
            let s3 = kept_in(s, coll_ty);
            let s4 = s3.declare_scratch(ExprTyView::Int).int_const(0).store(s3.next_local);
            &&& s3.next_local == s.next_local + 1
            &&& s4.next_local == s.next_local + 2
            &&& s.scopes.len() > 0 ==> walk_begun(s, coll_ty, var, item_ty).lookup(var) == Some(
                SlotView { index: (s.next_local + 2) as u16, ty: item_ty, boxed: None },
            )
        }),
{
    reveal(State::declare);
    reveal(State::bytes);
    reveal(State::track);
    let s3 = kept_in(s, coll_ty);
    let s4 = s3.declare_scratch(ExprTyView::Int).int_const(0).store(s3.next_local);
    let slot = SlotView { index: s4.next_local, ty: item_ty, boxed: None };
    if s.scopes.len() > 0 {
        assert(s4.scopes.len() == s.scopes.len());
        let scope = s4.scopes.last();
        assert(walk_begun(s, coll_ty, var, item_ty).scopes.last() == scope.push((var, slot)));
        bound_to_push(scope, var, slot, var);
    }
}

/// A loop over an array: the code of the collection, then that of the rounds,
/// which `walks` tells of; the body stands where its rounds run, and there the
/// name of the loop's variable means the slot that each round fills. A
/// `continue` leads to the end of the body, a `break` behind the loop.
pub proof fn for_each_walks_its_array(
    w: World,
    p: Program,
    c: CxView,
    s: State,
    ty: Option<Type>,
    var: Seq<char>,
    iterable: Expr,
    body: Seq<Stmt>,
    fin: Seq<Seq<Stmt>>,
    t: State,
    s1: State,
    elem: Box<ExprTyView>,
) -> (r: (Walk, State, State))
    requires
        settled(s),
        foreach_code(c, s, ty, var, iterable, body, fin) == Done::Ok(t),
        laid(p, s, t),
        expr_code(c, s.push_scope(), iterable) == Typed::Ok((s1, ExprTyView::Array(elem))),
        s1.next_local < 0xfffd,
    ensures
        ({
            let (k, u, v) = r;
            let inside = c.telling(var, item_type(c.site(), c.typings, ty, iterable));
            &&& laid(p, s.push_scope(), s1)
            &&& settled(s.push_scope())
            &&& s.push_scope().pc() == s.pc()
            &&& walks(w, p, s1.pc(), k)
            &&& k.out == t.pc()
            &&& block_code(inside, u, body, fin) == Done::Ok(v)
            &&& laid(p, u, v)
            &&& settled(u)
            &&& u.pc() == k.body
            &&& v.pc() == k.end
            &&& s1.scopes.len() > 0 ==> (u.lookup(var) matches Some(slot) && slot.index == k.item)
            &&& forall|at: int|
                alone(v, v.this_loop().break_patches, at) && alone(
                    v,
                    v.this_loop().continue_patches,
                    at,
                ) && #[trigger] v.this_loop().break_patches.contains(at) ==> jump_target(p.code, at)
                    == k.out
            &&& forall|at: int|
                alone(v, v.this_loop().break_patches, at) && alone(
                    v,
                    v.this_loop().continue_patches,
                    at,
                ) && #[trigger] v.this_loop().continue_patches.contains(at)
                    && !v.this_loop().break_patches.contains(at) ==> jump_target(p.code, at)
                    == k.end
        }),
{
    let s0 = s.push_scope();
    let coll_ty = ExprTyView::Array(elem);
    let item_ty = match ty {
        Some(x) => declared_type(c, x),
        None => *elem,
    };
    let coll = s1.next_local;
    let index = kept_in(s1, coll_ty).next_local;
    let s5 = walk_begun(s1, coll_ty, var, item_ty);
    walk_slots(s1, coll_ty, var, item_ty);
    let item = (coll + 2) as u16;
    let x = array_test(s5, coll, index);
    let y = array_item(x.branch(Opcode::IfFalse, -1), coll, index, item);
    let l0 = new_loop(fin.len() as int, false);
    let inside = c.telling(var, item_type(c.site(), c.typings, ty, iterable));
    let v = block_code(inside, y.enter_loop(l0), body, fin)->Ok_0;
    let s11 = walk_counted(v, index);
    let t1 = looped(x, v, s11, s5.pc());
    assert(iterated(c, s1, coll_ty) == Ok::<_, Seq<char>>((s1, coll_ty, None::<Seq<char>>, *elem)));
    assert(t == t1.pop_scope());
    block_keeps(inside, y.enter_loop(l0), body, fin);
    expr_plain(c, s0, iterable);
    after_scope(p, s, t1, Set::empty());
    walk_kept(s1, s5, x, y, l0, v, index, coll_ty, var, item_ty);
    assert(keeps(s, s0) && s0.pc() == s.pc()) by {
        broadcast use group_frame;

        reveal(State::push_scope);
        assert(plain(s, s0));
    }
    plain_kept(s0, s1);
    keeps_trans(s, s0, s1);
    keeps_trans(s0, s1, t1);
    plain_kept_self(t1);
    part_laid(p, s, s0, s1, t1, Set::empty());
    part_laid(p, s, s1, t1, t1, Set::empty());
    settled_kept(s, s1);
    settled_kept(s, s0);
    let k = array_walk_runs(w, p, s1, coll_ty, var, item_ty, l0, v);
    assert(y.enter_loop(l0).lookup(var) == s5.lookup(var)) by {
        reveal(State::enter_loop);
        reveal(State::bytes);
        reveal(State::track);
    }
    assert(y.enter_loop(l0).pc() == y.pc()) by {
        reveal(State::enter_loop);
    }
    let z = v.leave_loop().aim_all(v.this_loop().continue_patches, v.pc());
    let xb = x.branch(Opcode::IfFalse, -1);
    assert(plain(s1, x)) by {
        broadcast use group_frame;

        assert(plain(s1, s5));
        assert(plain(s5, x));
    }
    assert(plain(xb, y) && plain(z, s11)) by {
        broadcast use group_frame;

    }
    plain_kept(s1, x);
    plain_kept(z, s11);
    plain_kept(xb, y);
    branch_kept(x, Opcode::IfFalse, -1);
    loop_states(y, l0, v);
    aim_all_same(v.leave_loop(), v.this_loop().continue_patches, v.pc());
    assert(s5.pc() <= x.pc()) by {
        broadcast use group_frame;

        assert(plain(s5, x));
    }
    assert forall|at: int|
        alone(v, v.this_loop().break_patches, at) && alone(v, v.this_loop().continue_patches, at)
            && #[trigger] v.this_loop().break_patches.contains(at) implies jump_target(p.code, at)
        == k.out by {
        loop_jumps(p, s1, x, y, l0, v, v.pc(), s11, s5.pc(), at);
    }
    assert forall|at: int|
        alone(v, v.this_loop().break_patches, at) && alone(v, v.this_loop().continue_patches, at)
            && #[trigger] v.this_loop().continue_patches.contains(at)
            && !v.this_loop().break_patches.contains(at) implies jump_target(p.code, at)
        == k.end by {
        loop_jumps(p, s1, x, y, l0, v, v.pc(), s11, s5.pc(), at);
    }
    (k, y.enter_loop(l0), v)
}

proof fn walk_kept(
    s1: State,
    s5: State,
    x: State,
    y: State,
    l0: LoopView,
    v: State,
    index: u16,
    coll_ty: ExprTyView,
    var: Seq<char>,
    item_ty: ExprTyView,
)
    requires
        s5 == walk_begun(s1, coll_ty, var, item_ty),
        x == array_test(s5, s1.next_local, index),
        exists|item: u16|
            y == #[trigger] array_item(
                x.branch(Opcode::IfFalse, -1),
                s1.next_local,
                index,
                item,
            ),
        l0.break_patches.len() == 0,
        l0.continue_patches.len() == 0,
        keeps(y.enter_loop(l0), v),
    ensures
        keeps(s1, looped(x, v, walk_counted(v, index), s5.pc())),
{
    broadcast use group_frame;

    loop_keeps(y, l0, v);
    let z = v.leave_loop().aim_all(v.this_loop().continue_patches, v.pc());
    let s11 = walk_counted(v, index);
    assert(plain(s1, s5));
    assert(plain(s5, x));
    let xb = x.branch(Opcode::IfFalse, -1);
    assert(plain(x, xb));
    assert(plain(xb, y));
    assert(keeps(y, z));
    assert(plain(z, s11));
    assert(keeps(x, s11));
    assert(keeps(s5, s11));
    loop_end_keeps(s5, s11, s5.pc(), Some(x.pc()), v.this_loop().break_patches);
}

/// The machine before the `i`-th round, where `f` tells where the body leaves
/// the machine: the body has run once for each of the elements before, in
/// order, each time with the element in the loop's variable.
pub open spec fn rounds(
    k: Walk,
    f: spec_fn(Machine) -> Machine,
    m: Machine,
    xs: Seq<Value>,
    i: int,
) -> Machine
    decreases i,
{
    if i <= 0 {
        m
    } else {
        f(rounds(k, f, m, xs, i - 1).sets(k.item as int, xs[i - 1]).goes(k.body)).sets(
            k.index as int,
            Value::Int(i),
        ).goes(k.top)
    }
}

/// Whether the body runs from its beginning to its end, as `f` says, and
/// leaves the stack, the loop's own slots and the array alone.
pub open spec fn body_passes(
    w: World,
    p: Program,
    k: Walk,
    r: int,
    xs: Seq<Value>,
    f: spec_fn(Machine) -> Machine,
) -> bool {
    forall|m: Machine, i: int|
        m.pc == k.body && 0 <= i < xs.len() && m.holds(k.item as int, xs[i]) && #[trigger] walking(
            m,
            k.coll,
            k.index,
            r,
            xs,
            i,
        ) ==> {
            &&& reaches(w, p, m, f(m))
            &&& f(m).pc == k.end
            &&& f(m).stack == m.stack
            &&& walking(f(m), k.coll, k.index, r, xs, i)
        }
}

proof fn rounds_run(
    w: World,
    p: Program,
    begin: int,
    k: Walk,
    f: spec_fn(Machine) -> Machine,
    m: Machine,
    r: int,
    xs: Seq<Value>,
    i: int,
)
    requires
        walks(w, p, begin, k),
        body_passes(w, p, k, r, xs, f),
        m.pc == k.top,
        walking(m, k.coll, k.index, r, xs, 0),
        0 <= i <= xs.len(),
        is_int(xs.len() as int),
    ensures
        reaches(w, p, m, rounds(k, f, m, xs, i)),
        walking(rounds(k, f, m, xs, i), k.coll, k.index, r, xs, i),
        rounds(k, f, m, xs, i).pc == k.top,
        rounds(k, f, m, xs, i).stack == m.stack,
    decreases i,
{
    if i <= 0 {
        reaches_self(w, p, m);
    } else {
        rounds_run(w, p, begin, k, f, m, r, xs, i - 1);
        let a = rounds(k, f, m, xs, i - 1);
        let b = a.sets(k.item as int, xs[i - 1]).goes(k.body);
        assert(reaches(w, p, a, b));
        assert(walking(b, k.coll, k.index, r, xs, i - 1));
        let d = f(b);
        let e = d.sets(k.index as int, Value::Int(i)).goes(k.top);
        assert(walking(d, k.coll, k.index, r, xs, i - 1));
        assert(reaches(w, p, d, e));
        reaches_trans(w, p, m, a, b);
        reaches_trans(w, p, m, b, d);
        reaches_trans(w, p, m, d, e);
    }
}

/// A loop over an array whose body always runs to its end runs it once for
/// each element, from the first to the last, with the element in the loop's
/// variable, and goes on after the loop then.
pub proof fn array_walk_takes_each_element_once(
    w: World,
    p: Program,
    begin: int,
    k: Walk,
    f: spec_fn(Machine) -> Machine,
    m: Machine,
    rest: Seq<Value>,
    r: int,
    xs: Seq<Value>,
)
    requires
        walks(w, p, begin, k),
        body_passes(w, p, k, r, xs, f),
        m.pc == begin,
        m.stack == rest.push(Value::Ref(r)),
        m.is_array(r),
        m.items(r) == xs,
        is_int(xs.len() as int),
    ensures
        ({
            let m0 = m.sets(k.coll as int, Value::Ref(r)).sets(k.index as int, Value::Int(0)).has(
                k.top,
                rest,
            );
            &&& reaches(w, p, m, rounds(k, f, m0, xs, xs.len() as int).goes(k.out))
            &&& rounds(k, f, m0, xs, xs.len() as int).stack == rest
            &&& forall|i: int|
                0 <= i < xs.len() ==> reaches(
                    w,
                    p,
                    m,
                    (#[trigger] rounds(k, f, m0, xs, i)).sets(k.item as int, xs[i]).goes(k.body),
                )
        }),
{
    assert(topped(m, begin, rest, Value::Ref(r)));
    let m0 = m.sets(k.coll as int, Value::Ref(r)).sets(k.index as int, Value::Int(0)).has(
        k.top,
        rest,
    );
    assert(walking(m0, k.coll, k.index, r, xs, 0));
    let n = xs.len() as int;
    rounds_run(w, p, begin, k, f, m0, r, xs, n);
    let e = rounds(k, f, m0, xs, n);
    reaches_trans(w, p, m, m0, e);
    assert(reaches(w, p, e, e.goes(k.out)));
    reaches_trans(w, p, m, e, e.goes(k.out));
    assert forall|i: int| 0 <= i < xs.len() implies reaches(
        w,
        p,
        m,
        (#[trigger] rounds(k, f, m0, xs, i)).sets(k.item as int, xs[i]).goes(k.body),
    ) by {
        rounds_run(w, p, begin, k, f, m0, r, xs, i);
        let a = rounds(k, f, m0, xs, i);
        let b = a.sets(k.item as int, xs[i]).goes(k.body);
        assert(reaches(w, p, a, b));
        reaches_trans(w, p, m, m0, a);
        reaches_trans(w, p, m, a, b);
    }
}

/// Whether no other jump out of the loops, or to their next rounds, shares a
/// byte with the one at `x`.
pub open spec fn alone(v: State, jumps: Seq<int>, x: int) -> bool {
    &&& forall|j: int|
        0 <= j < jumps.len() ==> (#[trigger] jumps[j]) == x || jumps[j] + 3 <= x || x + 3
            <= jumps[j]
    &&& !still_open(v.leave_loop().loops, x + 1)
    &&& !still_open(v.leave_loop().loops, x + 2)
}

proof fn aimed_among(code: Seq<u8>, jumps: Seq<int>, target: int, n: int, x: int)
    requires
        0 <= n <= jumps.len(),
        forall|j: int|
            0 <= j < jumps.len() ==> (#[trigger] jumps[j]) == x || jumps[j] + 3 <= x || x + 3
                <= jumps[j],
        exists|j: int| 0 <= j < n && #[trigger] jumps[j] == x,
        0 <= x,
        x + 3 <= code.len() <= 0x7fff,
        0 <= target <= code.len(),
    ensures
        aimed_all(code, jumps, target, n).len() == code.len(),
        jump_target(aimed_all(code, jumps, target, n), x) == target,
    decreases n,
{
    aimed_all_length(code, jumps, target, n - 1);
    let before = aimed_all(code, jumps, target, n - 1);
    if jumps[n - 1] == x {
        aimed_jump_arrives(before, x, target);
    } else {
        aimed_among(code, jumps, target, n - 1, x);
        aiming_changes_operand_only(before, jumps[n - 1], target, x + 1);
        aiming_changes_operand_only(before, jumps[n - 1], target, x + 2);
    }
}

/// The jumps of `break` lead to where the code goes on after the loop, those
/// of `continue` to `to`, where the next round is made ready.
proof fn loop_jumps(
    p: Program,
    s: State,
    x: State,
    y: State,
    l0: LoopView,
    v: State,
    to: int,
    s11: State,
    top: int,
    at: int,
)
    requires
        settled(s),
        keeps(s, x),
        plain(x.branch(Opcode::IfFalse, -1), y),
        l0.break_patches.len() == 0,
        l0.continue_patches.len() == 0,
        keeps(y.enter_loop(l0), v),
        plain(v.leave_loop().aim_all(v.this_loop().continue_patches, to), s11),
        0 <= top <= s11.pc(),
        0 <= to <= v.pc(),
        laid(p, s, looped(x, v, s11, top)),
        alone(v, v.this_loop().break_patches, at),
        alone(v, v.this_loop().continue_patches, at),
    ensures
        v.this_loop().break_patches.contains(at) ==> jump_target(p.code, at) == looped(
            x,
            v,
            s11,
            top,
        ).pc(),
        v.this_loop().continue_patches.contains(at) && !v.this_loop().break_patches.contains(at)
            ==> jump_target(p.code, at) == to,
{
    loop_shape(p, s, x, y, l0, v, to, s11, top);
    loop_states(y, l0, v);
    keeps_longer(s, x);
    let l = v.this_loop();
    let z0 = v.leave_loop();
    let z = z0.aim_all(l.continue_patches, to);
    let t = looped(x, v, s11, top);
    aim_all_same(z0, l.continue_patches, to);
    plain_kept(z, s11);
    let e1 = s11.goto_to(top);
    let e2 = e1.aim_here(x.pc());
    assert(e1.pc() == s11.pc() + 3 && e2.pc() == e1.pc()) by {
        reveal(State::bytes);
        reveal(State::track);
        reveal(State::aim);
    }
    aim_all_same(e2, l.break_patches, e2.pc());
    if l.break_patches.contains(at) {
        let j = choose|j: int| 0 <= j < l.break_patches.len() && l.break_patches[j] == at;
        assert(in_operand(l.break_patches, at + 1) && in_operand(l.break_patches, at + 2));
        reveal(fits);
        reveal(State::aim_all);
        aimed_among(
            e2.code,
            l.break_patches,
            e2.pc(),
            l.break_patches.len() as int,
            at,
        );
        assert(p.code[at + 1] == t.code[at + 1]);
        assert(p.code[at + 2] == t.code[at + 2]);
    } else if l.continue_patches.contains(at) {
        let j = choose|j: int| 0 <= j < l.continue_patches.len() && l.continue_patches[j] == at;
        assert(in_operand(l.continue_patches, at + 1) && in_operand(l.continue_patches, at + 2));
        reveal(fits);
        reveal(State::aim_all);
        aimed_among(z0.code, l.continue_patches, to, l.continue_patches.len() as int, at);
        assert(!in_operand(l.break_patches, at + 1)) by {
            if in_operand(l.break_patches, at + 1) {
                let i = choose|i: int|
                    0 <= i < l.break_patches.len() && (#[trigger] l.break_patches[i]) < at + 1
                        <= l.break_patches[i] + 2;
                assert(l.break_patches[i] == at);
            }
        }
        assert(!in_operand(l.break_patches, at + 2)) by {
            if in_operand(l.break_patches, at + 2) {
                let i = choose|i: int|
                    0 <= i < l.break_patches.len() && (#[trigger] l.break_patches[i]) < at + 2
                        <= l.break_patches[i] + 2;
                assert(l.break_patches[i] == at);
            }
        }
        assert(p.code[at + 1] == z.code[at + 1]);
        assert(p.code[at + 2] == z.code[at + 2]);
    }
}

/// How a loop runs whose condition ends at `test`: its body, from `body` to
/// `end`, runs where the condition holds, the code goes on at `out` where it
/// does not, and from the end of the body at `next`.
pub open spec fn repeats(
    w: World,
    p: Program,
    test: int,
    body: int,
    end: int,
    next: int,
    out: int,
) -> bool {
    decides(w, p, test, body, out) && goes_on(w, p, end, next)
}

proof fn goto_goes_on(w: World, p: Program, at: int, to: int)
    requires
        shows(p, at, Opcode::Goto),
        jump_target(p.code, at) == to,
    ensures
        goes_on(w, p, at, to),
{
    assert forall|m: Machine| #[trigger] m.goes(m.pc) == m && m.pc == at implies reaches(
        w,
        p,
        m,
        m.goes(to),
    ) by {
        goto_steps(w, p, m);
    }
}

/// A `while` loop: its body runs as long as its condition holds, which is
/// evaluated anew before each round; then the code goes on after the loop. A
/// `continue` leads to the condition, a `break` behind the loop.
pub proof fn while_repeats(
    w: World,
    p: Program,
    c: CxView,
    s: State,
    cond: Expr,
    body: Seq<Stmt>,
    fin: Seq<Seq<Stmt>>,
    t: State,
) -> (r: (State, State, State))
    requires
        settled(s),
        while_code(c, s, cond, body, fin) == Done::Ok(t),
        laid(p, s, t),
    ensures
        ({
            let (s1, u, v) = r;
            &&& expr_code(c, s, cond) == Typed::Ok((s1, ExprTyView::Bool))
            &&& block_code(c, u, body, fin) == Done::Ok(v)
            &&& laid(p, s, s1)
            &&& laid(p, u, v)
            &&& settled(u)
            &&& repeats(w, p, s1.pc(), u.pc(), v.pc(), s.pc(), t.pc())
            &&& forall|at: int|
                alone(v, v.this_loop().break_patches, at) && alone(
                    v,
                    v.this_loop().continue_patches,
                    at,
                ) && #[trigger] v.this_loop().break_patches.contains(at) ==> jump_target(p.code, at)
                    == t.pc()
            &&& forall|at: int|
                alone(v, v.this_loop().break_patches, at) && alone(
                    v,
                    v.this_loop().continue_patches,
                    at,
                ) && #[trigger] v.this_loop().continue_patches.contains(at)
                    && !v.this_loop().break_patches.contains(at) ==> jump_target(p.code, at)
                    == s.pc()
        }),
{
    expr_plain(c, s, cond);
    let s1 = expr_code(c, s, cond)->Ok_0.0;
    plain_kept(s, s1);
    let y = s1.branch(Opcode::IfFalse, -1);
    branch_kept(s1, Opcode::IfFalse, -1);
    let l0 = new_loop(fin.len() as int, false);
    let u = y.enter_loop(l0);
    block_keeps(c, u, body, fin);
    let v = block_code(c, u, body, fin)->Ok_0;
    loop_states(y, l0, v);
    let z = v.leave_loop().aim_all(v.this_loop().continue_patches, s.pc());
    aim_all_same(v.leave_loop(), v.this_loop().continue_patches, s.pc());
    assert(plain(y, y) && plain(z, z)) by {
        broadcast use group_frame;

    }
    assert(t == looped(s1, v, z, s.pc()));
    loop_shape(p, s, s1, y, l0, v, s.pc(), z, s.pc());
    test_runs(w, p, s1.pc(), t.pc());
    goto_goes_on(w, p, v.pc(), s.pc());
    assert forall|at: int|
        alone(v, v.this_loop().break_patches, at) && alone(v, v.this_loop().continue_patches, at)
            && #[trigger] v.this_loop().break_patches.contains(at) implies jump_target(p.code, at)
        == t.pc() by {
        loop_jumps(p, s, s1, y, l0, v, s.pc(), z, s.pc(), at);
    }
    assert forall|at: int|
        alone(v, v.this_loop().break_patches, at) && alone(v, v.this_loop().continue_patches, at)
            && #[trigger] v.this_loop().continue_patches.contains(at)
            && !v.this_loop().break_patches.contains(at) implies jump_target(p.code, at)
        == s.pc() by {
        loop_jumps(p, s, s1, y, l0, v, s.pc(), z, s.pc(), at);
    }
    (s1, u, v)
}

/// A `for` loop with a condition: the statements before it run once; its body
/// runs as long as the condition holds, and after each round, as after a
/// `continue`, the step expressions; a `break` leads behind the loop.
pub proof fn for_repeats(
    w: World,
    p: Program,
    c: CxView,
    s: State,
    init: Seq<Stmt>,
    cond: Expr,
    step: Seq<Expr>,
    body: Seq<Stmt>,
    fin: Seq<Seq<Stmt>>,
    t: State,
) -> (r: (State, State, State, State, State, State))
    requires
        settled(s),
        for_code(c, s, init, Some(cond), step, body, fin) == Done::Ok(t),
        laid(p, s, t),
    ensures
        ({
            let (s1, x, u, v, z, e) = r;
            let c1 = c.with_typings(after_all(c.site(), c.typings, init, init.len() as int));
            &&& stmts_code(c, s.push_scope(), init, fin, 0) == Done::Ok(s1)
            &&& expr_code(c1, s1, cond) == Typed::Ok((x, ExprTyView::Bool))
            &&& block_code(c1, u, body, fin) == Done::Ok(v)
            &&& steps_code(c1, z, step, 0) == Done::Ok(e)
            &&& laid(p, s.push_scope(), s1)
            &&& laid(p, s1, x)
            &&& laid(p, u, v)
            &&& laid(p, z, e)
            &&& settled(s1) && settled(u) && settled(z)
            &&& s.push_scope().pc() == s.pc()
            &&& z.pc() == v.pc()
            &&& decides(w, p, x.pc(), u.pc(), t.pc())
            &&& goes_on(w, p, e.pc(), s1.pc())
            &&& forall|at: int|
                alone(v, v.this_loop().break_patches, at) && alone(
                    v,
                    v.this_loop().continue_patches,
                    at,
                ) && #[trigger] v.this_loop().break_patches.contains(at) ==> jump_target(p.code, at)
                    == t.pc()
            &&& forall|at: int|
                alone(v, v.this_loop().break_patches, at) && alone(
                    v,
                    v.this_loop().continue_patches,
                    at,
                ) && #[trigger] v.this_loop().continue_patches.contains(at)
                    && !v.this_loop().break_patches.contains(at) ==> jump_target(p.code, at)
                    == v.pc()
        }),
{
    let s0 = s.push_scope();
    assert(keeps(s, s0) && s0.pc() == s.pc()) by {
        broadcast use group_frame;

        reveal(State::push_scope);
        assert(plain(s, s0));
    }
    let c1 = c.with_typings(after_all(c.site(), c.typings, init, init.len() as int));
    stmts_keeps(c, s0, init, fin, 0);
    let s1 = stmts_code(c, s0, init, fin, 0)->Ok_0;
    expr_plain(c1, s1, cond);
    let x = expr_code(c1, s1, cond)->Ok_0.0;
    plain_kept(s1, x);
    let y = x.branch(Opcode::IfFalse, -1);
    branch_kept(x, Opcode::IfFalse, -1);
    let l0 = new_loop(fin.len() as int, false);
    let u = y.enter_loop(l0);
    block_keeps(c1, u, body, fin);
    let v = block_code(c1, u, body, fin)->Ok_0;
    loop_states(y, l0, v);
    let z = v.leave_loop().aim_all(v.this_loop().continue_patches, v.pc());
    aim_all_same(v.leave_loop(), v.this_loop().continue_patches, v.pc());
    steps_keeps(c1, z, step, 0);
    let e = steps_code(c1, z, step, 0)->Ok_0;
    plain_kept(z, e);
    let t1 = looped(x, v, e, s1.pc());
    assert(t == t1.pop_scope());
    after_scope(p, s, t1, Set::empty());
    assert(plain(y, y)) by {
        broadcast use group_frame;

    }
    assert(keeps(s1, t1)) by {
        broadcast use group_frame;

        loop_keeps(y, l0, v);
        assert(keeps(y, z));
        assert(keeps(s1, e));
        loop_end_keeps(s1, e, s1.pc(), Some(x.pc()), v.this_loop().break_patches);
    }
    keeps_trans(s, s0, s1);
    keeps_trans(s0, s1, t1);
    plain_kept_self(t1);
    keeps_longer(s, s1);
    part_laid(p, s, s0, s1, t1, Set::empty());
    part_laid(p, s, s1, t1, t1, Set::empty());
    settled_kept(s, s1);
    loop_shape(p, s1, x, y, l0, v, v.pc(), e, s1.pc());
    test_runs(w, p, x.pc(), t.pc());
    goto_goes_on(w, p, e.pc(), s1.pc());
    assert forall|at: int|
        alone(v, v.this_loop().break_patches, at) && alone(v, v.this_loop().continue_patches, at)
            && #[trigger] v.this_loop().break_patches.contains(at) implies jump_target(p.code, at)
        == t.pc() by {
        loop_jumps(p, s1, x, y, l0, v, v.pc(), e, s1.pc(), at);
    }
    assert forall|at: int|
        alone(v, v.this_loop().break_patches, at) && alone(v, v.this_loop().continue_patches, at)
            && #[trigger] v.this_loop().continue_patches.contains(at)
            && !v.this_loop().break_patches.contains(at) implies jump_target(p.code, at)
        == v.pc() by {
        loop_jumps(p, s1, x, y, l0, v, v.pc(), e, s1.pc(), at);
    }
    (s1, x, u, v, z, e)
}

} // verus!
