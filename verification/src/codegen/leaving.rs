//! What the code of the statements that leave does when it runs.

use crate::ast::{Expr, Stmt, StmtKind};
use crate::bytecode::opcode::Opcode;
use crate::codegen::emitter::{real_loop, CxView, LoopView, State};
use crate::codegen::frame::{group_frame, keeps, keeps_trans, plain};
use crate::codegen::kept::{replay_keeps, stmts_keeps};
use crate::codegen::lowered::{expr_code, replay_code, stmt_code, stmts_code};
use crate::codegen::machine::{shown_steps, shows, step, Machine, Program, Turn, Value, World};
use crate::codegen::ops::Done;
use crate::codegen::placed::{
    branch_bytes, laid, op_shows, same_code_fits, part_laid, plain_kept, settled, settled_kept,
};
use crate::codegen::running::topped;
use crate::codegen::steps::under_pushed;
use crate::codegen::straight::expr_plain;
use vstd::prelude::*;

verus! {

proof fn kept_self(s: State)
    ensures
        keeps(s, s),
{
    broadcast use group_frame;

    assert(plain(s, s));
}

/// Whether copies of the `finally` blocks stand in the program one right after
/// the other, from the innermost of the first `k` to the one above `from`:
/// `q[i]` is before the `i`-th copy, and the last one after all of them.
pub open spec fn copies_laid(
    p: Program,
    c: CxView,
    fin: Seq<Seq<Stmt>>,
    from: int,
    k: int,
    q: Seq<State>,
) -> bool {
    &&& q.len() == if from < k {
        k - from + 1
    } else {
        1
    }
    &&& forall|i: int|
        0 <= i < q.len() - 1 ==> stmts_code(
            c.at_try(k - 1 - i),
            #[trigger] q[i],
            fin[k - 1 - i],
            fin.take(k - 1 - i),
            0,
        ) == Done::Ok(q[i + 1]) && laid(p, q[i], q[i + 1]) && settled(q[i])
}

proof fn copies(
    p: Program,
    c: CxView,
    a: State,
    s: State,
    fin: Seq<Seq<Stmt>>,
    from: int,
    k: int,
    t: State,
    z: State,
) -> (q: Seq<State>)
    requires
        settled(a),
        keeps(a, s),
        0 <= from,
        k <= fin.len(),
        replay_code(c, s, fin, from, k) == Done::Ok(t),
        keeps(t, z),
        laid(p, a, z),
    ensures
        copies_laid(p, c, fin, from, k, q),
        q[0] == s,
        q.last() == t,
    decreases k,
{
    if k <= 0 || k <= from {
        seq![s]
    } else {
        let s1 = stmts_code(c.at_try(k - 1), s, fin[k - 1], fin.take(k - 1), 0)->Ok_0;
        stmts_keeps(c.at_try(k - 1), s, fin[k - 1], fin.take(k - 1), 0);
        keeps_trans(a, s, s1);
        replay_keeps(c, s1, fin, from, k - 1);
        keeps_trans(s1, t, z);
        part_laid(p, a, s, s1, z, Set::empty());
        settled_kept(a, s);
        let rest = copies(p, c, a, s1, fin, from, k - 1, t, z);
        let q = seq![s] + rest;
        assert forall|i: int| 0 <= i < q.len() - 1 implies stmts_code(
            c.at_try(k - 1 - i),
            #[trigger] q[i],
            fin[k - 1 - i],
            fin.take(k - 1 - i),
            0,
        ) == Done::Ok(q[i + 1]) && laid(p, q[i], q[i + 1]) && settled(q[i]) by {
            if i > 0 {
                assert(q[i] == rest[i - 1] && q[i + 1] == rest[i]);
            }
        }
        q
    }
}

/// `return` with a value: the value is computed first; then each `finally`
/// block around the statement runs, the innermost first and the outermost
/// last; then the method returns what is on top of the stack.
pub proof fn return_runs_all_finally_blocks(
    w: World,
    p: Program,
    c: CxView,
    s: State,
    stmt: Stmt,
    e: Expr,
    fin: Seq<Seq<Stmt>>,
    t: State,
) -> (r: (State, Seq<State>))
    requires
        settled(s),
        stmt.kind == StmtKind::Return(Some(e)),
        stmt_code(c, s, stmt, fin) == Done::Ok(t),
        laid(p, s, t),
    ensures
        ({
            let (s1, q) = r;
            &&& expr_code(c, s.line(stmt.line), e) matches Ok((x, _)) && x == s1
            &&& laid(p, s.line(stmt.line), s1)
            &&& copies_laid(p, c, fin, 0, fin.len() as int, q)
            &&& q[0].pc() == s1.pc()
            &&& forall|m: Machine, rest: Seq<Value>, v: Value| #[trigger]
                topped(m, q.last().pc(), rest, v) ==> step(w, p, m) == Turn::Returns(
                    Some(v),
                    m.heap,
                )
        }),
{
    let s0 = s.line(stmt.line);
    expr_plain(c, s0, e);
    let (s1, ty) = expr_code(c, s0, e)->Ok_0;
    let s2 = s1.infer_return(ty);
    let n = fin.len() as int;
    let s3 = replay_code(c, s2, fin, 0, n)->Ok_0;
    assert(t == s3.exit_op(Opcode::ReturnValue));
    assert(plain(s, s0) && plain(s1, s2) && plain(s3, t)) by {
        broadcast use group_frame;

    }
    assert(s2.pc() == s1.pc()) by {
        reveal(State::infer_return);
    }
    plain_kept(s, s0);
    plain_kept(s0, s1);
    plain_kept(s1, s2);
    replay_keeps(c, s2, fin, 0, n);
    plain_kept(s3, t);
    keeps_trans(s, s0, s1);
    keeps_trans(s, s1, s2);
    keeps_trans(s2, s3, t);
    keeps_trans(s1, s2, t);
    keeps_trans(s, s2, s3);
    part_laid(p, s, s0, s1, t, Set::empty());
    let q = copies(p, c, s, s2, fin, 0, n, s3, t);
    exit_shows(p, s, s3, Opcode::ReturnValue, t);
    assert forall|m: Machine, rest: Seq<Value>, v: Value| #[trigger]
        topped(m, q.last().pc(), rest, v) implies step(w, p, m) == Turn::Returns(
        Some(v),
        m.heap,
    ) by {
        shown_steps(w, p, m, Opcode::ReturnValue);
        under_pushed(rest, v);
    }
    (s1, q)
}

proof fn exit_shows(p: Program, a: State, x: State, op: Opcode, t: State)
    requires
        settled(a),
        keeps(a, x),
        t == x.exit_op(op),
        laid(p, a, t),
    ensures
        shows(p, x.pc(), op),
{
    let t1 = x.op(op, 0);
    assert(t1.code == t.code && t1.cp == t.cp && t1.loops == t.loops) by {
        reveal(State::track);
    }
    same_code_fits(p, a, t, t1, Set::empty());
    kept_self(t1);
    op_shows(p, a, x, op, 0, t1, Set::empty());
}

/// `break` runs the `finally` blocks inside the loop that it leaves and ends
/// with a jump, which is noted among those of the innermost loop or `switch`.
pub proof fn break_is_noted(c: CxView, s: State, stmt: Stmt, fin: Seq<Seq<Stmt>>, t: State)
    requires
        stmt.kind is Break,
        stmt_code(c, s, stmt, fin) == Done::Ok(t),
    ensures
        t.loops.len() > 0,
        t.this_loop().break_patches.len() > 0,
        t.this_loop().break_patches.last() == t.pc() - 3,
        t.code[t.pc() - 3] == Opcode::Goto.code(),
        replay_code(
            c,
            s.line(stmt.line),
            fin,
            s.loops.last().finally_depth,
            fin.len() as int,
        ) matches Ok(s1) && s1.pc() == t.pc() - 3,
{
    let s0 = s.line(stmt.line);
    assert(s0.loops == s.loops) by {
        reveal(State::line);
    }
    let from = s0.loops.last().finally_depth;
    replay_keeps(c, s0, fin, from, fin.len() as int);
    let s1 = replay_code(c, s0, fin, from, fin.len() as int)->Ok_0;
    branch_bytes(s1, Opcode::Goto, 0);
    let s2 = s1.branch(Opcode::Goto, 0);
    assert(s2.loops == s1.loops) by {
        reveal(State::bytes);
        reveal(State::track);
    }
    reveal(keeps);
    reveal(State::add_break);
}

/// `continue` likewise, among those of the innermost loop that is no `switch`.
pub proof fn continue_is_noted(c: CxView, s: State, stmt: Stmt, fin: Seq<Seq<Stmt>>, t: State)
    requires
        stmt.kind is Continue,
        stmt_code(c, s, stmt, fin) == Done::Ok(t),
    ensures
        real_loop(t.loops, t.loops.len() as int) matches Some(k) ==> 0 <= k < t.loops.len() ==> {
            &&& !t.loops[k].is_switch
            &&& forall|j: int| k < j < t.loops.len() ==> (#[trigger] t.loops[j]).is_switch
            &&& t.loops[k].continue_patches.len() > 0
            &&& t.loops[k].continue_patches.last() == t.pc() - 3
            &&& t.code[t.pc() - 3] == Opcode::Goto.code()
        },
{
    let s0 = s.line(stmt.line);
    real_loop_found(t.loops, t.loops.len() as int);
    if let Some(j) = real_loop(s0.loops, s0.loops.len() as int) {
        let s1 = replay_code(c, s0, fin, s0.loops[j].finally_depth, fin.len() as int)->Ok_0;
        branch_bytes(s1, Opcode::Goto, 0);
        let s2 = s1.branch(Opcode::Goto, 0);
        if let Some(i) = real_loop(s2.loops, s2.loops.len() as int) {
            let s3 = s2.add_continue(i, s1.pc());
            reveal(State::add_continue);
            real_loop_same(s2.loops, s3.loops, s2.loops.len() as int);
        }
    }
}

proof fn real_loop_found(loops: Seq<LoopView>, n: int)
    requires
        n <= loops.len(),
    ensures
        real_loop(loops, n) matches Some(k) ==> 0 <= k < n && !loops[k].is_switch && forall|j: int|
            k < j < n ==> (#[trigger] loops[j]).is_switch,
    decreases n,
{
    if n > 0 {
        real_loop_found(loops, n - 1);
    }
}

proof fn real_loop_same(
    a: Seq<LoopView>,
    b: Seq<LoopView>,
    n: int,
)
    requires
        a.len() == b.len(),
        n <= a.len(),
        forall|k: int| 0 <= k < a.len() ==> (#[trigger] a[k]).is_switch == b[k].is_switch,
    ensures
        real_loop(a, n) == real_loop(b, n),
    decreases n,
{
    if n > 0 {
        real_loop_same(a, b, n - 1);
    }
}

} // verus!
