//! What the code of a `try` statement does when it runs.

use crate::ast::{CatchClause, Stmt, TypeView};
use crate::bytecode::module::ExceptionTableEntry;
use crate::bytecode::opcode::Opcode;
use crate::codegen::emitter::{aimed_all, CxView, SlotView, State};
use crate::codegen::expr_ty::ExprTyView;
use crate::codegen::frame::{group_frame, keeps, keeps_longer, keeps_trans, plain};
use crate::codegen::kept::{block_keeps, stmts_keeps};
use crate::codegen::laws::{aimed_jump_arrives, aiming_changes_operand_only, jump_target};
use crate::codegen::lowered::{block_code, catches_code, guarded, inner_fin, stmts_code, try_code};
use crate::codegen::machine::{
    reaches, shows, step, word, Machine, Program, Turn, Value, World,
};
use crate::codegen::ops::{class_name, Done};
use crate::codegen::placed::{
    aim_all_fits, aim_all_same, branch_kept, branch_shows, fits, laid, op_kept, op_shows, operands, part_laid, plain_kept, road, road_keeps, same_code_fits, settled, settled_kept, still_open,
    u16_kept, u16_shows,
};
use crate::codegen::running::topped;
use crate::codegen::steps::{goto_steps, load_steps, store_steps};
use crate::names::bound_to_push;
use vstd::prelude::*;

verus! {

/// Whether the jumps lie one after the other between `lo` and `hi`.
pub open spec fn spaced(jumps: Seq<int>, lo: int, hi: int) -> bool {
    &&& forall|i: int| 0 <= i < jumps.len() ==> lo <= #[trigger] jumps[i] && jumps[i] + 3 <= hi
    &&& forall|i: int, j: int|
        0 <= i < j < jumps.len() ==> (#[trigger] jumps[i]) + 3 <= #[trigger] jumps[j]
}

proof fn aimed_all_arrive(code: Seq<u8>, jumps: Seq<int>, target: int, n: int, j: int)
    requires
        0 <= j < n <= jumps.len(),
        spaced(jumps, 0, code.len() as int),
        code.len() <= 0x7fff,
        0 <= target <= code.len(),
    ensures
        aimed_all(code, jumps, target, n).len() == code.len(),
        jump_target(aimed_all(code, jumps, target, n), jumps[j]) == target,
    decreases n,
{
    let before = aimed_all(code, jumps, target, n - 1);
    assert(before.len() == code.len()) by {
        aimed_length(code, jumps, target, n - 1);
    }
    if j == n - 1 {
        aimed_jump_arrives(before, jumps[j], target);
    } else {
        aimed_all_arrive(code, jumps, target, n - 1, j);
        assert(jumps[j] + 3 <= jumps[n - 1]);
        aiming_changes_operand_only(before, jumps[n - 1], target, jumps[j] + 1);
        aiming_changes_operand_only(before, jumps[n - 1], target, jumps[j] + 2);
    }
}

proof fn aimed_length(code: Seq<u8>, jumps: Seq<int>, target: int, n: int)
    ensures
        aimed_all(code, jumps, target, n).len() == code.len(),
    decreases n,
{
    if n > 0 {
        aimed_length(code, jumps, target, n - 1);
    }
}

/// Jumps that were aimed together lead where they were aimed.
proof fn jumps_lead(p: Program, a: State, b: State, jumps: Seq<int>, target: int)
    requires
        laid(p, a, b.aim_all(jumps, target)),
        spaced(jumps, a.pc(), b.pc()),
        forall|j: int|
            0 <= j < jumps.len() ==> !still_open(b.loops, (#[trigger] jumps[j]) + 1)
                && !still_open(b.loops, jumps[j] + 2),
        0 <= target <= b.pc(),
    ensures
        forall|j: int|
            0 <= j < jumps.len() ==> jump_target(p.code, #[trigger] jumps[j]) == target,
{
    reveal(fits);
    reveal(State::aim_all);
    aim_all_same(b, jumps, target);
    let d = b.aim_all(jumps, target);
    assert forall|j: int| 0 <= j < jumps.len() implies jump_target(p.code, #[trigger] jumps[j])
        == target by {
        aimed_all_arrive(b.code, jumps, target, jumps.len() as int, j);
        assert(p.code[jumps[j] + 1] == d.code[jumps[j] + 1]);
        assert(p.code[jumps[j] + 2] == d.code[jumps[j] + 2]);
    }
}

/// The state in which the body of a handler is compiled.
pub open spec fn caught(c: CxView, s: State, clause: CatchClause) -> State {
    let fqcn = class_name(c, clause.ty@);
    let s2 = s.class(fqcn).0.push_scope();
    s2.declare_local(clause.var@, ExprTyView::Object(fqcn)).store(s2.next_local)
}

/// What the body of a handler is compiled against.
pub open spec fn catching(c: CxView, clause: CatchClause) -> CxView {
    c.telling(clause.var@, Some(TypeView::Named(class_name(c, clause.ty@))))
}

proof fn caught_kept(c: CxView, s: State, clause: CatchClause)
    ensures
        keeps(s, caught(c, s, clause)),
        caught(c, s, clause).pc() == s.pc() + 3,
        caught(c, s, clause).lookup(clause.var@) matches Some(slot) && slot.index == s.next_local,
{
    let fqcn = class_name(c, clause.ty@);
    let s1 = s.class(fqcn).0;
    let s2 = s1.push_scope();
    let s3 = s2.declare_local(clause.var@, ExprTyView::Object(fqcn));
    assert(plain(s, s3)) by {
        broadcast use group_frame;

    }
    plain_kept(s, s3);
    u16_kept(s3, Opcode::Store, s2.next_local, -1);
    keeps_trans(s, s3, caught(c, s, clause));
    reveal(State::with_pool);
    reveal(State::push_scope);
    reveal(State::declare);
    reveal(State::bytes);
    reveal(State::track);
    let slot = SlotView { index: s2.next_local, ty: ExprTyView::Object(fqcn), boxed: None };
    assert(s3.scopes.last() == s2.scopes.last().push((clause.var@, slot)));
    bound_to_push(s2.scopes.last(), clause.var@, slot, clause.var@);
}

/// Whether a handler stands at `at`: it keeps what it caught in the slot that
/// its variable means, runs its body, and ends with a jump at `end`.
pub open spec fn handler_at(
    p: Program,
    c: CxView,
    clause: CatchClause,
    fin: Seq<Seq<Stmt>>,
    at: int,
    end: int,
) -> bool {
    exists|h: State, h1: State|
        {
            &&& stmts_code(catching(c, clause), h, clause.body@, fin, 0) == Done::Ok(h1)
            &&& #[trigger] laid(p, h, h1)
            &&& settled(h)
            &&& h.pc() == at + 3
            &&& h1.pc() == end
            &&& shows(p, at, Opcode::Store)
            &&& h.lookup(clause.var@) matches Some(slot) && slot.index == word(p.code, at)
            &&& shows(p, end, Opcode::Goto)
        }
}

proof fn spaced_push(jumps: Seq<int>, lo: int, mid: int, x: int, hi: int)
    requires
        spaced(jumps, lo, mid),
        lo <= mid <= x,
        x + 3 <= hi,
    ensures
        spaced(jumps.push(x), lo, hi),
{
}

proof fn handler_step(c: CxView, a: State, s: State, clause: CatchClause, fin: Seq<Seq<Stmt>>)
    requires
        keeps(a, s),
        stmts_code(catching(c, clause), caught(c, s, clause), clause.body@, fin, 0) is Ok,
    ensures
        ({
            let h = caught(c, s, clause);
            let h1 = stmts_code(catching(c, clause), h, clause.body@, fin, 0)->Ok_0;
            let s5 = h1.pop_scope();
            let s6 = s5.branch(Opcode::Goto, 0);
            &&& keeps(a, h)
            &&& keeps(s, h)
            &&& keeps(h, h1)
            &&& keeps(h1, s5)
            &&& keeps(s5, s6)
            &&& keeps(a, s5)
            &&& keeps(a, s6)
            &&& keeps(s, s6)
            &&& keeps(h1, s6)
            &&& s5.pc() == h1.pc()
            &&& s6.pc() == h1.pc() + 3
            &&& s.pc() + 3 <= h1.pc()
            &&& a.pc() <= s.pc()
        }),
{
    caught_kept(c, s, clause);
    let h = caught(c, s, clause);
    stmts_keeps(catching(c, clause), h, clause.body@, fin, 0);
    let h1 = stmts_code(catching(c, clause), h, clause.body@, fin, 0)->Ok_0;
    let s5 = h1.pop_scope();
    assert(plain(h1, s5)) by {
        broadcast use group_frame;

    }
    plain_kept(h1, s5);
    reveal(State::pop_scope);
    branch_kept(s5, Opcode::Goto, 0);
    let s6 = s5.branch(Opcode::Goto, 0);
    keeps_longer(a, s);
    keeps_longer(h, h1);
    keeps_trans(a, s, h);
    keeps_trans(s, h, h1);
    keeps_trans(s, h1, s5);
    keeps_trans(s, s5, s6);
    keeps_trans(a, s, s5);
    keeps_trans(a, s, s6);
    keeps_trans(h1, s5, s6);
}

proof fn catches_jumps(
    c: CxView,
    a: State,
    s: State,
    catches: Seq<CatchClause>,
    fin: Seq<Seq<Stmt>>,
    i: int,
    jumps: Seq<int>,
    handlers: Seq<(int, u16)>,
)
    requires
        keeps(a, s),
        spaced(jumps, a.pc(), s.pc()),
        0 <= i <= catches.len(),
    ensures
        catches_code(c, s, catches, fin, i, jumps, handlers) matches Ok((t, js, hs)) ==> {
            &&& keeps(a, t)
            &&& keeps(s, t)
            &&& spaced(js, a.pc(), t.pc())
            &&& js.len() == jumps.len() + catches.len() - i
            &&& hs.len() == handlers.len() + catches.len() - i
            &&& forall|j: int| 0 <= j < jumps.len() ==> js[j] == #[trigger] jumps[j]
            &&& forall|j: int| 0 <= j < handlers.len() ==> hs[j] == #[trigger] handlers[j]
            &&& forall|j: int| jumps.len() <= j < js.len() ==> s.pc() <= #[trigger] js[j]
        },
    decreases catches.len() - i,
{
    keeps_longer(a, s);
    if i < catches.len() {
        let clause = catches[i];
        if let Ok(h1) = stmts_code(catching(c, clause), caught(c, s, clause), clause.body@, fin, 0) {
            handler_step(c, a, s, clause, fin);
            let s5 = h1.pop_scope();
            let s6 = s5.branch(Opcode::Goto, 0);
            spaced_push(jumps, a.pc(), s.pc(), s5.pc(), s6.pc());
            let js1 = jumps.push(s5.pc());
            let hs1 = handlers.push((s.pc(), s.class(class_name(c, clause.ty@)).1));
            catches_jumps(c, a, s6, catches, fin, i + 1, js1, hs1);
            if let Ok((t, js, hs)) = catches_code(c, s, catches, fin, i, jumps, handlers) {
                keeps_trans(s, s6, t);
                assert(js1[jumps.len() as int] == s5.pc());
                assert forall|j: int| 0 <= j < jumps.len() implies js[j] == #[trigger] jumps[j] by {
                    assert(js1[j] == jumps[j]);
                }
                assert forall|j: int| 0 <= j < handlers.len() implies hs[j] == #[trigger] handlers[j] by {
                    assert(hs1[j] == handlers[j]);
                }
            }
        }
    } else {
        broadcast use group_frame;

        assert(plain(s, s));
    }
}

/// The operands of the jumps past the handlers lie outside of code that comes
/// after the first `n` of them and before the others.
proof fn jumps_apart(js: Seq<int>, lo: int, hi: int, n: int, x: int, y: int)
    requires
        spaced(js, lo, hi),
        0 <= n <= js.len(),
        forall|j: int| 0 <= j < n ==> (#[trigger] js[j]) + 3 <= x,
        forall|j: int| n <= j < js.len() ==> y <= #[trigger] js[j] + 1,
    ensures
        forall|i: int| x <= i < y ==> !operands(js).contains(i),
{
}

proof fn catches_shape(
    p: Program,
    c: CxView,
    a: State,
    s: State,
    catches: Seq<CatchClause>,
    fin: Seq<Seq<Stmt>>,
    i: int,
    jumps: Seq<int>,
    handlers: Seq<(int, u16)>,
    t: State,
    js: Seq<int>,
    hs: Seq<(int, u16)>,
    z: State,
)
    requires
        settled(a),
        keeps(a, s),
        spaced(jumps, a.pc(), s.pc()),
        0 <= i <= catches.len(),
        jumps.len() == i + 1,
        handlers.len() == i,
        catches_code(c, s, catches, fin, i, jumps, handlers) == Ok::<_, Seq<char>>((t, js, hs)),
        keeps(t, z),
        fits(p, a, z, operands(js)),
    ensures
        forall|j: int|
            i <= j < catches.len() ==> handler_at(
                p,
                c,
                catches[j],
                fin,
                (#[trigger] hs[j]).0,
                js[j + 1],
            ) && !still_open(z.loops, js[j + 1] + 1) && !still_open(z.loops, js[j + 1] + 2),
    decreases catches.len() - i,
{
    keeps_longer(a, s);
    catches_jumps(c, a, s, catches, fin, i, jumps, handlers);
    if i < catches.len() {
        let clause = catches[i];
        let h = caught(c, s, clause);
        let h1 = stmts_code(catching(c, clause), h, clause.body@, fin, 0)->Ok_0;
        handler_step(c, a, s, clause, fin);
        caught_kept(c, s, clause);
        let s5 = h1.pop_scope();
        let s6 = s5.branch(Opcode::Goto, 0);
        spaced_push(jumps, a.pc(), s.pc(), s5.pc(), s6.pc());
        let js1 = jumps.push(s5.pc());
        let hs1 = handlers.push((s.pc(), s.class(class_name(c, clause.ty@)).1));
        catches_jumps(c, a, s6, catches, fin, i + 1, js1, hs1);
        catches_shape(p, c, a, s6, catches, fin, i + 1, js1, hs1, t, js, hs, z);
        assert(js1[i + 1] == s5.pc());
        assert(hs1[i] == (s.pc(), s.class(class_name(c, clause.ty@)).1));
        assert(js[i + 1] == s5.pc() && hs[i].0 == s.pc());
        assert forall|j: int| 0 <= j < i + 1 implies (#[trigger] js[j]) + 3 <= s.pc() by {
            assert(js[j] == jumps[j]);
        }
        assert forall|j: int| i + 1 <= j < js.len() implies s5.pc() + 1 <= #[trigger] js[j] + 1 by {
            if j > i + 1 {
                assert(js[i + 1] + 3 <= js[j]);
            }
        }
        jumps_apart(js, a.pc(), t.pc(), i + 1, s.pc(), s5.pc() + 1);
        let but = operands(js);
        keeps_trans(s6, t, z);
        keeps_trans(h1, s6, z);
        keeps_trans(h, h1, z);
        branch_shows(p, a, s5, Opcode::Goto, 0, z, but);
        handler_entry(p, c, a, s, clause, z, but);
        part_laid(p, a, h, h1, z, but);
        settled_kept(a, h);
        assert(stmts_code(catching(c, clause), h, clause.body@, fin, 0) == Done::Ok(h1));
        assert(handler_at(p, c, clause, fin, s.pc(), s5.pc()));
    }
}

proof fn handler_entry(
    p: Program,
    c: CxView,
    a: State,
    s: State,
    clause: CatchClause,
    z: State,
    but: Set<int>,
)
    requires
        settled(a),
        keeps(a, s),
        keeps(caught(c, s, clause), z),
        fits(p, a, z, but),
        forall|i: int| s.pc() <= i < s.pc() + 3 ==> !but.contains(i),
    ensures
        shows(p, s.pc(), Opcode::Store),
        word(p.code, s.pc()) == s.next_local,
{
    let fqcn = class_name(c, clause.ty@);
    let s2 = s.class(fqcn).0.push_scope();
    let s3 = s2.declare_local(clause.var@, ExprTyView::Object(fqcn));
    assert(plain(s, s3)) by {
        broadcast use group_frame;

    }
    plain_kept(s, s3);
    keeps_trans(a, s, s3);
    assert(s3.pc() == s.pc() && s2.next_local == s.next_local) by {
        reveal(State::with_pool);
        reveal(State::push_scope);
        reveal(State::declare);
    }
    u16_shows(p, a, s3, Opcode::Store, s2.next_local, -1, z, but);
}

proof fn guarded_table(s: State, handlers: Seq<(int, u16)>, start: int, end: int, n: int)
    requires
        0 <= n <= handlers.len(),
    ensures
        ({
            let t = guarded(s, handlers, start, end, n);
            &&& t.code == s.code
            &&& t.cp == s.cp
            &&& t.loops == s.loops
            &&& t.exception_table.len() == s.exception_table.len() + n
            &&& forall|j: int|
                0 <= j < n ==> (#[trigger] t.exception_table[s.exception_table.len() + j])
                    == (ExceptionTableEntry {
                    start_pc: start as u16,
                    end_pc: end as u16,
                    handler_pc: handlers[j].0 as u16,
                    catch_type: handlers[j].1,
                })
        }),
    decreases n,
{
    reveal(State::protect);
    if n > 0 {
        guarded_table(s, handlers, start, end, n - 1);
    }
}

/// The parts of a `try` statement: the body ends at `s1` with the first of the
/// `jumps`; the handlers follow, up to `s2`, each with a jump of its own.
pub struct Attempt {
    pub s1: State,
    pub s2: State,
    pub jumps: Seq<int>,
    pub handlers: Seq<(int, u16)>,
}

/// Whether the body and the handlers of a `try` statement stand in the
/// program, each with a jump at its end, and all of these lead to `target`.
pub open spec fn attempted(
    w: World,
    p: Program,
    c: CxView,
    s: State,
    body: Seq<Stmt>,
    catches: Seq<CatchClause>,
    fin: Seq<Seq<Stmt>>,
    k: Attempt,
    target: int,
) -> bool {
    &&& block_code(c, s, body, fin) == Done::Ok(k.s1)
    &&& laid(p, s, k.s1)
    &&& k.jumps.len() == catches.len() + 1
    &&& k.handlers.len() == catches.len()
    &&& k.jumps[0] == k.s1.pc()
    &&& forall|j: int|
        0 <= j < catches.len() ==> handler_at(
            p,
            c,
            catches[j],
            fin,
            (#[trigger] k.handlers[j]).0,
            k.jumps[j + 1],
        )
    &&& forall|j: int, m: Machine|
        0 <= j < k.jumps.len() && m.pc == k.jumps[j] ==> #[trigger] leads(w, p, m, target, j)
}

/// Whether the next instruction leads to `target`, and changes nothing else.
pub open spec fn leads(w: World, p: Program, m: Machine, target: int, j: int) -> bool {
    step(w, p, m) == Turn::Runs(m.goes(target))
}

/// The entries that the exception table gets for the handlers: each covers the
/// body, and they come in the order of the clauses.
pub open spec fn guards_body(t: State, from: int, start: int, k: Attempt) -> bool {
    &&& from >= 0
    &&& from + k.handlers.len() <= t.exception_table.len()
    &&& forall|j: int|
        0 <= j < k.handlers.len() ==> (#[trigger] t.exception_table[from + j]) == (
        ExceptionTableEntry {
            start_pc: start as u16,
            end_pc: k.s1.pc() as u16,
            handler_pc: k.handlers[j].0 as u16,
            catch_type: k.handlers[j].1,
        })
}

proof fn attempt_parts(
    w: World,
    p: Program,
    c: CxView,
    s: State,
    body: Seq<Stmt>,
    catches: Seq<CatchClause>,
    fin: Seq<Seq<Stmt>>,
    k: Attempt,
    z: State,
    target: int,
)
    requires
        settled(s),
        block_code(c, s, body, fin) == Done::Ok(k.s1),
        catches_code(
            c,
            k.s1.branch(Opcode::Goto, 0),
            catches,
            fin,
            0,
            seq![k.s1.pc()],
            Seq::empty(),
        ) == Ok::<_, Seq<char>>((k.s2, k.jumps, k.handlers)),
        keeps(k.s2, z),
        0 <= target <= z.pc(),
        laid(p, s, z.aim_all(k.jumps, target)),
    ensures
        attempted(w, p, c, s, body, catches, fin, k, target),
        keeps(s, k.s2),
        fits(p, s, z, operands(k.jumps)),
        spaced(k.jumps, s.pc(), k.s2.pc()),
{
    let js = k.jumps;
    block_keeps(c, s, body, fin);
    keeps_longer(s, k.s1);
    let s1b = k.s1.branch(Opcode::Goto, 0);
    branch_kept(k.s1, Opcode::Goto, 0);
    keeps_trans(s, k.s1, s1b);
    let j0 = seq![k.s1.pc()];
    let h0 = Seq::<(int, u16)>::empty();
    assert(spaced(j0, s.pc(), s1b.pc()));
    catches_jumps(c, s, s1b, catches, fin, 0, j0, h0);
    assert(j0[0] == k.s1.pc());
    keeps_longer(k.s2, z);
    keeps_trans(s, k.s2, z);
    keeps_longer(s, k.s2);
    keeps_trans(s1b, k.s2, z);
    keeps_trans(k.s1, s1b, z);
    aim_all_fits(p, s, z, js, target, Set::empty());
    assert(Set::<int>::empty().union(operands(js)) =~= operands(js));
    catches_shape(p, c, s, s1b, catches, fin, 0, j0, h0, k.s2, js, k.handlers, z);
    assert forall|j: int| 1 <= j < js.len() implies k.s1.pc() + 1 <= #[trigger] js[j] + 1 by {
        assert(js[0] + 3 <= js[j]);
    }
    jumps_apart(js, s.pc(), k.s2.pc(), 0, s.pc(), k.s1.pc() + 1);
    branch_shows(p, s, k.s1, Opcode::Goto, 0, z, operands(js));
    assert(keeps(s, s)) by {
        broadcast use group_frame;

        assert(plain(s, s));
    }
    part_laid(p, s, s, k.s1, z, operands(js));
    assert forall|j: int| 0 <= j < js.len() implies !still_open(z.loops, (#[trigger] js[j]) + 1)
        && !still_open(z.loops, js[j] + 2) && shows(p, js[j], Opcode::Goto) by {
        if j > 0 {
            let h = k.handlers[j - 1];
            assert(handler_at(p, c, catches[j - 1], fin, h.0, js[j - 1 + 1]));
        }
    }
    assert(spaced(js, s.pc(), z.pc()));
    jumps_lead(p, s, z, js, target);
    assert forall|j: int, m: Machine|
        0 <= j < k.jumps.len() && m.pc == k.jumps[j] implies #[trigger] leads(w, p, m, target, j) by {
        assert(jump_target(p.code, js[j]) == target);
        goto_steps(w, p, m);
    }
}

/// A `try` statement without a `finally` block: from the end of its body and
/// from the end of each handler the code goes on after the statement.
pub proof fn try_goes_on_after_its_handlers(
    w: World,
    p: Program,
    c: CxView,
    s: State,
    body: Seq<Stmt>,
    catches: Seq<CatchClause>,
    fin: Seq<Seq<Stmt>>,
    t: State,
) -> (k: Attempt)
    requires
        settled(s),
        try_code(c, s, body, catches, None, fin) == Done::Ok(t),
        laid(p, s, t),
    ensures
        attempted(w, p, c, s, body, catches, fin, k, t.pc()),
        guards_body(t, t.exception_table.len() - catches.len(), s.pc(), k),
{
    let s1 = block_code(c, s, body, fin)->Ok_0;
    let (s2, jumps, handlers) = catches_code(
        c,
        s1.branch(Opcode::Goto, 0),
        catches,
        fin,
        0,
        seq![s1.pc()],
        Seq::empty(),
    )->Ok_0;
    let k = Attempt { s1, s2, jumps, handlers };
    let s3 = s2.aim_all(jumps, s2.pc());
    aim_all_same(s2, jumps, s2.pc());
    guarded_table(s3, handlers, s.pc(), s1.pc(), handlers.len() as int);
    same_code_fits(p, s, t, s3, Set::empty());
    assert(keeps(s2, s2)) by {
        broadcast use group_frame;

        assert(plain(s2, s2));
    }
    attempt_parts(w, p, c, s, body, catches, fin, k, s2, s2.pc());
    k
}

/// What is done with a value that a `try` statement with a `finally` block
/// does not catch: at `at` it is kept in `slot`, the block runs from `u` to
/// `v`, and then the value is raised again.
pub open spec fn raises_again(
    w: World,
    p: Program,
    at: int,
    u: State,
    v: State,
    slot: int,
) -> bool {
    &&& forall|m: Machine, rest: Seq<Value>, x: Value| #[trigger]
        topped(m, at, rest, x) ==> reaches(w, p, m, m.sets(slot, x).has(u.pc(), rest))
    &&& shows(p, v.pc() + 3, Opcode::Throw)
    &&& forall|m: Machine, x: Value|
        m.pc == v.pc() && #[trigger] m.holds(slot, x) ==> reaches(
            w,
            p,
            m,
            m.has(v.pc() + 3, m.stack.push(x)),
        )
}

/// A `try` statement with a `finally` block: whether the body or a handler
/// runs to its end, the next thing to run is a copy of the block, from its
/// very beginning to the end of the statement. Whatever else is raised in the
/// body or in a handler goes to another copy, and is raised again after it.
pub proof fn finally_runs_on_every_way_out(
    w: World,
    p: Program,
    c: CxView,
    s: State,
    body: Seq<Stmt>,
    catches: Seq<CatchClause>,
    block: Vec<Stmt>,
    fin: Seq<Seq<Stmt>>,
    t: State,
) -> (r: (Attempt, State, State, State, State))
    requires
        settled(s),
        try_code(c, s, body, catches, Some(block), fin) == Done::Ok(t),
        laid(p, s, t),
    ensures
        ({
            let (k, u, v, a, b) = r;
            let inner = fin.push(block@);
            &&& attempted(w, p, c.guarded(), s, body, catches, inner, k, a.pc())
            &&& block_code(c, a, block@, fin) == Done::Ok(b)
            &&& laid(p, a, b)
            &&& settled(a)
            &&& b.pc() == t.pc()
            &&& block_code(c, u, block@, fin) == Done::Ok(v)
            &&& laid(p, u, v)
            &&& settled(u)
            &&& raises_again(w, p, k.s2.pc(), u, v, k.s2.next_local as int)
            &&& guards_body(t, t.exception_table.len() - 1 - catches.len(), s.pc(), k)
            &&& t.exception_table.last() == (ExceptionTableEntry {
                start_pc: s.pc() as u16,
                end_pc: k.s2.pc() as u16,
                handler_pc: k.s2.pc() as u16,
                catch_type: 0,
            })
        }),
{
    let inner = inner_fin(fin, Some(block));
    let g = c.guarded();
    let s1 = block_code(g, s, body, inner)->Ok_0;
    let (s2, jumps, handlers) = catches_code(
        g,
        s1.branch(Opcode::Goto, 0),
        catches,
        inner,
        0,
        seq![s1.pc()],
        Seq::empty(),
    )->Ok_0;
    let k = Attempt { s1, s2, jumps, handlers };
    let d = s2.declare_scratch(ExprTyView::Object("Exception"@));
    let u = d.store(s2.next_local);
    let v = block_code(c, u, block@, fin)->Ok_0;
    let l = v.load(s2.next_local);
    let a = l.op(Opcode::Throw, -1);
    let b = block_code(c, a, block@, fin)->Ok_0;
    let s7 = b.aim_all(jumps, a.pc());
    aim_all_same(b, jumps, a.pc());
    let s8 = guarded(s7, handlers, s.pc(), s1.pc(), handlers.len() as int);
    guarded_table(s7, handlers, s.pc(), s1.pc(), handlers.len() as int);
    let entry = ExceptionTableEntry {
        start_pc: s.pc() as u16,
        end_pc: s2.pc() as u16,
        handler_pc: s2.pc() as u16,
        catch_type: 0,
    };
    assert(t == s8.protect(entry));
    assert(t.code == s7.code && t.cp == s7.cp && t.loops == s7.loops && t.exception_table
        == s8.exception_table.push(entry)) by {
        reveal(State::protect);
    }
    same_code_fits(p, s, t, s7, Set::empty());
    assert(plain(s2, d) && d.pc() == s2.pc()) by {
        broadcast use group_frame;

        reveal(State::declare);
    }
    plain_kept(s2, d);
    u16_kept(d, Opcode::Store, s2.next_local, -1);
    block_keeps(c, u, block@, fin);
    u16_kept(v, Opcode::Load, s2.next_local, 1);
    op_kept(l, Opcode::Throw, -1);
    block_keeps(c, a, block@, fin);
    let q = seq![s2, d, u, v, l, a, b];
    assert(road(q)) by {
        reveal(road);
    }
    road_keeps(q);
    assert(q[0] == s2 && q[1] == d && q[2] == u && q[3] == v && q[4] == l && q[5] == a && q[6]
        == b);
    attempt_parts(w, p, g, s, body, catches, inner, k, b, a.pc());
    let but = operands(jumps);
    jumps_apart(jumps, s.pc(), s2.pc(), jumps.len() as int, s2.pc(), b.pc());
    keeps_trans(s, s2, d);
    keeps_trans(s, s2, u);
    keeps_trans(s, s2, v);
    keeps_trans(s, s2, l);
    keeps_trans(s, s2, a);
    keeps_longer(a, b);
    u16_shows(p, s, d, Opcode::Store, s2.next_local, -1, b, but);
    u16_shows(p, s, v, Opcode::Load, s2.next_local, 1, b, but);
    op_shows(p, s, l, Opcode::Throw, -1, b, but);
    part_laid(p, s, u, v, b, but);
    part_laid(p, s, a, b, b, but);
    settled_kept(s, u);
    settled_kept(s, a);
    let slot = s2.next_local as int;
    assert forall|m: Machine, rest: Seq<Value>, x: Value| #[trigger]
        topped(m, s2.pc(), rest, x) implies reaches(w, p, m, m.sets(slot, x).has(u.pc(), rest)) by {
        store_steps(w, p, m, slot, rest, x);
    }
    assert forall|m: Machine, x: Value|
        m.pc == v.pc() && #[trigger] m.holds(slot, x) implies reaches(
        w,
        p,
        m,
        m.has(v.pc() + 3, m.stack.push(x)),
    ) by {
        load_steps(w, p, m, slot, x);
    }
    (k, u, v, a, b)
}

} // verus!
