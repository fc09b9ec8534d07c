//! What the code of a `switch` does when it runs.

use crate::ast::{Expr, Stmt, SwitchCase};
use crate::bytecode::opcode::Opcode;
use crate::codegen::branching::coercion_plain;
use crate::codegen::emitter::{new_loop, CxView, State};
use crate::codegen::expr_ty::ExprTyView;
use crate::codegen::frame::{group_frame, keeps, keeps_longer, keeps_trans, plain};
use crate::codegen::kept::block_keeps;
use crate::codegen::laws::jump_target;
use crate::codegen::looping::loop_states;
use crate::codegen::lowered::{
    aimed_cases, block_code, bodies_code, dispatch_code, expr_code, switch_code,
};
use crate::codegen::machine::{reaches, shows, word, Machine, Program, Value, World};
use crate::codegen::ops::{coerced, Done, Typed};
use crate::codegen::placed::{
    aim_all_fits, aim_fits, body_laid, branch_kept, branch_shows, fits, in_operand, laid, op_kept,
    op_shows, operand_at, operands, part_fits, part_laid, plain_kept, road, road_keeps, settled,
    settled_kept, still_open, u16_kept, u16_shows,
};
use crate::codegen::running::topped;
use crate::codegen::steps::store_steps;
use crate::codegen::straight::expr_plain;
use vstd::prelude::*;

verus! {

proof fn kept_self(s: State)
    ensures
        keeps(s, s),
{
    broadcast use group_frame;

    assert(plain(s, s));
}

/// The bodies of a `switch` follow one another: `q[i]` is before the `i`-th,
/// so that the end of one is the beginning of the next.
pub open spec fn bodies_laid(
    p: Program,
    c: CxView,
    cases: Seq<SwitchCase>,
    fin: Seq<Seq<Stmt>>,
    q: Seq<State>,
) -> bool {
    &&& q.len() == cases.len() + 1
    &&& forall|i: int|
        0 <= i < cases.len() ==> block_code(c, #[trigger] q[i], cases[i].body@, fin) == Done::Ok(
            q[i + 1],
        ) && laid(p, q[i], q[i + 1])
}

proof fn bodies_follow(
    p: Program,
    c: CxView,
    a: State,
    s: State,
    cases: Seq<SwitchCase>,
    fin: Seq<Seq<Stmt>>,
    i: int,
    starts: Seq<int>,
    t: State,
    all: Seq<int>,
    done: Seq<State>,
    z: State,
) -> (q: Seq<State>)
    requires
        keeps(a, s),
        0 <= i <= cases.len(),
        starts.len() == i,
        done.len() == i + 1,
        done.last() == s,
        forall|j: int|
            0 <= j < i ==> block_code(c, #[trigger] done[j], cases[j].body@, fin) == Done::Ok(
                done[j + 1],
            ) && laid(p, done[j], done[j + 1]) && starts[j] == done[j].pc(),
        bodies_code(c, s, cases, fin, i, starts) == Ok::<_, Seq<char>>((t, all)),
        keeps(t, z),
        laid(p, a, z),
    ensures
        bodies_laid(p, c, cases, fin, q),
        q[0] == done[0],
        q.last() == t,
        all.len() == cases.len(),
        forall|j: int| 0 <= j < cases.len() ==> all[j] == (#[trigger] q[j]).pc(),
    decreases cases.len() - i,
{
    if i >= cases.len() {
        done
    } else {
        block_keeps(c, s, cases[i].body@, fin);
        let s1 = block_code(c, s, cases[i].body@, fin)->Ok_0;
        keeps_trans(a, s, s1);
        bodies_kept(c, s1, cases, fin, i + 1, starts.push(s.pc()));
        keeps_trans(s1, t, z);
        part_laid(p, a, s, s1, z, Set::empty());
        let more = done.push(s1);
        let st = starts.push(s.pc());
        assert forall|j: int| 0 <= j < i + 1 implies block_code(
            c,
            #[trigger] more[j],
            cases[j].body@,
            fin,
        ) == Done::Ok(more[j + 1]) && laid(p, more[j], more[j + 1]) && st[j] == more[j].pc() by {
            if j < i {
                assert(more[j] == done[j] && more[j + 1] == done[j + 1]);
            } else {
                assert(more[j] == s && more[j + 1] == s1);
            }
        }
        let q = bodies_follow(p, c, a, s1, cases, fin, i + 1, st, t, all, more, z);
        q
    }
}

proof fn bodies_kept(
    c: CxView,
    s: State,
    cases: Seq<SwitchCase>,
    fin: Seq<Seq<Stmt>>,
    i: int,
    starts: Seq<int>,
)
    ensures
        bodies_code(c, s, cases, fin, i, starts) matches Ok((t, _)) ==> keeps(s, t),
    decreases cases.len() - i,
{
    if 0 <= i < cases.len() {
        block_keeps(c, s, cases[i].body@, fin);
        if let Ok(s1) = block_code(c, s, cases[i].body@, fin) {
            bodies_kept(c, s1, cases, fin, i + 1, starts.push(s.pc()));
            if let Ok((t, _)) = bodies_code(c, s, cases, fin, i, starts) {
                keeps_trans(s, s1, t);
            }
        }
    } else {
        kept_self(s);
    }
}

/// Where the jumps of the comparisons are.
pub open spec fn places(jumps: Seq<(int, int)>) -> Seq<int> {
    jumps.map_values(|j: (int, int)| j.1)
}

/// Whether the jumps to the cases lie one after the other between `lo` and
/// `hi`.
pub open spec fn in_turn(jumps: Seq<(int, int)>, lo: int, hi: int) -> bool {
    &&& forall|i: int| 0 <= i < jumps.len() ==> lo <= (#[trigger] jumps[i]).1 && jumps[i].1 + 3 <= hi
    &&& forall|i: int, j: int|
        0 <= i < j < jumps.len() ==> (#[trigger] jumps[i]).1 + 3 <= (#[trigger] jumps[j]).1
}

/// Aiming the jumps at the bodies: each leads to the body of its case, and the
/// rest of the code stays as it was.
proof fn cases_aimed(
    p: Program,
    a: State,
    s: State,
    jumps: Seq<(int, int)>,
    starts: Seq<int>,
    n: int,
    but: Set<int>,
)
    requires
        0 <= n <= jumps.len(),
        a.pc() <= s.pc(),
        in_turn(jumps, a.pc(), s.pc()),
        fits(p, a, aimed_cases(s, jumps, starts, n), but),
        forall|j: int|
            0 <= j < jumps.len() ==> 0 <= starts[(#[trigger] jumps[j]).0] <= s.pc(),
        forall|j: int|
            0 <= j < n ==> !but.contains((#[trigger] jumps[j]).1 + 1) && !but.contains(
                jumps[j].1 + 2,
            ),
    ensures
        fits(p, a, s, but.union(operands(places(jumps.take(n))))),
        aimed_cases(s, jumps, starts, n).pc() == s.pc(),
        aimed_cases(s, jumps, starts, n).loops == s.loops,
        forall|j: int|
            0 <= j < n && !still_open(s.loops, (#[trigger] jumps[j]).1 + 1) && !still_open(
                s.loops,
                jumps[j].1 + 2,
            ) ==> jump_target(p.code, jumps[j].1) == starts[jumps[j].0],
    decreases n,
{
    aimed_cases_same(s, jumps, starts, n);
    if n > 0 {
        let b = aimed_cases(s, jumps, starts, n - 1);
        aimed_cases_same(s, jumps, starts, n - 1);
        let (case, pc) = jumps[n - 1];
        assert(0 <= starts[jumps[n - 1].0] <= s.pc());
        aim_fits(p, a, b, pc, starts[case], but);
        let but1 = but.union(operand_at(pc));
        assert forall|j: int| 0 <= j < n - 1 implies !but1.contains((#[trigger] jumps[j]).1 + 1)
            && !but1.contains(jumps[j].1 + 2) by {
            assert(jumps[j].1 + 3 <= jumps[n - 1].1);
        }
        cases_aimed(p, a, s, jumps, starts, n - 1, but1);
        assert(fits(p, a, s, but.union(operands(places(jumps.take(n)))))) by {
            reveal(fits);
            let all = places(jumps.take(n));
            let fewer = places(jumps.take(n - 1));
            assert forall|i: int| but1.union(operands(fewer)).contains(i) implies #[trigger] but.union(
                operands(all),
            ).contains(i) by {
                if operands(fewer).contains(i) {
                    let j = choose|j: int|
                        0 <= j < fewer.len() && (#[trigger] fewer[j]) < i <= fewer[j] + 2;
                    assert(all[j] == fewer[j]);
                } else if operand_at(pc).contains(i) {
                    assert(all[n - 1] == pc);
                }
            }
        }
    } else {
        assert(fits(p, a, s, but.union(operands(places(jumps.take(n)))))) by {
            reveal(fits);
        }
    }
}

proof fn aimed_cases_same(s: State, jumps: Seq<(int, int)>, starts: Seq<int>, n: int)
    ensures
        aimed_cases(s, jumps, starts, n).pc() == s.pc(),
        aimed_cases(s, jumps, starts, n).loops == s.loops,
        aimed_cases(s, jumps, starts, n).cp == s.cp,
    decreases n,
{
    reveal(State::aim);
    if n > 0 {
        aimed_cases_same(s, jumps, starts, n - 1);
    }
}

/// Where the comparison behind the first `j` jumps begins: the first one at
/// `base`, each other one right after the jump before it.
pub open spec fn next_from(jumps: Seq<(int, int)>, j: int, base: int) -> int {
    if j <= 0 {
        base
    } else {
        jumps[j - 1].1 + 3
    }
}

/// Whether the comparison with the value of a case stands at `from`: the
/// subject is pushed, then the value, and they are compared; the jump at `at`
/// is taken where they are equal.
pub open spec fn tested_at(
    p: Program,
    c: CxView,
    subject: u16,
    ty: ExprTyView,
    value: Expr,
    from: int,
    at: int,
) -> bool {
    exists|x: State, y: State, e: State|
        {
            &&& #[trigger] laid(p, x.load(subject), y)
            &&& #[trigger] laid(p, y, e)
            &&& expr_code(c, x.load(subject), value) matches Ok((y1, value_ty)) && y1 == y
                && coerced(y, value_ty, ty, "switch case"@) == Done::Ok(e)
            &&& x.pc() == from
            &&& x.load(subject).pc() == from + 3
            &&& shows(p, from, Opcode::Load)
            &&& word(p.code, from) == subject
            &&& shows(p, e.pc(), Opcode::CmpEq)
            &&& e.pc() + 1 == at
            &&& shows(p, at, Opcode::IfTrue)
        }
}

/// Whether the jumps go to cases with a value, and the default is one without.
pub open spec fn of_cases(cases: Seq<SwitchCase>, jumps: Seq<(int, int)>, default: Option<int>) -> bool {
    &&& forall|j: int|
        0 <= j < jumps.len() ==> 0 <= (#[trigger] jumps[j]).0 < cases.len() && cases[jumps[j].0].value
            is Some
    &&& default matches Some(d) ==> 0 <= d < cases.len() && cases[d].value is None
}

/// Whether each of the first `n` cases with a value has a jump, and one without
/// is the default.
#[verifier::opaque]
pub open spec fn all_cases(
    cases: Seq<SwitchCase>,
    n: int,
    jumps: Seq<(int, int)>,
    default: Option<int>,
) -> bool {
    &&& forall|k: int|
        0 <= k < n && (#[trigger] cases[k]).value is Some ==> exists|j: int|
            0 <= j < jumps.len() && (#[trigger] jumps[j]).0 == k
    &&& forall|k: int| 0 <= k < n && (#[trigger] cases[k]).value is None ==> default is Some
}

proof fn one_more_case(
    cases: Seq<SwitchCase>,
    i: int,
    jumps: Seq<(int, int)>,
    default: Option<int>,
    at: int,
    lo: int,
    mid: int,
    hi: int,
)
    requires
        0 <= i < cases.len(),
        of_cases(cases, jumps, default),
        all_cases(cases, i, jumps, default),
        in_turn(jumps, lo, mid),
        lo <= mid <= at,
        at + 3 <= hi,
    ensures
        cases[i].value is Some ==> of_cases(cases, jumps.push((i, at)), default) && all_cases(
            cases,
            i + 1,
            jumps.push((i, at)),
            default,
        ) && in_turn(jumps.push((i, at)), lo, hi),
        cases[i].value is None ==> of_cases(cases, jumps, Some(i)) && all_cases(
            cases,
            i + 1,
            jumps,
            Some(i),
        ),
{
    reveal(all_cases);
    let js = jumps.push((i, at));
    assert(js[jumps.len() as int] == (i, at));
    assert forall|k: int| 0 <= k < i + 1 && (#[trigger] cases[k]).value is Some implies exists|j: int|
        0 <= j < js.len() && (#[trigger] js[j]).0 == k by {
        if k < i {
            let j = choose|j: int| 0 <= j < jumps.len() && (#[trigger] jumps[j]).0 == k;
            assert(js[j] == jumps[j]);
        } else {
            assert(js[jumps.len() as int].0 == k);
        }
    }
}

/// One comparison.
pub open spec fn compared(s2: State) -> State {
    s2.op(Opcode::CmpEq, -1)
}

proof fn one_test(
    c: CxView,
    a: State,
    s: State,
    subject: u16,
    ty: ExprTyView,
    value: Expr,
    y: State,
    value_ty: ExprTyView,
    e: State,
)
    requires
        keeps(a, s),
        expr_code(c, s.load(subject), value) == Typed::Ok((y, value_ty)),
        coerced(y, value_ty, ty, "switch case"@) == Done::Ok(e),
    ensures
        ({
            let l = s.load(subject);
            let g = compared(e);
            let b = g.branch(Opcode::IfTrue, -1);
            &&& keeps(a, l) && keeps(s, l) && keeps(l, y) && keeps(y, e) && keeps(e, g) && keeps(g, b)
            &&& keeps(a, y) && keeps(a, e) && keeps(a, g) && keeps(a, b) && keeps(s, b)
            &&& keeps(l, b) && keeps(y, b) && keeps(e, b)
            &&& l.pc() == s.pc() + 3
            &&& l.pc() <= y.pc() <= e.pc()
            &&& g.pc() == e.pc() + 1
            &&& b.pc() == g.pc() + 3
        }),
{
    let l = s.load(subject);
    let g = compared(e);
    let b = g.branch(Opcode::IfTrue, -1);
    u16_kept(s, Opcode::Load, subject, 1);
    expr_plain(c, l, value);
    plain_kept(l, y);
    coercion_plain(y, value_ty, ty, "switch case"@);
    plain_kept(y, e);
    op_kept(e, Opcode::CmpEq, -1);
    branch_kept(g, Opcode::IfTrue, -1);
    let q = seq![a, s, l, y, e, g, b];
    assert(road(q)) by {
        reveal(road);
    }
    road_keeps(q);
    assert(q[0] == a && q[1] == s && q[2] == l && q[3] == y && q[4] == e && q[5] == g && q[6] == b);
}

proof fn dispatch_jumps(
    c: CxView,
    a: State,
    s: State,
    subject: u16,
    ty: ExprTyView,
    cases: Seq<SwitchCase>,
    i: int,
    jumps: Seq<(int, int)>,
    default: Option<int>,
    base: int,
)
    requires
        keeps(a, s),
        in_turn(jumps, a.pc(), s.pc()),
        0 <= i <= cases.len(),
        of_cases(cases, jumps, default),
        all_cases(cases, i, jumps, default),
        s.pc() == next_from(jumps, jumps.len() as int, base),
    ensures
        dispatch_code(c, s, subject, ty, cases, i, jumps, default) matches Ok((t, js, d)) ==> {
            &&& keeps(a, t)
            &&& keeps(s, t)
            &&& in_turn(js, a.pc(), t.pc())
            &&& js.len() >= jumps.len()
            &&& forall|j: int| 0 <= j < jumps.len() ==> js[j] == #[trigger] jumps[j]
            &&& forall|j: int| jumps.len() <= j < js.len() ==> s.pc() <= (#[trigger] js[j]).1
            &&& of_cases(cases, js, d)
            &&& all_cases(cases, cases.len() as int, js, d)
            &&& t.pc() == next_from(js, js.len() as int, base)
        },
    decreases cases.len() - i,
{
    keeps_longer(a, s);
    if i >= cases.len() {
        kept_self(s);
    } else {
        match cases[i].value {
            Some(value) => {
                if let Ok((y, value_ty)) = expr_code(c, s.load(subject), value) {
                    if let Ok(e) = coerced(y, value_ty, ty, "switch case"@) {
                        one_test(c, a, s, subject, ty, value, y, value_ty, e);
                        let g = compared(e);
                        let b = g.branch(Opcode::IfTrue, -1);
                        let js1 = jumps.push((i, g.pc()));
                        one_more_case(cases, i, jumps, default, g.pc(), a.pc(), s.pc(), b.pc());
                        assert(js1[jumps.len() as int] == (i, g.pc()));
                        dispatch_jumps(c, a, b, subject, ty, cases, i + 1, js1, default, base);
                        if let Ok((t, js, d)) = dispatch_code(
                            c,
                            s,
                            subject,
                            ty,
                            cases,
                            i,
                            jumps,
                            default,
                        ) {
                            keeps_trans(s, b, t);
                            assert forall|j: int| 0 <= j < jumps.len() implies js[j]
                                == #[trigger] jumps[j] by {
                                assert(js1[j] == jumps[j]);
                            }
                        }
                    }
                }
            },
            None => {
                one_more_case(cases, i, jumps, default, s.pc(), a.pc(), s.pc(), s.pc() + 3);
                dispatch_jumps(c, a, s, subject, ty, cases, i + 1, jumps, Some(i), base);
            },
        }
    }
}

proof fn dispatch_shape(
    p: Program,
    c: CxView,
    a: State,
    s: State,
    subject: u16,
    ty: ExprTyView,
    cases: Seq<SwitchCase>,
    i: int,
    jumps: Seq<(int, int)>,
    default: Option<int>,
    base: int,
    t: State,
    js: Seq<(int, int)>,
    d: Option<int>,
    z: State,
    but: Set<int>,
)
    requires
        settled(a),
        keeps(a, s),
        in_turn(jumps, a.pc(), s.pc()),
        0 <= i <= cases.len(),
        of_cases(cases, jumps, default),
        all_cases(cases, i, jumps, default),
        s.pc() == next_from(jumps, jumps.len() as int, base),
        dispatch_code(c, s, subject, ty, cases, i, jumps, default) == Ok::<_, Seq<char>>((t, js, d)),
        keeps(t, z),
        fits(p, a, z, but),
        forall|x: int|
            a.pc() <= x < t.pc() && #[trigger] but.contains(x) ==> in_operand(places(js), x),
    ensures
        forall|j: int|
            jumps.len() <= j < js.len() ==> {
                &&& tested_at(
                    p,
                    c,
                    subject,
                    ty,
                    cases[(#[trigger] js[j]).0].value->0,
                    next_from(js, j, base),
                    js[j].1,
                )
                &&& !still_open(z.loops, js[j].1 + 1)
                &&& !still_open(z.loops, js[j].1 + 2)
            },
    decreases cases.len() - i,
{
    keeps_longer(a, s);
    dispatch_jumps(c, a, s, subject, ty, cases, i, jumps, default, base);
    if i < cases.len() {
        match cases[i].value {
            Some(value) => {
                let (y, value_ty) = expr_code(c, s.load(subject), value)->Ok_0;
                let e = coerced(y, value_ty, ty, "switch case"@)->Ok_0;
                one_test(c, a, s, subject, ty, value, y, value_ty, e);
                let l = s.load(subject);
                let g = compared(e);
                let b = g.branch(Opcode::IfTrue, -1);
                let n = jumps.len() as int;
                let js1 = jumps.push((i, g.pc()));
                assert(js1[n] == (i, g.pc()));
                one_more_case(cases, i, jumps, default, g.pc(), a.pc(), s.pc(), b.pc());
                dispatch_jumps(c, a, b, subject, ty, cases, i + 1, js1, default, base);
                dispatch_shape(
                    p,
                    c,
                    a,
                    b,
                    subject,
                    ty,
                    cases,
                    i + 1,
                    js1,
                    default,
                    base,
                    t,
                    js,
                    d,
                    z,
                    but,
                );
                assert(js[n] == (i, g.pc()));
                keeps_longer(b, t);
                assert forall|x: int| s.pc() <= x < g.pc() + 1 implies !but.contains(x) by {
                    if but.contains(x) {
                        let ps = places(js);
                        let j = choose|j: int|
                            0 <= j < ps.len() && (#[trigger] ps[j]) < x <= ps[j] + 2;
                        assert(ps[j] == js[j].1);
                        if j < n {
                            assert(js[j] == jumps[j]);
                        } else if j > n {
                            assert(js[n].1 + 3 <= js[j].1);
                        }
                    }
                }
                keeps_trans(b, t, z);
                keeps_trans(l, b, z);
                keeps_trans(y, b, z);
                keeps_trans(e, b, z);
                keeps_trans(g, b, z);
                u16_shows(p, a, s, Opcode::Load, subject, 1, z, but);
                op_shows(p, a, e, Opcode::CmpEq, -1, z, but);
                branch_shows(p, a, g, Opcode::IfTrue, -1, z, but);
                part_laid(p, a, l, y, z, but);
                part_laid(p, a, y, e, z, but);
                assert(next_from(js, n, base) == s.pc()) by {
                    if n > 0 {
                        assert(js[n - 1] == jumps[n - 1]);
                    }
                }
                assert(tested_at(p, c, subject, ty, value, s.pc(), g.pc()));
            },
            None => {
                one_more_case(cases, i, jumps, default, s.pc(), a.pc(), s.pc(), s.pc() + 3);
                dispatch_shape(
                    p,
                    c,
                    a,
                    s,
                    subject,
                    ty,
                    cases,
                    i + 1,
                    jumps,
                    Some(i),
                    base,
                    t,
                    js,
                    d,
                    z,
                    but,
                );
            },
        }
    }
}

proof fn bodies_starts(
    c: CxView,
    s: State,
    cases: Seq<SwitchCase>,
    fin: Seq<Seq<Stmt>>,
    i: int,
    starts: Seq<int>,
    lo: int,
)
    requires
        0 <= i <= cases.len(),
        starts.len() == i,
        lo <= s.pc(),
        forall|j: int| 0 <= j < i ==> lo <= #[trigger] starts[j] <= s.pc(),
    ensures
        bodies_code(c, s, cases, fin, i, starts) matches Ok((t, all)) ==> all.len() == cases.len()
            && forall|j: int| 0 <= j < cases.len() ==> lo <= #[trigger] all[j] <= t.pc(),
    decreases cases.len() - i,
{
    if i < cases.len() {
        block_keeps(c, s, cases[i].body@, fin);
        if let Ok(s1) = block_code(c, s, cases[i].body@, fin) {
            keeps_longer(s, s1);
            bodies_starts(c, s1, cases, fin, i + 1, starts.push(s.pc()), lo);
        }
    }
}

/// The parts of a `switch`: its subject ends at `s1` and is kept in `subject`;
/// the comparisons, from `s2` on, end at `s3`; `q` are the states around the
/// bodies.
pub struct Choice {
    pub s1: State,
    pub ty: ExprTyView,
    pub s2: State,
    pub subject: u16,
    pub jumps: Seq<(int, int)>,
    pub default: Option<int>,
    pub s3: State,
    pub q: Seq<State>,
}

/// A `switch` keeps its subject and compares it with the values of the cases,
/// in their order; where one is equal, its body is the next to run. Where none
/// is, it is the body of the default case or, without one, what comes after
/// the statement. From the end of a body the next one runs; the last one ends
/// where the statement does.
pub proof fn switch_runs(
    w: World,
    p: Program,
    c: CxView,
    s: State,
    subject: Expr,
    cases: Seq<SwitchCase>,
    fin: Seq<Seq<Stmt>>,
    t: State,
) -> (k: Choice)
    requires
        settled(s),
        switch_code(c, s, subject, cases, fin) == Done::Ok(t),
        laid(p, s, t),
    ensures
        expr_code(c, s, subject) == Typed::Ok((k.s1, k.ty)),
        laid(p, s, k.s1),
        forall|m: Machine, rest: Seq<Value>, v: Value| #[trigger]
            topped(m, k.s1.pc(), rest, v) ==> reaches(
                w,
                p,
                m,
                m.sets(k.subject as int, v).has(k.s2.pc(), rest),
            ),
        of_cases(cases, k.jumps, k.default),
        all_cases(cases, cases.len() as int, k.jumps, k.default),
        bodies_laid(p, c, cases, fin, k.q),
        k.q.last().pc() == t.pc(),
        forall|j: int|
            0 <= j < k.jumps.len() ==> tested_at(
                p,
                c,
                k.subject,
                k.ty,
                cases[(#[trigger] k.jumps[j]).0].value->0,
                next_from(k.jumps, j, k.s2.pc()),
                k.jumps[j].1,
            ) && jump_target(p.code, k.jumps[j].1) == k.q[k.jumps[j].0].pc(),
        k.s3.pc() == next_from(k.jumps, k.jumps.len() as int, k.s2.pc()),
        shows(p, k.s3.pc(), Opcode::Goto),
        jump_target(p.code, k.s3.pc()) == match k.default {
            Some(d) => k.q[d].pc(),
            None => t.pc(),
        },
{
    expr_plain(c, s, subject);
    let (s1, ty) = expr_code(c, s, subject)->Ok_0;
    let local = s1.next_local;
    let d = s1.declare_scratch(ty);
    let s2 = d.store(local);
    let none = Seq::<(int, int)>::empty();
    let (s3, jumps, default) = dispatch_code(c, s2, local, ty, cases, 0, none, None)->Ok_0;
    let s3b = s3.branch(Opcode::Goto, 0);
    let l0 = new_loop(fin.len() as int, true);
    let u = s3b.enter_loop(l0);
    let (s5, starts) = bodies_code(c, u, cases, fin, 0, Seq::empty())->Ok_0;
    let l = s5.this_loop();
    let z = s5.leave_loop();
    let n = jumps.len() as int;
    let s6 = aimed_cases(z, jumps, starts, n);
    let target = match default {
        Some(i) => starts[i],
        None => s5.pc(),
    };
    let s7 = s6.aim(s3.pc(), target);
    assert(t == s7.aim_all(l.break_patches, s5.pc()));
    plain_kept(s, s1);
    assert(plain(s1, d) && d.pc() == s1.pc()) by {
        broadcast use group_frame;

        reveal(State::declare);
    }
    plain_kept(s1, d);
    u16_kept(d, Opcode::Store, local, -1);
    keeps_trans(s, s1, d);
    keeps_trans(s, d, s2);
    assert(of_cases(cases, none, None) && in_turn(none, s2.pc(), s2.pc()));
    assert(all_cases(cases, 0, none, None)) by {
        reveal(all_cases);
    }
    kept_self(s2);
    kept_self(s);
    dispatch_jumps(c, s2, s2, local, ty, cases, 0, none, None, s2.pc());
    branch_kept(s3, Opcode::Goto, 0);
    bodies_kept(c, u, cases, fin, 0, Seq::empty());
    loop_states(s3b, l0, s5);
    bodies_starts(c, u, cases, fin, 0, Seq::empty(), u.pc());
    keeps_longer(s2, s3);
    keeps_longer(s, s2);
    aimed_cases_same(z, jumps, starts, n);
    assert(s7.pc() == s5.pc() && s7.loops == z.loops) by {
        reveal(State::aim);
    }
    let e0 = Set::<int>::empty();
    aim_all_fits(p, s, s7, l.break_patches, s5.pc(), e0);
    let e1 = e0.union(operands(l.break_patches));
    aim_fits(p, s, s6, s3.pc(), target, e1);
    let e2 = e1.union(operand_at(s3.pc()));
    assert(in_turn(jumps, s.pc(), z.pc())) by {
        assert forall|i: int| 0 <= i < jumps.len() implies s.pc() <= (#[trigger] jumps[i]).1
            && jumps[i].1 + 3 <= z.pc() by {}
    }
    cases_aimed(p, s, z, jumps, starts, n, e2);
    assert(jumps.take(n) =~= jumps);
    let but = e2.union(operands(places(jumps)));
    keeps_trans(s3, s3b, z);
    keeps_trans(s2, s3, z);
    keeps_trans(s, s2, s3);
    keeps_trans(d, s2, z);
    keeps_trans(s1, d, z);
    assert forall|x: int| s2.pc() <= x < s3.pc() && #[trigger] but.contains(x) implies in_operand(
        places(jumps),
        x,
    ) by {}
    assert forall|x: int| but.contains(x) && x <= s3.pc() implies s2.pc() < x < s3.pc() by {
        if in_operand(places(jumps), x) {
            let ps = places(jumps);
            let j = choose|j: int| 0 <= j < ps.len() && (#[trigger] ps[j]) < x <= ps[j] + 2;
            assert(ps[j] == jumps[j].1);
        }
    }
    assert(in_turn_places(jumps, s3.pc())) by {
        assert forall|x: int| in_operand(places(jumps), x) implies x < s3.pc() by {
            let ps = places(jumps);
            let j = choose|j: int| 0 <= j < ps.len() && (#[trigger] ps[j]) < x <= ps[j] + 2;
            assert(ps[j] == jumps[j].1);
        }
    }
    u16_shows(p, s, d, Opcode::Store, local, -1, z, but);
    branch_shows(p, s, s3, Opcode::Goto, 0, z, but);
    part_laid(p, s, s, s1, z, but);
    settled_kept(s, s2);
    kept_self(z);
    part_fits(p, s, s2, z, z, but);
    dispatch_shape(
        p,
        c,
        s2,
        s2,
        local,
        ty,
        cases,
        0,
        none,
        None,
        s2.pc(),
        s3,
        jumps,
        default,
        z,
        but,
    );
    body_laid(p, s, u, s5, but);
    kept_self(u);
    kept_self(s5);
    let q = bodies_follow(
        p,
        c,
        u,
        u,
        cases,
        fin,
        0,
        Seq::empty(),
        s5,
        starts,
        seq![u],
        s5,
    );
    assert forall|m: Machine, rest: Seq<Value>, v: Value| #[trigger]
        topped(m, s1.pc(), rest, v) implies reaches(
        w,
        p,
        m,
        m.sets(local as int, v).has(s2.pc(), rest),
    ) by {
        store_steps(w, p, m, local as int, rest, v);
    }
    Choice { s1, ty, s2, subject: local, jumps, default, s3, q }
}

/// Whether the operands of all jumps to cases lie before `at`.
spec fn in_turn_places(jumps: Seq<(int, int)>, at: int) -> bool {
    forall|x: int| in_operand(places(jumps), x) ==> x < at
}

} // verus!
