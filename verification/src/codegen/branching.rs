//! What the code of the choices does when it runs: conditions, and values that
//! stand in for others.

use crate::ast::{Expr, Stmt};
use crate::bytecode::opcode::Opcode;
use crate::codegen::emitter::{CxView, State};
use crate::codegen::expr_ty::ExprTyView;
use crate::codegen::frame::{group_frame, keeps, keeps_longer, keeps_trans, plain};
use crate::codegen::kept::block_keeps;
use crate::codegen::laws::jump_target;
use crate::codegen::lowered::{block_code, expr_code, if_code, ternary_code};
use crate::codegen::machine::{
    reaches, reaches_self, reaches_trans, shows, Machine, Program, Value, World,
};
use crate::codegen::ops::{coerced, Done, Typed};
use crate::codegen::placed::{
    aim_fits, branch_kept, branch_shows, laid, op_kept, op_shows, operand_at, part_fits, part_laid,
    plain_kept, road, road_keeps, settled, settled_kept, open_since, still_open,
};
use crate::codegen::running::topped;
use crate::codegen::steps::{
    convert_steps, dup_steps, goto_steps, if_steps, null_steps, pop_steps, pushed,
};
use crate::codegen::straight::expr_plain;
use crate::codegen::vars::{narrowed, narrowing, widened_back};
use crate::probe::cast;
use vstd::prelude::*;

verus! {

/// A value, fitted to the type that is expected of it.
pub open spec fn fitted(w: World, actual: ExprTyView, expected: ExprTyView, v: Value) -> Value {
    if expected is Float && actual is Int {
        (w.converts)(Opcode::I2F, v)
    } else {
        v
    }
}

proof fn kept_self(s: State)
    ensures
        keeps(s, s),
{
    broadcast use group_frame;

    assert(plain(s, s));
}

/// Fitting a value: an `int` where a `float` is expected is converted, any
/// other value stays as it is.
pub proof fn coercion_runs(
    w: World,
    p: Program,
    s: State,
    actual: ExprTyView,
    expected: ExprTyView,
    what: Seq<char>,
    t: State,
    m: Machine,
    rest: Seq<Value>,
    v: Value,
)
    requires
        settled(s),
        coerced(s, actual, expected, what) == Done::Ok(t),
        laid(p, s, t),
        topped(m, s.pc(), rest, v),
    ensures
        keeps(s, t),
        reaches(w, p, m, m.has(t.pc(), rest.push(fitted(w, actual, expected, v)))),
{
    kept_self(s);
    if expected is Float && actual is Int {
        op_kept(s, Opcode::I2F, 0);
        kept_self(t);
        op_shows(p, s, s, Opcode::I2F, 0, t, Set::empty());
        convert_steps(w, p, m, Opcode::I2F, rest, v);
    } else {
        reaches_self(w, p, m);
        assert(m == m.has(t.pc(), rest.push(v)));
    }
}

pub proof fn coercion_plain(s: State, actual: ExprTyView, expected: ExprTyView, what: Seq<char>)
    ensures
        coerced(s, actual, expected, what) matches Ok(t) ==> plain(s, t),
{
    broadcast use group_frame;

}

/// Code of two branches behind a condition, which ends at `s1`: the one where
/// it holds goes from `a0` to `a1`, the other one from `b0` to `b1`.
proof fn two_branches(p: Program, s: State, s1: State, a0: State, a1: State, b0: State, b1: State)
    requires
        settled(s),
        keeps(s, s1),
        keeps(s1.branch(Opcode::IfFalse, -1), a0),
        a0.pc() == s1.branch(Opcode::IfFalse, -1).pc(),
        keeps(a0, a1),
        b0 == a1.branch(Opcode::Goto, 0).aim_here(s1.pc()),
        keeps(b0, b1),
        laid(p, s, b1.aim_here(a1.pc())),
    ensures
        laid(p, s, s1),
        shows(p, s1.pc(), Opcode::IfFalse),
        jump_target(p.code, s1.pc()) == b0.pc(),
        a0.pc() == s1.pc() + 3,
        laid(p, a0, a1),
        settled(a0),
        shows(p, a1.pc(), Opcode::Goto),
        jump_target(p.code, a1.pc()) == b1.pc(),
        b1.aim_here(a1.pc()).pc() == b1.pc(),
        laid(p, b0, b1),
        settled(b0),
{
    let sb = s1.branch(Opcode::IfFalse, -1);
    branch_kept(s1, Opcode::IfFalse, -1);
    branch_kept(a1, Opcode::Goto, 0);
    let e = a1.branch(Opcode::Goto, 0);
    let q = seq![s, s1, sb, a0, a1, e];
    assert(road(q)) by {
        reveal(road);
    }
    road_keeps(q);
    assert(q[0] == s && q[1] == s1 && q[2] == sb && q[3] == a0 && q[4] == a1 && q[5] == e);
    assert(keeps(s, b0) && keeps(s, s)) by {
        broadcast use group_frame;

        assert(plain(s, s));
    }
    assert(b0.pc() == e.pc() && b0.loops == e.loops && b1.aim_here(a1.pc()).pc() == b1.pc()) by {
        reveal(State::aim);
    }
    keeps_longer(b0, b1);
    kept_self(b1);
    keeps_trans(s, b0, b1);
    let n0 = Set::<int>::empty();
    aim_fits(p, s, b1, a1.pc(), b1.pc(), n0);
    let n1 = n0.union(operand_at(a1.pc()));
    part_laid(p, s, b0, b1, b1, n1);
    part_fits(p, s, s, b0, b1, n1);
    aim_fits(p, s, e, s1.pc(), e.pc(), n1);
    let n2 = n1.union(operand_at(s1.pc()));
    kept_self(e);
    branch_shows(p, s, s1, Opcode::IfFalse, -1, e, n2);
    branch_shows(p, s, a1, Opcode::Goto, 0, e, n2);
    part_laid(p, s, s, s1, e, n2);
    part_laid(p, s, a0, a1, e, n2);
    settled_kept(s, a0);
    settled_kept(s, b0);
    assert(!still_open(b1.loops, a1.pc() + 1)
        && !still_open(b1.loops, a1.pc() + 2)) by {
        if still_open(b1.loops, a1.pc() + 1) {
            open_since(b0, b1, a1.pc() + 1);
        }
        if still_open(b1.loops, a1.pc() + 2) {
            open_since(b0, b1, a1.pc() + 2);
        }
    }
}

/// How a condition that ends at `at` decides: the code goes on at `yes` where
/// it holds and at `no` where it does not.
pub open spec fn decides(w: World, p: Program, at: int, yes: int, no: int) -> bool {
    forall|m: Machine, rest: Seq<Value>, b: bool| #[trigger]
        topped(m, at, rest, Value::Bool(b)) ==> reaches(
            w,
            p,
            m,
            m.has(
                if b {
                    yes
                } else {
                    no
                },
                rest,
            ),
        )
}

/// Whether the machine goes on from `at` to `to`, as it is.
pub open spec fn goes_on(w: World, p: Program, at: int, to: int) -> bool {
    forall|m: Machine| #[trigger] m.goes(m.pc) == m && m.pc == at ==> reaches(w, p, m, m.goes(to))
}

proof fn branches_run(w: World, p: Program, at: int, no: int, end: int, to: int)
    requires
        shows(p, at, Opcode::IfFalse),
        jump_target(p.code, at) == no,
        shows(p, end, Opcode::Goto),
        jump_target(p.code, end) == to,
    ensures
        decides(w, p, at, at + 3, no),
        goes_on(w, p, end, to),
{
    test_runs(w, p, at, no);
    assert forall|m: Machine| #[trigger] m.goes(m.pc) == m && m.pc == end implies reaches(
        w,
        p,
        m,
        m.goes(to),
    ) by {
        goto_steps(w, p, m);
    }
}

pub proof fn test_runs(w: World, p: Program, at: int, no: int)
    requires
        shows(p, at, Opcode::IfFalse),
        jump_target(p.code, at) == no,
    ensures
        decides(w, p, at, at + 3, no),
{
    assert forall|m: Machine, rest: Seq<Value>, b: bool| #[trigger]
        topped(m, at, rest, Value::Bool(b)) implies reaches(
        w,
        p,
        m,
        m.has(
            if b {
                at + 3
            } else {
                no
            },
            rest,
        ),
    ) by {
        if_steps(w, p, m, Opcode::IfFalse, rest, b);
    }
}

proof fn ternary_states(
    w: World,
    p: Program,
    c: CxView,
    s: State,
    cond: Expr,
    then_e: Expr,
    else_e: Expr,
    t: State,
    ty: ExprTyView,
) -> (r: (State, State, State, State, State, ExprTyView, State))
    requires
        settled(s),
        ternary_code(c, s, cond, then_e, else_e) == Typed::Ok((t, ty)),
        laid(p, s, t),
    ensures
        ({
            let (s1, a0, a1, b0, b1, else_ty, b2) = r;
            &&& expr_code(c, s, cond) == Typed::Ok((s1, ExprTyView::Bool))
            &&& expr_code(c, a0, then_e) == Typed::Ok((a1, ty))
            &&& expr_code(c, b0, else_e) == Typed::Ok((b1, else_ty))
            &&& laid(p, s, s1)
            &&& laid(p, a0, a1)
            &&& laid(p, b0, b1)
            &&& settled(a0)
            &&& settled(b0)
            &&& decides(w, p, s1.pc(), a0.pc(), b0.pc())
            &&& goes_on(w, p, a1.pc(), t.pc())
            &&& b2.pc() == t.pc()
            &&& forall|m: Machine, rest: Seq<Value>, v: Value| #[trigger]
                topped(m, b1.pc(), rest, v) ==> reaches(
                    w,
                    p,
                    m,
                    m.has(t.pc(), rest.push(fitted(w, else_ty, ty, v))),
                )
        }),
{
    expr_plain(c, s, cond);
    let s1 = expr_code(c, s, cond)->Ok_0.0;
    let a0 = s1.branch(Opcode::IfFalse, -1);
    expr_plain(c, a0, then_e);
    let a1 = expr_code(c, a0, then_e)->Ok_0.0;
    let b0 = a1.branch(Opcode::Goto, 0).aim_here(s1.pc());
    expr_plain(c, b0, else_e);
    let (b1, else_ty) = expr_code(c, b0, else_e)->Ok_0;
    let what = "ternary branch"@;
    let b2 = coerced(b1, else_ty, ty, what)->Ok_0;
    coercion_plain(b1, else_ty, ty, what);
    plain_kept(s, s1);
    plain_kept(a0, a1);
    plain_kept(b0, b1);
    plain_kept(b1, b2);
    keeps_trans(b0, b1, b2);
    kept_self(a0);
    kept_self(b0);
    kept_self(b2);
    two_branches(p, s, s1, a0, a1, b0, b2);
    part_laid(p, b0, b0, b1, b2, Set::empty());
    part_laid(p, b0, b1, b2, b2, Set::empty());
    settled_kept(b0, b1);
    branches_run(w, p, s1.pc(), b0.pc(), a1.pc(), t.pc());
    assert forall|m: Machine, rest: Seq<Value>, v: Value| #[trigger]
        topped(m, b1.pc(), rest, v) implies reaches(
        w,
        p,
        m,
        m.has(t.pc(), rest.push(fitted(w, else_ty, ty, v))),
    ) by {
        coercion_runs(w, p, b1, else_ty, ty, what, b2, m, rest, v);
    }
    (s1, a0, a1, b0, b1, else_ty, b2)
}

/// `cond ? then_e : else_e`: the code of `then_e` runs where the condition
/// holds, that of `else_e` where it does not, and never both; its value is
/// fitted to the type of `then_e`.
pub proof fn ternary_runs(
    w: World,
    p: Program,
    c: CxView,
    s: State,
    cond: Box<Expr>,
    then_e: Box<Expr>,
    else_e: Box<Expr>,
    t: State,
    ty: ExprTyView,
) -> (r: (State, State, State, State, State, ExprTyView, State))
    requires
        settled(s),
        expr_code(c, s, Expr::Ternary(cond, then_e, else_e)) == Typed::Ok((t, ty)),
        laid(p, s, t),
    ensures
        ({
            let (s1, a0, a1, b0, b1, else_ty, b2) = r;
            &&& expr_code(c, s, *cond) == Typed::Ok((s1, ExprTyView::Bool))
            &&& expr_code(c, a0, *then_e) == Typed::Ok((a1, ty))
            &&& expr_code(c, b0, *else_e) == Typed::Ok((b1, else_ty))
            &&& laid(p, s, s1)
            &&& laid(p, a0, a1)
            &&& laid(p, b0, b1)
            &&& settled(a0)
            &&& settled(b0)
            &&& decides(w, p, s1.pc(), a0.pc(), b0.pc())
            &&& goes_on(w, p, a1.pc(), t.pc())
            &&& b2.pc() == t.pc()
            &&& forall|m: Machine, rest: Seq<Value>, v: Value| #[trigger]
                topped(m, b1.pc(), rest, v) ==> reaches(
                    w,
                    p,
                    m,
                    m.has(t.pc(), rest.push(fitted(w, else_ty, ty, v))),
                )
        }),
{
    ternary_states(w, p, c, s, *cond, *then_e, *else_e, t, ty)
}

/// The states between which the first branch of an `if` is compiled differ
/// from those of its jumps in what is known of types alone.
proof fn narrowing_kept(s: State, n: Option<(Seq<char>, ExprTyView, ExprTyView)>)
    ensures
        keeps(s, narrowed(s, n)),
        narrowed(s, n).pc() == s.pc(),
        keeps(s, widened_back(s, n)),
        widened_back(s, n).pc() == s.pc(),
{
    assert(plain(s, narrowed(s, n)) && plain(s, widened_back(s, n))) by {
        broadcast use group_frame;

    }
    plain_kept(s, narrowed(s, n));
    plain_kept(s, widened_back(s, n));
    reveal(State::retype);
}

/// `if` with both branches: the first one runs where the condition holds, the
/// second one where it does not, and the code goes on after the statement.
pub proof fn if_else_runs(
    w: World,
    p: Program,
    c: CxView,
    s: State,
    cond: Expr,
    then_branch: Seq<Stmt>,
    else_branch: Vec<Stmt>,
    fin: Seq<Seq<Stmt>>,
    t: State,
) -> (r: (State, State, State, State, State))
    requires
        settled(s),
        if_code(c, s, cond, then_branch, Some(else_branch), fin) == Done::Ok(t),
        laid(p, s, t),
    ensures
        ({
            let (s1, a0, a1, b0, b1) = r;
            let inside = c.with_typings(cast(c.site(), c.typings, cond, then_branch));
            &&& expr_code(c, s, cond) == Typed::Ok((s1, ExprTyView::Bool))
            &&& block_code(inside, a0, then_branch, fin) == Done::Ok(a1)
            &&& block_code(c, b0, else_branch@, fin) == Done::Ok(b1)
            &&& laid(p, s, s1)
            &&& laid(p, a0, a1)
            &&& laid(p, b0, b1)
            &&& settled(a0)
            &&& settled(b0)
            &&& decides(w, p, s1.pc(), a0.pc(), b0.pc())
            &&& goes_on(w, p, a1.pc(), t.pc())
            &&& b1.pc() == t.pc()
        }),
{
    expr_plain(c, s, cond);
    let s1 = expr_code(c, s, cond)->Ok_0.0;
    let s2 = s1.branch(Opcode::IfFalse, -1);
    let n = narrowing(c, s2, cond);
    let inside = c.with_typings(cast(c.site(), c.typings, cond, then_branch));
    let a0 = narrowed(s2, n);
    narrowing_kept(s2, n);
    block_keeps(inside, a0, then_branch, fin);
    let a1 = block_code(inside, a0, then_branch, fin)->Ok_0;
    let a2 = widened_back(a1, n);
    narrowing_kept(a1, n);
    let b0 = a2.branch(Opcode::Goto, 0).aim_here(s1.pc());
    block_keeps(c, b0, else_branch@, fin);
    let b1 = block_code(c, b0, else_branch@, fin)->Ok_0;
    plain_kept(s, s1);
    keeps_trans(a0, a1, a2);
    kept_self(a0);
    two_branches(p, s, s1, a0, a2, b0, b1);
    part_laid(p, a0, a0, a1, a2, Set::empty());
    branches_run(w, p, s1.pc(), b0.pc(), a1.pc(), t.pc());
    (s1, a0, a1, b0, b1)
}

/// `if` without a second branch: where the condition does not hold, the code
/// goes on after the statement at once.
pub proof fn if_runs(
    w: World,
    p: Program,
    c: CxView,
    s: State,
    cond: Expr,
    then_branch: Seq<Stmt>,
    fin: Seq<Seq<Stmt>>,
    t: State,
) -> (r: (State, State, State))
    requires
        settled(s),
        if_code(c, s, cond, then_branch, None, fin) == Done::Ok(t),
        laid(p, s, t),
    ensures
        ({
            let (s1, a0, a1) = r;
            let inside = c.with_typings(cast(c.site(), c.typings, cond, then_branch));
            &&& expr_code(c, s, cond) == Typed::Ok((s1, ExprTyView::Bool))
            &&& block_code(inside, a0, then_branch, fin) == Done::Ok(a1)
            &&& laid(p, s, s1)
            &&& laid(p, a0, a1)
            &&& settled(a0)
            &&& decides(w, p, s1.pc(), a0.pc(), t.pc())
            &&& a1.pc() == t.pc()
        }),
{
    expr_plain(c, s, cond);
    let s1 = expr_code(c, s, cond)->Ok_0.0;
    let s2 = s1.branch(Opcode::IfFalse, -1);
    let n = narrowing(c, s2, cond);
    let inside = c.with_typings(cast(c.site(), c.typings, cond, then_branch));
    let a0 = narrowed(s2, n);
    narrowing_kept(s2, n);
    block_keeps(inside, a0, then_branch, fin);
    let a1 = block_code(inside, a0, then_branch, fin)->Ok_0;
    let a2 = widened_back(a1, n);
    narrowing_kept(a1, n);
    plain_kept(s, s1);
    branch_kept(s1, Opcode::IfFalse, -1);
    let q = seq![s, s1, s2, a0, a1, a2];
    assert(road(q)) by {
        reveal(road);
    }
    road_keeps(q);
    assert(q[0] == s && q[1] == s1 && q[2] == s2 && q[3] == a0 && q[4] == a1 && q[5] == a2);
    assert(t.pc() == a2.pc()) by {
        reveal(State::aim);
    }
    aim_fits(p, s, a2, s1.pc(), a2.pc(), Set::empty());
    let but = Set::<int>::empty().union(operand_at(s1.pc()));
    branch_shows(p, s, s1, Opcode::IfFalse, -1, a2, but);
    part_laid(p, s, s, s1, a2, but);
    part_laid(p, s, a0, a1, a2, but);
    settled_kept(s, a0);
    test_runs(w, p, s1.pc(), t.pc());
    (s1, a0, a1)
}

/// The state where what stands in for null is compiled.
pub open spec fn unless_null(s1: State) -> State {
    s1.op(Opcode::Dup, 1).op(Opcode::IsNonNull, 0).branch(Opcode::IfTrue, -1).op(Opcode::Pop, -1)
}

proof fn coalesce_states(
    w: World,
    p: Program,
    s: State,
    s1: State,
    v: State,
    rhs_ty: ExprTyView,
    ty: ExprTyView,
    e: State,
)
    requires
        settled(s),
        plain(s, s1),
        plain(unless_null(s1), v),
        coerced(v, rhs_ty, ty, "?? right operand"@) == Done::Ok(e),
        laid(p, s, e.aim_here(s1.op(Opcode::Dup, 1).op(Opcode::IsNonNull, 0).pc())),
    ensures
        ({
            let u = unless_null(s1);
            let t = e.aim_here(s1.op(Opcode::Dup, 1).op(Opcode::IsNonNull, 0).pc());
            &&& laid(p, s, s1)
            &&& laid(p, u, v)
            &&& settled(u)
            &&& forall|m: Machine, rest: Seq<Value>, x: Value| #[trigger]
                topped(m, s1.pc(), rest, x) ==> if x is Null {
                    reaches(w, p, m, m.has(u.pc(), rest))
                } else {
                    reaches(w, p, m, m.goes(t.pc()))
                }
            &&& forall|m: Machine, rest: Seq<Value>, x: Value| #[trigger]
                topped(m, v.pc(), rest, x) ==> reaches(
                    w,
                    p,
                    m,
                    m.has(t.pc(), rest.push(fitted(w, rhs_ty, ty, x))),
                )
        }),
{
    let d = s1.op(Opcode::Dup, 1);
    let s2 = d.op(Opcode::IsNonNull, 0);
    let j = s2.branch(Opcode::IfTrue, -1);
    let u = j.op(Opcode::Pop, -1);
    let what = "?? right operand"@;
    let t = e.aim_here(s2.pc());
    coercion_plain(v, rhs_ty, ty, what);
    plain_kept(s, s1);
    op_kept(s1, Opcode::Dup, 1);
    op_kept(d, Opcode::IsNonNull, 0);
    branch_kept(s2, Opcode::IfTrue, -1);
    op_kept(j, Opcode::Pop, -1);
    plain_kept(u, v);
    plain_kept(v, e);
    let q = seq![s, s1, d, s2, j, u, v, e];
    assert(road(q)) by {
        reveal(road);
    }
    road_keeps(q);
    assert(q[0] == s && q[1] == s1 && q[2] == d && q[3] == s2 && q[4] == j && q[5] == u && q[6] == v
        && q[7] == e);
    assert(t.pc() == e.pc()) by {
        reveal(State::aim);
    }
    aim_fits(p, s, e, s2.pc(), e.pc(), Set::empty());
    let but = Set::<int>::empty().union(operand_at(s2.pc()));
    op_shows(p, s, s1, Opcode::Dup, 1, e, but);
    op_shows(p, s, d, Opcode::IsNonNull, 0, e, but);
    branch_shows(p, s, s2, Opcode::IfTrue, -1, e, but);
    op_shows(p, s, j, Opcode::Pop, -1, e, but);
    part_laid(p, s, s, s1, e, but);
    part_laid(p, s, u, v, e, but);
    part_laid(p, s, v, e, e, but);
    settled_kept(s, u);
    settled_kept(s, v);
    assert forall|m: Machine, rest: Seq<Value>, x: Value| #[trigger]
        topped(m, s1.pc(), rest, x) implies if x is Null {
        reaches(w, p, m, m.has(u.pc(), rest))
    } else {
        reaches(w, p, m, m.goes(t.pc()))
    } by {
        dup_steps(w, p, m, rest, x);
        let m1 = pushed(m, 1, x);
        null_steps(w, p, m1, Opcode::IsNonNull, m.stack, x);
        let b = !(x is Null);
        let m2 = m1.has(m1.pc + 1, m.stack.push(Value::Bool(b)));
        if_steps(w, p, m2, Opcode::IfTrue, m.stack, b);
        reaches_trans(w, p, m, m1, m2);
        if b {
            let m3 = m2.has(t.pc(), m.stack);
            reaches_trans(w, p, m, m2, m3);
            assert(m3 == m.goes(t.pc()));
        } else {
            let m3 = m2.has(m2.pc + 3, m.stack);
            reaches_trans(w, p, m, m2, m3);
            pop_steps(w, p, m3, rest, x);
            reaches_trans(w, p, m, m3, m3.has(m3.pc + 1, rest));
        }
    }
    assert forall|m: Machine, rest: Seq<Value>, x: Value| #[trigger]
        topped(m, v.pc(), rest, x) implies reaches(
        w,
        p,
        m,
        m.has(t.pc(), rest.push(fitted(w, rhs_ty, ty, x))),
    ) by {
        coercion_runs(w, p, v, rhs_ty, ty, what, e, m, rest, x);
    }
}

/// `lhs ?? rhs` is `lhs` where that is not null, and the code of `rhs` runs
/// only where it is; its value is fitted to the type of `lhs`.
pub proof fn coalesce_runs(
    w: World,
    p: Program,
    c: CxView,
    s: State,
    lhs: Box<Expr>,
    rhs: Box<Expr>,
    t: State,
    ty: ExprTyView,
) -> (r: (State, State, State, ExprTyView))
    requires
        settled(s),
        expr_code(c, s, Expr::Coalesce(lhs, rhs)) == Typed::Ok((t, ty)),
        laid(p, s, t),
    ensures
        ({
            let (s1, u, v, rhs_ty) = r;
            &&& expr_code(c, s, *lhs) == Typed::Ok((s1, ty))
            &&& expr_code(c, u, *rhs) == Typed::Ok((v, rhs_ty))
            &&& laid(p, s, s1)
            &&& laid(p, u, v)
            &&& settled(u)
            &&& forall|m: Machine, rest: Seq<Value>, x: Value| #[trigger]
                topped(m, s1.pc(), rest, x) ==> if x is Null {
                    reaches(w, p, m, m.has(u.pc(), rest))
                } else {
                    reaches(w, p, m, m.goes(t.pc()))
                }
            &&& forall|m: Machine, rest: Seq<Value>, x: Value| #[trigger]
                topped(m, v.pc(), rest, x) ==> reaches(
                    w,
                    p,
                    m,
                    m.has(t.pc(), rest.push(fitted(w, rhs_ty, ty, x))),
                )
        }),
{
    expr_plain(c, s, *lhs);
    let s1 = expr_code(c, s, *lhs)->Ok_0.0;
    let u = unless_null(s1);
    expr_plain(c, u, *rhs);
    let (v, rhs_ty) = expr_code(c, u, *rhs)->Ok_0;
    let e = coerced(v, rhs_ty, ty, "?? right operand"@)->Ok_0;
    assert(t == e.aim_here(s1.op(Opcode::Dup, 1).op(Opcode::IsNonNull, 0).pc()));
    coalesce_states(w, p, s, s1, v, rhs_ty, ty, e);
    (s1, u, v, rhs_ty)
}

} // verus!
