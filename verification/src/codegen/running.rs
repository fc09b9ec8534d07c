//! What the code of the expressions does when it runs.
//!
//! Each law is about a program that holds the code of a construct, and about
//! the parts of that construct: it says where the machine gets from each part,
//! whatever the parts themselves do.

use crate::ast::{BinOp, Expr};
use crate::bytecode::opcode::Opcode;
use crate::codegen::emitter::{CxView, State};
use crate::codegen::expr_ty::ExprTyView;
use crate::codegen::frame::plain;
use crate::codegen::laws::jump_target;
use crate::codegen::lowered::{expr_code, short_circuit_code};
use crate::codegen::machine::{
    reaches, reaches_trans, run, runs_reach, shows, yields, Machine, Program, Turn, Value, World,
};
use crate::codegen::ops::Typed;
use crate::codegen::placed::{
    aim_fits, branch_kept, branch_shows, laid, op_kept, op_shows, operand_at, part_laid, plain_kept,
    road, road_keeps, settled, settled_kept,
};
use crate::codegen::steps::{dup_steps, goto_steps, if_steps, pop_steps, pushed};
use crate::codegen::straight::expr_plain;
use vstd::prelude::*;

verus! {

/// A test of the value that `s1` leaves, and the code of `u` to `v`, which a
/// jump with `op` passes over.
pub open spec fn passed_over(s1: State, op: Opcode) -> State {
    s1.op(Opcode::Dup, 1).branch(op, -1).op(Opcode::Pop, -1)
}

/// The end of such code.
pub open spec fn joined(s1: State, v: State) -> State {
    v.branch(Opcode::Goto, 0).aim_here(s1.op(Opcode::Dup, 1).pc()).aim_here(v.pc())
}

proof fn passed_over_code(p: Program, s: State, s1: State, op: Opcode, v: State)
    requires
        settled(s),
        plain(s, s1),
        plain(passed_over(s1, op), v),
        laid(p, s, joined(s1, v)),
    ensures
        laid(p, s, s1),
        laid(p, passed_over(s1, op), v),
        passed_over(s1, op).pc() == s1.pc() + 5,
        shows(p, s1.pc(), Opcode::Dup),
        shows(p, s1.pc() + 1, op),
        jump_target(p.code, s1.pc() + 1) == joined(s1, v).pc(),
        shows(p, s1.pc() + 4, Opcode::Pop),
        shows(p, v.pc(), Opcode::Goto),
        jump_target(p.code, v.pc()) == joined(s1, v).pc(),
        settled(passed_over(s1, op)),
{
    let s2 = s1.op(Opcode::Dup, 1);
    let s3 = s2.branch(op, -1);
    let u = s3.op(Opcode::Pop, -1);
    let s5 = v.branch(Opcode::Goto, 0);
    let s6 = s5.aim_here(s2.pc());
    plain_kept(s, s1);
    op_kept(s1, Opcode::Dup, 1);
    branch_kept(s2, op, -1);
    op_kept(s3, Opcode::Pop, -1);
    plain_kept(u, v);
    branch_kept(v, Opcode::Goto, 0);
    let q = seq![s, s1, s2, s3, u, v, s5];
    assert(road(q)) by {
        reveal(road);
    }
    road_keeps(q);
    assert(q[0] == s && q[1] == s1 && q[2] == s2 && q[3] == s3 && q[4] == u && q[5] == v && q[6]
        == s5);
    assert(s6.pc() == s5.pc() && s6.loops == s5.loops && s6.aim_here(v.pc()).pc() == s5.pc()) by {
        reveal(State::aim);
    }
    let e0 = Set::<int>::empty();
    aim_fits(p, s, s6, v.pc(), s6.pc(), e0);
    let e1 = e0.union(operand_at(v.pc()));
    aim_fits(p, s, s5, s2.pc(), s5.pc(), e1);
    let e2 = e1.union(operand_at(s2.pc()));
    op_shows(p, s, s1, Opcode::Dup, 1, s5, e2);
    branch_shows(p, s, s2, op, -1, s5, e2);
    op_shows(p, s, s3, Opcode::Pop, -1, s5, e2);
    branch_shows(p, s, v, Opcode::Goto, 0, s5, e2);
    part_laid(p, s, s, s1, s5, e2);
    part_laid(p, s, u, v, s5, e2);
    settled_kept(s, u);
}

/// Whether the machine is at `pc` with `v` on top of `rest`.
pub open spec fn topped(m: Machine, pc: int, rest: Seq<Value>, v: Value) -> bool {
    m.pc == pc && m.stack == rest.push(v)
}

/// How the code of two operands runs whose second counts only where the first
/// is `on`: `s1` is after the first, `u` before the second and `v` after it.
pub open spec fn second_counts_on(
    w: World,
    p: Program,
    on: bool,
    s1: State,
    u: State,
    v: State,
    t: State,
) -> bool {
    &&& forall|m: Machine, rest: Seq<Value>, b: bool| #[trigger]
        topped(m, s1.pc(), rest, Value::Bool(b)) ==> if b == on {
            reaches(w, p, m, m.has(u.pc(), rest))
        } else {
            run(w, p, m, 2) == Turn::Runs(m.goes(t.pc()))
        }
    &&& forall|m: Machine, rest: Seq<Value>, x: Value| #[trigger]
        topped(m, v.pc(), rest, x) ==> reaches(w, p, m, m.goes(t.pc()))
}

proof fn passed_over_runs(w: World, p: Program, s: State, s1: State, op: Opcode, v: State)
    requires
        settled(s),
        plain(s, s1),
        plain(passed_over(s1, op), v),
        laid(p, s, joined(s1, v)),
        op is IfTrue || op is IfFalse,
    ensures
        laid(p, s, s1),
        laid(p, passed_over(s1, op), v),
        settled(passed_over(s1, op)),
        second_counts_on(w, p, op is IfFalse, s1, passed_over(s1, op), v, joined(s1, v)),
{
    passed_over_code(p, s, s1, op, v);
    let u = passed_over(s1, op);
    let t = joined(s1, v);
    assert forall|m: Machine, rest: Seq<Value>, b: bool| #[trigger]
        topped(m, s1.pc(), rest, Value::Bool(b)) implies if b == (op is IfFalse) {
        reaches(w, p, m, m.has(u.pc(), rest))
    } else {
        run(w, p, m, 2) == Turn::Runs(m.goes(t.pc()))
    } by {
        let top = Value::Bool(b);
        dup_steps(w, p, m, rest, top);
        let m1 = pushed(m, 1, top);
        if_steps(w, p, m1, op, m.stack, b);
        if b == (op is IfFalse) {
            let m2 = m1.has(m1.pc + 3, m.stack);
            pop_steps(w, p, m2, rest, top);
            reaches_trans(w, p, m, m1, m2);
            reaches_trans(w, p, m, m2, m2.has(m2.pc + 1, rest));
        } else {
            let m2 = m1.has(t.pc(), m.stack);
            assert(m2 == m.goes(t.pc()));
            assert(run(w, p, m2, 0) == Turn::Runs(m2));
            assert(run(w, p, m1, 1) == Turn::Runs(m2));
        }
    }
    assert forall|m: Machine, rest: Seq<Value>, x: Value| #[trigger]
        topped(m, v.pc(), rest, x) implies reaches(w, p, m, m.goes(t.pc())) by {
        goto_steps(w, p, m);
    }
}

proof fn short_circuit_runs(
    w: World,
    p: Program,
    c: CxView,
    s: State,
    is_and: bool,
    lhs: Expr,
    rhs: Expr,
    t: State,
    ty: ExprTyView,
) -> (r: (State, State, State))
    requires
        settled(s),
        short_circuit_code(c, s, is_and, lhs, rhs) == Typed::Ok((t, ty)),
        laid(p, s, t),
    ensures
        expr_code(c, s, lhs) == Typed::Ok((r.0, ExprTyView::Bool)),
        expr_code(c, r.1, rhs) == Typed::Ok((r.2, ExprTyView::Bool)),
        laid(p, s, r.0),
        laid(p, r.1, r.2),
        settled(r.1),
        ty is Bool,
        second_counts_on(w, p, is_and, r.0, r.1, r.2, t),
{
    expr_plain(c, s, lhs);
    let s1 = expr_code(c, s, lhs)->Ok_0.0;
    let op = if is_and {
        Opcode::IfFalse
    } else {
        Opcode::IfTrue
    };
    let u = passed_over(s1, op);
    expr_plain(c, u, rhs);
    let v = expr_code(c, u, rhs)->Ok_0.0;
    assert(t == joined(s1, v));
    passed_over_runs(w, p, s, s1, op, v);
    (s1, u, v)
}

/// `lhs && rhs` leaves true exactly where both operands do. The code of `rhs`
/// runs only after `lhs` left true: where it left false, two instructions lead
/// to the end, with that false on the stack.
pub proof fn conjunction_runs(
    w: World,
    p: Program,
    c: CxView,
    s: State,
    lhs: Box<Expr>,
    rhs: Box<Expr>,
    t: State,
    ty: ExprTyView,
) -> (r: (State, State, State))
    requires
        settled(s),
        expr_code(c, s, Expr::Binary(BinOp::And, lhs, rhs)) == Typed::Ok((t, ty)),
        laid(p, s, t),
    ensures
        expr_code(c, s, *lhs) == Typed::Ok((r.0, ExprTyView::Bool)),
        expr_code(c, r.1, *rhs) == Typed::Ok((r.2, ExprTyView::Bool)),
        laid(p, s, r.0),
        laid(p, r.1, r.2),
        settled(r.1),
        ty is Bool,
        second_counts_on(w, p, true, r.0, r.1, r.2, t),
        forall|m: Machine, m1: Machine, l: bool| #[trigger]
            yields(w, p, m, r.0.pc(), Value::Bool(l), m1) ==> if !l {
                yields(w, p, m, t.pc(), Value::Bool(false), m1.goes(t.pc()))
            } else {
                forall|m2: Machine, x: bool| #[trigger]
                    yields(w, p, m1.has(r.1.pc(), m.stack), r.2.pc(), Value::Bool(x), m2)
                        ==> yields(w, p, m, t.pc(), Value::Bool(x), m2.goes(t.pc()))
            },
{
    let r = short_circuit_runs(w, p, c, s, true, *lhs, *rhs, t, ty);
    second_counts(w, p, true, r.0, r.1, r.2, t);
    r
}

/// `lhs || rhs` leaves true exactly where one of the operands does. The code
/// of `rhs` runs only after `lhs` left false: where it left true, two
/// instructions lead to the end, with that true on the stack.
pub proof fn disjunction_runs(
    w: World,
    p: Program,
    c: CxView,
    s: State,
    lhs: Box<Expr>,
    rhs: Box<Expr>,
    t: State,
    ty: ExprTyView,
) -> (r: (State, State, State))
    requires
        settled(s),
        expr_code(c, s, Expr::Binary(BinOp::Or, lhs, rhs)) == Typed::Ok((t, ty)),
        laid(p, s, t),
    ensures
        expr_code(c, s, *lhs) == Typed::Ok((r.0, ExprTyView::Bool)),
        expr_code(c, r.1, *rhs) == Typed::Ok((r.2, ExprTyView::Bool)),
        laid(p, s, r.0),
        laid(p, r.1, r.2),
        settled(r.1),
        ty is Bool,
        second_counts_on(w, p, false, r.0, r.1, r.2, t),
        forall|m: Machine, m1: Machine, l: bool| #[trigger]
            yields(w, p, m, r.0.pc(), Value::Bool(l), m1) ==> if l {
                yields(w, p, m, t.pc(), Value::Bool(true), m1.goes(t.pc()))
            } else {
                forall|m2: Machine, x: bool| #[trigger]
                    yields(w, p, m1.has(r.1.pc(), m.stack), r.2.pc(), Value::Bool(x), m2)
                        ==> yields(w, p, m, t.pc(), Value::Bool(x), m2.goes(t.pc()))
            },
{
    let r = short_circuit_runs(w, p, c, s, false, *lhs, *rhs, t, ty);
    second_counts(w, p, false, r.0, r.1, r.2, t);
    r
}

proof fn second_counts(
    w: World,
    p: Program,
    on: bool,
    s1: State,
    u: State,
    v: State,
    t: State,
)
    requires
        second_counts_on(w, p, on, s1, u, v, t),
    ensures
        forall|m: Machine, m1: Machine, l: bool| #[trigger]
            yields(w, p, m, s1.pc(), Value::Bool(l), m1) ==> if l != on {
                yields(w, p, m, t.pc(), Value::Bool(l), m1.goes(t.pc()))
            } else {
                forall|m2: Machine, x: bool| #[trigger]
                    yields(w, p, m1.has(u.pc(), m.stack), v.pc(), Value::Bool(x), m2) ==> yields(
                        w,
                        p,
                        m,
                        t.pc(),
                        Value::Bool(x),
                        m2.goes(t.pc()),
                    )
            },
{
    assert forall|m: Machine, m1: Machine, l: bool| #[trigger]
        yields(w, p, m, s1.pc(), Value::Bool(l), m1) implies if l != on {
        yields(w, p, m, t.pc(), Value::Bool(l), m1.goes(t.pc()))
    } else {
        forall|m2: Machine, x: bool| #[trigger]
            yields(w, p, m1.has(u.pc(), m.stack), v.pc(), Value::Bool(x), m2) ==> yields(
                w,
                p,
                m,
                t.pc(),
                Value::Bool(x),
                m2.goes(t.pc()),
            )
    } by {
        assert(topped(m1, s1.pc(), m.stack, Value::Bool(l)));
        if l != on {
            runs_reach(w, p, m1, 2, m1.goes(t.pc()));
            reaches_trans(w, p, m, m1, m1.goes(t.pc()));
        } else {
            let m1b = m1.has(u.pc(), m.stack);
            reaches_trans(w, p, m, m1, m1b);
            assert forall|m2: Machine, x: bool| #[trigger]
                yields(w, p, m1b, v.pc(), Value::Bool(x), m2) implies yields(
                w,
                p,
                m,
                t.pc(),
                Value::Bool(x),
                m2.goes(t.pc()),
            ) by {
                assert(topped(m2, v.pc(), m.stack, Value::Bool(x)));
                reaches_trans(w, p, m, m1b, m2);
                reaches_trans(w, p, m, m2, m2.goes(t.pc()));
            }
        }
    }
}

} // verus!
