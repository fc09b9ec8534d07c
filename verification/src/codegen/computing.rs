//! What the code of operators, literals and variables does when it runs.

use crate::ast::{BinOp, UnOp};
use crate::bytecode::opcode::Opcode;
use crate::codegen::emitter::{CxView, State};
use crate::codegen::expr_ty::ExprTyView;
use crate::codegen::frame::{group_frame, keeps, keeps_trans, plain};
use crate::codegen::lowered::{binary_op, unary_op};
use crate::codegen::machine::{
    from_top, is_int, quotient, reaches, reaches_self, reaches_trans, shown_steps, step_reaches,
    under, Machine, Program, Value, World,
};
use crate::codegen::ops::{promoted, Typed};
use crate::codegen::placed::{laid, op_kept, op_shows, settled};
use crate::codegen::steps::{calc_steps, compare_steps, float_steps, under_pushed, under_two};
use vstd::prelude::*;

verus! {

proof fn kept_self(s: State)
    ensures
        keeps(s, s),
{
    broadcast use group_frame;

    assert(plain(s, s));
}

/// The code of instructions without operands, one after the other.
pub open spec fn applied(s: State, ops: Seq<Opcode>) -> State
    decreases ops.len(),
{
    if ops.len() == 0 {
        s
    } else {
        applied(s, ops.drop_last()).op(ops.last(), 0)
    }
}

/// What instructions that convert do to the stack.
pub open spec fn effects(w: World, st: Seq<Value>, ops: Seq<Opcode>) -> Seq<Value>
    decreases ops.len(),
{
    if ops.len() == 0 {
        st
    } else {
        let before = effects(w, st, ops.drop_last());
        match ops.last() {
            Opcode::Swap => under(before, 2).push(from_top(before, 1)).push(from_top(before, 2)),
            Opcode::B2I => match from_top(before, 1) {
                Value::Byte(b) => under(before, 1).push(Value::Int(b as int)),
                _ => before,
            },
            _ => under(before, 1).push((w.converts)(Opcode::I2F, from_top(before, 1))),
        }
    }
}

/// Whether each of the instructions finds what it needs.
pub open spec fn applicable(w: World, st: Seq<Value>, ops: Seq<Opcode>) -> bool
    decreases ops.len(),
{
    if ops.len() == 0 {
        true
    } else {
        let before = effects(w, st, ops.drop_last());
        &&& applicable(w, st, ops.drop_last())
        &&& match ops.last() {
            Opcode::Swap => before.len() >= 2,
            Opcode::B2I => before.len() >= 1 && from_top(before, 1) is Byte,
            Opcode::I2F => before.len() >= 1,
            _ => false,
        }
    }
}

proof fn applied_kept(s: State, ops: Seq<Opcode>)
    ensures
        keeps(s, applied(s, ops)),
    decreases ops.len(),
{
    if ops.len() == 0 {
        kept_self(s);
    } else {
        applied_kept(s, ops.drop_last());
        op_kept(applied(s, ops.drop_last()), ops.last(), 0);
        keeps_trans(s, applied(s, ops.drop_last()), applied(s, ops));
    }
}

proof fn applied_runs(w: World, p: Program, s: State, ops: Seq<Opcode>, z: State, m: Machine)
    requires
        settled(s),
        laid(p, s, z),
        keeps(applied(s, ops), z),
        m.pc == s.pc(),
        applicable(w, m.stack, ops),
    ensures
        reaches(w, p, m, m.has(applied(s, ops).pc(), effects(w, m.stack, ops))),
    decreases ops.len(),
{
    if ops.len() == 0 {
        reaches_self(w, p, m);
        assert(m == m.has(s.pc(), m.stack));
    } else {
        let x = applied(s, ops.drop_last());
        let op = ops.last();
        applied_kept(s, ops.drop_last());
        op_kept(x, op, 0);
        keeps_trans(x, x.op(op, 0), z);
        applied_runs(w, p, s, ops.drop_last(), z, m);
        let before = effects(w, m.stack, ops.drop_last());
        let m1 = m.has(x.pc(), before);
        op_shows(p, s, x, op, 0, z, Set::empty());
        shown_steps(w, p, m1, op);
        let m2 = m.has(x.pc() + 1, effects(w, m.stack, ops));
        step_reaches(w, p, m1, m2);
        reaches_trans(w, p, m, m1, m2);
    }
}

/// Whether a value is of a type of numbers.
pub open spec fn numeric(v: Value, ty: ExprTyView) -> bool {
    match ty {
        ExprTyView::Int => v is Int,
        ExprTyView::Byte => v is Byte,
        ExprTyView::Float => v is Float,
        _ => false,
    }
}

/// A number of type `from` as one of type `to`.
pub open spec fn lifted(w: World, from: ExprTyView, to: ExprTyView, v: Value) -> Value {
    match (from, to) {
        (ExprTyView::Int, ExprTyView::Float) => (w.converts)(Opcode::I2F, v),
        (ExprTyView::Byte, ExprTyView::Int) => Value::Int(v->Byte_0 as int),
        (ExprTyView::Byte, ExprTyView::Float) => (w.converts)(
            Opcode::I2F,
            Value::Int(v->Byte_0 as int),
        ),
        _ => v,
    }
}

/// The instructions that bring two numbers to one type.
spec fn lifting(l: ExprTyView, r: ExprTyView) -> Seq<Opcode> {
    match (l, r) {
        (ExprTyView::Int, ExprTyView::Float) => seq![Opcode::Swap, Opcode::I2F, Opcode::Swap],
        (ExprTyView::Float, ExprTyView::Int) => seq![Opcode::I2F],
        (ExprTyView::Byte, ExprTyView::Byte) => seq![
            Opcode::B2I,
            Opcode::Swap,
            Opcode::B2I,
            Opcode::Swap,
        ],
        (ExprTyView::Byte, ExprTyView::Int) => seq![Opcode::Swap, Opcode::B2I, Opcode::Swap],
        (ExprTyView::Int, ExprTyView::Byte) => seq![Opcode::B2I],
        (ExprTyView::Byte, ExprTyView::Float) => seq![
            Opcode::Swap,
            Opcode::B2I,
            Opcode::I2F,
            Opcode::Swap,
        ],
        (ExprTyView::Float, ExprTyView::Byte) => seq![Opcode::B2I, Opcode::I2F],
        _ => Seq::empty(),
    }
}

proof fn lifting_unfolds(
    w: World,
    s: State,
    l: ExprTyView,
    r: ExprTyView,
    rest: Seq<Value>,
    a: Value,
    b: Value,
)
    requires
        numeric(a, l),
        numeric(b, r),
    ensures
        promoted(s, l, r) matches Ok((t, ty)) && t == applied(s, lifting(l, r)) && effects(
            w,
            rest.push(a).push(b),
            lifting(l, r),
        ) == rest.push(lifted(w, l, ty, a)).push(lifted(w, r, ty, b)) && applicable(
            w,
            rest.push(a).push(b),
            lifting(l, r),
        ),
{
    let ops = lifting(l, r);
    let st = rest.push(a).push(b);
    let p1 = ops.take(1);
    let p2 = ops.take(2);
    let p3 = ops.take(3);
    under_two(rest, a, b);
    under_pushed(rest.push(a), b);
    assert(ops.take(0) =~= Seq::empty());
    if ops.len() >= 1 {
        assert(p1.drop_last() =~= ops.take(0));
    }
    if ops.len() >= 2 {
        assert(p2.drop_last() =~= p1);
    }
    if ops.len() >= 3 {
        assert(p3.drop_last() =~= p2);
    }
    assert(ops.take(ops.len() as int) =~= ops);
    if ops.len() == 4 {
        assert(ops.drop_last() =~= p3);
    }
    reveal_with_fuel(applied, 6);
    reveal_with_fuel(effects, 6);
    reveal_with_fuel(applicable, 6);
    let e1 = effects(w, st, p1);
    let e2 = effects(w, st, p2);
    let e3 = effects(w, st, p3);
    match (l, r) {
        (ExprTyView::Int, ExprTyView::Float) => {
            let f = (w.converts)(Opcode::I2F, a);
            assert(e1 == rest.push(b).push(a));
            under_two(rest, b, a);
            under_pushed(rest.push(b), a);
            assert(e2 == rest.push(b).push(f));
            under_two(rest, b, f);
        },
        (ExprTyView::Byte, ExprTyView::Byte) => {
            let x = Value::Int(a->Byte_0 as int);
            let y = Value::Int(b->Byte_0 as int);
            assert(e1 == rest.push(a).push(y));
            under_two(rest, a, y);
            assert(e2 == rest.push(y).push(a));
            under_pushed(rest.push(y), a);
            assert(e3 == rest.push(y).push(x));
            under_two(rest, y, x);
        },
        (ExprTyView::Byte, ExprTyView::Int) => {
            let x = Value::Int(a->Byte_0 as int);
            assert(e1 == rest.push(b).push(a));
            under_pushed(rest.push(b), a);
            assert(e2 == rest.push(b).push(x));
            under_two(rest, b, x);
        },
        (ExprTyView::Byte, ExprTyView::Float) => {
            let x = Value::Int(a->Byte_0 as int);
            let f = (w.converts)(Opcode::I2F, x);
            assert(e1 == rest.push(b).push(a));
            under_pushed(rest.push(b), a);
            assert(e2 == rest.push(b).push(x));
            under_pushed(rest.push(b), x);
            assert(e3 == rest.push(b).push(f));
            under_two(rest, b, f);
        },
        (ExprTyView::Float, ExprTyView::Byte) => {
            let y = Value::Int(b->Byte_0 as int);
            assert(e1 == rest.push(a).push(y));
            under_pushed(rest.push(a), y);
        },
        _ => {},
    }
}

/// What an operator gives for two numbers, where that is a number of the
/// language at all.
pub open spec fn int_result(op: BinOp, a: int, b: int) -> Option<Value> {
    match op {
        BinOp::Add => int_value(a + b),
        BinOp::Sub => int_value(a - b),
        BinOp::Mul => int_value(a * b),
        BinOp::Div => if b == 0 {
            None
        } else {
            int_value(quotient(a, b))
        },
        BinOp::Mod => if b == 0 {
            None
        } else {
            int_value(a - b * quotient(a, b))
        },
        BinOp::Eq => Some(Value::Bool(a == b)),
        BinOp::Ne => Some(Value::Bool(a != b)),
        BinOp::Lt => Some(Value::Bool(a < b)),
        BinOp::Gt => Some(Value::Bool(a > b)),
        BinOp::Le => Some(Value::Bool(a <= b)),
        BinOp::Ge => Some(Value::Bool(a >= b)),
        _ => None,
    }
}

pub open spec fn int_value(v: int) -> Option<Value> {
    if is_int(v) {
        Some(Value::Int(v))
    } else {
        None
    }
}

/// The instruction that an operator stands for on floats.
pub open spec fn float_instruction(op: BinOp) -> Option<Opcode> {
    match op {
        BinOp::Add => Some(Opcode::FAdd),
        BinOp::Sub => Some(Opcode::FSub),
        BinOp::Mul => Some(Opcode::FMul),
        BinOp::Div => Some(Opcode::FDiv),
        BinOp::Mod => Some(Opcode::FMod),
        BinOp::Eq => Some(Opcode::CmpEq),
        BinOp::Ne => Some(Opcode::CmpNe),
        BinOp::Lt => Some(Opcode::CmpLt),
        BinOp::Gt => Some(Opcode::CmpGt),
        BinOp::Le => Some(Opcode::CmpLe),
        BinOp::Ge => Some(Opcode::CmpGe),
        _ => None,
    }
}

/// An operator on two numbers: both are brought to one type, an `int` or a
/// `float`, and the left one stays the left one. On integers it gives what it
/// stands for: `+` the sum, `-` the difference, `<` whether the left one is
/// less. On floats it is the machine's operation of that name.
pub proof fn number_operator_runs(
    w: World,
    p: Program,
    s: State,
    op: BinOp,
    l: ExprTyView,
    r: ExprTyView,
    t: State,
    ty: ExprTyView,
    m: Machine,
    rest: Seq<Value>,
    a: Value,
    b: Value,
)
    requires
        settled(s),
        binary_op(s, op, l, r) == Typed::Ok((t, ty)),
        laid(p, s, t),
        m.pc == s.pc(),
        m.stack == rest.push(a).push(b),
        numeric(a, l),
        numeric(b, r),
    ensures
        !(l is Float || r is Float) ==> (lifted(w, l, ExprTyView::Int, a) matches Value::Int(x)
            && lifted(w, r, ExprTyView::Int, b) matches Value::Int(y) && (int_result(op, x, y)
            matches Some(v) ==> reaches(w, p, m, m.has(t.pc(), rest.push(v))))),
        (l is Float || r is Float) ==> (lifted(w, l, ExprTyView::Float, a) matches Value::Float(x)
            ==> (lifted(w, r, ExprTyView::Float, b) matches Value::Float(y) ==> (float_instruction(
            op,
        ) matches Some(o) ==> reaches(w, p, m, m.has(t.pc(), rest.push((w.floats)(o, x, y))))))),
{
    lifting_unfolds(w, s, l, r, rest, a, b);
    let (s1, num) = promoted(s, l, r)->Ok_0;
    applied_kept(s, lifting(l, r));
    let code = if num is Float {
        float_instruction(op)
    } else {
        match op {
            BinOp::Add => Some(Opcode::IAdd),
            BinOp::Sub => Some(Opcode::ISub),
            BinOp::Mul => Some(Opcode::IMul),
            BinOp::Div => Some(Opcode::IDiv),
            BinOp::Mod => Some(Opcode::IMod),
            _ => float_instruction(op),
        }
    };
    if let Some(o) = code {
        assert(t == s1.op(o, -1));
        op_kept(s1, o, -1);
        kept_self(t);
        keeps_trans(s, s1, t);
        op_shows(p, s, s1, o, -1, t, Set::empty());
        applied_runs(w, p, s, lifting(l, r), t, m);
        let x = lifted(w, l, num, a);
        let y = lifted(w, r, num, b);
        let m1 = m.has(s1.pc(), rest.push(x).push(y));
        if num is Float {
            if x is Float && y is Float {
                float_steps(w, p, m1, o, rest, x->Float_0, y->Float_0);
                let v = (w.floats)(o, x->Float_0, y->Float_0);
                reaches_trans(w, p, m, m1, m1.has(m1.pc + 1, rest.push(v)));
            }
        } else {
            let (i, j) = (x->Int_0, y->Int_0);
            if let Some(v) = int_result(op, i, j) {
                if op is Add || op is Sub || op is Mul || op is Div || op is Mod {
                    calc_steps(w, p, m1, o, rest, i, j);
                } else {
                    compare_steps(w, p, m1, o, rest, i, j);
                }
                reaches_trans(w, p, m, m1, m1.has(m1.pc + 1, rest.push(v)));
            }
        }
    }
}

/// `-` on an integer negates it, `!` on a truth value turns it round.
pub proof fn unary_operator_runs(
    w: World,
    p: Program,
    c: CxView,
    s: State,
    op: UnOp,
    t: State,
    ty: ExprTyView,
    operand: ExprTyView,
    m: Machine,
    rest: Seq<Value>,
    v: Value,
)
    requires
        settled(s),
        unary_op(c, s, op, operand) == Typed::Ok((t, ty)),
        laid(p, s, t),
        m.pc == s.pc(),
        m.stack == rest.push(v),
    ensures
        op is Neg && operand is Int ==> (v matches Value::Int(x) ==> (is_int(-x) ==> reaches(
            w,
            p,
            m,
            m.has(t.pc(), rest.push(Value::Int(-x))),
        ))),
        op is Not && operand is Bool ==> (v matches Value::Bool(x) ==> reaches(
            w,
            p,
            m,
            m.has(t.pc(), rest.push(Value::Bool(!x))),
        )),
{
    kept_self(s);
    under_pushed(rest, v);
    if op is Neg && operand is Int {
        op_kept(s, Opcode::INeg, 0);
        kept_self(t);
        op_shows(p, s, s, Opcode::INeg, 0, t, Set::empty());
        shown_steps(w, p, m, Opcode::INeg);
        if let Value::Int(x) = v {
            if is_int(-x) {
                step_reaches(w, p, m, m.has(t.pc(), rest.push(Value::Int(-x))));
            }
        }
    } else if op is Not && operand is Bool {
        op_kept(s, Opcode::Not, 0);
        kept_self(t);
        op_shows(p, s, s, Opcode::Not, 0, t, Set::empty());
        shown_steps(w, p, m, Opcode::Not);
        if let Value::Bool(x) = v {
            step_reaches(w, p, m, m.has(t.pc(), rest.push(Value::Bool(!x))));
        }
    }
}

} // verus!
