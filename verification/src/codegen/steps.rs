//! The single instructions that the laws on code are made of.

use crate::bytecode::opcode::Opcode;
use crate::codegen::laws::jump_target;
use crate::codegen::machine::{
    calculated, compares, field_named, from_top, is_int, reaches, shown_steps, shows, signed_word,
    step, step_reaches, under, word, Cell, Machine, Program, Turn, Value, World,
};
use vstd::prelude::*;

verus! {

/// The machine after it has pushed a value.
pub open spec fn pushed(m: Machine, len: int, v: Value) -> Machine {
    m.has(m.pc + len, m.stack.push(v))
}

pub proof fn under_none(s: Seq<Value>)
    ensures
        under(s, 0) == s,
{
    assert(under(s, 0) =~= s);
}

pub proof fn under_pushed(s: Seq<Value>, v: Value)
    ensures
        under(s.push(v), 1) == s,
        from_top(s.push(v), 1) == v,
        s.push(v).len() >= 1,
{
    assert(under(s.push(v), 1) =~= s);
}

pub proof fn under_two(s: Seq<Value>, u: Value, v: Value)
    ensures
        under(s.push(u).push(v), 2) == s,
        from_top(s.push(u).push(v), 1) == v,
        from_top(s.push(u).push(v), 2) == u,
        s.push(u).push(v).len() >= 2,
{
    assert(under(s.push(u).push(v), 2) =~= s);
}

pub proof fn dup_steps(w: World, p: Program, m: Machine, rest: Seq<Value>, v: Value)
    requires
        shows(p, m.pc, Opcode::Dup),
        m.stack == rest.push(v),
    ensures
        step(w, p, m) == Turn::Runs(pushed(m, 1, v)),
        reaches(w, p, m, pushed(m, 1, v)),
{
    shown_steps(w, p, m, Opcode::Dup);
    under_none(m.stack);
    step_reaches(w, p, m, pushed(m, 1, v));
}

pub proof fn pop_steps(w: World, p: Program, m: Machine, rest: Seq<Value>, v: Value)
    requires
        shows(p, m.pc, Opcode::Pop),
        m.stack == rest.push(v),
    ensures
        step(w, p, m) == Turn::Runs(m.has(m.pc + 1, rest)),
        reaches(w, p, m, m.has(m.pc + 1, rest)),
{
    shown_steps(w, p, m, Opcode::Pop);
    under_pushed(rest, v);
    step_reaches(w, p, m, m.has(m.pc + 1, rest));
}

pub proof fn goto_steps(w: World, p: Program, m: Machine)
    requires
        shows(p, m.pc, Opcode::Goto),
    ensures
        step(w, p, m) == Turn::Runs(m.goes(jump_target(p.code, m.pc))),
        reaches(w, p, m, m.goes(jump_target(p.code, m.pc))),
{
    shown_steps(w, p, m, Opcode::Goto);
    step_reaches(w, p, m, m.goes(jump_target(p.code, m.pc)));
}

/// A jump on a condition, where `op` is the one that jumps on `on`.
pub proof fn if_steps(w: World, p: Program, m: Machine, op: Opcode, rest: Seq<Value>, b: bool)
    requires
        op is IfTrue || op is IfFalse,
        shows(p, m.pc, op),
        m.stack == rest.push(Value::Bool(b)),
    ensures
        ({
            let n = m.has(
                if b == (op is IfTrue) {
                    jump_target(p.code, m.pc)
                } else {
                    m.pc + 3
                },
                rest,
            );
            step(w, p, m) == Turn::Runs(n) && reaches(w, p, m, n)
        }),
{
    shown_steps(w, p, m, op);
    under_pushed(rest, Value::Bool(b));
    let n = m.has(
        if b == (op is IfTrue) {
            jump_target(p.code, m.pc)
        } else {
            m.pc + 3
        },
        rest,
    );
    step_reaches(w, p, m, n);
}

pub proof fn load_steps(w: World, p: Program, m: Machine, slot: int, v: Value)
    requires
        shows(p, m.pc, Opcode::Load),
        word(p.code, m.pc) == slot,
        m.holds(slot, v),
    ensures
        reaches(w, p, m, pushed(m, 3, v)),
{
    shown_steps(w, p, m, Opcode::Load);
    under_none(m.stack);
    step_reaches(w, p, m, pushed(m, 3, v));
}

pub proof fn store_steps(w: World, p: Program, m: Machine, slot: int, rest: Seq<Value>, v: Value)
    requires
        shows(p, m.pc, Opcode::Store),
        word(p.code, m.pc) == slot,
        m.stack == rest.push(v),
    ensures
        reaches(w, p, m, m.sets(slot, v).has(m.pc + 3, rest)),
{
    shown_steps(w, p, m, Opcode::Store);
    under_pushed(rest, v);
    step_reaches(w, p, m, m.sets(slot, v).has(m.pc + 3, rest));
}

pub proof fn iinc_steps(w: World, p: Program, m: Machine, slot: int, v: int)
    requires
        shows(p, m.pc, Opcode::IInc),
        word(p.code, m.pc) == slot,
        m.holds(slot, Value::Int(v)),
        is_int(v + signed_word(word(p.code, m.pc + 2))),
    ensures
        reaches(
            w,
            p,
            m,
            m.sets(slot, Value::Int(v + signed_word(word(p.code, m.pc + 2)))).goes(m.pc + 5),
        ),
{
    shown_steps(w, p, m, Opcode::IInc);
    step_reaches(
        w,
        p,
        m,
        m.sets(slot, Value::Int(v + signed_word(word(p.code, m.pc + 2)))).goes(m.pc + 5),
    );
}

/// A constant.
pub proof fn const_steps(w: World, p: Program, m: Machine, op: Opcode, v: Value)
    requires
        shows(p, m.pc, op),
        match op {
            Opcode::ConstNull => v is Null,
            Opcode::ConstTrue => v == Value::Bool(true),
            Opcode::ConstFalse => v == Value::Bool(false),
            Opcode::ConstIZero => v == Value::Int(0),
            Opcode::ConstIOne => v == Value::Int(1),
            Opcode::ConstFZero => v == Value::Float(0),
            Opcode::ConstFOne => v == Value::Float(0x3ff0_0000_0000_0000),
            _ => false,
        },
    ensures
        reaches(w, p, m, pushed(m, 1, v)),
{
    shown_steps(w, p, m, op);
    under_none(m.stack);
    step_reaches(w, p, m, pushed(m, 1, v));
}

/// Arithmetic on two numbers.
pub proof fn calc_steps(
    w: World,
    p: Program,
    m: Machine,
    op: Opcode,
    rest: Seq<Value>,
    a: int,
    b: int,
)
    requires
        shows(p, m.pc, op),
        op is IAdd || op is ISub || op is IMul || op is IDiv || op is IMod,
        m.stack == rest.push(Value::Int(a)).push(Value::Int(b)),
        calculated(op, a, b) is Some,
    ensures
        reaches(w, p, m, m.has(m.pc + 1, rest.push(Value::Int(calculated(op, a, b)->0)))),
{
    shown_steps(w, p, m, op);
    under_two(rest, Value::Int(a), Value::Int(b));
    step_reaches(w, p, m, m.has(m.pc + 1, rest.push(Value::Int(calculated(op, a, b)->0))));
}

pub proof fn compare_steps(
    w: World,
    p: Program,
    m: Machine,
    op: Opcode,
    rest: Seq<Value>,
    a: int,
    b: int,
)
    requires
        shows(p, m.pc, op),
        op is CmpEq || op is CmpNe || op is CmpLt || op is CmpGt || op is CmpLe || op is CmpGe,
        m.stack == rest.push(Value::Int(a)).push(Value::Int(b)),
    ensures
        reaches(w, p, m, m.has(m.pc + 1, rest.push(Value::Bool(compares(op, a, b))))),
{
    shown_steps(w, p, m, op);
    under_two(rest, Value::Int(a), Value::Int(b));
    step_reaches(w, p, m, m.has(m.pc + 1, rest.push(Value::Bool(compares(op, a, b)))));
}

/// Arithmetic and comparison of floats.
pub proof fn float_steps(
    w: World,
    p: Program,
    m: Machine,
    op: Opcode,
    rest: Seq<Value>,
    a: u64,
    b: u64,
)
    requires
        shows(p, m.pc, op),
        op is FAdd || op is FSub || op is FMul || op is FDiv || op is FMod || op is CmpEq || op
            is CmpNe || op is CmpLt || op is CmpGt || op is CmpLe || op is CmpGe,
        m.stack == rest.push(Value::Float(a)).push(Value::Float(b)),
    ensures
        reaches(w, p, m, m.has(m.pc + 1, rest.push((w.floats)(op, a, b)))),
{
    shown_steps(w, p, m, op);
    under_two(rest, Value::Float(a), Value::Float(b));
    step_reaches(w, p, m, m.has(m.pc + 1, rest.push((w.floats)(op, a, b))));
}

pub proof fn new_steps(w: World, p: Program, m: Machine)
    requires
        shows(p, m.pc, Opcode::New),
    ensures
        reaches(
            w,
            p,
            m,
            Machine {
                heap: m.heap.push(Cell::Object(Map::empty())),
                ..pushed(m, 3, Value::Ref(m.heap.len() as int))
            },
        ),
{
    shown_steps(w, p, m, Opcode::New);
    step_reaches(
        w,
        p,
        m,
        Machine {
            heap: m.heap.push(Cell::Object(Map::empty())),
            ..pushed(m, 3, Value::Ref(m.heap.len() as int))
        },
    );
}

pub proof fn get_field_steps(
    w: World,
    p: Program,
    m: Machine,
    rest: Seq<Value>,
    r: int,
    name: Seq<char>,
)
    requires
        shows(p, m.pc, Opcode::GetField),
        field_named(p.pool, word(p.code, m.pc)) == Some(name),
        m.stack == rest.push(Value::Ref(r)),
        m.is_object(r),
        m.fields(r).dom().contains(name),
    ensures
        reaches(w, p, m, m.has(m.pc + 3, rest.push(m.fields(r)[name]))),
{
    shown_steps(w, p, m, Opcode::GetField);
    under_pushed(rest, Value::Ref(r));
    step_reaches(w, p, m, m.has(m.pc + 3, rest.push(m.fields(r)[name])));
}

pub proof fn set_field_steps(
    w: World,
    p: Program,
    m: Machine,
    rest: Seq<Value>,
    r: int,
    v: Value,
    name: Seq<char>,
)
    requires
        shows(p, m.pc, Opcode::SetField),
        field_named(p.pool, word(p.code, m.pc)) == Some(name),
        m.stack == rest.push(Value::Ref(r)).push(v),
        m.is_object(r),
    ensures
        reaches(w, p, m, m.writes(r, name, v).has(m.pc + 3, rest)),
{
    shown_steps(w, p, m, Opcode::SetField);
    under_two(rest, Value::Ref(r), v);
    step_reaches(w, p, m, m.writes(r, name, v).has(m.pc + 3, rest));
}

pub proof fn length_steps(w: World, p: Program, m: Machine, rest: Seq<Value>, r: int)
    requires
        shows(p, m.pc, Opcode::ArrayLength),
        m.stack == rest.push(Value::Ref(r)),
        m.is_array(r),
    ensures
        reaches(w, p, m, m.has(m.pc + 1, rest.push(Value::Int(m.items(r).len() as int)))),
{
    shown_steps(w, p, m, Opcode::ArrayLength);
    under_pushed(rest, Value::Ref(r));
    step_reaches(w, p, m, m.has(m.pc + 1, rest.push(Value::Int(m.items(r).len() as int))));
}

pub proof fn item_steps(w: World, p: Program, m: Machine, rest: Seq<Value>, r: int, i: int)
    requires
        shows(p, m.pc, Opcode::ArrayLoad),
        m.stack == rest.push(Value::Ref(r)).push(Value::Int(i)),
        m.is_array(r),
        0 <= i < m.items(r).len(),
    ensures
        reaches(w, p, m, m.has(m.pc + 1, rest.push(m.items(r)[i]))),
{
    shown_steps(w, p, m, Opcode::ArrayLoad);
    under_two(rest, Value::Ref(r), Value::Int(i));
    step_reaches(w, p, m, m.has(m.pc + 1, rest.push(m.items(r)[i])));
}

/// A conversion of the value on top.
pub proof fn convert_steps(w: World, p: Program, m: Machine, op: Opcode, rest: Seq<Value>, v: Value)
    requires
        shows(p, m.pc, op),
        m.stack == rest.push(v),
        op is I2F || op is F2I || op is I2B || op is FNeg,
    ensures
        reaches(w, p, m, m.has(m.pc + 1, rest.push((w.converts)(op, v)))),
{
    shown_steps(w, p, m, op);
    under_pushed(rest, v);
    step_reaches(w, p, m, m.has(m.pc + 1, rest.push((w.converts)(op, v))));
}

/// A test for null.
pub proof fn null_steps(w: World, p: Program, m: Machine, op: Opcode, rest: Seq<Value>, v: Value)
    requires
        shows(p, m.pc, op),
        op is IsNull || op is IsNonNull,
        m.stack == rest.push(v),
    ensures
        reaches(w, p, m, m.has(m.pc + 1, rest.push(Value::Bool((op is IsNull) == (v is Null))))),
{
    shown_steps(w, p, m, op);
    under_pushed(rest, v);
    step_reaches(w, p, m, m.has(m.pc + 1, rest.push(Value::Bool((op is IsNull) == (v is Null)))));
}

} // verus!
