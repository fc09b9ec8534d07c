//! What the code of literals and variables does when it runs.

use crate::ast::{Expr, Type, TypeView};
use crate::bytecode::constant_pool::{interned, EntryView};
use crate::bytecode::opcode::Opcode;
use crate::codegen::branching::{coercion_plain, coercion_runs, fitted};
use crate::codegen::capturing::{field_kept, field_stands, interned_stands};
use crate::codegen::emitter::{CapturedView, CxView, SlotView, State};
use crate::codegen::expr_ty::{as_type, box_name, ExprTyView};
use crate::codegen::frame::{group_frame, keeps, keeps_trans, plain};
use crate::codegen::growth::extended;
use crate::codegen::lowered::{declared_type, expr_code, local_assign_code, var_init_code};
use crate::codegen::machine::{
    is_int, reaches, reaches_trans, shown_steps, shows, signed_byte, signed_word, step_reaches, word,
    Machine, Program, Value, World,
};
use crate::codegen::ops::{coerced, held_as, Done, Typed};
use crate::codegen::placed::{
    fits, i8_shows, iinc_shows, laid, op_kept, op_shows, part_laid, plain_kept, road, road_keeps,
    settled, settled_kept, u16_kept, u16_shows,
};
use crate::codegen::running::topped;
use crate::codegen::steps::{
    const_steps, dup_steps, get_field_steps, iinc_steps, load_steps, pushed, store_steps, under_none,
};
use crate::codegen::straight::expr_plain;
use crate::codegen::vars::{compound_overload, ident_code, incr_code};
use crate::names::{bound_to, bound_to_push};
use vstd::prelude::*;

verus! {

proof fn kept_self(s: State)
    ensures
        keeps(s, s),
{
    broadcast use group_frame;

    assert(plain(s, s));
}

proof fn small_byte(v: i64)
    requires
        -128 <= v <= 127,
    ensures
        signed_byte((v as i8) as u8) == v,
{
    assert(-128 <= v <= 127 && ((v as i8) as u8) < 0x80u8 ==> ((v as i8) as u8) == v)
        by (bit_vector);
    assert(-128 <= v <= 127 && ((v as i8) as u8) >= 0x80u8 ==> ((v as i8) as u8) - 256 == v)
        by (bit_vector);
}

proof fn small_word(v: i64)
    requires
        -32768 <= v <= 32767,
    ensures
        signed_word(((v as i16) as u16) as int) == v,
{
    assert(-32768 <= v <= 32767 && ((v as i16) as u16) < 0x8000u16 ==> ((v as i16) as u16) == v)
        by (bit_vector);
    assert(-32768 <= v <= 32767 && ((v as i16) as u16) >= 0x8000u16 ==> ((v as i16) as u16)
        - 65536 == v) by (bit_vector);
}

/// An integer constant pushes that integer, whichever way it is written.
pub proof fn int_constant_runs(w: World, p: Program, s: State, v: i64, m: Machine)
    requires
        settled(s),
        laid(p, s, s.int_const(v)),
        m.pc == s.pc(),
    ensures
        reaches(w, p, m, m.has(s.int_const(v).pc(), m.stack.push(Value::Int(v as int)))),
{
    let t = s.int_const(v);
    kept_self(s);
    kept_self(t);
    under_none(m.stack);
    let goal = m.has(t.pc(), m.stack.push(Value::Int(v as int)));
    if v == 0 {
        op_kept(s, Opcode::ConstIZero, 1);
        op_shows(p, s, s, Opcode::ConstIZero, 1, t, Set::empty());
        const_steps(w, p, m, Opcode::ConstIZero, Value::Int(0));
    } else if v == 1 {
        op_kept(s, Opcode::ConstIOne, 1);
        op_shows(p, s, s, Opcode::ConstIOne, 1, t, Set::empty());
        const_steps(w, p, m, Opcode::ConstIOne, Value::Int(1));
    } else if -128 <= v <= 127 {
        i8_shows(p, s, Opcode::BiPush, v as i8, 1);
        small_byte(v);
        shown_steps(w, p, m, Opcode::BiPush);
        step_reaches(w, p, m, goal);
    } else if -32768 <= v <= 32767 {
        u16_kept(s, Opcode::SiPush, (v as i16) as u16, 1);
        u16_shows(p, s, s, Opcode::SiPush, (v as i16) as u16, 1, t, Set::empty());
        small_word(v);
        shown_steps(w, p, m, Opcode::SiPush);
        step_reaches(w, p, m, goal);
    } else {
        let (s1, i) = s.int_entry(v);
        assert(plain(s, s1)) by {
            broadcast use group_frame;

        }
        reveal(State::with_pool);
        constant_entry(s, s1, EntryView::Int(v), i, p, t);
        shown_steps(w, p, m, Opcode::Ldc);
        step_reaches(w, p, m, goal);
    }
}

/// A constant of the pool is what the instruction that pushes it finds.
proof fn constant_entry(s: State, s1: State, e: EntryView, i: u16, p: Program, t: State)
    requires
        settled(s),
        (s1.cp, i) == interned(s.cp, e),
        s1 == s.with_pool(s1.cp),
        t == s1.op_u16(Opcode::Ldc, i, 1),
        laid(p, s, t),
        plain(s, s1),
    ensures
        shows(p, s.pc(), Opcode::Ldc),
        word(p.code, s.pc()) == i,
        1 <= i <= p.pool.len(),
        p.pool[i - 1] == e,
        t.pc() == s.pc() + 3,
{
    plain_kept(s, s1);
    u16_kept(s1, Opcode::Ldc, i, 1);
    kept_self(t);
    assert(s1.pc() == s.pc()) by {
        reveal(State::with_pool);
    }
    u16_shows(p, s, s1, Opcode::Ldc, i, 1, t, Set::empty());
    assert(t.cp == s1.cp) by {
        reveal(State::bytes);
        reveal(State::track);
    }
    assert(extended(t.cp, p.pool) && p.pool.len() <= 0xffff) by {
        reveal(fits);
    }
    interned_stands(s.cp, e, p.pool);
}

/// What a literal stands for; both zeros of the floats are one constant.
pub open spec fn literal_value(e: Expr) -> Option<Value> {
    match e {
        Expr::IntLit(v) => Some(Value::Int(v as int)),
        Expr::FloatLit(bits) => Some(
            Value::Float(
                if bits == 0x8000_0000_0000_0000 {
                    0
                } else {
                    bits
                },
            ),
        ),
        Expr::BoolLit(v) => Some(Value::Bool(v)),
        Expr::StringLit(text) => Some(Value::Text(text@)),
        Expr::NullLit => Some(Value::Null),
        _ => None,
    }
}

/// A literal pushes the value that it stands for.
pub proof fn literal_runs(
    w: World,
    p: Program,
    c: CxView,
    s: State,
    e: Expr,
    t: State,
    ty: ExprTyView,
    m: Machine,
)
    requires
        settled(s),
        literal_value(e) is Some,
        expr_code(c, s, e) == Typed::Ok((t, ty)),
        laid(p, s, t),
        m.pc == s.pc(),
    ensures
        reaches(w, p, m, m.has(t.pc(), m.stack.push(literal_value(e)->0))),
{
    kept_self(s);
    kept_self(t);
    under_none(m.stack);
    let v = literal_value(e)->0;
    match e {
        Expr::IntLit(x) => {
            int_constant_runs(w, p, s, x, m);
        },
        Expr::FloatLit(bits) => {
            float_constant_runs(w, p, s, bits, m);
        },
        Expr::BoolLit(x) => {
            let op = if x {
                Opcode::ConstTrue
            } else {
                Opcode::ConstFalse
            };
            op_kept(s, op, 1);
            op_shows(p, s, s, op, 1, t, Set::empty());
            const_steps(w, p, m, op, v);
        },
        Expr::StringLit(text) => {
            text_constant_runs(w, p, s, text@, m);
        },
        _ => {
            op_kept(s, Opcode::ConstNull, 1);
            op_shows(p, s, s, Opcode::ConstNull, 1, t, Set::empty());
            const_steps(w, p, m, Opcode::ConstNull, v);
        },
    }
}

proof fn text_constant_runs(w: World, p: Program, s: State, text: Seq<char>, m: Machine)
    requires
        settled(s),
        laid(p, s, s.utf8(text).0.op_u16(Opcode::Ldc, s.utf8(text).1, 1)),
        m.pc == s.pc(),
    ensures
        reaches(
            w,
            p,
            m,
            m.has(
                s.utf8(text).0.op_u16(Opcode::Ldc, s.utf8(text).1, 1).pc(),
                m.stack.push(Value::Text(text)),
            ),
        ),
{
    let (s1, i) = s.utf8(text);
    let t = s1.op_u16(Opcode::Ldc, i, 1);
    assert(plain(s, s1)) by {
        broadcast use group_frame;

    }
    reveal(State::with_pool);
    constant_entry(s, s1, EntryView::Utf8(text), i, p, t);
    under_none(m.stack);
    shown_steps(w, p, m, Opcode::Ldc);
    step_reaches(w, p, m, m.has(t.pc(), m.stack.push(Value::Text(text))));
}

proof fn float_constant_runs(w: World, p: Program, s: State, bits: u64, m: Machine)
    requires
        settled(s),
        laid(p, s, s.float_const(bits)),
        m.pc == s.pc(),
    ensures
        reaches(
            w,
            p,
            m,
            m.has(
                s.float_const(bits).pc(),
                m.stack.push(
                    Value::Float(
                        if bits == 0x8000_0000_0000_0000 {
                            0
                        } else {
                            bits
                        },
                    ),
                ),
            ),
        ),
{
    let t = s.float_const(bits);
    kept_self(s);
    kept_self(t);
    under_none(m.stack);
    if bits == 0 || bits == 0x8000_0000_0000_0000 {
        op_kept(s, Opcode::ConstFZero, 1);
        op_shows(p, s, s, Opcode::ConstFZero, 1, t, Set::empty());
        const_steps(w, p, m, Opcode::ConstFZero, Value::Float(0));
    } else if bits == 0x3ff0_0000_0000_0000 {
        op_kept(s, Opcode::ConstFOne, 1);
        op_shows(p, s, s, Opcode::ConstFOne, 1, t, Set::empty());
        const_steps(w, p, m, Opcode::ConstFOne, Value::Float(bits));
    } else {
        let (s1, i) = s.float_entry(bits);
        assert(plain(s, s1)) by {
            broadcast use group_frame;

        }
        reveal(State::with_pool);
        constant_entry(s, s1, EntryView::Float(bits), i, p, t);
        shown_steps(w, p, m, Opcode::Ldc);
        step_reaches(w, p, m, m.has(t.pc(), m.stack.push(Value::Float(bits))));
    }
}

/// The field of the object on top of the stack, read.
proof fn field_read_runs(
    w: World,
    p: Program,
    a: State,
    s: State,
    fqcn: Seq<char>,
    name: Seq<char>,
    ty: TypeView,
    z: State,
    m: Machine,
    rest: Seq<Value>,
    r: int,
)
    requires
        settled(a),
        laid(p, a, z),
        keeps(a, s),
        keeps(
            s.field_of(fqcn, name, ty).0.op_u16(
                Opcode::GetField,
                s.field_of(fqcn, name, ty).1,
                0,
            ),
            z,
        ),
        topped(m, s.pc(), rest, Value::Ref(r)),
        m.is_object(r),
        m.fields(r).dom().contains(name),
    ensures
        ({
            let (g, field) = s.field_of(fqcn, name, ty);
            reaches(
                w,
                p,
                m,
                m.has(g.op_u16(Opcode::GetField, field, 0).pc(), rest.push(m.fields(r)[name])),
            )
        }),
{
    let (g, field) = s.field_of(fqcn, name, ty);
    let e = g.op_u16(Opcode::GetField, field, 0);
    field_kept(s, fqcn, name, ty);
    u16_kept(g, Opcode::GetField, field, 0);
    keeps_trans(a, s, g);
    keeps_trans(g, e, z);
    u16_shows(p, a, g, Opcode::GetField, field, 0, z, Set::empty());
    assert(extended(z.cp, p.pool) && p.pool.len() <= 0xffff) by {
        reveal(fits);
    }
    field_stands(s, fqcn, name, ty, z, p.pool);
    get_field_steps(w, p, m, rest, r, name);
}

/// A variable of the body that has a slot pushes what is in the slot or, where
/// the slot holds a box, what is in the box.
pub proof fn local_read_runs(
    w: World,
    p: Program,
    c: CxView,
    s: State,
    name: Seq<char>,
    t: State,
    ty: ExprTyView,
    slot: SlotView,
    m: Machine,
    v: Value,
)
    requires
        settled(s),
        ident_code(c, s, name) == Typed::Ok((t, ty)),
        laid(p, s, t),
        s.lookup(name) == Some(slot),
        m.pc == s.pc(),
        m.holds(slot.index as int, v),
    ensures
        slot.boxed is None ==> reaches(w, p, m, m.has(t.pc(), m.stack.push(v))),
        slot.boxed is Some ==> (v matches Value::Ref(r) ==> (m.is_object(r) && m.fields(
            r,
        ).dom().contains("value"@) ==> reaches(
            w,
            p,
            m,
            m.has(t.pc(), m.stack.push(m.fields(r)["value"@])),
        ))),
{
    let s1 = s.load(slot.index);
    kept_self(s);
    kept_self(t);
    u16_kept(s, Opcode::Load, slot.index, 1);
    match slot.boxed {
        None => {
            u16_shows(p, s, s, Opcode::Load, slot.index, 1, t, Set::empty());
            load_steps(w, p, m, slot.index as int, v);
        },
        Some(inner) => {
            let fqcn = box_name(as_type(inner));
            let (g, field) = s1.field_of(fqcn, "value"@, as_type(inner));
            field_kept(s1, fqcn, "value"@, as_type(inner));
            u16_kept(g, Opcode::GetField, field, 0);
            keeps_trans(s1, g, t);
            u16_shows(p, s, s, Opcode::Load, slot.index, 1, t, Set::empty());
            load_steps(w, p, m, slot.index as int, v);
            if let Value::Ref(r) = v {
                if m.is_object(r) && m.fields(r).dom().contains("value"@) {
                    let m1 = pushed(m, 3, v);
                    field_read_runs(w, p, s, s1, fqcn, "value"@, as_type(inner), t, m1, m.stack, r);
                    reaches_trans(w, p, m, m1, m1.has(t.pc(), m.stack.push(m.fields(r)["value"@])));
                }
            }
        },
    }
}

/// A captured variable that is no box pushes what the field of its name holds
/// in the closure that runs.
pub proof fn captured_read_runs(
    w: World,
    p: Program,
    c: CxView,
    s: State,
    name: Seq<char>,
    t: State,
    ty: ExprTyView,
    field: CapturedView,
    m: Machine,
    r: int,
)
    requires
        settled(s),
        ident_code(c, s, name) == Typed::Ok((t, ty)),
        laid(p, s, t),
        s.lookup(name) is None,
        bound_to(c.captured_fields, name) == Some(field),
        !field.boxed,
        m.pc == s.pc(),
        m.holds(0, Value::Ref(r)),
        m.is_object(r),
        m.fields(r).dom().contains(name),
    ensures
        reaches(w, p, m, m.has(t.pc(), m.stack.push(m.fields(r)[name]))),
{
    let s1 = s.load(0);
    let held = as_type(held_as(field.ty, field.boxed));
    kept_self(s);
    kept_self(t);
    u16_kept(s, Opcode::Load, 0, 1);
    let (g, index) = s1.field_of(c.this_fqcn, name, held);
    field_kept(s1, c.this_fqcn, name, held);
    u16_kept(g, Opcode::GetField, index, 0);
    keeps_trans(s1, g, t);
    u16_shows(p, s, s, Opcode::Load, 0, 1, t, Set::empty());
    load_steps(w, p, m, 0, Value::Ref(r));
    let m1 = pushed(m, 3, Value::Ref(r));
    field_read_runs(w, p, s, s1, c.this_fqcn, name, held, t, m1, m.stack, r);
    reaches_trans(w, p, m, m1, m1.has(t.pc(), m.stack.push(m.fields(r)[name])));
}

/// Counting an `int` variable adds to what its slot holds, and leaves the
/// stack and all other slots alone.
pub proof fn count_runs(
    w: World,
    p: Program,
    c: CxView,
    s: State,
    name: Seq<char>,
    up: bool,
    t: State,
    ty: ExprTyView,
    slot: SlotView,
    m: Machine,
    v: int,
)
    requires
        settled(s),
        incr_code(
            c,
            s,
            name,
            if up {
                1
            } else {
                -1i16
            },
        ) == Typed::Ok((t, ty)),
        laid(p, s, t),
        s.lookup(name) == Some(slot),
        slot.ty is Int,
        slot.boxed is None,
        m.pc == s.pc(),
        m.holds(slot.index as int, Value::Int(v)),
        is_int(
            if up {
                v + 1
            } else {
                v - 1
            },
        ),
    ensures
        reaches(
            w,
            p,
            m,
            m.sets(
                slot.index as int,
                Value::Int(
                    if up {
                        v + 1
                    } else {
                        v - 1
                    },
                ),
            ).goes(t.pc()),
        ),
{
    let delta: i16 = if up {
        1
    } else {
        -1i16
    };
    kept_self(s);
    kept_self(t);
    assert(plain(s, t)) by {
        broadcast use group_frame;

    }
    iinc_shows(p, s, s, slot.index, delta, t, Set::empty());
    assert(1i16 as u16 == 1u16) by (bit_vector);
    assert((-1i16) as u16 == 0xffffu16) by (bit_vector);
    iinc_steps(w, p, m, slot.index as int, v);
}

/// An assignment to a variable with a slot: the value, fitted to the
/// variable's type, is then in the slot and on the stack.
pub proof fn local_write_runs(
    w: World,
    p: Program,
    c: CxView,
    s: State,
    name: Seq<char>,
    value: Expr,
    t: State,
    ty: ExprTyView,
    slot: SlotView,
) -> (r: (State, ExprTyView))
    requires
        settled(s),
        local_assign_code(c, s, name, value) == Typed::Ok((t, ty)),
        laid(p, s, t),
        s.lookup(name) == Some(slot),
        slot.boxed is None,
        compound_overload(c, s, name, slot, value) is None,
    ensures
        expr_code(c, s, value) == Typed::Ok(r),
        laid(p, s, r.0),
        forall|m: Machine, rest: Seq<Value>, v: Value| #[trigger]
            topped(m, r.0.pc(), rest, v) ==> reaches(
                w,
                p,
                m,
                m.sets(slot.index as int, fitted(w, r.1, slot.ty, v)).has(
                    t.pc(),
                    rest.push(fitted(w, r.1, slot.ty, v)),
                ),
            ),
{
    expr_plain(c, s, value);
    let (s1, value_ty) = expr_code(c, s, value)->Ok_0;
    let s2 = coerced(s1, value_ty, slot.ty, name)->Ok_0;
    written_runs(w, p, s, s1, value_ty, slot, name, s2, t);
    (s1, value_ty)
}

proof fn written_runs(
    w: World,
    p: Program,
    s: State,
    s1: State,
    value_ty: ExprTyView,
    slot: SlotView,
    name: Seq<char>,
    s2: State,
    t: State,
)
    requires
        settled(s),
        plain(s, s1),
        coerced(s1, value_ty, slot.ty, name) == Done::Ok(s2),
        t == s2.op(Opcode::Dup, 1).store(slot.index),
        laid(p, s, t),
    ensures
        laid(p, s, s1),
        forall|m: Machine, rest: Seq<Value>, v: Value| #[trigger]
            topped(m, s1.pc(), rest, v) ==> reaches(
                w,
                p,
                m,
                m.sets(slot.index as int, fitted(w, value_ty, slot.ty, v)).has(
                    t.pc(),
                    rest.push(fitted(w, value_ty, slot.ty, v)),
                ),
            ),
{
    let d = s2.op(Opcode::Dup, 1);
    coercion_plain(s1, value_ty, slot.ty, name);
    plain_kept(s, s1);
    plain_kept(s1, s2);
    op_kept(s2, Opcode::Dup, 1);
    u16_kept(d, Opcode::Store, slot.index, -1);
    let q = seq![s, s1, s2, d, t];
    assert(road(q)) by {
        reveal(road);
    }
    road_keeps(q);
    assert(q[0] == s && q[1] == s1 && q[2] == s2 && q[3] == d && q[4] == t);
    part_laid(p, s, s, s1, t, Set::empty());
    part_laid(p, s, s1, s2, t, Set::empty());
    settled_kept(s, s1);
    op_shows(p, s, s2, Opcode::Dup, 1, t, Set::empty());
    u16_shows(p, s, d, Opcode::Store, slot.index, -1, t, Set::empty());
    assert forall|m: Machine, rest: Seq<Value>, v: Value| #[trigger]
        topped(m, s1.pc(), rest, v) implies reaches(
        w,
        p,
        m,
        m.sets(slot.index as int, fitted(w, value_ty, slot.ty, v)).has(
            t.pc(),
            rest.push(fitted(w, value_ty, slot.ty, v)),
        ),
    ) by {
        coercion_runs(w, p, s1, value_ty, slot.ty, name, s2, m, rest, v);
        let f = fitted(w, value_ty, slot.ty, v);
        let m1 = m.has(s2.pc(), rest.push(f));
        dup_steps(w, p, m1, rest, f);
        let m2 = pushed(m1, 1, f);
        store_steps(w, p, m2, slot.index as int, m1.stack, f);
        reaches_trans(w, p, m, m1, m2);
        reaches_trans(w, p, m, m2, m2.sets(slot.index as int, f).has(m2.pc + 3, m1.stack));
    }
}

/// A declaration with an initial value: the value, fitted to the variable's
/// type, is then in the slot that the variable's name means.
pub proof fn initial_value_runs(
    w: World,
    p: Program,
    c: CxView,
    s: State,
    ty: Option<Type>,
    name: Seq<char>,
    init: Expr,
    t: State,
) -> (r: (State, ExprTyView, ExprTyView))
    requires
        settled(s),
        var_init_code(c, s, ty, name, init) == Done::Ok(t),
        laid(p, s, t),
        !c.boxed_captures.contains(name),
    ensures
        expr_code(c, s, init) == Typed::Ok((r.0, r.1)),
        laid(p, s, r.0),
        r.2 == match ty {
            Some(x) => declared_type(c, x),
            None => r.1,
        },
        r.0.scopes.len() > 0 ==> (t.lookup(name) matches Some(slot) && slot.ty == r.2
            && slot.boxed is None && slot.index == r.0.next_local),
        forall|m: Machine, rest: Seq<Value>, v: Value| #[trigger]
            topped(m, r.0.pc(), rest, v) ==> reaches(
                w,
                p,
                m,
                m.sets(r.0.next_local as int, fitted(w, r.1, r.2, v)).has(t.pc(), rest),
            ),
{
    expr_plain(c, s, init);
    let (s1, init_ty) = expr_code(c, s, init)->Ok_0;
    let declared = match ty {
        Some(x) => declared_type(c, x),
        None => init_ty,
    };
    let s2 = coerced(s1, init_ty, declared, name)->Ok_0;
    initial_states(w, p, s, s1, init_ty, declared, name, s2, t);
    (s1, init_ty, declared)
}

proof fn initial_states(
    w: World,
    p: Program,
    s: State,
    s1: State,
    init_ty: ExprTyView,
    declared: ExprTyView,
    name: Seq<char>,
    s2: State,
    t: State,
)
    requires
        settled(s),
        plain(s, s1),
        coerced(s1, init_ty, declared, name) == Done::Ok(s2),
        t == s2.declare_local(name, declared).store(s2.next_local),
        laid(p, s, t),
    ensures
        laid(p, s, s1),
        s1.scopes.len() > 0 ==> t.lookup(name) == Some(
            SlotView { index: s1.next_local, ty: declared, boxed: None },
        ),
        forall|m: Machine, rest: Seq<Value>, v: Value| #[trigger]
            topped(m, s1.pc(), rest, v) ==> reaches(
                w,
                p,
                m,
                m.sets(s1.next_local as int, fitted(w, init_ty, declared, v)).has(t.pc(), rest),
            ),
{
    let d = s2.declare_local(name, declared);
    coercion_plain(s1, init_ty, declared, name);
    plain_kept(s, s1);
    plain_kept(s1, s2);
    assert(plain(s2, d)) by {
        broadcast use group_frame;

    }
    plain_kept(s2, d);
    u16_kept(d, Opcode::Store, s2.next_local, -1);
    let q = seq![s, s1, s2, d, t];
    assert(road(q)) by {
        reveal(road);
    }
    road_keeps(q);
    assert(q[0] == s && q[1] == s1 && q[2] == s2 && q[3] == d && q[4] == t);
    part_laid(p, s, s, s1, t, Set::empty());
    part_laid(p, s, s1, s2, t, Set::empty());
    settled_kept(s, s1);
    u16_shows(p, s, d, Opcode::Store, s2.next_local, -1, t, Set::empty());
    reveal(State::declare);
    reveal(State::bytes);
    reveal(State::track);
    assert(s2.next_local == s1.next_local && s2.scopes == s1.scopes && d.pc() == s2.pc());
    if s1.scopes.len() > 0 {
        let slot = SlotView { index: s1.next_local, ty: declared, boxed: None };
        assert(t.scopes.last() == s1.scopes.last().push((name, slot)));
        bound_to_push(s1.scopes.last(), name, slot, name);
    }
    assert forall|m: Machine, rest: Seq<Value>, v: Value| #[trigger]
        topped(m, s1.pc(), rest, v) implies reaches(
        w,
        p,
        m,
        m.sets(s1.next_local as int, fitted(w, init_ty, declared, v)).has(t.pc(), rest),
    ) by {
        coercion_runs(w, p, s1, init_ty, declared, name, s2, m, rest, v);
        let f = fitted(w, init_ty, declared, v);
        let m1 = m.has(s2.pc(), rest.push(f));
        store_steps(w, p, m1, s1.next_local as int, rest, f);
        reaches_trans(w, p, m, m1, m1.sets(s1.next_local as int, f).has(m1.pc + 3, rest));
    }
}

} // verus!
