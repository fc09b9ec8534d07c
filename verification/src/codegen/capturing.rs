//! What the code that makes a closure object does when it runs.

use crate::ast::{ClosureBody, Param, Type, TypeView};
use crate::bytecode::constant_pool::{first_at, interned, with_class, EntryView};
use crate::bytecode::opcode::Opcode;
use crate::class_table::{param_names, param_types};
use crate::codegen::closure::{in_body, param_name_set, Occurs};
use crate::codegen::emitter::{CxView, State};
use crate::codegen::expr_ty::{as_type, expr_tys, ExprTyView};
use crate::codegen::frame::{group_frame, keeps, keeps_trans, plain};
use crate::codegen::growth::{extended, extended_trans};
use crate::codegen::lowered::{
    closure_body_code, closure_code, closure_cx, closure_module, closure_name, closure_start,
};
use crate::codegen::machine::{
    field_named, reaches, reaches_self, reaches_trans, Cell, Machine, Program, Value, World,
};
use crate::codegen::ops::{held_as, Typed};
use crate::codegen::placed::{
    fits, laid, op_kept, op_shows, part_laid, plain_kept, road, road_keeps, settled, settled_kept,
    u16_kept, u16_shows,
};
use crate::codegen::steps::{
    dup_steps, get_field_steps, load_steps, new_steps, pushed, set_field_steps,
};
use crate::codegen::straight::{copied_plain, made_plain};
use crate::codegen::type_desc::type_descriptor_text;
use crate::codegen::vars::{captured_of, captures, copied, CaptureView};
use crate::names::ascending;
use vstd::prelude::*;

verus! {

proof fn first_at_finds(p: Seq<EntryView>, e: EntryView, i: int)
    requires
        0 <= i,
    ensures
        i <= first_at(p, e, i) < p.len() ==> p[first_at(p, e, i)] == e,
        i <= p.len() ==> i <= first_at(p, e, i) <= p.len(),
    decreases p.len() - i,
{
    if i < p.len() && p[i] != e {
        first_at_finds(p, e, i + 1);
    }
}

/// A constant is where its index says, in every pool that goes on from there.
pub proof fn interned_stands(p: Seq<EntryView>, e: EntryView, q: Seq<EntryView>)
    requires
        extended(interned(p, e).0, q),
        q.len() <= 0xffff,
    ensures
        1 <= interned(p, e).1 <= q.len(),
        q[interned(p, e).1 - 1] == e,
{
    first_at_finds(p, e, 0);
    let (p1, i) = interned(p, e);
    assert(p1 == q.subrange(0, p1.len() as int));
    assert(p1[i - 1] == e);
    assert(q.subrange(0, p1.len() as int)[i - 1] == q[i - 1]);
}

/// The pool entry of a field names the field.
pub proof fn field_stands(
    s: State,
    fqcn: Seq<char>,
    name: Seq<char>,
    ty: TypeView,
    z: State,
    q: Seq<EntryView>,
)
    requires
        keeps(s.field_of(fqcn, name, ty).0, z),
        extended(z.cp, q),
        q.len() <= 0xffff,
    ensures
        field_named(q, s.field_of(fqcn, name, ty).1 as int) == Some(name),
{
    let (s1, class) = s.class(fqcn);
    let (s2, n) = s1.utf8(name);
    let (s3, t) = s2.type_desc(type_descriptor_text(ty));
    let (s4, f) = s3.field_ref(class, n, t);
    assert(plain(s2, s3) && plain(s3, s4)) by {
        broadcast use group_frame;

    }
    plain_kept(s2, s3);
    plain_kept(s3, s4);
    keeps_trans(s2, s3, s4);
    keeps_trans(s2, s4, z);
    reveal(keeps);
    reveal(State::with_pool);
    extended_trans(s2.cp, z.cp, q);
    extended_trans(s4.cp, z.cp, q);
    interned_stands(s1.cp, EntryView::Utf8(name), q);
    interned_stands(
        s3.cp,
        EntryView::FieldRef { class_index: class, name_index: n, type_index: t },
        q,
    );
}

pub proof fn field_kept(s: State, fqcn: Seq<char>, name: Seq<char>, ty: TypeView)
    ensures
        keeps(s, s.field_of(fqcn, name, ty).0),
        s.field_of(fqcn, name, ty).0.pc() == s.pc(),
{
    assert(plain(s, s.field_of(fqcn, name, ty).0)) by {
        broadcast use group_frame;

    }
    plain_kept(s, s.field_of(fqcn, name, ty).0);
    reveal(State::with_pool);
}

/// What the variable of this name holds in the enclosing body: what is in its
/// slot, or in the field of that name of the closure that runs.
pub open spec fn variable_holds(s: State, m: Machine, name: Seq<char>) -> Value {
    match s.lookup(name) {
        Some(slot) => m.locals[slot.index as int],
        None => m.fields(m.locals[0]->Ref_0)[name],
    }
}

/// Whether the machine has the variable of this name at hand.
pub open spec fn variable_there(s: State, m: Machine, name: Seq<char>) -> bool {
    match s.lookup(name) {
        Some(slot) => m.locals.dom().contains(slot.index as int),
        None => {
            &&& m.locals.dom().contains(0)
            &&& m.locals[0] is Ref
            &&& m.is_object(m.locals[0]->Ref_0)
            &&& m.fields(m.locals[0]->Ref_0).dom().contains(name)
        },
    }
}

/// Whether a capture is of the variable that its name means.
pub open spec fn capture_agrees(s: State, cap: CaptureView) -> bool {
    match s.lookup(cap.name) {
        Some(slot) => cap.local == Some(slot.index),
        None => cap.local is None,
    }
}

proof fn captures_agree(c: CxView, s: State, names: Seq<Seq<char>>, n: int)
    requires
        n <= names.len(),
    ensures
        forall|j: int|
            0 <= j < captured_of(c, s, names, n).len() ==> capture_agrees(
                s,
                #[trigger] captured_of(c, s, names, n)[j],
            ),
    decreases n,
{
    if n > 0 {
        captures_agree(c, s, names, n - 1);
        let before = captured_of(c, s, names, n - 1);
        let after = captured_of(c, s, names, n);
        assert forall|j: int| 0 <= j < after.len() implies capture_agrees(
            s,
            #[trigger] captured_of(c, s, names, n)[j],
        ) by {
            if j < before.len() {
                assert(after[j] == before[j]);
            }
        }
    }
}

/// Whether `b` is `a` with the object `o` made, and the first `n` captures in
/// its fields.
pub open spec fn filled(
    s: State,
    caps: Seq<CaptureView>,
    a: Machine,
    b: Machine,
    o: int,
    n: int,
) -> bool {
    &&& b.stack == a.stack.push(Value::Ref(o))
    &&& b.locals == a.locals
    &&& o == a.heap.len()
    &&& b.heap.len() == a.heap.len() + 1
    &&& forall|r: int| 0 <= r < a.heap.len() ==> #[trigger] b.heap[r] == a.heap[r]
    &&& b.is_object(o)
    &&& forall|j: int|
        0 <= j < n ==> b.fields(o).dom().contains((#[trigger] caps[j]).name) && b.fields(
            o,
        )[caps[j].name] == variable_holds(s, a, caps[j].name)
}

/// The value of a capture, on top of the stack.
pub open spec fn fetched(c: CxView, s1: State, cap: CaptureView) -> State {
    match cap.local {
        Some(index) => s1.load(index),
        None => s1.get_captured_raw(c.this_fqcn, cap.name, cap.field),
    }
}

proof fn fetched_kept(c: CxView, s1: State, cap: CaptureView)
    ensures
        keeps(s1, fetched(c, s1, cap)),
{
    assert(plain(s1, fetched(c, s1, cap))) by {
        broadcast use group_frame;

    }
    plain_kept(s1, fetched(c, s1, cap));
}

proof fn fetched_runs(
    w: World,
    p: Program,
    c: CxView,
    s: State,
    a: State,
    s1: State,
    cap: CaptureView,
    z: State,
    m: Machine,
)
    requires
        settled(a),
        laid(p, a, z),
        keeps(a, s1),
        keeps(fetched(c, s1, cap), z),
        capture_agrees(s, cap),
        variable_there(s, m, cap.name),
        m.pc == s1.pc(),
    ensures
        reaches(
            w,
            p,
            m,
            m.has(
                fetched(c, s1, cap).pc(),
                m.stack.push(variable_holds(s, m, cap.name)),
            ),
        ),
{
    let v = variable_holds(s, m, cap.name);
    match cap.local {
        Some(index) => {
            u16_shows(p, a, s1, Opcode::Load, index, 1, z, Set::empty());
            load_steps(w, p, m, index as int, v);
        },
        None => {
            let l = s1.load(0);
            let ty = as_type(
                held_as(cap.field.ty, cap.field.boxed),
            );
            let (g, field) = l.field_of(c.this_fqcn, cap.name, ty);
            let e = g.op_u16(Opcode::GetField, field, 0);
            assert(e == fetched(c, s1, cap));
            u16_kept(s1, Opcode::Load, 0, 1);
            field_kept(l, c.this_fqcn, cap.name, ty);
            u16_kept(g, Opcode::GetField, field, 0);
            let q = seq![a, s1, l, g, e, z];
            assert(road(q)) by {
                reveal(road);
            }
            road_keeps(q);
            assert(q[0] == a && q[1] == s1 && q[2] == l && q[3] == g && q[4] == e && q[5] == z);
            u16_shows(p, a, s1, Opcode::Load, 0, 1, z, Set::empty());
            u16_shows(p, a, g, Opcode::GetField, field, 0, z, Set::empty());
            assert(extended(z.cp, p.pool) && p.pool.len() <= 0xffff) by {
                reveal(fits);
            }
            field_stands(l, c.this_fqcn, cap.name, ty, z, p.pool);
            let r = m.locals[0]->Ref_0;
            load_steps(w, p, m, 0, Value::Ref(r));
            let m1 = pushed(m, 3, Value::Ref(r));
            get_field_steps(w, p, m1, m.stack, r, cap.name);
            reaches_trans(w, p, m, m1, m1.has(m1.pc + 3, m.stack.push(v)));
        },
    }
}

proof fn copied_runs(
    w: World,
    p: Program,
    c: CxView,
    s: State,
    a: State,
    caps: Seq<CaptureView>,
    n: int,
    z: State,
    m: Machine,
    m0: Machine,
    o: int,
) -> (b: Machine)
    requires
        settled(a),
        laid(p, a, z),
        0 <= n <= caps.len(),
        keeps(copied(c, a, caps, n), z),
        forall|j: int|
            0 <= j < caps.len() ==> capture_agrees(s, #[trigger] caps[j]) && variable_there(
                s,
                m,
                caps[j].name,
            ),
        m0.pc == a.pc(),
        filled(s, caps, m, m0, o, 0),
    ensures
        reaches(w, p, m0, b),
        b.pc == copied(c, a, caps, n).pc(),
        filled(s, caps, m, b, o, n),
        keeps(a, copied(c, a, caps, n)),
    decreases n,
{
    copied_plain(c, a, caps, n);
    plain_kept(a, copied(c, a, caps, n));
    if n <= 0 {
        reaches_self(w, p, m0);
        m0
    } else {
        let cap = caps[n - 1];
        let x = copied(c, a, caps, n - 1);
        let s1 = x.op(Opcode::Dup, 1);
        let s2 = fetched(c, s1, cap);
        let ty = as_type(
            held_as(cap.field.ty, cap.field.boxed),
        );
        let (s3, field) = s2.field_of(c.this_fqcn, cap.name, ty);
        let t = s3.op_u16(Opcode::SetField, field, -2);
        assert(t == copied(c, a, caps, n));
        copied_plain(c, a, caps, n - 1);
        plain_kept(a, x);
        op_kept(x, Opcode::Dup, 1);
        fetched_kept(c, s1, cap);
        field_kept(s2, c.this_fqcn, cap.name, ty);
        u16_kept(s3, Opcode::SetField, field, -2);
        let q = seq![a, x, s1, s2, s3, t, z];
        assert(road(q)) by {
            reveal(road);
        }
        road_keeps(q);
        assert(q[0] == a && q[1] == x && q[2] == s1 && q[3] == s2 && q[4] == s3 && q[5] == t && q[6]
            == z);
        let b0 = copied_runs(w, p, c, s, a, caps, n - 1, z, m, m0, o);
        op_shows(p, a, x, Opcode::Dup, 1, z, Set::empty());
        u16_shows(p, a, s3, Opcode::SetField, field, -2, z, Set::empty());
        assert(extended(z.cp, p.pool) && p.pool.len() <= 0xffff) by {
            reveal(fits);
        }
        field_stands(s2, c.this_fqcn, cap.name, ty, z, p.pool);
        dup_steps(w, p, b0, m.stack, Value::Ref(o));
        let b1 = pushed(b0, 1, Value::Ref(o));
        let v = variable_holds(s, m, cap.name);
        assert(variable_there(s, b1, cap.name) && variable_holds(s, b1, cap.name) == v);
        fetched_runs(w, p, c, s, a, s1, cap, z, b1);
        let b2 = b1.has(s2.pc(), b1.stack.push(v));
        set_field_steps(w, p, b2, b0.stack, o, v, cap.name);
        let b3 = b2.writes(o, cap.name, v).has(b2.pc + 3, b0.stack);
        reaches_trans(w, p, m0, b0, b1);
        reaches_trans(w, p, m0, b1, b2);
        reaches_trans(w, p, m0, b2, b3);
        assert(b3.fields(o) == b0.fields(o).insert(cap.name, v));
        assert(filled(s, caps, m, b3, o, n));
        b3
    }
}

/// The code of a closure makes an object, whose reference it leaves on the
/// stack; for each variable that the closure captures, the field of that name
/// holds what the variable of that name holds in the enclosing body. Nothing
/// that was there before is changed.
pub proof fn closure_object_holds_its_variables(
    w: World,
    p: Program,
    c: CxView,
    s: State,
    params: Seq<Param>,
    return_type: Option<Type>,
    body: ClosureBody,
    t: State,
    ty: ExprTyView,
    m: Machine,
) -> (b: Machine)
    requires
        settled(s),
        closure_code(c, s, params, return_type, body) == Typed::Ok((t, ty)),
        laid(p, s, t),
        m.pc == s.pc(),
        forall|j: int|
            0 <= j < captures(c, s, params, body).len() ==> variable_there(
                s,
                m,
                (#[trigger] captures(c, s, params, body)[j]).name,
            ),
    ensures
        reaches(w, p, m, b),
        b.pc == t.pc(),
        b.stack == m.stack.push(Value::Ref(m.heap.len() as int)),
        b.locals == m.locals,
        b.heap.len() == m.heap.len() + 1,
        forall|r: int| 0 <= r < m.heap.len() ==> #[trigger] b.heap[r] == m.heap[r],
        b.is_object(m.heap.len() as int),
        forall|j: int|
            #![trigger captures(c, s, params, body)[j]]
            0 <= j < captures(c, s, params, body).len() ==> {
                let name = captures(c, s, params, body)[j].name;
                let fields = b.fields(m.heap.len() as int);
                fields.dom().contains(name) && fields[name] == match s.lookup(name) {
                    Some(slot) => m.locals[slot.index as int],
                    None => m.fields(m.locals[0]->Ref_0)[name],
                }
            },
{
    let caps = captures(c, s, params, body);
    let fqcn = closure_name(c, s);
    let tys = expr_tys(param_types(params, c.imports));
    let (cp, this_class) = with_class(Seq::empty(), fqcn);
    let inner = closure_cx(c, this_class, fqcn, caps, params, body);
    let start = closure_start(cp, fqcn, inner.boxed_captures, param_names(params), tys);
    let (e1, ret) = closure_body_code(inner, start, return_type, body)->Ok_0;
    let ms = seq![closure_module(e1.pop_scope(), this_class, caps, tys, ret)] + e1.closures;
    let s0 = s.count_closure().add_closures(ms);
    let (s1, class) = s0.class(fqcn);
    let a = s1.op_u16(Opcode::New, class, 1);
    made_plain(s, ms, fqcn);
    plain_kept(s, a);
    assert(plain(s, s1) && s1.pc() == s.pc()) by {
        broadcast use group_frame;

        reveal(State::count_closure);
        reveal(State::add_closures);
        reveal(State::with_pool);
    }
    plain_kept(s, s1);
    copied_plain(c, a, caps, caps.len() as int);
    plain_kept(a, t);
    assert(keeps(t, t)) by {
        broadcast use group_frame;

        assert(plain(t, t));
    }
    u16_shows(p, s, s1, Opcode::New, class, 1, t, Set::empty());
    part_laid(p, s, a, t, t, Set::empty());
    settled_kept(s, a);
    new_steps(w, p, m);
    let o = m.heap.len() as int;
    let m0 = Machine {
        heap: m.heap.push(Cell::Object(Map::empty())),
        ..pushed(m, 3, Value::Ref(o))
    };
    let names = ascending(
        in_body(
            body,
            Occurs::Referenced,
        ).difference(param_name_set(params)),
    );
    captures_agree(c, s, names, names.len() as int);
    assert(filled(s, caps, m, m0, o, 0));
    assert forall|j: int| 0 <= j < caps.len() implies capture_agrees(s, #[trigger] caps[j])
        && variable_there(s, m, caps[j].name) by {}
    let b = copied_runs(w, p, c, s, a, caps, caps.len() as int, t, m, m0, o);
    reaches_trans(w, p, m, m0, b);
    assert forall|j: int|
        #![trigger captures(c, s, params, body)[j]]
        0 <= j < caps.len() implies ({
        let name = captures(c, s, params, body)[j].name;
        let fields = b.fields(m.heap.len() as int);
        fields.dom().contains(name) && fields[name] == match s.lookup(name) {
            Some(slot) => m.locals[slot.index as int],
            None => m.fields(m.locals[0]->Ref_0)[name],
        }
    }) by {
        assert(caps[j].name == captures(c, s, params, body)[j].name);
    }
    b
}

} // verus!
