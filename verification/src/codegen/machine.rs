//! What the machine does with the code: one instruction at a time, on a stack
//! of values, the local slots of a call and the objects and arrays made so far.
//!
//! What the instructions leave to the classes at hand (calls, statics, checks
//! of a type, numbers out of range) is left to a `World`: what is said of code
//! here holds in every one.

use crate::bytecode::constant_pool::EntryView;
use crate::bytecode::module::ExceptionTableEntry;
use crate::bytecode::opcode::{opcode_bytes_distinct, Opcode};
use crate::codegen::laws::jump_target;
use vstd::prelude::*;

verus! {

pub enum Value {
    Null,
    Bool(bool),
    Byte(u8),
    Int(int),
    /// By its bits.
    Float(u64),
    Text(Seq<char>),
    /// The object or array of this number.
    Ref(int),
}

pub enum Cell {
    Object(Map<Seq<char>, Value>),
    Array(Seq<Value>),
}

pub struct Machine {
    pub pc: int,
    pub stack: Seq<Value>,
    pub locals: Map<int, Value>,
    pub heap: Seq<Cell>,
}

/// The code of a method, with its pool and its exception table.
pub struct Program {
    pub code: Seq<u8>,
    pub pool: Seq<EntryView>,
    pub guards: Seq<ExceptionTableEntry>,
}

/// What an instruction does that is not this machine's own affair.
pub enum Outcome {
    Goes(Seq<Value>, Seq<Cell>),
    Raises(Value, Seq<Cell>),
    Hangs,
}

pub struct World {
    /// An instruction, with its operand, on a stack and a heap.
    pub acts: spec_fn(Opcode, int, Seq<Value>, Seq<Cell>) -> Outcome,
    /// Arithmetic and comparison of two floats.
    pub floats: spec_fn(Opcode, u64, u64) -> Value,
    /// The conversion of a value.
    pub converts: spec_fn(Opcode, Value) -> Value,
    /// Whether a handler for a class takes a value.
    pub takes: spec_fn(u16, Value) -> bool,
}

/// What comes of one instruction, or of several.
pub enum Turn {
    Runs(Machine),
    Returns(Option<Value>, Seq<Cell>),
    /// No handler took the value.
    Escapes(Value, Seq<Cell>),
    Stops,
}

/// The instruction that a byte stands for.
pub open spec fn decoded(b: u8) -> Option<Opcode> {
    if exists|o: Opcode| #[trigger] o.code() == b {
        Some(choose|o: Opcode| #[trigger] o.code() == b)
    } else {
        None
    }
}

pub proof fn decodes(o: Opcode)
    ensures
        decoded(o.code()) == Some(o),
{
    let q = choose|q: Opcode| #[trigger] q.code() == o.code();
    assert(exists|q: Opcode| #[trigger] q.code() == o.code());
    opcode_bytes_distinct(q, o);
}

/// The two bytes after `pc`.
pub open spec fn word(code: Seq<u8>, pc: int) -> int {
    code[pc + 1] * 256 + code[pc + 2]
}

pub open spec fn signed_byte(x: u8) -> int {
    if x < 0x80 {
        x as int
    } else {
        x - 0x100
    }
}

pub open spec fn signed_word(x: int) -> int {
    if x < 0x8000 {
        x
    } else {
        x - 0x1_0000
    }
}

/// Whether a number is an `int` of the language.
pub open spec fn is_int(v: int) -> bool {
    -0x8000_0000_0000_0000 <= v <= 0x7fff_ffff_ffff_ffff
}

pub open spec fn magnitude(a: int) -> int {
    if a < 0 {
        -a
    } else {
        a
    }
}

/// Division that rounds towards zero.
pub open spec fn quotient(a: int, b: int) -> int {
    if (a < 0) == (b < 0) {
        magnitude(a) / magnitude(b)
    } else {
        -(magnitude(a) / magnitude(b))
    }
}

/// What arithmetic on two numbers gives.
pub open spec fn calculated(op: Opcode, a: int, b: int) -> Option<int> {
    let v = match op {
        Opcode::IAdd => Some(a + b),
        Opcode::ISub => Some(a - b),
        Opcode::IMul => Some(a * b),
        Opcode::IDiv => if b == 0 {
            None
        } else {
            Some(quotient(a, b))
        },
        Opcode::IMod => if b == 0 {
            None
        } else {
            Some(a - b * quotient(a, b))
        },
        _ => None,
    };
    match v {
        Some(x) => if is_int(x) {
            Some(x)
        } else {
            None
        },
        None => None,
    }
}

/// What a comparison of two numbers tells.
pub open spec fn compares(op: Opcode, a: int, b: int) -> bool {
    match op {
        Opcode::CmpEq => a == b,
        Opcode::CmpNe => a != b,
        Opcode::CmpLt => a < b,
        Opcode::CmpGt => a > b,
        Opcode::CmpLe => a <= b,
        Opcode::CmpGe => a >= b,
        _ => false,
    }
}

/// The name of the field of an entry.
pub open spec fn field_named(pool: Seq<EntryView>, index: int) -> Option<Seq<char>> {
    if 1 <= index <= pool.len() {
        match pool[index - 1] {
            EntryView::FieldRef { name_index, .. } => if 1 <= name_index <= pool.len() {
                match pool[name_index - 1] {
                    EntryView::Utf8(name) => Some(name),
                    _ => None,
                }
            } else {
                None
            },
            _ => None,
        }
    } else {
        None
    }
}

impl Machine {
    pub open spec fn goes(self, pc: int) -> Machine {
        Machine { pc, ..self }
    }

    pub open spec fn has(self, pc: int, stack: Seq<Value>) -> Machine {
        Machine { pc, stack, ..self }
    }

    pub open spec fn holds(self, slot: int, v: Value) -> bool {
        self.locals.dom().contains(slot) && self.locals[slot] == v
    }

    /// With a local slot set.
    pub open spec fn sets(self, slot: int, v: Value) -> Machine {
        Machine { locals: self.locals.insert(slot, v), ..self }
    }

    pub open spec fn is_object(self, r: int) -> bool {
        0 <= r < self.heap.len() && self.heap[r] is Object
    }

    pub open spec fn is_array(self, r: int) -> bool {
        0 <= r < self.heap.len() && self.heap[r] is Array
    }

    /// The fields of an object.
    pub open spec fn fields(self, r: int) -> Map<Seq<char>, Value> {
        self.heap[r]->Object_0
    }

    /// The elements of an array.
    pub open spec fn items(self, r: int) -> Seq<Value> {
        self.heap[r]->Array_0
    }

    /// With a field of an object set.
    pub open spec fn writes(self, r: int, name: Seq<char>, v: Value) -> Machine {
        Machine { heap: self.heap.update(r, Cell::Object(self.fields(r).insert(name, v))), ..self }
    }
}

/// The stack without its last `k` values.
pub open spec fn under(stack: Seq<Value>, k: int) -> Seq<Value> {
    stack.take(stack.len() - k)
}

/// The value `k` places from the top, counted from one.
pub open spec fn from_top(stack: Seq<Value>, k: int) -> Value {
    stack[stack.len() - k]
}

/// Where the value goes that was raised at `m`: to the first handler in the
/// table that covers the place and takes the value.
pub open spec fn raised(
    w: World,
    p: Program,
    m: Machine,
    v: Value,
    heap: Seq<Cell>,
    i: int,
) -> Turn
    decreases p.guards.len() - i,
{
    if i < 0 || i >= p.guards.len() {
        Turn::Escapes(v, heap)
    } else {
        let g = p.guards[i];
        if g.start_pc <= m.pc < g.end_pc && (g.catch_type == 0 || (w.takes)(g.catch_type, v)) {
            Turn::Runs(Machine { pc: g.handler_pc as int, stack: seq![v], heap, ..m })
        } else {
            raised(w, p, m, v, heap, i + 1)
        }
    }
}

/// An instruction of `len` bytes that the world performs.
pub open spec fn elsewhere(w: World, p: Program, m: Machine, op: Opcode, len: int) -> Turn {
    match (w.acts)(op, word(p.code, m.pc), m.stack, m.heap) {
        Outcome::Goes(stack, heap) => Turn::Runs(
            Machine { pc: m.pc + len, stack, heap, ..m },
        ),
        Outcome::Raises(v, heap) => raised(w, p, m, v, heap, 0),
        Outcome::Hangs => Turn::Stops,
    }
}

/// A new value in place of the `k` on top.
pub open spec fn puts(m: Machine, len: int, k: int, v: Value) -> Turn {
    Turn::Runs(m.has(m.pc + len, under(m.stack, k).push(v)))
}

/// An instruction on two values.
pub open spec fn on_two(w: World, p: Program, m: Machine, op: Opcode, a: Value, b: Value) -> Turn {
    match (a, b) {
        (Value::Int(x), Value::Int(y)) => match op {
            Opcode::IAdd | Opcode::ISub | Opcode::IMul | Opcode::IDiv | Opcode::IMod =>
                match calculated(op, x, y) {
                    Some(v) => puts(m, 1, 2, Value::Int(v)),
                    None => elsewhere(w, p, m, op, 1),
                },
            Opcode::CmpThreeWay => puts(
                m,
                1,
                2,
                Value::Int(
                    if x < y {
                        -1
                    } else if x == y {
                        0
                    } else {
                        1
                    },
                ),
            ),
            Opcode::CmpEq
            | Opcode::CmpNe
            | Opcode::CmpLt
            | Opcode::CmpGt
            | Opcode::CmpLe
            | Opcode::CmpGe => puts(m, 1, 2, Value::Bool(compares(op, x, y))),
            _ => elsewhere(w, p, m, op, 1),
        },
        (Value::Float(x), Value::Float(y)) => puts(m, 1, 2, (w.floats)(op, x, y)),
        (Value::Text(x), Value::Text(y)) => match op {
            Opcode::StrConcat => puts(m, 1, 2, Value::Text(x + y)),
            Opcode::CmpEq => puts(m, 1, 2, Value::Bool(x == y)),
            Opcode::CmpNe => puts(m, 1, 2, Value::Bool(x != y)),
            _ => elsewhere(w, p, m, op, 1),
        },
        (Value::Bool(x), Value::Bool(y)) => match op {
            Opcode::CmpEq => puts(m, 1, 2, Value::Bool(x == y)),
            Opcode::CmpNe => puts(m, 1, 2, Value::Bool(x != y)),
            _ => elsewhere(w, p, m, op, 1),
        },
        _ => elsewhere(w, p, m, op, 1),
    }
}

/// An instruction on the objects and arrays made so far.
pub open spec fn on_heap(w: World, p: Program, m: Machine, op: Opcode) -> Turn {
    let n = m.stack.len();
    let x = word(p.code, m.pc);
    match op {
        Opcode::New => Turn::Runs(
            Machine {
                pc: m.pc + 3,
                stack: m.stack.push(Value::Ref(m.heap.len() as int)),
                heap: m.heap.push(Cell::Object(Map::empty())),
                ..m
            },
        ),
        Opcode::GetField => match (field_named(p.pool, x), from_top(m.stack, 1)) {
            (Some(name), Value::Ref(r)) => if n >= 1 && m.is_object(r) && m.fields(
                r,
            ).dom().contains(name) {
                puts(m, 3, 1, m.fields(r)[name])
            } else {
                elsewhere(w, p, m, op, 3)
            },
            _ => elsewhere(w, p, m, op, 3),
        },
        Opcode::SetField => match (field_named(p.pool, x), from_top(m.stack, 2)) {
            (Some(name), Value::Ref(r)) => if n >= 2 && m.is_object(r) {
                Turn::Runs(
                    m.writes(r, name, from_top(m.stack, 1)).has(m.pc + 3, under(m.stack, 2)),
                )
            } else {
                elsewhere(w, p, m, op, 3)
            },
            _ => elsewhere(w, p, m, op, 3),
        },
        Opcode::ArrayLength => match from_top(m.stack, 1) {
            Value::Ref(r) => if n >= 1 && m.is_array(r) {
                puts(m, 1, 1, Value::Int(m.items(r).len() as int))
            } else {
                elsewhere(w, p, m, op, 1)
            },
            _ => elsewhere(w, p, m, op, 1),
        },
        Opcode::ArrayLoad => match (from_top(m.stack, 2), from_top(m.stack, 1)) {
            (Value::Ref(r), Value::Int(i)) => if n >= 2 && m.is_array(r) && 0 <= i < m.items(
                r,
            ).len() {
                puts(m, 1, 2, m.items(r)[i])
            } else {
                elsewhere(w, p, m, op, 1)
            },
            _ => elsewhere(w, p, m, op, 1),
        },
        Opcode::ArrayStore => match (from_top(m.stack, 3), from_top(m.stack, 2)) {
            (Value::Ref(r), Value::Int(i)) => if n >= 3 && m.is_array(r) && 0 <= i < m.items(
                r,
            ).len() {
                Turn::Runs(
                    Machine {
                        pc: m.pc + 1,
                        stack: under(m.stack, 3),
                        heap: m.heap.update(
                            r,
                            Cell::Array(m.items(r).update(i, from_top(m.stack, 1))),
                        ),
                        ..m
                    },
                )
            } else {
                elsewhere(w, p, m, op, 1)
            },
            _ => elsewhere(w, p, m, op, 1),
        },
        _ => Turn::Stops,
    }
}

/// What the instruction `op` at `m.pc` does.
pub open spec fn performed(w: World, p: Program, m: Machine, op: Opcode) -> Turn {
    let n = m.stack.len();
    let x = word(p.code, m.pc);
    match op {
        Opcode::ConstNull => puts(m, 1, 0, Value::Null),
        Opcode::ConstTrue => puts(m, 1, 0, Value::Bool(true)),
        Opcode::ConstFalse => puts(m, 1, 0, Value::Bool(false)),
        Opcode::ConstIZero => puts(m, 1, 0, Value::Int(0)),
        Opcode::ConstIOne => puts(m, 1, 0, Value::Int(1)),
        Opcode::ConstFZero => puts(m, 1, 0, Value::Float(0)),
        Opcode::ConstFOne => puts(m, 1, 0, Value::Float(0x3ff0_0000_0000_0000)),
        Opcode::BiPush => puts(m, 2, 0, Value::Int(signed_byte(p.code[m.pc + 1]))),
        Opcode::SiPush => puts(m, 3, 0, Value::Int(signed_word(x))),
        Opcode::Ldc => if 1 <= x <= p.pool.len() {
            match p.pool[x - 1] {
                EntryView::Int(v) => puts(m, 3, 0, Value::Int(v as int)),
                EntryView::Float(v) => puts(m, 3, 0, Value::Float(v)),
                EntryView::Utf8(v) => puts(m, 3, 0, Value::Text(v)),
                _ => Turn::Stops,
            }
        } else {
            Turn::Stops
        },
        Opcode::Load => if m.locals.dom().contains(x) {
            puts(m, 3, 0, m.locals[x])
        } else {
            Turn::Stops
        },
        Opcode::Store => if n >= 1 {
            Turn::Runs(m.sets(x, from_top(m.stack, 1)).has(m.pc + 3, under(m.stack, 1)))
        } else {
            Turn::Stops
        },
        Opcode::IInc => match m.locals[x] {
            Value::Int(v) => if m.locals.dom().contains(x) && is_int(
                v + signed_word(word(p.code, m.pc + 2)),
            ) {
                Turn::Runs(
                    m.sets(x, Value::Int(v + signed_word(word(p.code, m.pc + 2)))).goes(m.pc + 5),
                )
            } else {
                elsewhere(w, p, m, op, 5)
            },
            _ => elsewhere(w, p, m, op, 5),
        },
        Opcode::Pop => if n >= 1 {
            Turn::Runs(m.has(m.pc + 1, under(m.stack, 1)))
        } else {
            Turn::Stops
        },
        Opcode::Dup => if n >= 1 {
            puts(m, 1, 0, from_top(m.stack, 1))
        } else {
            Turn::Stops
        },
        Opcode::Swap => if n >= 2 {
            Turn::Runs(
                m.has(
                    m.pc + 1,
                    under(m.stack, 2).push(from_top(m.stack, 1)).push(from_top(m.stack, 2)),
                ),
            )
        } else {
            Turn::Stops
        },
        Opcode::IAdd
        | Opcode::ISub
        | Opcode::IMul
        | Opcode::IDiv
        | Opcode::IMod
        | Opcode::FAdd
        | Opcode::FSub
        | Opcode::FMul
        | Opcode::FDiv
        | Opcode::FMod
        | Opcode::StrConcat
        | Opcode::CmpEq
        | Opcode::CmpNe
        | Opcode::CmpLt
        | Opcode::CmpGt
        | Opcode::CmpLe
        | Opcode::CmpGe
        | Opcode::CmpThreeWay => if n >= 2 {
            on_two(w, p, m, op, from_top(m.stack, 2), from_top(m.stack, 1))
        } else {
            Turn::Stops
        },
        Opcode::INeg => match from_top(m.stack, 1) {
            Value::Int(v) => if n >= 1 && is_int(-v) {
                puts(m, 1, 1, Value::Int(-v))
            } else {
                elsewhere(w, p, m, op, 1)
            },
            _ => elsewhere(w, p, m, op, 1),
        },
        Opcode::B2I => match from_top(m.stack, 1) {
            Value::Byte(v) => if n >= 1 {
                puts(m, 1, 1, Value::Int(v as int))
            } else {
                Turn::Stops
            },
            _ => elsewhere(w, p, m, op, 1),
        },
        Opcode::FNeg | Opcode::I2F | Opcode::F2I | Opcode::I2B => if n >= 1 {
            puts(m, 1, 1, (w.converts)(op, from_top(m.stack, 1)))
        } else {
            Turn::Stops
        },
        Opcode::Not => match from_top(m.stack, 1) {
            Value::Bool(v) => if n >= 1 {
                puts(m, 1, 1, Value::Bool(!v))
            } else {
                Turn::Stops
            },
            _ => Turn::Stops,
        },
        Opcode::IsNull => if n >= 1 {
            puts(m, 1, 1, Value::Bool(from_top(m.stack, 1) is Null))
        } else {
            Turn::Stops
        },
        Opcode::IsNonNull => if n >= 1 {
            puts(m, 1, 1, Value::Bool(from_top(m.stack, 1) !is Null))
        } else {
            Turn::Stops
        },
        Opcode::Goto => Turn::Runs(m.goes(jump_target(p.code, m.pc))),
        Opcode::IfTrue | Opcode::IfFalse => match from_top(m.stack, 1) {
            Value::Bool(v) => if n >= 1 {
                Turn::Runs(
                    m.has(
                        if v == (op is IfTrue) {
                            jump_target(p.code, m.pc)
                        } else {
                            m.pc + 3
                        },
                        under(m.stack, 1),
                    ),
                )
            } else {
                Turn::Stops
            },
            _ => Turn::Stops,
        },
        Opcode::New
        | Opcode::GetField
        | Opcode::SetField
        | Opcode::ArrayLength
        | Opcode::ArrayLoad
        | Opcode::ArrayStore => on_heap(w, p, m, op),
        Opcode::Throw => if n >= 1 {
            raised(w, p, m, from_top(m.stack, 1), m.heap, 0)
        } else {
            Turn::Stops
        },
        Opcode::Return => Turn::Returns(None, m.heap),
        Opcode::ReturnValue => if n >= 1 {
            Turn::Returns(Some(from_top(m.stack, 1)), m.heap)
        } else {
            Turn::Stops
        },
        Opcode::ToString => elsewhere(w, p, m, op, 1),
        Opcode::NewArrayInit => elsewhere(w, p, m, op, 5),
        _ => elsewhere(w, p, m, op, 3),
    }
}

/// One instruction.
#[verifier::opaque]
pub open spec fn step(w: World, p: Program, m: Machine) -> Turn {
    if 0 <= m.pc < p.code.len() {
        match decoded(p.code[m.pc]) {
            Some(op) => performed(w, p, m, op),
            None => Turn::Stops,
        }
    } else {
        Turn::Stops
    }
}

/// Whether the instruction at `pc` is `op`.
pub open spec fn shows(p: Program, pc: int, op: Opcode) -> bool {
    0 <= pc < p.code.len() && p.code[pc] == op.code()
}

pub proof fn shown_steps(w: World, p: Program, m: Machine, op: Opcode)
    requires
        shows(p, m.pc, op),
    ensures
        step(w, p, m) == performed(w, p, m, op),
{
    reveal(step);
    decodes(op);
}

/// `n` instructions.
pub open spec fn run(w: World, p: Program, m: Machine, n: nat) -> Turn
    decreases n,
{
    if n == 0 {
        Turn::Runs(m)
    } else {
        match step(w, p, m) {
            Turn::Runs(m1) => run(w, p, m1, (n - 1) as nat),
            t => t,
        }
    }
}

/// Whether the machine gets from `a` to `b`.
#[verifier::opaque]
pub open spec fn reaches(w: World, p: Program, a: Machine, b: Machine) -> bool {
    exists|n: nat| #[trigger] run(w, p, a, n) == Turn::Runs(b)
}

proof fn run_on(w: World, p: Program, a: Machine, b: Machine, n: nat, k: nat)
    requires
        run(w, p, a, n) == Turn::Runs(b),
    ensures
        run(w, p, a, n + k) == run(w, p, b, k),
    decreases n,
{
    if n > 0 {
        if let Turn::Runs(m1) = step(w, p, a) {
            run_on(w, p, m1, b, (n - 1) as nat, k);
        }
    }
}

pub broadcast proof fn reaches_self(w: World, p: Program, a: Machine)
    ensures
        #[trigger] reaches(w, p, a, a),
{
    reveal(reaches);
    assert(run(w, p, a, 0) == Turn::Runs(a));
}

pub broadcast proof fn reaches_trans(w: World, p: Program, a: Machine, b: Machine, c: Machine)
    requires
        #[trigger] reaches(w, p, a, b),
        #[trigger] reaches(w, p, b, c),
    ensures
        reaches(w, p, a, c),
{
    reveal(reaches);
    let n = choose|n: nat| #[trigger] run(w, p, a, n) == Turn::Runs(b);
    let k = choose|k: nat| #[trigger] run(w, p, b, k) == Turn::Runs(c);
    run_on(w, p, a, b, n, k);
    assert(run(w, p, a, n + k) == Turn::Runs(c));
}

pub proof fn step_reaches(w: World, p: Program, a: Machine, b: Machine)
    requires
        step(w, p, a) == Turn::Runs(b),
    ensures
        reaches(w, p, a, b),
{
    reveal(reaches);
    assert(run(w, p, b, 0) == Turn::Runs(b));
    assert(run(w, p, a, 1) == Turn::Runs(b));
}

pub proof fn runs_reach(w: World, p: Program, a: Machine, n: nat, b: Machine)
    requires
        run(w, p, a, n) == Turn::Runs(b),
    ensures
        reaches(w, p, a, b),
{
    reveal(reaches);
}

/// Whether the machine leaves exactly the value `v` more on the stack when it
/// gets from `a` to `b` at `pc`.
pub open spec fn yields(w: World, p: Program, a: Machine, pc: int, v: Value, b: Machine) -> bool {
    reaches(w, p, a, b) && b.pc == pc && b.stack == a.stack.push(v)
}

} // verus!
