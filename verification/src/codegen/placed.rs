//! A program in which the code of a construct stands, and what the machine
//! finds there.

use crate::bytecode::opcode::Opcode;
use crate::bytecode::reader::be16;
use crate::codegen::emitter::{aimed, aimed_all, offset, LoopView, State};
use crate::codegen::frame::{
    group_frame, jumps_added, keeps, keeps_longer, keeps_trans, plain, plain_keeps, plain_self,
};
use crate::codegen::growth::{extended, extended_trans};
use crate::codegen::laws::{aimed_jump_arrives, aiming_changes_operand_only, jump_target};
use crate::codegen::machine::{shows, word, Program};
use vstd::prelude::*;

verus! {

/// Whether `i` lies in the operand of one of the jumps.
pub open spec fn in_operand(jumps: Seq<int>, i: int) -> bool {
    exists|j: int| 0 <= j < jumps.len() && (#[trigger] jumps[j]) < i <= jumps[j] + 2
}

/// Whether `i` lies in the operand of a jump out of a loop, or to its next
/// round, that is still to be aimed.
pub open spec fn still_open(loops: Seq<LoopView>, i: int) -> bool {
    exists|k: int|
        0 <= k < loops.len() && (in_operand((#[trigger] loops[k]).break_patches, i) || in_operand(
            loops[k].continue_patches,
            i,
        ))
}

/// Whether all jumps that are still to be aimed lie in the code so far.
#[verifier::opaque]
pub open spec fn settled(s: State) -> bool {
    forall|i: int| s.pc() <= i ==> !#[trigger] still_open(s.loops, i)
}

proof fn operand_since(a: Seq<int>, b: Seq<int>, lo: int, hi: int, i: int)
    requires
        jumps_added(a, b, lo, hi),
        in_operand(b, i),
    ensures
        in_operand(a, i) || lo < i < hi,
{
    let j = choose|j: int| 0 <= j < b.len() && (#[trigger] b[j]) < i <= b[j] + 2;
    if j < a.len() {
        assert(a[j] == b.subrange(0, a.len() as int)[j]);
    }
}

/// A jump that is open after a construct was open before it, or lies in its
/// code.
pub proof fn open_since(a: State, b: State, i: int)
    requires
        keeps(a, b),
        still_open(b.loops, i),
    ensures
        still_open(a.loops, i) || a.pc() < i < b.pc(),
{
    reveal(keeps);
    let k = choose|k: int|
        0 <= k < b.loops.len() && (in_operand((#[trigger] b.loops[k]).break_patches, i)
            || in_operand(b.loops[k].continue_patches, i));
    let (x, y) = (a.loops[k], b.loops[k]);
    if in_operand(y.break_patches, i) {
        operand_since(x.break_patches, y.break_patches, a.pc(), b.pc(), i);
    } else {
        operand_since(x.continue_patches, y.continue_patches, a.pc(), b.pc(), i);
    }
}

pub proof fn settled_kept(a: State, b: State)
    requires
        keeps(a, b),
        settled(a),
    ensures
        settled(b),
{
    reveal(settled);
    broadcast use group_frame;

    assert forall|i: int| b.pc() <= i implies !#[trigger] still_open(b.loops, i) by {
        if still_open(b.loops, i) {
            open_since(a, b, i);
        }
    }
}

/// Whether the program holds the code of `b` from that of `a` on, but for the
/// places in `but` and for jumps that are still to be aimed.
#[verifier::opaque]
pub open spec fn fits(p: Program, a: State, b: State, but: Set<int>) -> bool {
    &&& a.pc() <= b.pc() <= p.code.len() <= 0x7fff
    &&& p.pool.len() <= 0xffff
    &&& extended(b.cp, p.pool)
    &&& forall|i: int|
        a.pc() <= i < b.pc() && !still_open(b.loops, i) && !but.contains(i)
            ==> #[trigger] p.code[i] == b.code[i]
}

/// Whether the program holds the code that was compiled between `a` and `b`,
/// at its place, with its constants; the jumps out of the loops around may
/// already be aimed.
pub open spec fn laid(p: Program, a: State, b: State) -> bool {
    fits(p, a, b, Set::empty())
}

/// The code of a part, where the rest was changed elsewhere only.
pub proof fn part_fits(
    p: Program,
    a: State,
    b: State,
    c: State,
    d: State,
    but: Set<int>,
)
    requires
        fits(p, a, d, but),
        keeps(a, b),
        keeps(b, c),
        keeps(c, d),
    ensures
        fits(p, b, c, but),
{
    reveal(fits);
    broadcast use group_frame;

    assert(extended(c.cp, p.pool)) by {
        reveal(keeps);
        extended_trans(c.cp, d.cp, p.pool);
    }
    assert forall|i: int|
        b.pc() <= i < c.pc() && !still_open(c.loops, i) && !but.contains(i) implies #[trigger] p.code[i]
        == c.code[i] by {
        if still_open(d.loops, i) {
            open_since(c, d, i);
        }
        assert(c.code[i] == d.code[i]) by {
            reveal(keeps);
            assert(c.code == d.code.subrange(0, c.code.len() as int));
        }
        assert(p.code[i] == d.code[i]);
    }
}

/// Whether none of the places in `but` lies in the code between `a` and `b`.
pub open spec fn apart(a: State, b: State, but: Set<int>) -> bool {
    forall|i: int| a.pc() <= i < b.pc() ==> !but.contains(i)
}

pub proof fn part_laid(p: Program, a: State, b: State, c: State, d: State, but: Set<int>)
    requires
        fits(p, a, d, but),
        keeps(a, b),
        keeps(b, c),
        keeps(c, d),
        apart(b, c, but),
    ensures
        laid(p, b, c),
{
    part_fits(p, a, b, c, d, but);
    reveal(fits);
}

/// The places of the operand of the jump at `pc`.
pub open spec fn operand_at(pc: int) -> Set<int> {
    set![pc + 1, pc + 2]
}

/// A jump that was aimed leads where it was aimed; the rest of the code is as
/// before.
pub proof fn aim_fits(p: Program, a: State, b: State, pc: int, target: int, but: Set<int>)
    requires
        fits(p, a, b.aim(pc, target), but),
        a.pc() <= pc,
        pc + 3 <= b.pc(),
        0 <= target <= b.pc(),
    ensures
        fits(p, a, b, but.union(operand_at(pc))),
        !still_open(b.loops, pc + 1) && !still_open(b.loops, pc + 2) && !but.contains(pc + 1)
            && !but.contains(pc + 2) ==> jump_target(p.code, pc) == target,
{
    reveal(fits);
    reveal(State::aim);
    let d = b.aim(pc, target);
    assert forall|i: int|
        a.pc() <= i < b.pc() && !still_open(b.loops, i) && !but.union(
            operand_at(pc),
        ).contains(i) implies #[trigger] p.code[i] == b.code[i] by {
        assert(i != pc + 1 && i != pc + 2);
        aiming_changes_operand_only(b.code, pc, target, i);
        assert(p.code[i] == d.code[i]);
    }
    if !still_open(b.loops, pc + 1) && !still_open(b.loops, pc + 2) && !but.contains(pc + 1)
        && !but.contains(pc + 2) {
        aimed_jump_arrives(b.code, pc, target);
        assert(p.code[pc + 1] == d.code[pc + 1]);
        assert(p.code[pc + 2] == d.code[pc + 2]);
    }
}

/// Code of one instruction, `len` bytes long, that stands in the program.
proof fn emitted(p: Program, a: State, x: State, y: State, z: State, but: Set<int>, i: int)
    requires
        settled(a),
        fits(p, a, z, but),
        keeps(a, x),
        plain(x, y),
        keeps(y, z),
        x.pc() <= i < y.pc(),
        !but.contains(i),
    ensures
        i < p.code.len(),
        p.code[i] == y.code[i],
{
    broadcast use group_frame;

    settled_kept(a, x);
    reveal(settled);
    assert(!still_open(y.loops, i));
    if still_open(z.loops, i) {
        open_since(y, z, i);
    }
    reveal(fits);
    assert(p.code[i] == z.code[i]);
    assert(y.code[i] == z.code[i]) by {
        reveal(keeps);
        assert(y.code == z.code.subrange(0, y.code.len() as int));
    }
}

/// What an instruction without an operand adds to the code.
pub proof fn op_bytes(s: State, op: Opcode, delta: int)
    ensures
        s.op(op, delta).code == s.code.push(op.code()),
        s.op(op, delta).pc() == s.pc() + 1,
{
    reveal(State::bytes);
    reveal(State::track);
}

pub proof fn op_shows(
    p: Program,
    a: State,
    x: State,
    op: Opcode,
    delta: int,
    z: State,
    but: Set<int>,
)
    requires
        settled(a),
        fits(p, a, z, but),
        keeps(a, x),
        keeps(x.op(op, delta), z),
        !but.contains(x.pc()),
    ensures
        shows(p, x.pc(), op),
        x.op(op, delta).pc() == x.pc() + 1,
{
    broadcast use group_frame;

    op_bytes(x, op, delta);
    emitted(p, a, x, x.op(op, delta), z, but, x.pc());
}

pub proof fn u16_bytes(s: State, op: Opcode, operand: u16, delta: int)
    ensures
        s.op_u16(op, operand, delta).code == s.code.push(op.code()) + be16(operand),
        s.op_u16(op, operand, delta).pc() == s.pc() + 3,
{
    reveal(State::bytes);
    reveal(State::track);
    assert((s.code + seq![op.code()]) =~= s.code.push(op.code()));
}

proof fn be16_reads(x: u16)
    ensures
        be16(x).len() == 2,
        be16(x)[0] * 256 + be16(x)[1] == x,
{
}

pub proof fn u16_shows(
    p: Program,
    a: State,
    x: State,
    op: Opcode,
    operand: u16,
    delta: int,
    z: State,
    but: Set<int>,
)
    requires
        settled(a),
        fits(p, a, z, but),
        keeps(a, x),
        keeps(x.op_u16(op, operand, delta), z),
        !but.contains(x.pc()),
        !but.contains(x.pc() + 1),
        !but.contains(x.pc() + 2),
    ensures
        shows(p, x.pc(), op),
        word(p.code, x.pc()) == operand,
        x.op_u16(op, operand, delta).pc() == x.pc() + 3,
{
    broadcast use group_frame;

    u16_bytes(x, op, operand, delta);
    be16_reads(operand);
    let y = x.op_u16(op, operand, delta);
    emitted(p, a, x, y, z, but, x.pc());
    emitted(p, a, x, y, z, but, x.pc() + 1);
    emitted(p, a, x, y, z, but, x.pc() + 2);
}

pub proof fn branch_bytes(s: State, op: Opcode, delta: int)
    ensures
        s.branch(op, delta).code == s.code.push(op.code()) + be16(0),
        s.branch(op, delta).pc() == s.pc() + 3,
{
    reveal(State::bytes);
    reveal(State::track);
    assert((s.code + seq![op.code()]) =~= s.code.push(op.code()));
}

/// A jump still to be aimed.
pub proof fn branch_shows(
    p: Program,
    a: State,
    x: State,
    op: Opcode,
    delta: int,
    z: State,
    but: Set<int>,
)
    requires
        settled(a),
        fits(p, a, z, but),
        keeps(a, x),
        keeps(x.branch(op, delta), z),
        !but.contains(x.pc()),
    ensures
        shows(p, x.pc(), op),
        x.branch(op, delta).pc() == x.pc() + 3,
        !still_open(z.loops, x.pc() + 1),
        !still_open(z.loops, x.pc() + 2),
{
    broadcast use group_frame;

    branch_bytes(x, op, delta);
    let y = x.branch(op, delta);
    emitted(p, a, x, y, z, but, x.pc());
    settled_kept(a, x);
    reveal(settled);
    assert(!still_open(x.loops, x.pc() + 1));
    assert(!still_open(x.loops, x.pc() + 2));
    if still_open(z.loops, x.pc() + 1) {
        open_since(y, z, x.pc() + 1);
    }
    if still_open(z.loops, x.pc() + 2) {
        open_since(y, z, x.pc() + 2);
    }
}

/// A jump back.
pub proof fn goto_shows(p: Program, a: State, x: State, target: int, z: State, but: Set<int>)
    requires
        settled(a),
        fits(p, a, z, but),
        keeps(a, x),
        keeps(x.goto_to(target), z),
        0 <= target <= x.pc(),
        !but.contains(x.pc()),
        !but.contains(x.pc() + 1),
        !but.contains(x.pc() + 2),
    ensures
        shows(p, x.pc(), Opcode::Goto),
        jump_target(p.code, x.pc()) == target,
        x.goto_to(target).pc() == x.pc() + 3,
{
    broadcast use group_frame;

    let y = x.goto_to(target);
    reveal(State::bytes);
    reveal(State::track);
    be16_reads(offset(target, x.pc()));
    emitted(p, a, x, y, z, but, x.pc());
    emitted(p, a, x, y, z, but, x.pc() + 1);
    emitted(p, a, x, y, z, but, x.pc() + 2);
    reveal(fits);
    let code = x.code + seq![Opcode::Goto.code(), 0u8, 0u8];
    aimed_jump_arrives(code, x.pc(), target);
    assert(aimed(code, x.pc(), target)[x.pc() + 1] == y.code[x.pc() + 1]);
    assert(aimed(code, x.pc(), target)[x.pc() + 2] == y.code[x.pc() + 2]);
}

/// An instruction with an operand of one byte.
pub proof fn i8_shows(p: Program, s: State, op: Opcode, operand: i8, delta: int)
    requires
        settled(s),
        laid(p, s, s.op_i8(op, operand, delta)),
    ensures
        shows(p, s.pc(), op),
        s.pc() + 1 < p.code.len(),
        p.code[s.pc() + 1] == operand as u8,
        s.op_i8(op, operand, delta).pc() == s.pc() + 2,
{
    broadcast use group_frame;

    let y = s.op_i8(op, operand, delta);
    reveal(State::bytes);
    reveal(State::track);
    assert(plain(s, s) && plain(y, y) && plain(s, y));
    emitted(p, s, s, y, y, Set::empty(), s.pc());
    emitted(p, s, s, y, y, Set::empty(), s.pc() + 1);
}

/// Counting a local slot.
pub proof fn iinc_shows(
    p: Program,
    a: State,
    x: State,
    local: u16,
    delta: i16,
    z: State,
    but: Set<int>,
)
    requires
        settled(a),
        fits(p, a, z, but),
        keeps(a, x),
        keeps(x.op_iinc(local, delta), z),
        forall|i: int| x.pc() <= i < x.pc() + 5 ==> !but.contains(i),
    ensures
        shows(p, x.pc(), Opcode::IInc),
        word(p.code, x.pc()) == local,
        word(p.code, x.pc() + 2) == delta as u16,
        x.op_iinc(local, delta).pc() == x.pc() + 5,
{
    broadcast use group_frame;

    let y = x.op_iinc(local, delta);
    reveal(State::bytes);
    be16_reads(local);
    be16_reads(delta as u16);
    emitted(p, a, x, y, z, but, x.pc());
    emitted(p, a, x, y, z, but, x.pc() + 1);
    emitted(p, a, x, y, z, but, x.pc() + 2);
    emitted(p, a, x, y, z, but, x.pc() + 3);
    emitted(p, a, x, y, z, but, x.pc() + 4);
}

/// Whether each of the states was compiled on from the one before it.
#[verifier::opaque]
pub open spec fn road(q: Seq<State>) -> bool {
    forall|i: int| 0 < i < q.len() ==> keeps(q[i - 1], #[trigger] q[i])
}

proof fn road_between(q: Seq<State>, i: int, j: int)
    requires
        road(q),
        0 <= i <= j < q.len(),
    ensures
        keeps(q[i], q[j]),
    decreases j - i,
{
    if i == j {
        plain_self(q[i]);
        plain_keeps(q[i], q[i]);
    } else {
        road_between(q, i, j - 1);
        reveal(road);
        keeps_trans(q[i], q[j - 1], q[j]);
    }
}

/// Each state of a road was compiled on from every one before it.
pub proof fn road_keeps(q: Seq<State>)
    requires
        road(q),
    ensures
        forall|i: int, j: int|
            0 <= i <= j < q.len() ==> keeps(#[trigger] q[i], #[trigger] q[j]) && q[i].pc()
                <= q[j].pc(),
{
    assert forall|i: int, j: int| 0 <= i <= j < q.len() implies keeps(
        #[trigger] q[i],
        #[trigger] q[j],
    ) && q[i].pc() <= q[j].pc() by {
        road_between(q, i, j);
        keeps_longer(q[i], q[j]);
    }
}

pub proof fn op_kept(x: State, op: Opcode, delta: int)
    ensures
        keeps(x, x.op(op, delta)),
        x.op(op, delta).pc() == x.pc() + 1,
{
    broadcast use group_frame;

    op_bytes(x, op, delta);
    assert(plain(x, x.op(op, delta)));
}

pub proof fn u16_kept(x: State, op: Opcode, operand: u16, delta: int)
    ensures
        keeps(x, x.op_u16(op, operand, delta)),
        x.op_u16(op, operand, delta).pc() == x.pc() + 3,
{
    broadcast use group_frame;

    u16_bytes(x, op, operand, delta);
    assert(plain(x, x.op_u16(op, operand, delta)));
}

pub proof fn branch_kept(x: State, op: Opcode, delta: int)
    ensures
        keeps(x, x.branch(op, delta)),
        x.branch(op, delta).pc() == x.pc() + 3,
{
    broadcast use group_frame;

    branch_bytes(x, op, delta);
    assert(plain(x, x.branch(op, delta)));
}

/// What a construct that is one expression leaves.
pub proof fn plain_kept(x: State, y: State)
    requires
        plain(x, y),
    ensures
        keeps(x, y),
        x.pc() <= y.pc(),
{
    plain_keeps(x, y);
}

/// The places of the operands of the jumps.
pub open spec fn operands(jumps: Seq<int>) -> Set<int> {
    Set::new(|i: int| in_operand(jumps, i))
}

proof fn aimed_all_elsewhere(code: Seq<u8>, jumps: Seq<int>, target: int, n: int, i: int)
    requires
        0 <= n <= jumps.len(),
        0 <= i < code.len(),
        !in_operand(jumps, i),
    ensures
        aimed_all(code, jumps, target, n).len() == code.len(),
        aimed_all(code, jumps, target, n)[i] == code[i],
    decreases n,
{
    if n > 0 {
        aimed_all_elsewhere(code, jumps, target, n - 1, i);
        let before = aimed_all(code, jumps, target, n - 1);
        assert(!(jumps[n - 1] < i <= jumps[n - 1] + 2));
        aiming_changes_operand_only(before, jumps[n - 1], target, i);
    }
}

/// Aiming many jumps leaves the rest of the code as before.
pub proof fn aim_all_fits(p: Program, a: State, b: State, jumps: Seq<int>, target: int, but: Set<int>)
    requires
        fits(p, a, b.aim_all(jumps, target), but),
        a.pc() <= b.pc(),
    ensures
        fits(p, a, b, but.union(operands(jumps))),
        b.aim_all(jumps, target).pc() == b.pc(),
        b.aim_all(jumps, target).loops == b.loops,
{
    reveal(fits);
    reveal(State::aim_all);
    let d = b.aim_all(jumps, target);
    aim_all_same(b, jumps, target);
    assert forall|i: int|
        a.pc() <= i < b.pc() && !still_open(b.loops, i) && !but.union(
            operands(jumps),
        ).contains(i) implies #[trigger] p.code[i] == b.code[i] by {
        assert(!operands(jumps).contains(i));
        aimed_all_elsewhere(b.code, jumps, target, jumps.len() as int, i);
        assert(p.code[i] == d.code[i]);
    }
}

/// Aiming does not change how much code there is.
pub proof fn aim_all_same(b: State, jumps: Seq<int>, target: int)
    ensures
        b.aim_all(jumps, target).pc() == b.pc(),
        b.aim_all(jumps, target).loops == b.loops,
        b.aim_all(jumps, target).cp == b.cp,
{
    reveal(State::aim_all);
    aimed_all_length(b.code, jumps, target, jumps.len() as int);
}

pub proof fn aimed_all_length(code: Seq<u8>, jumps: Seq<int>, target: int, n: int)
    ensures
        aimed_all(code, jumps, target, n).len() == code.len(),
    decreases n,
{
    if n > 0 {
        aimed_all_length(code, jumps, target, n - 1);
    }
}

/// Code that was compiled as nothing but the state around it changed.
pub proof fn same_code_fits(p: Program, a: State, b: State, c: State, but: Set<int>)
    requires
        fits(p, a, b, but),
        b.code == c.code,
        b.cp == c.cp,
        b.loops == c.loops,
    ensures
        fits(p, a, c, but),
{
    reveal(fits);
}

/// The body of a loop, all of whose jumps were aimed: the program holds it.
pub proof fn body_laid(p: Program, a: State, u: State, v: State, but: Set<int>)
    requires
        fits(p, a, v.leave_loop(), but),
        a.pc() <= u.pc() <= v.pc(),
        v.loops.len() > 0,
        forall|i: int|
            u.pc() <= i < v.pc() && but.contains(i) ==> in_operand(
                v.this_loop().break_patches,
                i,
            ) || in_operand(v.this_loop().continue_patches, i),
    ensures
        laid(p, u, v),
{
    reveal(fits);
    reveal(State::leave_loop);
    let z = v.leave_loop();
    assert forall|i: int|
        u.pc() <= i < v.pc() && !still_open(v.loops, i) implies #[trigger] p.code[i] == v.code[i] by {
        let n = v.loops.len() - 1;
        assert(v.loops[n] == v.this_loop());
        assert(!but.contains(i));
        if still_open(z.loops, i) {
            let k = choose|k: int|
                0 <= k < z.loops.len() && (in_operand((#[trigger] z.loops[k]).break_patches, i)
                    || in_operand(z.loops[k].continue_patches, i));
            assert(z.loops[k] == v.loops[k]);
        }
        assert(p.code[i] == z.code[i]);
    }
}

} // verus!
