//! What emitting code never undoes.

use crate::bytecode::constant_pool::{
    class_name_of, first_at, interned, with_class, with_type_desc, with_utf8, EntryView,
};
use crate::bytecode::module::{ExceptionTableEntry, LineTableEntry, MethodView, ModuleView};
use crate::codegen::emitter::{aimed_all, fresh, LoopView, State};
use crate::codegen::expr_ty::ExprTyView;
use vstd::prelude::*;

verus! {

/// Whether a line table is in the order of the code, of which it covers no
/// more than there is, with one entry for each change of line.
pub open spec fn lines_in_order(table: Seq<LineTableEntry>, code_len: nat) -> bool {
    &&& forall|i: int, j: int|
        0 <= i <= j < table.len() ==> (#[trigger] table[i]).start_pc <= (
        #[trigger] table[j]).start_pc
    &&& forall|i: int| 0 <= i < table.len() ==> (#[trigger] table[i]).start_pc <= code_len
    &&& forall|i: int, j: int|
        0 <= i < j < table.len() && j == i + 1 ==> (#[trigger] table[i]).line != (
        #[trigger] table[j]).line
    &&& forall|i: int| 0 <= i < table.len() ==> (#[trigger] table[i]).line != 0
}

/// Whether an exception table entry guards a range of the code and sends what
/// it catches to a handler after it.
pub open spec fn guard_fits(e: ExceptionTableEntry, code_len: nat) -> bool {
    e.start_pc <= e.end_pc <= e.handler_pc <= code_len
}

pub open spec fn guards_fit(table: Seq<ExceptionTableEntry>, code_len: nat) -> bool {
    forall|i: int| 0 <= i < table.len() ==> guard_fits(#[trigger] table[i], code_len)
}

/// Whether no constant occurs twice in a pool.
#[verifier::opaque]
pub open spec fn distinct(p: Seq<EntryView>) -> bool {
    forall|i: int, j: int| 0 <= i < j < p.len() ==> #[trigger] p[i] != #[trigger] p[j]
}

/// Whether `q` is the pool `p` with constants added, none of which it had.
pub open spec fn extended(p: Seq<EntryView>, q: Seq<EntryView>) -> bool {
    p.is_prefix_of(q) && (distinct(p) ==> distinct(q))
}

/// Whether a module holds each constant once, and those of its methods whose
/// code the format can address have their tables in order.
pub open spec fn module_in_order(m: ModuleView) -> bool {
    distinct(m.constant_pool) && methods_in_order(m.methods)
}

pub open spec fn method_in_order(m: MethodView) -> bool {
    m.code.len() <= 0xffff ==> lines_in_order(m.line_table, m.code.len()) && guards_fit(
        m.exception_table,
        m.code.len(),
    )
}

pub open spec fn methods_in_order(ms: Seq<MethodView>) -> bool {
    forall|i: int| 0 <= i < ms.len() ==> method_in_order(#[trigger] ms[i])
}

pub open spec fn modules_in_order(ms: Seq<ModuleView>) -> bool {
    forall|i: int| 0 <= i < ms.len() ==> module_in_order(#[trigger] ms[i])
}

/// Whether the tables of a body are in order so far.
pub open spec fn tidy(s: State) -> bool {
    &&& lines_in_order(s.line_table, s.code.len())
    &&& s.line_table.len() > 0 ==> s.line_table.last().line == s.last_line
    &&& guards_fit(s.exception_table, s.code.len())
}

/// Whether `b` can come of emitting code after `a`: the code gets no shorter,
/// what was put into the pool and the tables stays where it is, and the tables
/// stay in order.
#[verifier::opaque]
pub open spec fn grows(a: State, b: State) -> bool {
    &&& a.code.len() <= b.code.len()
    &&& extended(a.cp, b.cp)
    &&& a.max_locals <= b.max_locals
    &&& a.max_depth <= b.max_depth
    &&& a.exception_table.is_prefix_of(b.exception_table)
    &&& a.line_table.is_prefix_of(b.line_table)
    &&& a.closures.is_prefix_of(b.closures)
    &&& tidy(a) && b.code.len() <= 0xffff ==> tidy(b)
    &&& modules_in_order(a.closures) ==> modules_in_order(b.closures)
}

pub broadcast proof fn grows_self(a: State)
    ensures
        #[trigger] grows(a, a),
{
    reveal(grows);
}

pub broadcast proof fn grows_trans(a: State, b: State, c: State)
    requires
        #[trigger] grows(a, b),
        #[trigger] grows(b, c),
    ensures
        grows(a, c),
{
    reveal(grows);
}

pub proof fn grows_longer(a: State, b: State)
    requires
        grows(a, b),
    ensures
        a.code.len() <= b.code.len(),
{
    reveal(grows);
}

pub broadcast proof fn track_grows(a: State, delta: int)
    ensures
        grows(a, #[trigger] a.track(delta)),
{
    reveal(grows);
    reveal(State::track);
}

pub broadcast proof fn bytes_grows(a: State, b: Seq<u8>)
    ensures
        grows(a, #[trigger] a.bytes(b)),
{
    reveal(grows);
    reveal(State::bytes);
}

pub broadcast proof fn aim_grows(a: State, pc: int, target: int)
    ensures
        grows(a, #[trigger] a.aim(pc, target)),
{
    reveal(grows);
    reveal(State::aim);
}

proof fn aimed_all_len(code: Seq<u8>, pcs: Seq<int>, target: int, i: int)
    ensures
        aimed_all(code, pcs, target, i).len() == code.len(),
    decreases i,
{
    if i > 0 {
        aimed_all_len(code, pcs, target, i - 1);
    }
}

pub broadcast proof fn aim_all_grows(a: State, pcs: Seq<int>, target: int)
    ensures
        grows(a, #[trigger] a.aim_all(pcs, target)),
{
    reveal(grows);
    reveal(State::aim_all);
    aimed_all_len(a.code, pcs, target, pcs.len() as int);
}

pub broadcast proof fn line_grows(a: State, line: u32)
    ensures
        grows(a, #[trigger] a.line(line)),
{
    reveal(grows);
    reveal(State::line);
    let b = a.line(line);
    if tidy(a) && b.code.len() <= 0xffff && line != 0 && line != a.last_line {
        let n = a.line_table.len();
        assert(b.line_table[n as int].start_pc == a.code.len());
        assert(b.line_table.last() == b.line_table[n as int]);
        assert forall|i: int, j: int| 0 <= i <= j < b.line_table.len() implies (
        #[trigger] b.line_table[i]).start_pc <= (#[trigger] b.line_table[j]).start_pc by {
            if j < n {
                assert(b.line_table[i] == a.line_table[i]);
                assert(b.line_table[j] == a.line_table[j]);
            } else if i < n {
                assert(b.line_table[i] == a.line_table[i]);
            }
        }
        assert forall|i: int, j: int|
            0 <= i < j < b.line_table.len() && j == i + 1 implies (
        #[trigger] b.line_table[i]).line != (#[trigger] b.line_table[j]).line by {
            if j < n {
                assert(b.line_table[i] == a.line_table[i]);
                assert(b.line_table[j] == a.line_table[j]);
            } else {
                assert(b.line_table[i] == a.line_table.last());
            }
        }
    }
}

pub broadcast proof fn push_scope_grows(a: State)
    ensures
        grows(a, #[trigger] a.push_scope()),
{
    reveal(grows);
    reveal(State::push_scope);
}

pub broadcast proof fn pop_scope_grows(a: State)
    ensures
        grows(a, #[trigger] a.pop_scope()),
{
    reveal(grows);
    reveal(State::pop_scope);
}

pub broadcast proof fn declare_grows(
    a: State,
    name: Seq<char>,
    ty: ExprTyView,
    boxed: Option<ExprTyView>,
)
    ensures
        grows(a, #[trigger] a.declare(name, ty, boxed)),
{
    reveal(grows);
    reveal(State::declare);
}

pub broadcast proof fn retype_grows(a: State, name: Seq<char>, ty: ExprTyView)
    ensures
        grows(a, #[trigger] a.retype(name, ty)),
{
    reveal(grows);
    reveal(State::retype);
}

pub broadcast proof fn interned_grows(p: Seq<EntryView>, e: EntryView)
    ensures
        extended(p, (#[trigger] interned(p, e)).0),
{
    let q = interned(p, e).0;
    assert(p =~= q.subrange(0, p.len() as int));
    first_at_is_first(p, e, 0);
    reveal(distinct);
}

/// No entry before the first one that equals `e` does.
proof fn first_at_is_first(p: Seq<EntryView>, e: EntryView, i: int)
    requires
        0 <= i,
    ensures
        forall|j: int| i <= j < first_at(p, e, i) ==> #[trigger] p[j] != e,
    decreases p.len() - i,
{
    if i < p.len() && p[i] != e {
        first_at_is_first(p, e, i + 1);
    }
}

/// Adding a constant, with those that it refers to, keeps all others.
pub proof fn pool_grows(p: Seq<EntryView>, name: Seq<char>)
    ensures
        extended(p, with_utf8(p, name).0),
        extended(p, with_class(p, name).0),
        extended(p, with_type_desc(p, name).0),
{
    let (q, i) = with_utf8(p, name);
    interned_grows(p, EntryView::Utf8(name));
    interned_grows(q, EntryView::Class { name_index: i });
    interned_grows(q, EntryView::TypeDesc { desc_index: i });
    extended_trans(p, q, with_class(p, name).0);
    extended_trans(p, q, with_type_desc(p, name).0);
}

pub proof fn extended_trans(a: Seq<EntryView>, b: Seq<EntryView>, c: Seq<EntryView>)
    requires
        extended(a, b),
        extended(b, c),
    ensures
        extended(a, c),
{
    assert(a =~= c.subrange(0, a.len() as int)) by {
        assert forall|i: int| 0 <= i < a.len() implies a[i] == c[i] by {
            assert(a[i] == b.subrange(0, a.len() as int)[i]);
            assert(b[i] == c.subrange(0, b.len() as int)[i]);
        }
    }
}

pub proof fn empty_distinct()
    ensures
        distinct(Seq::<EntryView>::empty()),
{
    reveal(distinct);
}

/// A class that a pool names keeps its name while the pool grows.
pub proof fn name_stays(p: Seq<EntryView>, q: Seq<EntryView>, index: u16, name: Seq<char>)
    requires
        extended(p, q),
        class_name_of(p, index) == Some(name),
    ensures
        class_name_of(q, index) == Some(name),
{
    assert forall|i: int| 0 <= i < p.len() implies p[i] == q[i] by {
        assert(p[i] == q.subrange(0, p.len() as int)[i]);
    }
}

pub proof fn extended_self(a: Seq<EntryView>)
    ensures
        extended(a, a),
{
    assert(a =~= a.subrange(0, a.len() as int));
}

pub broadcast proof fn with_pool_grows(a: State, cp: Seq<EntryView>)
    requires
        extended(a.cp, cp),
    ensures
        grows(a, #[trigger] a.with_pool(cp)),
{
    reveal(grows);
    reveal(State::with_pool);
}

pub broadcast proof fn enter_loop_grows(a: State, l: LoopView)
    ensures
        grows(a, #[trigger] a.enter_loop(l)),
{
    reveal(grows);
    reveal(State::enter_loop);
}

pub broadcast proof fn leave_loop_grows(a: State)
    ensures
        grows(a, #[trigger] a.leave_loop()),
{
    reveal(grows);
    reveal(State::leave_loop);
}

pub broadcast proof fn add_break_grows(a: State, k: int, pc: int)
    ensures
        grows(a, #[trigger] a.add_break(k, pc)),
{
    reveal(grows);
    reveal(State::add_break);
}

pub broadcast proof fn add_continue_grows(a: State, k: int, pc: int)
    ensures
        grows(a, #[trigger] a.add_continue(k, pc)),
{
    reveal(grows);
    reveal(State::add_continue);
}

pub broadcast proof fn protect_grows(a: State, e: ExceptionTableEntry)
    requires
        a.code.len() <= 0xffff ==> guard_fits(e, a.code.len()),
    ensures
        grows(a, #[trigger] a.protect(e)),
{
    reveal(grows);
    reveal(State::protect);
}

pub broadcast proof fn infer_return_grows(a: State, ty: ExprTyView)
    ensures
        grows(a, #[trigger] a.infer_return(ty)),
{
    reveal(grows);
    reveal(State::infer_return);
}

pub broadcast proof fn count_closure_grows(a: State)
    ensures
        grows(a, #[trigger] a.count_closure()),
{
    reveal(grows);
    reveal(State::count_closure);
}

pub broadcast proof fn add_closures_grows(a: State, ms: Seq<ModuleView>)
    requires
        modules_in_order(ms),
    ensures
        grows(a, #[trigger] a.add_closures(ms)),
{
    reveal(grows);
    reveal(State::add_closures);
    let b = a.add_closures(ms);
    if modules_in_order(a.closures) {
        assert forall|i: int| 0 <= i < b.closures.len() implies module_in_order(
            #[trigger] b.closures[i],
        ) by {
            if i < a.closures.len() {
                assert(b.closures[i] == a.closures[i]);
            } else {
                assert(b.closures[i] == ms[i - a.closures.len()]);
            }
        }
    }
}

/// What has grown from nothing has its tables in order.
pub proof fn grown_in_order(cp: Seq<EntryView>, s: State)
    requires
        grows(fresh(cp), s),
    ensures
        extended(cp, s.cp),
        s.code.len() <= 0xffff ==> lines_in_order(s.line_table, s.code.len()) && guards_fit(
            s.exception_table,
            s.code.len(),
        ),
        modules_in_order(s.closures),
{
    reveal(grows);
    assert(tidy(fresh(cp)));
    assert(modules_in_order(fresh(cp).closures));
}

/// So have the classes of a closure, whose one method is compiled to `s`, and
/// of the closures inside it.
pub proof fn closures_in_order(cp: Seq<EntryView>, s: State, m: ModuleView, inner: Seq<ModuleView>)
    requires
        distinct(cp),
        grows(fresh(cp), s),
        extended(s.cp, m.constant_pool),
        m.methods.len() == 1,
        m.methods[0].code == s.code,
        m.methods[0].line_table == s.line_table,
        m.methods[0].exception_table == s.exception_table,
        inner == s.closures,
    ensures
        modules_in_order(seq![m] + inner),
{
    grown_in_order(cp, s);
    let ms = seq![m] + inner;
    assert(module_in_order(m));
    assert forall|i: int| 0 <= i < ms.len() implies module_in_order(#[trigger] ms[i]) by {
        if i > 0 {
            assert(ms[i] == inner[i - 1]);
        }
    }
}

/// Modules after modules.
pub proof fn modules_in_order_join(a: Seq<ModuleView>, b: Seq<ModuleView>)
    requires
        modules_in_order(a),
        modules_in_order(b),
    ensures
        modules_in_order(a + b),
{
    assert forall|i: int| 0 <= i < (a + b).len() implies module_in_order(
        #[trigger] (a + b)[i],
    ) by {
        if i < a.len() {
            assert((a + b)[i] == a[i]);
        } else {
            assert((a + b)[i] == b[i - a.len()]);
        }
    }
}

/// What each step does.
pub broadcast group group_steps {
    track_grows,
    bytes_grows,
    aim_grows,
    aim_all_grows,
    line_grows,
    push_scope_grows,
    pop_scope_grows,
    declare_grows,
    retype_grows,
    interned_grows,
    with_pool_grows,
    enter_loop_grows,
    leave_loop_grows,
    add_break_grows,
    add_continue_grows,
    protect_grows,
    infer_return_grows,
    count_closure_grows,
    add_closures_grows,
}

/// What steps after steps do.
pub broadcast group group_growth {
    grows_self,
    grows_trans,
}

} // verus!
