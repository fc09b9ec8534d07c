//! The state of the code generator in one method body, and what it emits.

use crate::ast::{type_views, Expr, Stmt, Type, TypeView};
use crate::bytecode::constant_pool::{
    interned, with_class, with_field_ref, with_method_ref, with_type_desc, with_utf8, ConstantPool,
    EntryView,
};
use crate::bytecode::module::{ExceptionTableEntry, LineTableEntry, Module, ModuleView};
use crate::bytecode::opcode::Opcode;
use crate::bytecode::reader::{be16, put_u16};
use crate::class_table::{opt_exprs, ClassTable, Classes};
use crate::codegen::nesting::{group_nested_steps, group_nesting, nests};
use crate::codegen::expr_ty::{expr_ty_views, ExprTy, ExprTyView};
use crate::codegen::growth::{
    group_growth, group_steps, grows, guard_fits, interned_grows, modules_in_order, pool_grows,
    with_pool_grows,
};
use crate::names::{bound_to, opt_view, NameMap, NameSet};
use crate::native_generics::{NativeClasses, Natives};
use crate::probe::{after, Site, SiteView, Typings, TypingsView};
use crate::text::{cat2, decimal, decimal_text, owned, texts};
use vstd::prelude::*;

verus! {

/// A static method of the class being compiled.
#[derive(Debug)]
pub struct MethodSig<'a> {
    pub params: Vec<Type>,
    pub param_types: Vec<ExprTy>,
    /// Parallel to `params`, like the two lists after it.
    pub param_names: Vec<String>,
    pub defaults: Vec<Option<&'a Expr>>,
    pub is_ref: Vec<bool>,
    pub required_count: usize,
    pub return_ty: ExprTy,
    pub method_ref_index: u16,
}

pub struct MethodSigView {
    pub params: Seq<TypeView>,
    pub param_types: Seq<ExprTyView>,
    pub param_names: Seq<Seq<char>>,
    pub defaults: Seq<Option<Expr>>,
    pub is_ref: Seq<bool>,
    pub required_count: nat,
    pub return_ty: ExprTyView,
    pub method_ref_index: u16,
}

impl<'a> View for MethodSig<'a> {
    type V = MethodSigView;

    open spec fn view(&self) -> MethodSigView {
        MethodSigView {
            params: type_views(self.params@),
            param_types: expr_ty_views(self.param_types@),
            param_names: texts(self.param_names@),
            defaults: opt_exprs(self.defaults@),
            is_ref: self.is_ref@,
            required_count: self.required_count as nat,
            return_ty: self.return_ty@,
            method_ref_index: self.method_ref_index,
        }
    }
}

/// The overloads of one name, in declaration order.
#[derive(Debug)]
pub struct Overloads<'a> {
    pub sigs: Vec<MethodSig<'a>>,
}

pub open spec fn sig_views(v: Seq<MethodSig>) -> Seq<MethodSigView> {
    v.map_values(|s: MethodSig| s@)
}

impl<'a> View for Overloads<'a> {
    type V = Seq<MethodSigView>;

    open spec fn view(&self) -> Seq<MethodSigView> {
        sig_views(self.sigs@)
    }
}

/// A variable that a closure captured: a field of its own, which holds the
/// value or, where `boxed`, the box that is shared with its surroundings.
#[derive(Debug)]
pub struct CapturedField {
    pub ty: ExprTy,
    pub boxed: bool,
}

pub struct CapturedView {
    pub ty: ExprTyView,
    pub boxed: bool,
}

impl View for CapturedField {
    type V = CapturedView;

    open spec fn view(&self) -> CapturedView {
        CapturedView { ty: self.ty@, boxed: self.boxed }
    }
}

/// What a method body is compiled against.
pub struct Unit<'a> {
    pub classes: &'a ClassTable<'a>,
    pub imports: &'a NameMap<String>,
    pub static_sigs: &'a NameMap<Overloads<'a>>,
    pub natives: &'a NativeClasses,
    pub this_class: u16,
    pub this_fqcn: String,
    /// Inside a closure, the variables that it captured.
    pub captured_fields: NameMap<CapturedField>,
    /// The variables of this body that need a box.
    pub boxed_captures: NameSet,
    /// What the names of the closures of this body begin with.
    pub closure_name_prefix: String,
    /// The class that this body is written in.
    pub home: String,
}

/// A unit, and how deeply values that are defined elsewhere (those of enum
/// cases and of omitted arguments) may still refer to each other; and what is
/// told of the variables in sight, here and where each of the `finally` blocks
/// stands that are around it.
#[derive(Clone, Copy)]
pub struct Cx<'u> {
    pub unit: &'u Unit<'u>,
    pub level: usize,
    pub typings: &'u Typings,
    pub tries: &'u Vec<&'u Typings>,
}

pub open spec fn typings_views(v: Seq<&Typings>) -> Seq<TypingsView> {
    v.map_values(|k: &Typings| k@)
}

pub struct CxView {
    pub classes: Classes,
    pub imports: Seq<(Seq<char>, Seq<char>)>,
    pub static_sigs: Seq<(Seq<char>, Seq<MethodSigView>)>,
    pub natives: Natives,
    pub this_class: u16,
    pub this_fqcn: Seq<char>,
    pub captured_fields: Seq<(Seq<char>, CapturedView)>,
    pub boxed_captures: Set<Seq<char>>,
    pub closure_name_prefix: Seq<char>,
    pub home: Seq<char>,
    pub level: nat,
    pub typings: TypingsView,
    pub tries: Seq<TypingsView>,
}

impl<'u> View for Cx<'u> {
    type V = CxView;

    open spec fn view(&self) -> CxView {
        CxView {
            classes: self.unit.classes@,
            imports: self.unit.imports@,
            static_sigs: self.unit.static_sigs@,
            natives: self.unit.natives@,
            this_class: self.unit.this_class,
            this_fqcn: self.unit.this_fqcn@,
            captured_fields: self.unit.captured_fields@,
            boxed_captures: self.unit.boxed_captures@,
            closure_name_prefix: self.unit.closure_name_prefix@,
            home: self.unit.home@,
            level: self.level as nat,
            typings: self.typings@,
            tries: typings_views(self.tries@),
        }
    }
}

impl CxView {
    /// One level down.
    pub open spec fn deeper(self) -> CxView {
        CxView { level: (self.level - 1) as nat, ..self }
    }

    /// Where the types of arguments are told from.
    pub open spec fn site(self) -> SiteView {
        SiteView {
            classes: self.classes,
            imports: self.imports,
            natives: self.natives,
            home: self.home,
        }
    }

    pub open spec fn with_typings(self, typings: TypingsView) -> CxView {
        CxView { typings, ..self }
    }

    /// With a variable more in sight.
    pub open spec fn telling(self, name: Seq<char>, ty: Option<TypeView>) -> CxView {
        self.with_typings(self.typings.push((name, ty)))
    }

    /// After a statement.
    pub open spec fn after(self, stmt: Stmt) -> CxView {
        self.with_typings(after(self.site(), self.typings, stmt))
    }

    /// Inside a `try` statement with a `finally` block.
    pub open spec fn guarded(self) -> CxView {
        CxView { tries: self.tries.push(self.typings), ..self }
    }

    /// Inside the `finally` block of the `k`-th of the `try` statements around.
    pub open spec fn at_try(self, k: int) -> CxView {
        if 0 <= k < self.tries.len() {
            CxView { typings: self.tries[k], tries: self.tries.take(k), ..self }
        } else {
            self
        }
    }
}

impl<'u> Cx<'u> {
    pub(crate) fn deeper(self) -> (r: Cx<'u>)
        requires
            self.level > 0,
        ensures
            r@ == self@.deeper(),
    {
        Cx {
            unit: self.unit,
            level: self.level - 1,
            typings: self.typings,
            tries: self.tries,
        }
    }

    pub(crate) fn site(self) -> (r: Site<'u>)
        ensures
            r@ == self@.site(),
    {
        Site {
            classes: self.unit.classes,
            imports: self.unit.imports,
            natives: self.unit.natives,
            home: self.unit.home.as_str(),
        }
    }

    pub(crate) fn with_typings<'b>(self, typings: &'b Typings) -> (r: Cx<'b>) where 'u: 'b
        ensures
            r@ == self@.with_typings(typings@),
    {
        Cx { unit: self.unit, level: self.level, typings, tries: self.tries }
    }

    /// The outermost `k` of the `try` statements around.
    pub(crate) fn outer_tries(self, k: usize) -> (r: Vec<&'u Typings>)
        requires
            k <= self.tries@.len(),
        ensures
            typings_views(r@) == typings_views(self.tries@).take(k as int),
    {
        let mut out: Vec<&'u Typings> = Vec::new();
        let mut i: usize = 0;
        while i < k
            invariant
                i <= k <= self.tries@.len(),
                out@ =~= self.tries@.take(i as int),
            decreases k - i,
        {
            out.push(self.tries[i]);
            i = i + 1;
        }
        assert(typings_views(out@) =~= typings_views(self.tries@).take(k as int));
        out
    }
}

/// A local variable: its slot and its type, and the type of what its box
/// holds where the slot holds a box.
#[derive(Debug)]
pub struct LocalSlot {
    pub index: u16,
    pub ty: ExprTy,
    pub boxed: Option<ExprTy>,
}

pub struct SlotView {
    pub index: u16,
    pub ty: ExprTyView,
    pub boxed: Option<ExprTyView>,
}

impl View for LocalSlot {
    type V = SlotView;

    open spec fn view(&self) -> SlotView {
        SlotView { index: self.index, ty: self.ty@, boxed: opt_view(self.boxed) }
    }
}

pub fn copy_opt_ty(o: &Option<ExprTy>) -> (r: Option<ExprTy>)
    ensures
        opt_view(r) == opt_view(*o),
{
    match o {
        Some(t) => Some(t.copy()),
        None => None,
    }
}

impl LocalSlot {
    pub fn copy(&self) -> (r: LocalSlot)
        ensures
            r@ == self@,
    {
        LocalSlot { index: self.index, ty: self.ty.copy(), boxed: copy_opt_ty(&self.boxed) }
    }
}

/// An enclosing loop or `switch`, with the jumps out of it and to its next
/// round that are still to be aimed.
#[derive(Debug)]
pub struct LoopCtx {
    pub break_patches: Vec<usize>,
    pub continue_patches: Vec<usize>,
    /// How many `finally` blocks were open when it was entered.
    pub finally_depth: usize,
    /// Whether it is a `switch`, which `continue` passes over.
    pub is_switch: bool,
}

pub struct LoopView {
    pub break_patches: Seq<int>,
    pub continue_patches: Seq<int>,
    pub finally_depth: int,
    pub is_switch: bool,
}

pub open spec fn positions(v: Seq<usize>) -> Seq<int> {
    v.map_values(|p: usize| p as int)
}

impl View for LoopCtx {
    type V = LoopView;

    open spec fn view(&self) -> LoopView {
        LoopView {
            break_patches: positions(self.break_patches@),
            continue_patches: positions(self.continue_patches@),
            finally_depth: self.finally_depth as int,
            is_switch: self.is_switch,
        }
    }
}

pub open spec fn new_loop(finally_depth: int, is_switch: bool) -> LoopView {
    LoopView {
        break_patches: Seq::empty(),
        continue_patches: Seq::empty(),
        finally_depth,
        is_switch,
    }
}

/// The generator's state: the code so far, the pool, and what it keeps track
/// of. The counters have the widths of the module format and wrap around.
pub struct Emitter {
    pub code: Vec<u8>,
    pub cp: ConstantPool,
    pub depth: i32,
    pub max_depth: i32,
    pub scopes: Vec<NameMap<LocalSlot>>,
    pub next_local: u16,
    pub max_locals: u16,
    pub loops: Vec<LoopCtx>,
    pub exception_table: Vec<ExceptionTableEntry>,
    pub line_table: Vec<LineTableEntry>,
    pub last_line: u32,
    /// Classes synthesized for the closures of this body.
    pub closures: Vec<Module>,
    pub closure_counter: u32,
    /// The type of the last value returned.
    pub inferred_return_ty: Option<ExprTy>,
}

pub struct State {
    pub code: Seq<u8>,
    pub cp: Seq<EntryView>,
    pub depth: i32,
    pub max_depth: i32,
    pub scopes: Seq<Seq<(Seq<char>, SlotView)>>,
    pub next_local: u16,
    pub max_locals: u16,
    pub loops: Seq<LoopView>,
    pub exception_table: Seq<ExceptionTableEntry>,
    pub line_table: Seq<LineTableEntry>,
    pub last_line: u32,
    pub closures: Seq<ModuleView>,
    pub closure_counter: u32,
    pub inferred_return_ty: Option<ExprTyView>,
}

pub open spec fn scope_views(v: Seq<NameMap<LocalSlot>>) -> Seq<Seq<(Seq<char>, SlotView)>> {
    v.map_values(|s: NameMap<LocalSlot>| s@)
}

pub open spec fn loop_views(v: Seq<LoopCtx>) -> Seq<LoopView> {
    v.map_values(|l: LoopCtx| l@)
}

pub open spec fn module_views(v: Seq<Module>) -> Seq<ModuleView> {
    v.map_values(|m: Module| m@)
}

impl View for Emitter {
    type V = State;

    open spec fn view(&self) -> State {
        State {
            code: self.code@,
            cp: self.cp@,
            depth: self.depth,
            max_depth: self.max_depth,
            scopes: scope_views(self.scopes@),
            next_local: self.next_local,
            max_locals: self.max_locals,
            loops: loop_views(self.loops@),
            exception_table: self.exception_table@,
            line_table: self.line_table@,
            last_line: self.last_line,
            closures: module_views(self.closures@),
            closure_counter: self.closure_counter,
            inferred_return_ty: opt_view(self.inferred_return_ty),
        }
    }
}

/// The state at the start of a body, over the pool `cp`.
pub open spec fn fresh(cp: Seq<EntryView>) -> State {
    State {
        code: Seq::empty(),
        cp,
        depth: 0,
        max_depth: 0,
        scopes: Seq::empty(),
        next_local: 0,
        max_locals: 0,
        loops: Seq::empty(),
        exception_table: Seq::empty(),
        line_table: Seq::empty(),
        last_line: 0,
        closures: Seq::empty(),
        closure_counter: 0,
        inferred_return_ty: None,
    }
}

/// The slot that `name` means in the innermost of the first `n` scopes that
/// declare it, and the position of that scope.
pub open spec fn slot_in(
    scopes: Seq<Seq<(Seq<char>, SlotView)>>,
    name: Seq<char>,
    n: int,
) -> Option<(int, SlotView)>
    decreases n,
{
    if n <= 0 {
        None
    } else {
        match bound_to(scopes[n - 1], name) {
            Some(slot) => Some((n - 1, slot)),
            None => slot_in(scopes, name, n - 1),
        }
    }
}

/// The offset of a jump at `pc` to `target`, in 16 bits.
pub open spec fn offset(target: int, pc: int) -> u16 {
    (target as u16).wrapping_sub(pc as u16)
}

/// The code with the jump at `pc` aimed at `target`.
pub open spec fn aimed(code: Seq<u8>, pc: int, target: int) -> Seq<u8> {
    if 0 <= pc && pc + 2 < code.len() {
        code.update(pc + 1, be16(offset(target, pc))[0]).update(
            pc + 2,
            be16(offset(target, pc))[1],
        )
    } else {
        code
    }
}

pub open spec fn aimed_all(code: Seq<u8>, pcs: Seq<int>, target: int, i: int) -> Seq<u8>
    decreases i,
{
    if i <= 0 {
        code
    } else {
        aimed(aimed_all(code, pcs, target, i - 1), pcs[i - 1], target)
    }
}

impl State {
    pub open spec fn pc(self) -> int {
        self.code.len() as int
    }

    #[verifier::opaque]
    pub open spec fn track(self, delta: int) -> State {
        let depth = self.depth.wrapping_add(delta as i32);
        State {
            depth,
            max_depth: if depth > self.max_depth {
                depth
            } else {
                self.max_depth
            },
            ..self
        }
    }

    /// Appends bytes to the code.
    #[verifier::opaque]
    pub open spec fn bytes(self, b: Seq<u8>) -> State {
        State { code: self.code + b, ..self }
    }

    /// An instruction that ends the code's straight run.
    pub open spec fn exit_op(self, op: Opcode) -> State {
        self.bytes(seq![op.code()])
    }

    pub open spec fn op(self, op: Opcode, delta: int) -> State {
        self.bytes(seq![op.code()]).track(delta)
    }

    pub open spec fn op_u16(self, op: Opcode, operand: u16, delta: int) -> State {
        self.bytes(seq![op.code()]).bytes(be16(operand)).track(delta)
    }

    pub open spec fn op_u16_u16(self, op: Opcode, a: u16, b: u16, delta: int) -> State {
        self.bytes(seq![op.code()]).bytes(be16(a)).bytes(be16(b)).track(delta)
    }

    pub open spec fn op_i8(self, op: Opcode, operand: i8, delta: int) -> State {
        self.bytes(seq![op.code()]).bytes(seq![operand as u8]).track(delta)
    }

    pub open spec fn op_iinc(self, local: u16, delta: i16) -> State {
        self.bytes(seq![Opcode::IInc.code()]).bytes(be16(local)).bytes(be16(delta as u16))
    }

    /// A jump whose target is not known yet.
    pub open spec fn branch(self, op: Opcode, delta: int) -> State {
        self.bytes(seq![op.code()]).bytes(be16(0)).track(delta)
    }

    pub open spec fn goto_to(self, target: int) -> State {
        self.bytes(seq![Opcode::Goto.code()]).bytes(be16(offset(target, self.pc()))).track(0)
    }

    #[verifier::opaque]
    pub open spec fn aim(self, pc: int, target: int) -> State {
        State { code: aimed(self.code, pc, target), ..self }
    }

    /// Aims all of `pcs` at `target`.
    #[verifier::opaque]
    pub open spec fn aim_all(self, pcs: Seq<int>, target: int) -> State {
        State { code: aimed_all(self.code, pcs, target, pcs.len() as int), ..self }
    }

    pub open spec fn aim_here(self, pc: int) -> State {
        self.aim(pc, self.pc())
    }

    /// Notes that the code from here on is of this source line.
    #[verifier::opaque]
    pub open spec fn line(self, line: u32) -> State {
        if line == 0 || line == self.last_line {
            self
        } else {
            State {
                last_line: line,
                line_table: self.line_table.push(
                    LineTableEntry { start_pc: self.code.len() as u16, line },
                ),
                ..self
            }
        }
    }

    pub open spec fn store(self, local: u16) -> State {
        self.op_u16(Opcode::Store, local, -1)
    }

    pub open spec fn load(self, local: u16) -> State {
        self.op_u16(Opcode::Load, local, 1)
    }

    #[verifier::opaque]
    pub open spec fn push_scope(self) -> State {
        State { scopes: self.scopes.push(Seq::empty()), ..self }
    }

    #[verifier::opaque]
    pub open spec fn pop_scope(self) -> State {
        State {
            scopes: if self.scopes.len() > 0 {
                self.scopes.drop_last()
            } else {
                self.scopes
            },
            ..self
        }
    }

    /// Declares a variable in a fresh slot of the innermost scope; the slot
    /// is the one that was free next.
    #[verifier::opaque]
    pub open spec fn declare(
        self,
        name: Seq<char>,
        ty: ExprTyView,
        boxed: Option<ExprTyView>,
    ) -> State {
        let index = self.next_local;
        let next = index.wrapping_add(1);
        let n = self.scopes.len() as int;
        State {
            next_local: next,
            max_locals: if next > self.max_locals {
                next
            } else {
                self.max_locals
            },
            scopes: if n > 0 {
                self.scopes.update(
                    n - 1,
                    self.scopes[n - 1].push((name, SlotView { index, ty, boxed })),
                )
            } else {
                self.scopes
            },
            ..self
        }
    }

    pub open spec fn declare_local(self, name: Seq<char>, ty: ExprTyView) -> State {
        self.declare(name, ty, None)
    }

    pub open spec fn declare_ref(self, name: Seq<char>, ty: ExprTyView) -> State {
        self.declare(name, ty, Some(ty))
    }

    /// A variable of the generator's own; no source name begins with `$`.
    pub open spec fn declare_scratch(self, ty: ExprTyView) -> State {
        self.declare("$tmp"@ + decimal_text(self.next_local as nat), ty, None)
    }

    pub open spec fn lookup(self, name: Seq<char>) -> Option<SlotView> {
        match slot_in(self.scopes, name, self.scopes.len() as int) {
            Some((_, slot)) => Some(slot),
            None => None,
        }
    }

    /// Gives the variable `name`, if there is one, another type.
    #[verifier::opaque]
    pub open spec fn retype(self, name: Seq<char>, ty: ExprTyView) -> State {
        match slot_in(self.scopes, name, self.scopes.len() as int) {
            Some((k, slot)) => State {
                scopes: self.scopes.update(
                    k,
                    self.scopes[k].push((name, SlotView { ty, ..slot })),
                ),
                ..self
            },
            None => self,
        }
    }

    #[verifier::opaque]
    pub open spec fn with_pool(self, cp: Seq<EntryView>) -> State {
        State { cp, ..self }
    }

    pub open spec fn utf8(self, s: Seq<char>) -> (State, u16) {
        let (cp, i) = with_utf8(self.cp, s);
        (self.with_pool(cp), i)
    }

    pub open spec fn class(self, name: Seq<char>) -> (State, u16) {
        let (cp, i) = with_class(self.cp, name);
        (self.with_pool(cp), i)
    }

    pub open spec fn type_desc(self, desc: Seq<char>) -> (State, u16) {
        let (cp, i) = with_type_desc(self.cp, desc);
        (self.with_pool(cp), i)
    }

    pub open spec fn field_ref(self, class: u16, name: u16, ty: u16) -> (State, u16) {
        let (cp, i) = with_field_ref(self.cp, class, name, ty);
        (self.with_pool(cp), i)
    }

    pub open spec fn method_ref(self, class: u16, name: u16, descriptor: u16) -> (State, u16) {
        let (cp, i) = with_method_ref(self.cp, class, name, descriptor);
        (self.with_pool(cp), i)
    }

    pub open spec fn int_entry(self, v: i64) -> (State, u16) {
        let (cp, i) = interned(self.cp, EntryView::Int(v));
        (self.with_pool(cp), i)
    }

    pub open spec fn float_entry(self, bits: u64) -> (State, u16) {
        let (cp, i) = interned(self.cp, EntryView::Float(bits));
        (self.with_pool(cp), i)
    }

    #[verifier::opaque]
    pub open spec fn enter_loop(self, l: LoopView) -> State {
        State { loops: self.loops.push(l), ..self }
    }

    #[verifier::opaque]
    pub open spec fn leave_loop(self) -> State {
        State {
            loops: if self.loops.len() > 0 {
                self.loops.drop_last()
            } else {
                self.loops
            },
            ..self
        }
    }

    /// The innermost loop, or one without jumps.
    pub open spec fn this_loop(self) -> LoopView {
        if self.loops.len() > 0 {
            self.loops.last()
        } else {
            new_loop(0, false)
        }
    }

    /// Notes a jump out of the `k`-th loop.
    #[verifier::opaque]
    pub open spec fn add_break(self, k: int, pc: int) -> State {
        if 0 <= k < self.loops.len() {
            let l = self.loops[k];
            State {
                loops: self.loops.update(
                    k,
                    LoopView { break_patches: l.break_patches.push(pc), ..l },
                ),
                ..self
            }
        } else {
            self
        }
    }

    /// Notes a jump to the next round of the `k`-th loop.
    #[verifier::opaque]
    pub open spec fn add_continue(self, k: int, pc: int) -> State {
        if 0 <= k < self.loops.len() {
            let l = self.loops[k];
            State {
                loops: self.loops.update(
                    k,
                    LoopView { continue_patches: l.continue_patches.push(pc), ..l },
                ),
                ..self
            }
        } else {
            self
        }
    }

    #[verifier::opaque]
    pub open spec fn protect(self, e: ExceptionTableEntry) -> State {
        State { exception_table: self.exception_table.push(e), ..self }
    }

    #[verifier::opaque]
    pub open spec fn infer_return(self, ty: ExprTyView) -> State {
        State { inferred_return_ty: Some(ty), ..self }
    }

    #[verifier::opaque]
    pub open spec fn count_closure(self) -> State {
        State { closure_counter: self.closure_counter.wrapping_add(1), ..self }
    }

    #[verifier::opaque]
    pub open spec fn add_closures(self, ms: Seq<ModuleView>) -> State {
        State { closures: self.closures + ms, ..self }
    }

    /// The operand stack that the code needs.
    pub open spec fn max_stack(self) -> u16 {
        if self.max_depth > 0 {
            self.max_depth as u16
        } else {
            0
        }
    }
}

/// The innermost of the first `n` loops that is not a `switch`.
pub open spec fn real_loop(loops: Seq<LoopView>, n: int) -> Option<int>
    decreases n,
{
    if n <= 0 {
        None
    } else if !loops[n - 1].is_switch {
        Some(n - 1)
    } else {
        real_loop(loops, n - 1)
    }
}

impl Emitter {
    pub fn new(cp: ConstantPool) -> (r: Emitter)
        ensures
            r@ == fresh(cp@),
    {
        let r = Emitter {
            code: Vec::new(),
            cp,
            depth: 0,
            max_depth: 0,
            scopes: Vec::new(),
            next_local: 0,
            max_locals: 0,
            loops: Vec::new(),
            exception_table: Vec::new(),
            line_table: Vec::new(),
            last_line: 0,
            closures: Vec::new(),
            closure_counter: 0,
            inferred_return_ty: None,
        };
        assert(r@.scopes =~= fresh(cp@).scopes);
        assert(r@.loops =~= fresh(cp@).loops);
        assert(r@.closures =~= fresh(cp@).closures);
        r
    }

    pub fn max_stack(&self) -> (r: u16)
        ensures
            r == self@.max_stack(),
    {
        if self.max_depth > 0 {
            #[verifier::truncate]
            (self.max_depth as u16)
        } else {
            0
        }
    }

    pub fn max_locals(&self) -> (r: u16)
        ensures
            r == self@.max_locals,
    {
        self.max_locals
    }

    pub fn pc(&self) -> (r: usize)
        ensures
            r == self@.pc(),
    {
        self.code.len()
    }

    fn track(&mut self, delta: i32)
        ensures
            final(self)@ == old(self)@.track(delta as int),
            grows(old(self)@, final(self)@),
            nests(old(self)@, final(self)@),
    {
        broadcast use {group_growth, group_nested_steps, group_nesting, group_steps};

        reveal(State::track);
        self.depth = self.depth.wrapping_add(delta);
        if self.depth > self.max_depth {
            self.max_depth = self.depth;
        }
    }

    fn byte(&mut self, b: u8)
        ensures
            final(self)@ == old(self)@.bytes(seq![b]),
            grows(old(self)@, final(self)@),
            nests(old(self)@, final(self)@),
    {
        broadcast use {group_growth, group_nested_steps, group_nesting, group_steps};

        reveal(State::bytes);
        self.code.push(b);
        assert(self.code@ =~= old(self).code@ + seq![b]);
    }

    fn word(&mut self, x: u16)
        ensures
            final(self)@ == old(self)@.bytes(be16(x)),
            grows(old(self)@, final(self)@),
            nests(old(self)@, final(self)@),
    {
        broadcast use {group_growth, group_nested_steps, group_nesting, group_steps};

        reveal(State::bytes);
        put_u16(&mut self.code, x);
    }

    pub fn exit_op(&mut self, op: Opcode)
        ensures
            final(self)@ == old(self)@.exit_op(op),
            grows(old(self)@, final(self)@),
            nests(old(self)@, final(self)@),
    {
        broadcast use {group_growth, group_nested_steps, group_nesting, group_steps};

        self.byte(op.byte());
    }

    pub fn op(&mut self, op: Opcode, delta: i32)
        ensures
            final(self)@ == old(self)@.op(op, delta as int),
            grows(old(self)@, final(self)@),
            nests(old(self)@, final(self)@),
    {
        broadcast use {group_growth, group_nested_steps, group_nesting, group_steps};

        self.byte(op.byte());
        self.track(delta);
    }

    pub fn op_u16(&mut self, op: Opcode, operand: u16, delta: i32)
        ensures
            final(self)@ == old(self)@.op_u16(op, operand, delta as int),
            grows(old(self)@, final(self)@),
            nests(old(self)@, final(self)@),
    {
        broadcast use {group_growth, group_nested_steps, group_nesting, group_steps};

        self.byte(op.byte());
        self.word(operand);
        self.track(delta);
    }

    pub fn op_u16_u16(&mut self, op: Opcode, operand1: u16, operand2: u16, delta: i32)
        ensures
            final(self)@ == old(self)@.op_u16_u16(op, operand1, operand2, delta as int),
            grows(old(self)@, final(self)@),
            nests(old(self)@, final(self)@),
    {
        broadcast use {group_growth, group_nested_steps, group_nesting, group_steps};

        self.byte(op.byte());
        self.word(operand1);
        self.word(operand2);
        self.track(delta);
    }

    pub fn op_i8(&mut self, op: Opcode, operand: i8, delta: i32)
        ensures
            final(self)@ == old(self)@.op_i8(op, operand, delta as int),
            grows(old(self)@, final(self)@),
            nests(old(self)@, final(self)@),
    {
        broadcast use {group_growth, group_nested_steps, group_nesting, group_steps};

        self.byte(op.byte());
        self.byte(#[verifier::truncate] (operand as u8));
        self.track(delta);
    }

    pub fn op_i16(&mut self, op: Opcode, operand: i16, delta: i32)
        ensures
            final(self)@ == old(self)@.op_u16(op, operand as u16, delta as int),
            grows(old(self)@, final(self)@),
            nests(old(self)@, final(self)@),
    {
        broadcast use {group_growth, group_nested_steps, group_nesting, group_steps};

        self.op_u16(op, #[verifier::truncate] (operand as u16), delta);
    }

    pub fn op_iinc(&mut self, local_index: u16, delta: i16)
        ensures
            final(self)@ == old(self)@.op_iinc(local_index, delta),
            grows(old(self)@, final(self)@),
            nests(old(self)@, final(self)@),
    {
        broadcast use {group_growth, group_nested_steps, group_nesting, group_steps};

        self.byte(Opcode::IInc.byte());
        self.word(local_index);
        self.word(#[verifier::truncate] (delta as u16));
    }

    /// Emits a jump to be aimed later, and says where it is.
    pub fn branch(&mut self, op: Opcode, delta: i32) -> (pc: usize)
        ensures
            pc == old(self)@.pc(),
            final(self)@ == old(self)@.branch(op, delta as int),
            grows(old(self)@, final(self)@),
            nests(old(self)@, final(self)@),
    {
        broadcast use {group_growth, group_nested_steps, group_nesting, group_steps};

        let pc: usize = self.code.len();
        self.byte(op.byte());
        self.word(0);
        self.track(delta);
        pc
    }

    pub fn patch_branch(&mut self, pc: usize)
        ensures
            final(self)@ == old(self)@.aim_here(pc as int),
            grows(old(self)@, final(self)@),
            nests(old(self)@, final(self)@),
    {
        broadcast use {group_growth, group_nested_steps, group_nesting, group_steps};

        let here: usize = self.code.len();
        self.patch_branch_to(pc, here);
    }

    pub fn patch_branch_to(&mut self, pc: usize, target: usize)
        ensures
            final(self)@ == old(self)@.aim(pc as int, target as int),
            grows(old(self)@, final(self)@),
            nests(old(self)@, final(self)@),
    {
        broadcast use {group_growth, group_nested_steps, group_nesting, group_steps};

        reveal(State::aim);
        let n: usize = self.code.len();
        if n > 2 && pc < n - 2 {
            let off: u16 = (#[verifier::truncate] (target as u16)).wrapping_sub(
                #[verifier::truncate] (pc as u16),
            );
            self.code.set(pc + 1, (off / 256) as u8);
            self.code.set(pc + 2, (off % 256) as u8);
            assert(self.code@ =~= aimed(old(self).code@, pc as int, target as int));
        }
    }

    pub fn patch_all(&mut self, pcs: &Vec<usize>, target: usize)
        ensures
            final(self)@ == old(self)@.aim_all(positions(pcs@), target as int),
            grows(old(self)@, final(self)@),
            nests(old(self)@, final(self)@),
    {
        broadcast use {group_growth, group_nested_steps, group_nesting, group_steps};

        reveal(State::aim);
        reveal(State::aim_all);
        let ghost s = self@;
        let ghost ps = positions(pcs@);
        let mut i: usize = 0;
        while i < pcs.len()
            invariant
                grows(old(self)@, self@),
                nests(old(self)@, self@),
                i <= pcs@.len(),
                ps == positions(pcs@),
                self@ == (State { code: aimed_all(s.code, ps, target as int, i as int), ..s }),
            decreases pcs@.len() - i,
        {
            broadcast use {group_growth, group_nesting};

            reveal(State::aim);
            self.patch_branch_to(pcs[i], target);
            i = i + 1;
        }
    }

    pub fn record_line(&mut self, line: u32)
        ensures
            final(self)@ == old(self)@.line(line),
            grows(old(self)@, final(self)@),
            nests(old(self)@, final(self)@),
    {
        broadcast use {group_growth, group_nested_steps, group_nesting, group_steps};

        reveal(State::line);
        if line == 0 || line == self.last_line {
            return ;
        }
        self.last_line = line;
        self.line_table.push(
            LineTableEntry { start_pc: #[verifier::truncate] (self.code.len() as u16), line },
        );
    }

    pub fn emit_store(&mut self, local_index: u16)
        ensures
            final(self)@ == old(self)@.store(local_index),
            grows(old(self)@, final(self)@),
            nests(old(self)@, final(self)@),
    {
        broadcast use {group_growth, group_nested_steps, group_nesting, group_steps};

        self.op_u16(Opcode::Store, local_index, -1);
    }

    pub fn emit_load(&mut self, local_index: u16)
        ensures
            final(self)@ == old(self)@.load(local_index),
            grows(old(self)@, final(self)@),
            nests(old(self)@, final(self)@),
    {
        broadcast use {group_growth, group_nested_steps, group_nesting, group_steps};

        self.op_u16(Opcode::Load, local_index, 1);
    }

    pub fn emit_goto_to(&mut self, target: usize)
        ensures
            final(self)@ == old(self)@.goto_to(target as int),
            grows(old(self)@, final(self)@),
            nests(old(self)@, final(self)@),
    {
        broadcast use {group_growth, group_nested_steps, group_nesting, group_steps};

        let pc: usize = self.code.len();
        self.byte(Opcode::Goto.byte());
        let off: u16 = (#[verifier::truncate] (target as u16)).wrapping_sub(
            #[verifier::truncate] (pc as u16),
        );
        self.word(off);
        self.track(0);
    }

    pub fn push_scope(&mut self)
        ensures
            final(self)@ == old(self)@.push_scope(),
            grows(old(self)@, final(self)@),
    {
        broadcast use {group_growth, group_nested_steps, group_nesting, group_steps};

        reveal(State::push_scope);
        let ghost b = scope_views(self.scopes@);
        self.scopes.push(NameMap::new());
        assert(scope_views(self.scopes@) =~= b.push(Seq::empty()));
    }

    pub fn pop_scope(&mut self)
        ensures
            final(self)@ == old(self)@.pop_scope(),
            grows(old(self)@, final(self)@),
    {
        broadcast use {group_growth, group_nested_steps, group_nesting, group_steps};

        reveal(State::pop_scope);
        let ghost b = scope_views(self.scopes@);
        self.scopes.pop();
        assert(scope_views(self.scopes@) =~= if b.len() > 0 {
            b.drop_last()
        } else {
            b
        });
    }

    fn declare(&mut self, name: String, ty: ExprTy, boxed: Option<ExprTy>) -> (r: u16)
        ensures
            r == old(self)@.next_local,
            final(self)@ == old(self)@.declare(name@, ty@, opt_view(boxed)),
            grows(old(self)@, final(self)@),
            nests(old(self)@, final(self)@),
    {
        broadcast use {group_growth, group_nested_steps, group_nesting, group_steps};

        reveal(State::declare);
        let ghost b = scope_views(self.scopes@);
        let index: u16 = self.next_local;
        self.next_local = index.wrapping_add(1);
        if self.next_local > self.max_locals {
            self.max_locals = self.next_local;
        }
        if let Some(last) = self.scopes.pop() {
            let mut scope = last;
            scope.insert(name, LocalSlot { index, ty, boxed });
            self.scopes.push(scope);
        }
        assert(scope_views(self.scopes@) =~= old(self)@.declare(
            name@,
            ty@,
            opt_view(boxed),
        ).scopes);
        index
    }

    pub fn declare_local(&mut self, name: String, ty: ExprTy) -> (r: u16)
        ensures
            r == old(self)@.next_local,
            final(self)@ == old(self)@.declare_local(name@, ty@),
            grows(old(self)@, final(self)@),
            nests(old(self)@, final(self)@),
    {
        broadcast use {group_growth, group_nested_steps, group_nesting, group_steps};

        self.declare(name, ty, None)
    }

    pub fn declare_ref_param(&mut self, name: String, inner_ty: ExprTy) -> (r: u16)
        ensures
            r == old(self)@.next_local,
            final(self)@ == old(self)@.declare_ref(name@, inner_ty@),
            grows(old(self)@, final(self)@),
            nests(old(self)@, final(self)@),
    {
        broadcast use {group_growth, group_nested_steps, group_nesting, group_steps};

        let boxed = Some(inner_ty.copy());
        self.declare(name, inner_ty, boxed)
    }

    pub fn declare_scratch_local(&mut self, ty: ExprTy) -> (r: u16)
        ensures
            r == old(self)@.next_local,
            final(self)@ == old(self)@.declare_scratch(ty@),
            grows(old(self)@, final(self)@),
            nests(old(self)@, final(self)@),
    {
        broadcast use {group_growth, group_nested_steps, group_nesting, group_steps};

        let name = cat2("$tmp", decimal(self.next_local as u64).as_str());
        self.declare(name, ty, None)
    }

    pub fn lookup_local(&self, name: &str) -> (r: Option<LocalSlot>)
        ensures
            opt_view(r) == self@.lookup(name@),
    {
        let ghost ss = scope_views(self.scopes@);
        let mut i: usize = self.scopes.len();
        while i > 0
            invariant
                i <= self.scopes@.len(),
                ss == scope_views(self.scopes@),
                slot_in(ss, name@, ss.len() as int) == slot_in(ss, name@, i as int),
            decreases i,
        {
            i = i - 1;
            assert(ss[i as int] == self.scopes@[i as int]@);
            if let Some(slot) = self.scopes[i].get(name) {
                return Some(slot.copy());
            }
        }
        None
    }

    /// Gives a variable another type, and says which it had.
    pub fn set_local_ty(&mut self, name: &str, ty: ExprTy) -> (r: Option<ExprTy>)
        ensures
            final(self)@ == old(self)@.retype(name@, ty@),
            opt_view(r) == (match old(self)@.lookup(name@) {
                Some(slot) => Some(slot.ty),
                None => None,
            }),
            grows(old(self)@, final(self)@),
            nests(old(self)@, final(self)@),
    {
        broadcast use {group_growth, group_nested_steps, group_nesting, group_steps};

        reveal(State::retype);
        let ghost ss = scope_views(self.scopes@);
        let mut i: usize = self.scopes.len();
        while i > 0
            invariant
                grows(old(self)@, self@),
                nests(old(self)@, self@),
                *self == *old(self),
                i <= self.scopes@.len(),
                ss == scope_views(self.scopes@),
                slot_in(ss, name@, ss.len() as int) == slot_in(ss, name@, i as int),
            decreases i,
        {
            broadcast use {group_growth, group_nested_steps, group_nesting, group_steps};

            reveal(State::retype);
            i = i - 1;
            assert(ss[i as int] == self.scopes@[i as int]@);
            let found = match self.scopes[i].get(name) {
                Some(slot) => Some(slot.copy()),
                None => None,
            };
            if let Some(slot) = found {
                let before = slot.ty;
                let changed = LocalSlot { index: slot.index, ty, boxed: slot.boxed };
                self.scopes[i].insert(owned(name), changed);
                assert(scope_views(self.scopes@) =~= ss.update(
                    i as int,
                    ss[i as int].push((name@, changed@)),
                ));
                return Some(before);
            }
        }
        None
    }

    pub fn add_utf8(&mut self, s: &str) -> (r: u16)
        ensures
            (final(self)@, r) == old(self)@.utf8(s@),
            grows(old(self)@, final(self)@),
            nests(old(self)@, final(self)@),
    {
        broadcast use {group_growth, group_nested_steps, group_nesting, group_steps};

        reveal(State::with_pool);
        let r: u16 = self.cp.add_utf8(s);
        proof {
            pool_grows(old(self)@.cp, s@);
            with_pool_grows(old(self)@, self.cp@);
        }
        r
    }

    pub fn add_class(&mut self, name: &str) -> (r: u16)
        ensures
            (final(self)@, r) == old(self)@.class(name@),
            grows(old(self)@, final(self)@),
            nests(old(self)@, final(self)@),
    {
        broadcast use {group_growth, group_nested_steps, group_nesting, group_steps};

        reveal(State::with_pool);
        let r: u16 = self.cp.add_class(name);
        proof {
            pool_grows(old(self)@.cp, name@);
            with_pool_grows(old(self)@, self.cp@);
        }
        r
    }

    pub fn add_type_desc(&mut self, desc: &str) -> (r: u16)
        ensures
            (final(self)@, r) == old(self)@.type_desc(desc@),
            grows(old(self)@, final(self)@),
            nests(old(self)@, final(self)@),
    {
        broadcast use {group_growth, group_nested_steps, group_nesting, group_steps};

        reveal(State::with_pool);
        let r: u16 = self.cp.add_type_desc(desc);
        proof {
            pool_grows(old(self)@.cp, desc@);
            with_pool_grows(old(self)@, self.cp@);
        }
        r
    }

    pub fn add_field_ref(&mut self, class_index: u16, name_index: u16, type_index: u16) -> (r: u16)
        ensures
            (final(self)@, r) == old(self)@.field_ref(class_index, name_index, type_index),
            grows(old(self)@, final(self)@),
            nests(old(self)@, final(self)@),
    {
        broadcast use {group_growth, group_nested_steps, group_nesting, group_steps};

        reveal(State::with_pool);
        let r: u16 = self.cp.add_field_ref(class_index, name_index, type_index);
        proof {
            interned_grows(
                old(self)@.cp,
                EntryView::FieldRef { class_index, name_index, type_index },
            );
            with_pool_grows(old(self)@, self.cp@);
        }
        r
    }

    pub fn add_method_ref(
        &mut self,
        class_index: u16,
        name_index: u16,
        descriptor_index: u16,
    ) -> (r: u16)
        ensures
            (final(self)@, r) == old(self)@.method_ref(class_index, name_index, descriptor_index),
            grows(old(self)@, final(self)@),
            nests(old(self)@, final(self)@),
    {
        broadcast use {group_growth, group_nested_steps, group_nesting, group_steps};

        reveal(State::with_pool);
        let r: u16 = self.cp.add_method_ref(class_index, name_index, descriptor_index);
        proof {
            interned_grows(
                old(self)@.cp,
                EntryView::MethodRef { class_index, name_index, descriptor_index },
            );
            with_pool_grows(old(self)@, self.cp@);
        }
        r
    }

    pub fn add_int(&mut self, v: i64) -> (r: u16)
        ensures
            (final(self)@, r) == old(self)@.int_entry(v),
            grows(old(self)@, final(self)@),
            nests(old(self)@, final(self)@),
    {
        broadcast use {group_growth, group_nested_steps, group_nesting, group_steps};

        reveal(State::with_pool);
        let r: u16 = self.cp.add_int(v);
        proof {
            interned_grows(old(self)@.cp, EntryView::Int(v));
            with_pool_grows(old(self)@, self.cp@);
        }
        r
    }

    pub fn add_float(&mut self, bits: u64) -> (r: u16)
        ensures
            (final(self)@, r) == old(self)@.float_entry(bits),
            grows(old(self)@, final(self)@),
            nests(old(self)@, final(self)@),
    {
        broadcast use {group_growth, group_nested_steps, group_nesting, group_steps};

        reveal(State::with_pool);
        let r: u16 = self.cp.add_float(bits);
        proof {
            interned_grows(old(self)@.cp, EntryView::Float(bits));
            with_pool_grows(old(self)@, self.cp@);
        }
        r
    }

    pub fn enter_loop(&mut self, finally_depth: usize, is_switch: bool)
        ensures
            final(self)@ == old(self)@.enter_loop(new_loop(finally_depth as int, is_switch)),
            grows(old(self)@, final(self)@),
    {
        broadcast use {group_growth, group_nested_steps, group_nesting, group_steps};

        reveal(State::enter_loop);
        let ghost b = loop_views(self.loops@);
        let l = LoopCtx {
            break_patches: Vec::new(),
            continue_patches: Vec::new(),
            finally_depth,
            is_switch,
        };
        assert(l@.break_patches =~= Seq::<int>::empty());
        assert(l@.continue_patches =~= Seq::<int>::empty());
        self.loops.push(l);
        assert(loop_views(self.loops@) =~= b.push(new_loop(finally_depth as int, is_switch)));
    }

    pub fn leave_loop(&mut self) -> (r: LoopCtx)
        ensures
            r@ == old(self)@.this_loop(),
            final(self)@ == old(self)@.leave_loop(),
            grows(old(self)@, final(self)@),
    {
        broadcast use {group_growth, group_nested_steps, group_nesting, group_steps};

        reveal(State::leave_loop);
        let ghost b = loop_views(self.loops@);
        match self.loops.pop() {
            Some(l) => {
                assert(loop_views(self.loops@) =~= b.drop_last());
                assert(b.last() == l@);
                l
            },
            None => {
                let l = LoopCtx {
                    break_patches: Vec::new(),
                    continue_patches: Vec::new(),
                    finally_depth: 0,
                    is_switch: false,
                };
                assert(l@.break_patches =~= Seq::<int>::empty());
                assert(l@.continue_patches =~= Seq::<int>::empty());
                l
            },
        }
    }

    pub fn add_break(&mut self, k: usize, pc: usize)
        ensures
            final(self)@ == old(self)@.add_break(k as int, pc as int),
            grows(old(self)@, final(self)@),
            nests(old(self)@, final(self)@),
    {
        broadcast use {group_growth, group_nested_steps, group_nesting, group_steps};

        reveal(State::add_break);
        let ghost b = loop_views(self.loops@);
        if k < self.loops.len() {
            self.loops[k].break_patches.push(pc);
            assert(positions(self.loops@[k as int].break_patches@) =~= b[k as int].break_patches.push(
                pc as int,
            ));
            assert(loop_views(self.loops@) =~= old(self)@.add_break(k as int, pc as int).loops);
        }
    }

    pub fn add_continue(&mut self, k: usize, pc: usize)
        ensures
            final(self)@ == old(self)@.add_continue(k as int, pc as int),
            grows(old(self)@, final(self)@),
            nests(old(self)@, final(self)@),
    {
        broadcast use {group_growth, group_nested_steps, group_nesting, group_steps};

        reveal(State::add_continue);
        let ghost b = loop_views(self.loops@);
        if k < self.loops.len() {
            self.loops[k].continue_patches.push(pc);
            assert(positions(self.loops@[k as int].continue_patches@) =~= b[k as int].continue_patches.push(
                pc as int,
            ));
            assert(loop_views(self.loops@) =~= old(self)@.add_continue(k as int, pc as int).loops);
        }
    }

    /// The innermost loop that is not a `switch`.
    pub fn nearest_loop(&self) -> (r: Option<usize>)
        ensures
            match r {
                Some(k) => real_loop(self@.loops, self@.loops.len() as int) == Some(k as int) && k
                    < self@.loops.len(),
                None => real_loop(self@.loops, self@.loops.len() as int) is None,
            },
    {
        let ghost ls = loop_views(self.loops@);
        let mut i: usize = self.loops.len();
        while i > 0
            invariant
                i <= self.loops@.len(),
                ls == loop_views(self.loops@),
                real_loop(ls, ls.len() as int) == real_loop(ls, i as int),
            decreases i,
        {
            i = i - 1;
            if !self.loops[i].is_switch {
                return Some(i);
            }
        }
        None
    }

    pub fn protect(&mut self, entry: ExceptionTableEntry)
        ensures
            final(self)@ == old(self)@.protect(entry),
            (old(self)@.code.len() <= 0xffff ==> guard_fits(entry, old(self)@.code.len())) ==> grows(
                old(self)@,
                final(self)@,
            ),
            nests(old(self)@, final(self)@),
    {
        broadcast use {group_growth, group_nested_steps, group_nesting, group_steps};

        reveal(State::protect);
        self.exception_table.push(entry);
    }

    pub fn infer_return(&mut self, ty: ExprTy)
        ensures
            final(self)@ == old(self)@.infer_return(ty@),
            grows(old(self)@, final(self)@),
            nests(old(self)@, final(self)@),
    {
        broadcast use {group_growth, group_nested_steps, group_nesting, group_steps};

        reveal(State::infer_return);
        self.inferred_return_ty = Some(ty);
    }

    pub fn count_closure(&mut self)
        ensures
            final(self)@ == old(self)@.count_closure(),
            grows(old(self)@, final(self)@),
            nests(old(self)@, final(self)@),
    {
        broadcast use {group_growth, group_nested_steps, group_nesting, group_steps};

        reveal(State::count_closure);
        self.closure_counter = self.closure_counter.wrapping_add(1);
    }

    pub(crate) fn add_closures(&mut self, modules: Vec<Module>)
        requires
            modules_in_order(module_views(modules@)),
        ensures
            final(self)@ == old(self)@.add_closures(module_views(modules@)),
            grows(old(self)@, final(self)@),
            nests(old(self)@, final(self)@),
    {
        broadcast use {group_growth, group_nested_steps, group_nesting, group_steps};

        reveal(State::add_closures);
        let ghost b = module_views(self.closures@);
        let ghost m = module_views(modules@);
        let mut rest = modules;
        self.closures.append(&mut rest);
        assert(module_views(self.closures@) =~= b + m);
    }
}

} // verus!
