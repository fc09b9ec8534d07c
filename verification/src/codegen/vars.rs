//! Reading and writing variables, and the variables that a closure captures.

use crate::ast::{ClosureBody, Expr, Param};
use crate::bytecode::field_flags;
use crate::bytecode::constant_pool::{with_type_desc, with_utf8, ConstantPool, EntryView};
use crate::bytecode::module::FieldDescriptor;
use crate::bytecode::opcode::Opcode;
use crate::class_table::{
    field_at, field_found, field_infos, find_field_owner, find_operator_method, method_found,
    owned_field, ClassInfo, FieldInfo, FieldInfoView, Wanted,
};
use crate::codegen::closure::{in_body, param_name_set, param_set, referenced_names, Occurs};
use crate::codegen::emitter::{
    CapturedField, CapturedView, Cx, CxView, Emitter, LocalSlot, SlotView, State,
};
use crate::codegen::error::CodegenError;
use crate::codegen::expr_ty::{
    as_type, expr_ty_to_type, expr_ty_views, show, shown, ExprTy, ExprTyView,
};
use crate::codegen::growth::{extended, extended_self, extended_trans, grows, pool_grows};
use crate::codegen::nesting::nests;
use crate::codegen::ops::{
    class_name, compound_method, compound_operator_method_name, held_as, ident, physical_ty,
    resolve_class_name, resolve_ident, typed_as, undefined, undefined_variable, IdentRef, IdentView,
    Typed,
};
use crate::codegen::peek::{find_overload, overload_for, peek_type, peeked, Overload, OverloadView};
use crate::codegen::type_desc::{type_descriptor, type_descriptor_text};
use crate::names::{ascending, bound_to, opt_view, NameMap, NameSet};
use crate::native::types0;
use crate::resolve::{dotted_path, path_of};
use crate::text::{cat2, cat3, cat5, head, head_text, str_eq, texts};
use vstd::prelude::*;

verus! {

broadcast use {crate::codegen::growth::group_growth, crate::codegen::nesting::group_nesting};

/// Reads a local, from its box where it has one.
pub open spec fn load_value(s: State, slot: SlotView) -> State {
    let s1 = s.load(slot.index);
    match slot.boxed {
        Some(inner) => {
            let (s2, field) = s1.box_value(inner);
            s2.op_u16(Opcode::GetField, field, 0)
        },
        None => s1,
    }
}

/// Reads a variable.
pub open spec fn ident_code(c: CxView, s: State, name: Seq<char>) -> Typed {
    match ident(c, s, name) {
        None => Err(undefined(name)),
        Some(IdentView::Local(slot)) => Ok((load_value(s, slot), slot.ty)),
        Some(IdentView::Captured(field)) => Ok(
            (s.get_captured(c.this_fqcn, name, field), field.ty),
        ),
    }
}

/// Writes the value on top of the stack into the box in slot `index`, and
/// leaves it there.
pub open spec fn write_boxed(s: State, index: u16, inner: ExprTyView) -> State {
    let s1 = s.op(Opcode::Dup, 1);
    let tmp = s1.next_local;
    let s2 = s1.declare_scratch(inner).store(tmp).load(index).op(Opcode::Swap, 0);
    let (s3, field) = s2.box_value(inner);
    s3.op_u16(Opcode::SetField, field, -2).load(tmp)
}

/// Writes the value on top of the stack into a captured variable, and leaves
/// it there.
pub open spec fn write_captured(
    s: State,
    this_fqcn: Seq<char>,
    name: Seq<char>,
    f: CapturedView,
) -> State {
    let s1 = s.op(Opcode::Dup, 1);
    let tmp = s1.next_local;
    let s2 = s1.declare_scratch(f.ty).store(tmp).load(0);
    let s3 = if f.boxed {
        let (s4, holder) = s2.captured_field(this_fqcn, name, f);
        let s5 = s4.op_u16(Opcode::GetField, holder, 0).op(Opcode::Swap, 0);
        let (s6, value) = s5.box_value(f.ty);
        s6.op_u16(Opcode::SetField, value, -2)
    } else {
        let (s4, field) = s2.op(Opcode::Swap, 0).captured_field(this_fqcn, name, f);
        s4.op_u16(Opcode::SetField, field, -2)
    };
    s3.load(tmp)
}

/// Adds `delta` to the number in the box on top of the stack.
pub open spec fn count_in_box(s: State, inner: ExprTyView, delta: i16) -> State {
    let (s1, field) = s.op(Opcode::Dup, 1).box_value(inner);
    s1.op_u16(Opcode::GetField, field, 0).int_const(delta as i64).op(Opcode::IAdd, -1).op_u16(
        Opcode::SetField,
        field,
        -2,
    )
}

pub open spec fn only_int(ty: ExprTyView) -> Seq<char> {
    "'++'/'--' only supported on int, found "@ + shown(ty)
}

pub open spec fn count_method(delta: i16) -> Seq<char> {
    if delta > 0 {
        "operator++"@
    } else {
        "operator--"@
    }
}

/// Counts a variable up or down.
pub open spec fn incr_code(c: CxView, s: State, name: Seq<char>, delta: i16) -> Typed {
    match ident(c, s, name) {
        None => Err(undefined(name)),
        Some(IdentView::Captured(field)) => if !field.boxed {
            Err(
                "'++'/'--' on captured closure variable '"@ + name
                    + "' is not supported (not boxed)"@,
            )
        } else if field.ty !is Int {
            Err(only_int(field.ty))
        } else {
            let (s1, holder) = s.load(0).captured_field(c.this_fqcn, name, field);
            Ok(
                (
                    count_in_box(s1.op_u16(Opcode::GetField, holder, 0), field.ty, delta),
                    ExprTyView::Void,
                ),
            )
        },
        Some(IdentView::Local(slot)) => match slot.ty {
            ExprTyView::Object(fqcn) => {
                let found = method_found(
                    c.classes,
                    fqcn,
                    Wanted::Operator { name: count_method(delta), params: Seq::empty() },
                );
                match (slot.boxed, found) {
                    (None, Some((_, m))) => {
                        let (s1, _) = s.load(slot.index).operator_call(
                            fqcn,
                            count_method(delta),
                            Seq::empty(),
                            m.return_ty,
                        );
                        Ok((s1.store(slot.index), ExprTyView::Void))
                    },
                    _ => Err(
                        "'++'/'--' on '"@ + fqcn + "' requires an '"@ + count_method(delta)
                            + "' overload"@,
                    ),
                }
            },
            ExprTyView::Int => match slot.boxed {
                Some(inner) => Ok(
                    (count_in_box(s.load(slot.index), inner, delta), ExprTyView::Void),
                ),
                None => Ok((s.op_iinc(slot.index, delta), ExprTyView::Void)),
            },
            _ => Err(only_int(slot.ty)),
        },
    }
}

/// The overload of a compound assignment that `name = name op rhs` means.
pub open spec fn compound_overload(
    c: CxView,
    s: State,
    name: Seq<char>,
    slot: SlotView,
    value: Expr,
) -> Option<OverloadView> {
    match value {
        Expr::Binary(op, inner, rhs) => if slot.boxed is None && names_same(*inner, name) {
            match (slot.ty, compound_method(op), peeked(c, s, *rhs)) {
                (ExprTyView::Object(fqcn), Some(method), Some(t)) => overload_for(
                    c,
                    fqcn,
                    method,
                    t,
                ),
                _ => None,
            }
        } else {
            None
        },
        _ => None,
    }
}

pub open spec fn names_same(e: Expr, name: Seq<char>) -> bool {
    e matches Expr::Ident(n) && n@ == name
}

pub fn find_compound_overload(
    c: Cx,
    em: &Emitter,
    name: &str,
    slot: &LocalSlot,
    value: &Expr,
) -> (r: Option<Overload>)
    ensures
        opt_view(r) == compound_overload(c@, em@, name@, slot@, *value),
{
    if let Expr::Binary(op, inner, rhs) = value {
        let same = match &**inner {
            Expr::Ident(n) => str_eq(n.as_str(), name),
            _ => false,
        };
        if slot.boxed.is_none() && same {
            if let ExprTy::Object(fqcn) = &slot.ty {
                if let Some(method) = compound_operator_method_name(*op) {
                    if let Some(t) = peek_type(c, em, rhs) {
                        return find_overload(c, fqcn.as_str(), method, &t);
                    }
                }
            }
        }
    }
    None
}

/// The static field that `target.name` means where `target` spells a class
/// that is no enum, and the class that declares it.
pub open spec fn static_field(c: CxView, s: State, target: Expr, name: Seq<char>) -> Option<
    (Seq<char>, FieldInfoView),
> {
    match path_of(target) {
        Some(path) => if ident(c, s, head_text(path, '.')) is Some {
            None
        } else {
            match field_found(c.classes, class_name(c, path), name) {
                Some((owner, f)) => if f.is_static && !enum_class(c, owner) {
                    Some((owner, f))
                } else {
                    None
                },
                None => None,
            }
        },
        None => None,
    }
}

pub open spec fn enum_class(c: CxView, fqcn: Seq<char>) -> bool {
    bound_to(c.classes, fqcn) matches Some(info) && info.is_enum
}

pub fn is_enum_class(c: Cx, fqcn: &str) -> (r: bool)
    ensures
        r == enum_class(c@, fqcn@),
{
    match c.unit.classes.get(fqcn) {
        Some(info) => info.is_enum,
        None => false,
    }
}

pub fn find_static_field<'u>(c: Cx<'u>, em: &Emitter, target: &Expr, name: &str) -> (r: Option<
    (String, &'u FieldInfo<'u>),
>)
    ensures
        owned_field(r) == static_field(c@, em@, *target, name@),
{
    let path = match dotted_path(target) {
        Some(path) => path,
        None => return None,
    };
    if resolve_ident(c, em, head(path.as_str(), '.').as_str()).is_some() {
        return None;
    }
    match find_field_owner(
        c.unit.classes,
        resolve_class_name(c, path.as_str()).as_str(),
        name,
    ) {
        Some((owner, f)) => if f.is_static && !is_enum_class(c, owner.as_str()) {
            Some((owner, f))
        } else {
            None
        },
        None => None,
    }
}

/// The enum and the field that `leading.name` means.
pub open spec fn enum_case(c: CxView, leading: Seq<char>, name: Seq<char>) -> Option<
    (Seq<char>, FieldInfoView),
> {
    let fqcn = class_name(c, leading);
    match bound_to(c.classes, fqcn) {
        Some(info) => {
            let k = field_at(info.fields, name, 0);
            if info.is_enum && k < info.fields.len() {
                Some((fqcn, info.fields[k]))
            } else {
                None
            }
        },
        None => None,
    }
}

pub fn find_enum_case<'u>(c: Cx<'u>, leading: &str, name: &str) -> (r: Option<
    (String, &'u FieldInfo<'u>),
>)
    ensures
        owned_field(r) == enum_case(c@, leading@, name@),
{
    let fqcn = resolve_class_name(c, leading);
    let info: &'u ClassInfo<'u> = match c.unit.classes.get(fqcn.as_str()) {
        Some(info) => info,
        None => return None,
    };
    if !info.is_enum {
        return None;
    }
    let ghost fs = field_infos(info.fields@);
    let mut i: usize = 0;
    while i < info.fields.len()
        invariant
            i <= info.fields@.len(),
            fs == field_infos(info.fields@),
            bound_to(c@.classes, fqcn@) == Some(info@),
            fqcn@ == class_name(c@, leading@),
            info.is_enum,
            field_at(fs, name@, 0) == field_at(fs, name@, i as int),
        decreases info.fields@.len() - i,
    {
        let f: &'u FieldInfo<'u> = &info.fields[i];
        assert(fs[i as int] == f@);
        if str_eq(f.name.as_str(), name) {
            return Some((fqcn, f));
        }
        i = i + 1;
    }
    None
}

/// What `if (name instanceof C)` narrows: the variable, its type inside, and
/// its type outside.
pub open spec fn narrowing(c: CxView, s: State, cond: Expr) -> Option<
    (Seq<char>, ExprTyView, ExprTyView),
> {
    match cond {
        Expr::InstanceOf(target, class) => match *target {
            Expr::Ident(name) => match s.lookup(name@) {
                Some(slot) => Some(
                    (name@, ExprTyView::Object(class_name(c, class@)), slot.ty),
                ),
                None => None,
            },
            _ => None,
        },
        _ => None,
    }
}

/// The state in which `narrowing` holds.
pub open spec fn narrowed(s: State, n: Option<(Seq<char>, ExprTyView, ExprTyView)>) -> State {
    match n {
        Some((name, inside, _)) => s.retype(name, inside),
        None => s,
    }
}

/// The state in which it does no longer.
pub open spec fn widened_back(s: State, n: Option<(Seq<char>, ExprTyView, ExprTyView)>) -> State {
    match n {
        Some((name, _, outside)) => s.retype(name, outside),
        None => s,
    }
}

/// A variable that a closure captures: its name, the field that is to hold
/// it, and the slot of the enclosing body it comes from, unless that body
/// captured it itself.
#[derive(Debug)]
pub struct Capture {
    pub name: String,
    pub field: CapturedField,
    pub local: Option<u16>,
}

pub struct CaptureView {
    pub name: Seq<char>,
    pub field: CapturedView,
    pub local: Option<u16>,
}

impl View for Capture {
    type V = CaptureView;

    open spec fn view(&self) -> CaptureView {
        CaptureView { name: self.name@, field: self.field@, local: self.local }
    }
}

pub open spec fn capture_views(v: Seq<Capture>) -> Seq<CaptureView> {
    v.map_values(|c: Capture| c@)
}

/// How a name is captured, if it is a variable of the enclosing body.
pub open spec fn capture(c: CxView, s: State, name: Seq<char>) -> Option<CaptureView> {
    match ident(c, s, name) {
        Some(IdentView::Local(slot)) => Some(
            CaptureView {
                name,
                field: CapturedView { ty: slot.ty, boxed: slot.boxed is Some },
                local: Some(slot.index),
            },
        ),
        Some(IdentView::Captured(field)) => Some(CaptureView { name, field, local: None }),
        None => None,
    }
}

/// The captures among the first `n` of `names`.
pub open spec fn captured_of(c: CxView, s: State, names: Seq<Seq<char>>, n: int) -> Seq<
    CaptureView,
>
    decreases n,
{
    if n <= 0 {
        Seq::empty()
    } else {
        match capture(c, s, names[n - 1]) {
            Some(cap) => captured_of(c, s, names, n - 1).push(cap),
            None => captured_of(c, s, names, n - 1),
        }
    }
}

/// The variables that a closure captures, in the order of their names.
pub open spec fn captures(c: CxView, s: State, params: Seq<Param>, body: ClosureBody) -> Seq<
    CaptureView,
> {
    let names = ascending(
        in_body(body, Occurs::Referenced).difference(param_name_set(params)),
    );
    captured_of(c, s, names, names.len() as int)
}

pub fn find_captures(c: Cx, em: &Emitter, params: &Vec<Param>, body: &ClosureBody) -> (r: Vec<
    Capture,
>)
    ensures
        capture_views(r@) == captures(c@, em@, params@, *body),
{
    let names = referenced_names(body).difference(&param_set(params)).sorted();
    let ghost ns = texts(names@);
    let mut out: Vec<Capture> = Vec::new();
    let mut i: usize = 0;
    assert(capture_views(out@) =~= captured_of(c@, em@, ns, 0));
    while i < names.len()
        invariant
            i <= names@.len(),
            ns == texts(names@),
            capture_views(out@) == captured_of(c@, em@, ns, i as int),
        decreases names@.len() - i,
    {
        assert(ns[i as int] == names@[i as int]@);
        let ghost before = capture_views(out@);
        match resolve_ident(c, em, names[i].as_str()) {
            Some(IdentRef::Local(slot)) => {
                let cap = Capture {
                    name: names[i].clone(),
                    field: CapturedField { ty: slot.ty, boxed: slot.boxed.is_some() },
                    local: Some(slot.index),
                };
                out.push(cap);
                assert(capture_views(out@) =~= before.push(cap@));
            },
            Some(IdentRef::Captured(field)) => {
                let cap = Capture { name: names[i].clone(), field, local: None };
                out.push(cap);
                assert(capture_views(out@) =~= before.push(cap@));
            },
            None => {},
        }
        i = i + 1;
    }
    out
}

/// The fields of a closure's class, by name.
pub open spec fn field_table(caps: Seq<CaptureView>) -> Seq<(Seq<char>, CapturedView)> {
    caps.map_values(|cap: CaptureView| (cap.name, cap.field))
}

pub fn captured_table(caps: &Vec<Capture>) -> (r: NameMap<CapturedField>)
    ensures
        r@ == field_table(capture_views(caps@)),
{
    let ghost cs = capture_views(caps@);
    let mut out: NameMap<CapturedField> = NameMap::new();
    let mut i: usize = 0;
    assert(out@ =~= field_table(cs).take(0));
    while i < caps.len()
        invariant
            i <= caps@.len(),
            cs == capture_views(caps@),
            out@ == field_table(cs).take(i as int),
        decreases caps@.len() - i,
    {
        assert(cs[i as int] == caps@[i as int]@);
        out.insert(
            caps[i].name.clone(),
            CapturedField { ty: caps[i].field.ty.copy(), boxed: caps[i].field.boxed },
        );
        assert(out@ =~= field_table(cs).take(i as int + 1));
        i = i + 1;
    }
    assert(field_table(cs).take(i as int) =~= field_table(cs));
    out
}

/// The field descriptors of the first `n` captures, entered in the pool `cp`.
pub open spec fn capture_fields(cp: Seq<EntryView>, caps: Seq<CaptureView>, n: int) -> (
    Seq<EntryView>,
    Seq<FieldDescriptor>,
)
    decreases n,
{
    if n <= 0 {
        (cp, Seq::empty())
    } else {
        let (cp0, fields) = capture_fields(cp, caps, n - 1);
        let cap = caps[n - 1];
        let (cp1, name_index) = with_utf8(cp0, cap.name);
        let (cp2, type_index) = with_type_desc(
            cp1,
            type_descriptor_text(as_type(held_as(cap.field.ty, cap.field.boxed))),
        );
        (cp2, fields.push(FieldDescriptor { flags: field_flags::PUBLIC, name_index, type_index }))
    }
}

pub fn add_capture_fields(cp: &mut ConstantPool, caps: &Vec<Capture>) -> (r: Vec<FieldDescriptor>)
    ensures
        (final(cp)@, r@) == capture_fields(
            old(cp)@,
            capture_views(caps@),
            caps@.len() as int,
        ),
        extended(old(cp)@, final(cp)@),
{
    let ghost cs = capture_views(caps@);
    let ghost cp0 = cp@;
    proof {
        extended_self(cp0);
    }
    let mut out: Vec<FieldDescriptor> = Vec::new();
    let mut i: usize = 0;
    assert(out@ =~= Seq::<FieldDescriptor>::empty());
    while i < caps.len()
        invariant
            i <= caps@.len(),
            cp0 == old(cp)@,
            cs == capture_views(caps@),
            (cp@, out@) == capture_fields(cp0, cs, i as int),
            extended(cp0, cp@),
        decreases caps@.len() - i,
    {
        assert(cs[i as int] == caps@[i as int]@);
        let ghost before = cp@;
        let name_index: u16 = cp.add_utf8(caps[i].name.as_str());
        let ghost mid = cp@;
        let ty = expr_ty_to_type(&physical_ty(&caps[i].field.ty, caps[i].field.boxed));
        let desc = type_descriptor(&ty);
        let type_index: u16 = cp.add_type_desc(desc.as_str());
        proof {
            pool_grows(before, caps@[i as int].name@);
            pool_grows(mid, desc@);
            extended_trans(cp0, before, mid);
            extended_trans(cp0, mid, cp@);
        }
        out.push(FieldDescriptor { flags: field_flags::PUBLIC, name_index, type_index });
        i = i + 1;
    }
    out
}

/// Copies the first `n` captures into the closure object on the stack.
pub open spec fn copied(c: CxView, s: State, caps: Seq<CaptureView>, n: int) -> State
    decreases n,
{
    if n <= 0 {
        s
    } else {
        let s1 = copied(c, s, caps, n - 1).op(Opcode::Dup, 1);
        let cap = caps[n - 1];
        let s2 = match cap.local {
            Some(index) => s1.load(index),
            None => s1.get_captured_raw(c.this_fqcn, cap.name, cap.field),
        };
        let (s3, field) = s2.captured_field(c.this_fqcn, cap.name, cap.field);
        s3.op_u16(Opcode::SetField, field, -2)
    }
}

/// Declares the first `n` parameters, a `ref` one as the box it is passed in.
pub open spec fn declared(
    s: State,
    names: Seq<Seq<char>>,
    tys: Seq<ExprTyView>,
    refs: Seq<bool>,
    n: int,
) -> State
    decreases n,
{
    if n <= 0 {
        s
    } else {
        let s1 = declared(s, names, tys, refs, n - 1);
        if refs[n - 1] {
            s1.declare_ref(names[n - 1], tys[n - 1])
        } else {
            s1.declare_local(names[n - 1], tys[n - 1])
        }
    }
}

/// Moves those of the first `n` parameters that need it into boxes.
pub open spec fn reboxed(
    s: State,
    boxed: Set<Seq<char>>,
    names: Seq<Seq<char>>,
    tys: Seq<ExprTyView>,
    refs: Seq<bool>,
    n: int,
) -> State
    decreases n,
{
    if n <= 0 {
        s
    } else {
        let s1 = reboxed(s, boxed, names, tys, refs, n - 1);
        if !refs[n - 1] && boxed.contains(names[n - 1]) {
            s1.rebox(names[n - 1], tys[n - 1])
        } else {
            s1
        }
    }
}

impl Emitter {
    pub fn emit_load_value(&mut self, slot: &LocalSlot)
        ensures
            final(self)@ == load_value(old(self)@, slot@),
            grows(old(self)@, final(self)@),
            nests(old(self)@, final(self)@),
    {
        self.emit_load(slot.index);
        if let Some(inner_ty) = &slot.boxed {
            let field: u16 = self.box_value_field_ref(inner_ty);
            self.op_u16(Opcode::GetField, field, 0);
        }
    }

    pub fn compile_ident(&mut self, c: Cx, name: &str) -> (r: Result<ExprTy, CodegenError>)
        ensures
            typed_as(r, final(self)@, ident_code(c@, old(self)@, name@)),
            grows(old(self)@, final(self)@),
            r is Ok ==> nests(old(self)@, final(self)@),
    {
        match resolve_ident(c, self, name) {
            None => Err(undefined_variable(name)),
            Some(IdentRef::Local(slot)) => {
                self.emit_load_value(&slot);
                Ok(slot.ty)
            },
            Some(IdentRef::Captured(field)) => {
                self.emit_get_captured_field(c.unit.this_fqcn.as_str(), name, &field);
                Ok(field.ty)
            },
        }
    }

    pub fn emit_write_boxed(&mut self, index: u16, inner_ty: &ExprTy)
        ensures
            final(self)@ == write_boxed(old(self)@, index, inner_ty@),
            grows(old(self)@, final(self)@),
            nests(old(self)@, final(self)@),
    {
        self.op(Opcode::Dup, 1);
        let tmp: u16 = self.declare_scratch_local(inner_ty.copy());
        self.emit_store(tmp);
        self.emit_load(index);
        self.op(Opcode::Swap, 0);
        let field: u16 = self.box_value_field_ref(inner_ty);
        self.op_u16(Opcode::SetField, field, -2);
        self.emit_load(tmp);
    }

    pub fn emit_write_captured(&mut self, this_fqcn: &str, name: &str, field: &CapturedField)
        ensures
            final(self)@ == write_captured(old(self)@, this_fqcn@, name@, field@),
            grows(old(self)@, final(self)@),
            nests(old(self)@, final(self)@),
    {
        self.op(Opcode::Dup, 1);
        let tmp: u16 = self.declare_scratch_local(field.ty.copy());
        self.emit_store(tmp);
        self.emit_load(0);
        if field.boxed {
            let holder: u16 = self.captured_field_ref(this_fqcn, name, field);
            self.op_u16(Opcode::GetField, holder, 0);
            self.op(Opcode::Swap, 0);
            let value: u16 = self.box_value_field_ref(&field.ty);
            self.op_u16(Opcode::SetField, value, -2);
        } else {
            self.op(Opcode::Swap, 0);
            let r: u16 = self.captured_field_ref(this_fqcn, name, field);
            self.op_u16(Opcode::SetField, r, -2);
        }
        self.emit_load(tmp);
    }

    fn emit_count_in_box(&mut self, inner_ty: &ExprTy, delta: i16)
        ensures
            final(self)@ == count_in_box(old(self)@, inner_ty@, delta),
            grows(old(self)@, final(self)@),
            nests(old(self)@, final(self)@),
    {
        self.op(Opcode::Dup, 1);
        let field: u16 = self.box_value_field_ref(inner_ty);
        self.op_u16(Opcode::GetField, field, 0);
        self.emit_int_const(delta as i64);
        self.op(Opcode::IAdd, -1);
        self.op_u16(Opcode::SetField, field, -2);
    }

    pub fn compile_incr(&mut self, c: Cx, name: &str, delta: i16) -> (r: Result<
        ExprTy,
        CodegenError,
    >)
        ensures
            typed_as(r, final(self)@, incr_code(c@, old(self)@, name@, delta)),
            grows(old(self)@, final(self)@),
            r is Ok ==> nests(old(self)@, final(self)@),
    {
        let slot = match resolve_ident(c, self, name) {
            None => return Err(undefined_variable(name)),
            Some(IdentRef::Captured(field)) => {
                if !field.boxed {
                    return Err(
                        CodegenError::Unsupported(
                            cat3(
                                "'++'/'--' on captured closure variable '",
                                name,
                                "' is not supported (not boxed)",
                            ),
                        ),
                    );
                }
                if !matches!(field.ty, ExprTy::Int) {
                    return Err(
                        CodegenError::Unsupported(
                            cat2(
                                "'++'/'--' only supported on int, found ",
                                show(&field.ty).as_str(),
                            ),
                        ),
                    );
                }
                self.emit_load(0);
                let holder: u16 = self.captured_field_ref(
                    c.unit.this_fqcn.as_str(),
                    name,
                    &field,
                );
                self.op_u16(Opcode::GetField, holder, 0);
                self.emit_count_in_box(&field.ty, delta);
                return Ok(ExprTy::Void);
            },
            Some(IdentRef::Local(slot)) => slot,
        };
        match &slot.ty {
            ExprTy::Object(fqcn) => {
                let method_name: &str = if delta > 0 {
                    "operator++"
                } else {
                    "operator--"
                };
                if slot.boxed.is_none() {
                    if let Some((_, m)) = find_operator_method(
                        c.unit.classes,
                        fqcn.as_str(),
                        method_name,
                        &types0(),
                    ) {
                        self.emit_load(slot.index);
                        self.emit_operator_call(
                            fqcn.as_str(),
                            method_name,
                            &types0(),
                            &m.return_ty,
                        );
                        self.emit_store(slot.index);
                        return Ok(ExprTy::Void);
                    }
                }
                Err(
                    CodegenError::Unsupported(
                        cat5(
                            "'++'/'--' on '",
                            fqcn.as_str(),
                            "' requires an '",
                            method_name,
                            "' overload",
                        ),
                    ),
                )
            },
            ExprTy::Int => {
                match &slot.boxed {
                    Some(inner_ty) => {
                        self.emit_load(slot.index);
                        self.emit_count_in_box(inner_ty, delta);
                    },
                    None => self.op_iinc(slot.index, delta),
                }
                Ok(ExprTy::Void)
            },
            other => Err(
                CodegenError::Unsupported(
                    cat2("'++'/'--' only supported on int, found ", show(other).as_str()),
                ),
            ),
        }
    }

    /// Narrows the variable that an `instanceof` condition tests, and says
    /// what it was before.
    pub fn narrow(&mut self, c: Cx, cond: &Expr) -> (r: Option<(String, ExprTy)>)
        ensures
            final(self)@ == narrowed(old(self)@, narrowing(c@, old(self)@, *cond)),
            match r {
                Some((name, ty)) => narrowing(c@, old(self)@, *cond) matches Some((n, _, t)) && n
                    == name@ && t == ty@,
                None => narrowing(c@, old(self)@, *cond) is None,
            },
            grows(old(self)@, final(self)@),
            nests(old(self)@, final(self)@),
    {
        if let Expr::InstanceOf(target, class) = cond {
            if let Expr::Ident(name) = &**target {
                let fqcn = resolve_class_name(c, class.as_str());
                return match self.lookup_local(name.as_str()) {
                    Some(slot) => {
                        self.set_local_ty(name.as_str(), ExprTy::Object(fqcn));
                        Some((name.clone(), slot.ty))
                    },
                    None => None,
                };
            }
        }
        None
    }

    pub fn emit_captures(&mut self, c: Cx, caps: &Vec<Capture>)
        ensures
            final(self)@ == copied(
                c@,
                old(self)@,
                capture_views(caps@),
                caps@.len() as int,
            ),
            grows(old(self)@, final(self)@),
            nests(old(self)@, final(self)@),
    {
        let ghost cs = capture_views(caps@);
        let ghost s0 = self@;
        let mut i: usize = 0;
        while i < caps.len()
            invariant
                grows(old(self)@, self@),
                nests(old(self)@, self@),
                i <= caps@.len(),
                s0 == old(self)@,
                cs == capture_views(caps@),
                self@ == copied(c@, s0, cs, i as int),
            decreases caps@.len() - i,
        {
            assert(cs[i as int] == caps@[i as int]@);
            let cap = &caps[i];
            self.op(Opcode::Dup, 1);
            match cap.local {
                Some(index) => self.emit_load(index),
                None => self.emit_get_captured_field_raw(
                    c.unit.this_fqcn.as_str(),
                    cap.name.as_str(),
                    &cap.field,
                ),
            }
            let field: u16 = self.captured_field_ref(
                c.unit.this_fqcn.as_str(),
                cap.name.as_str(),
                &cap.field,
            );
            self.op_u16(Opcode::SetField, field, -2);
            i = i + 1;
        }
    }

    pub(crate) fn declare_params(&mut self, names: &Vec<String>, tys: &Vec<ExprTy>, refs: &Vec<bool>)
        requires
            names@.len() == tys@.len(),
            names@.len() == refs@.len(),
        ensures
            final(self)@ == declared(
                old(self)@,
                texts(names@),
                expr_ty_views(tys@),
                refs@,
                names@.len() as int,
            ),
            grows(old(self)@, final(self)@),
            nests(old(self)@, final(self)@),
    {
        let ghost s0 = self@;
        let ghost ns = texts(names@);
        let ghost ts = expr_ty_views(tys@);
        let mut i: usize = 0;
        while i < names.len()
            invariant
                grows(old(self)@, self@),
                nests(old(self)@, self@),
                i <= names@.len(),
                names@.len() == tys@.len(),
                names@.len() == refs@.len(),
                s0 == old(self)@,
                ns == texts(names@),
                ts == expr_ty_views(tys@),
                self@ == declared(s0, ns, ts, refs@, i as int),
            decreases names@.len() - i,
        {
            assert(ns[i as int] == names@[i as int]@);
            assert(ts[i as int] == tys@[i as int]@);
            if refs[i] {
                self.declare_ref_param(names[i].clone(), tys[i].copy());
            } else {
                self.declare_local(names[i].clone(), tys[i].copy());
            }
            i = i + 1;
        }
    }

    pub(crate) fn rebox_params(
        &mut self,
        boxed: &NameSet,
        names: &Vec<String>,
        tys: &Vec<ExprTy>,
        refs: &Vec<bool>,
    )
        requires
            names@.len() == tys@.len(),
            names@.len() == refs@.len(),
        ensures
            final(self)@ == reboxed(
                old(self)@,
                boxed@,
                texts(names@),
                expr_ty_views(tys@),
                refs@,
                names@.len() as int,
            ),
            grows(old(self)@, final(self)@),
            nests(old(self)@, final(self)@),
    {
        let ghost s0 = self@;
        let ghost ns = texts(names@);
        let ghost ts = expr_ty_views(tys@);
        let mut i: usize = 0;
        while i < names.len()
            invariant
                grows(old(self)@, self@),
                nests(old(self)@, self@),
                i <= names@.len(),
                names@.len() == tys@.len(),
                names@.len() == refs@.len(),
                s0 == old(self)@,
                ns == texts(names@),
                ts == expr_ty_views(tys@),
                self@ == reboxed(s0, boxed@, ns, ts, refs@, i as int),
            decreases names@.len() - i,
        {
            assert(ns[i as int] == names@[i as int]@);
            assert(ts[i as int] == tys@[i as int]@);
            if !refs[i] && boxed.contains(names[i].as_str()) {
                self.rebox_local(names[i].as_str(), tys[i].copy());
            }
            i = i + 1;
        }
    }
}

} // verus!
