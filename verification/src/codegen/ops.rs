//! Short instruction sequences that the compilation of expressions and
//! statements is made of.

use crate::ast::{clone_type, type_views, BinOp, Type, TypeView};
use crate::bytecode::opcode::Opcode;
use crate::class_table::{field_found, find_field, parent_of};
use crate::codegen::emitter::{
    positions, CapturedField, CapturedView, Cx, CxView, Emitter, LocalSlot, SlotView, State,
};
use crate::codegen::error::CodegenError;
use crate::codegen::expr_ty::{
    as_type, as_types, box_fqcn, box_name, closure_shape_eq, expr_ty, expr_ty_of, expr_ty_to_type,
    expr_ty_views, expr_tys_to_types, same_shape, show, shown, ExprTy, ExprTyView,
};
use crate::codegen::growth::grows;
use crate::codegen::nesting::nests;
use crate::codegen::type_desc::{
    method_descriptor, method_descriptor_text, type_descriptor, type_descriptor_text,
};
use crate::names::{bound_to, opt_view};
use crate::native_generics::{method_signature, native_method_sig};
use crate::resolve::{resolve_name, resolved_name};
use crate::text::{cat3, cat4, cat5, cat6, cat7, decimal, decimal_text, owned};
use vstd::prelude::*;

verus! {

broadcast use {crate::codegen::growth::group_growth, crate::codegen::nesting::group_nesting};

/// What compiling an expression comes to: the state after it and its type,
/// or what is not supported.
pub type Typed = Result<(State, ExprTyView), Seq<char>>;

/// What compiling a statement comes to.
pub type Done = Result<State, Seq<char>>;

/// That `r`, with the emitter in state `s`, is as `want` says. Of the emitter
/// after an error nothing is said.
pub open spec fn typed_as(r: Result<ExprTy, CodegenError>, s: State, want: Typed) -> bool {
    match r {
        Ok(t) => want == Typed::Ok((s, t@)),
        Err(e) => want == Typed::Err(e@),
    }
}

pub open spec fn done_as(r: Result<(), CodegenError>, s: State, want: Done) -> bool {
    match r {
        Ok(_) => want == Done::Ok(s),
        Err(e) => want == Done::Err(e@),
    }
}

/// The message of what is not supported.
pub fn unsupported(what: &str) -> (r: CodegenError)
    ensures
        r@ == what@,
{
    CodegenError::Unsupported(owned(what))
}

/// What a name means as a value: a local variable, or, in a closure, a
/// variable that it captured.
#[derive(Debug)]
pub enum IdentRef {
    Local(LocalSlot),
    Captured(CapturedField),
}

pub enum IdentView {
    Local(SlotView),
    Captured(CapturedView),
}

impl View for IdentRef {
    type V = IdentView;

    open spec fn view(&self) -> IdentView {
        match *self {
            IdentRef::Local(slot) => IdentView::Local(slot@),
            IdentRef::Captured(field) => IdentView::Captured(field@),
        }
    }
}

pub open spec fn ident(c: CxView, s: State, name: Seq<char>) -> Option<IdentView> {
    match s.lookup(name) {
        Some(slot) => Some(IdentView::Local(slot)),
        None => match bound_to(c.captured_fields, name) {
            Some(field) => Some(IdentView::Captured(field)),
            None => None,
        },
    }
}

pub open spec fn undefined(name: Seq<char>) -> Seq<char> {
    "undefined variable '"@ + name + "'"@
}

pub fn undefined_variable(name: &str) -> (r: CodegenError)
    ensures
        r@ == undefined(name@),
{
    CodegenError::Unsupported(cat3("undefined variable '", name, "'"))
}

pub fn resolve_ident(c: Cx, em: &Emitter, name: &str) -> (r: Option<IdentRef>)
    ensures
        opt_view(r) == ident(c@, em@, name@),
{
    match em.lookup_local(name) {
        Some(slot) => Some(IdentRef::Local(slot)),
        None => match c.unit.captured_fields.get(name) {
            Some(field) => Some(
                IdentRef::Captured(CapturedField { ty: field.ty.copy(), boxed: field.boxed }),
            ),
            None => None,
        },
    }
}

/// The full name of the class that `name` means here.
pub open spec fn class_name(c: CxView, name: Seq<char>) -> Seq<char> {
    resolved_name(name, c.imports)
}

pub fn resolve_class_name(c: Cx, name: &str) -> (r: String)
    ensures
        r@ == class_name(c@, name@),
{
    resolve_name(name, c.unit.imports)
}

pub open spec fn superclass(c: CxView) -> Result<Seq<char>, Seq<char>> {
    match parent_of(c.classes, c.this_fqcn) {
        Some(p) => Ok(p),
        None => Err("'super' used in class '"@ + c.this_fqcn + "' with no superclass"@),
    }
}

pub fn superclass_fqcn(c: Cx) -> (r: Result<String, CodegenError>)
    ensures
        match r {
            Ok(p) => superclass(c@) == Result::<Seq<char>, Seq<char>>::Ok(p@),
            Err(e) => superclass(c@) == Result::<Seq<char>, Seq<char>>::Err(e@),
        },
{
    if let Some(info) = c.unit.classes.get(c.unit.this_fqcn.as_str()) {
        if let Some(p) = &info.extends {
            return Ok(p.clone());
        }
    }
    Err(
        CodegenError::Unsupported(
            cat3("'super' used in class '", c.unit.this_fqcn.as_str(), "' with no superclass"),
        ),
    )
}

/// The declared type of a field.
pub open spec fn field_type(c: CxView, fqcn: Seq<char>, name: Seq<char>) -> Result<
    TypeView,
    Seq<char>,
> {
    match field_found(c.classes, fqcn, name) {
        Some((_, f)) => Ok(f.ty),
        None => Err("unknown field '"@ + name + "' on '"@ + fqcn + "'"@),
    }
}

pub fn lookup_field(c: Cx, fqcn: &str, name: &str) -> (r: Result<Type, CodegenError>)
    ensures
        match r {
            Ok(t) => field_type(c@, fqcn@, name@) == Result::<TypeView, Seq<char>>::Ok(t@),
            Err(e) => field_type(c@, fqcn@, name@) == Result::<TypeView, Seq<char>>::Err(e@),
        },
{
    match find_field(c.unit.classes, fqcn, name) {
        Some(f) => Ok(clone_type(&f.ty)),
        None => Err(
            CodegenError::Unsupported(cat5("unknown field '", name, "' on '", fqcn, "'")),
        ),
    }
}

/// What a call leaves more on the stack than it found: its result, less its
/// arguments and receiver.
pub open spec fn call_delta(void: bool, argc: nat, receiver: bool) -> i32 {
    let result: i32 = if void {
        0
    } else {
        1
    };
    let this: i32 = if receiver {
        1
    } else {
        0
    };
    result.wrapping_sub(argc as i32).wrapping_sub(this)
}

pub fn delta_of_call(void: bool, argc: usize, receiver: bool) -> (r: i32)
    ensures
        r == call_delta(void, argc as nat, receiver),
{
    let result: i32 = if void {
        0
    } else {
        1
    };
    let this: i32 = if receiver {
        1
    } else {
        0
    };
    let n: i32 = #[verifier::truncate]
    (argc as i32);
    result.wrapping_sub(n).wrapping_sub(this)
}

pub open spec fn arithmetic(op: BinOp, ty: ExprTyView) -> Opcode {
    match (op, ty) {
        (BinOp::Add, ExprTyView::Float) => Opcode::FAdd,
        (BinOp::Sub, ExprTyView::Float) => Opcode::FSub,
        (BinOp::Mul, ExprTyView::Float) => Opcode::FMul,
        (BinOp::Div, ExprTyView::Float) => Opcode::FDiv,
        (BinOp::Mod, ExprTyView::Float) => Opcode::FMod,
        (BinOp::Add, _) => Opcode::IAdd,
        (BinOp::Sub, _) => Opcode::ISub,
        (BinOp::Mul, _) => Opcode::IMul,
        (BinOp::Div, _) => Opcode::IDiv,
        _ => Opcode::IMod,
    }
}

/// The instruction for an arithmetic operator on two values of type `ty`.
pub fn arithmetic_opcode(op: BinOp, ty: &ExprTy) -> (r: Opcode)
    ensures
        r == arithmetic(op, ty@),
{
    match (op, ty) {
        (BinOp::Add, ExprTy::Float) => Opcode::FAdd,
        (BinOp::Sub, ExprTy::Float) => Opcode::FSub,
        (BinOp::Mul, ExprTy::Float) => Opcode::FMul,
        (BinOp::Div, ExprTy::Float) => Opcode::FDiv,
        (BinOp::Mod, ExprTy::Float) => Opcode::FMod,
        (BinOp::Add, _) => Opcode::IAdd,
        (BinOp::Sub, _) => Opcode::ISub,
        (BinOp::Mul, _) => Opcode::IMul,
        (BinOp::Div, _) => Opcode::IDiv,
        _ => Opcode::IMod,
    }
}

pub open spec fn number(t: ExprTyView) -> bool {
    t is Int || t is Float || t is Byte
}

pub fn is_numeric_ty(ty: &ExprTy) -> (r: bool)
    ensures
        r == number(ty@),
{
    matches!(ty, ExprTy::Int | ExprTy::Float | ExprTy::Byte)
}

/// The method that overloads an operator, if it can be overloaded.
pub open spec fn operator_method(op: BinOp) -> Option<Seq<char>> {
    match op {
        BinOp::Add => Some("operator+"@),
        BinOp::Sub => Some("operator-"@),
        BinOp::Mul => Some("operator*"@),
        BinOp::Div => Some("operator/"@),
        BinOp::Mod => Some("operator%"@),
        BinOp::Lt => Some("operator<"@),
        BinOp::Gt => Some("operator>"@),
        BinOp::Le => Some("operator<="@),
        BinOp::Ge => Some("operator>="@),
        BinOp::Cmp3 => Some("operator<=>"@),
        _ => None,
    }
}

pub open spec fn opt_str(o: Option<&str>) -> Option<Seq<char>> {
    match o {
        Some(s) => Some(s@),
        None => None,
    }
}

pub fn operator_method_name(op: BinOp) -> (r: Option<&'static str>)
    ensures
        opt_str(r) == operator_method(op),
{
    match op {
        BinOp::Add => Some("operator+"),
        BinOp::Sub => Some("operator-"),
        BinOp::Mul => Some("operator*"),
        BinOp::Div => Some("operator/"),
        BinOp::Mod => Some("operator%"),
        BinOp::Lt => Some("operator<"),
        BinOp::Gt => Some("operator>"),
        BinOp::Le => Some("operator<="),
        BinOp::Ge => Some("operator>="),
        BinOp::Cmp3 => Some("operator<=>"),
        _ => None,
    }
}

/// The method that overloads an operator joined with assignment.
pub open spec fn compound_method(op: BinOp) -> Option<Seq<char>> {
    match op {
        BinOp::Add => Some("operator+="@),
        BinOp::Sub => Some("operator-="@),
        BinOp::Mul => Some("operator*="@),
        BinOp::Div => Some("operator/="@),
        BinOp::Mod => Some("operator%="@),
        _ => None,
    }
}

pub fn compound_operator_method_name(op: BinOp) -> (r: Option<&'static str>)
    ensures
        opt_str(r) == compound_method(op),
{
    match op {
        BinOp::Add => Some("operator+="),
        BinOp::Sub => Some("operator-="),
        BinOp::Mul => Some("operator*="),
        BinOp::Div => Some("operator/="),
        BinOp::Mod => Some("operator%="),
        _ => None,
    }
}

impl State {
    pub open spec fn int_const(self, v: i64) -> State {
        if v == 0 {
            self.op(Opcode::ConstIZero, 1)
        } else if v == 1 {
            self.op(Opcode::ConstIOne, 1)
        } else if -128 <= v <= 127 {
            self.op_i8(Opcode::BiPush, v as i8, 1)
        } else if -32768 <= v <= 32767 {
            self.op_u16(Opcode::SiPush, (v as i16) as u16, 1)
        } else {
            let (s, i) = self.int_entry(v);
            s.op_u16(Opcode::Ldc, i, 1)
        }
    }

    /// Both zeros are the same constant.
    pub open spec fn float_const(self, bits: u64) -> State {
        if bits == 0 || bits == 0x8000_0000_0000_0000 {
            self.op(Opcode::ConstFZero, 1)
        } else if bits == 0x3ff0_0000_0000_0000 {
            self.op(Opcode::ConstFOne, 1)
        } else {
            let (s, i) = self.float_entry(bits);
            s.op_u16(Opcode::Ldc, i, 1)
        }
    }

    /// A field of a class, as an entry of the pool.
    pub open spec fn field_of(self, fqcn: Seq<char>, name: Seq<char>, ty: TypeView) -> (
        State,
        u16,
    ) {
        let (s1, class) = self.class(fqcn);
        let (s2, n) = s1.utf8(name);
        let (s3, t) = s2.type_desc(type_descriptor_text(ty));
        s3.field_ref(class, n, t)
    }

    /// The field `value` of the box of an `inner`.
    pub open spec fn box_value(self, inner: ExprTyView) -> (State, u16) {
        self.field_of(box_name(as_type(inner)), "value"@, as_type(inner))
    }

    /// A method of a class as an entry of the pool, the class entered first.
    pub open spec fn method_of(self, fqcn: Seq<char>, name: Seq<char>, descriptor: Seq<char>) -> (
        State,
        u16,
    ) {
        let (s1, class) = self.class(fqcn);
        let (s2, n) = s1.utf8(name);
        let (s3, d) = s2.type_desc(descriptor);
        s3.method_ref(class, n, d)
    }

    /// Likewise, the class entered after the name and the descriptor.
    pub open spec fn named_method(
        self,
        fqcn: Seq<char>,
        name: Seq<char>,
        descriptor: Seq<char>,
    ) -> (State, u16) {
        let (s1, n) = self.utf8(name);
        let (s2, d) = s1.type_desc(descriptor);
        let (s3, class) = s2.class(fqcn);
        s3.method_ref(class, n, d)
    }

    /// A new box of class `Box<inner>`, left on the stack.
    pub open spec fn new_of(self, fqcn: Seq<char>) -> State {
        let (s, class) = self.class(fqcn);
        s.op_u16(Opcode::New, class, 1)
    }

    /// Boxes the local variable `var_local`; the box is in a fresh slot.
    pub open spec fn new_box(self, inner: ExprTyView, var_local: u16) -> State {
        let name = box_name(as_type(inner));
        let s1 = self.new_of(name).op(Opcode::Dup, 1).load(var_local);
        let (s2, field) = s1.box_value(inner);
        let s3 = s2.op_u16(Opcode::SetField, field, -2);
        s3.declare_scratch(ExprTyView::Object(name)).store(s3.next_local)
    }

    /// Moves a parameter into a box, which takes over its name.
    pub open spec fn rebox(self, name: Seq<char>, ty: ExprTyView) -> State {
        let raw = match self.lookup(name) {
            Some(slot) => slot.index,
            None => 0,
        };
        let s1 = self.new_of(box_name(as_type(ty))).op(Opcode::Dup, 1).load(raw);
        let (s2, field) = s1.box_value(ty);
        let s3 = s2.op_u16(Opcode::SetField, field, -2);
        s3.declare_ref(name, ty).store(s3.next_local)
    }

    /// Declares a variable whose box holds nothing yet.
    pub open spec fn empty_box(self, name: Seq<char>, ty: ExprTyView) -> State {
        let s1 = self.new_of(box_name(as_type(ty)));
        s1.declare_ref(name, ty).store(s1.next_local)
    }

    /// The field of `this` that holds a captured variable or its box.
    pub open spec fn captured_field(self, this_fqcn: Seq<char>, name: Seq<char>, f: CapturedView) -> (
        State,
        u16,
    ) {
        self.field_of(this_fqcn, name, as_type(held_as(f.ty, f.boxed)))
    }

    /// Reads the field of a captured variable, be it its value or its box.
    pub open spec fn get_captured_raw(
        self,
        this_fqcn: Seq<char>,
        name: Seq<char>,
        f: CapturedView,
    ) -> State {
        let (s, field) = self.load(0).captured_field(this_fqcn, name, f);
        s.op_u16(Opcode::GetField, field, 0)
    }

    /// Reads the value of a captured variable.
    pub open spec fn get_captured(
        self,
        this_fqcn: Seq<char>,
        name: Seq<char>,
        f: CapturedView,
    ) -> State {
        let s1 = self.get_captured_raw(this_fqcn, name, f);
        if f.boxed {
            let (s2, value) = s1.box_value(f.ty);
            s2.op_u16(Opcode::GetField, value, 0)
        } else {
            s1
        }
    }

    /// A call of a method of a class on the receiver and arguments that are
    /// on the stack.
    pub open spec fn operator_call(
        self,
        fqcn: Seq<char>,
        name: Seq<char>,
        params: Seq<TypeView>,
        return_ty: TypeView,
    ) -> (State, ExprTyView) {
        let (s, m) = self.named_method(fqcn, name, method_descriptor_text(params, return_ty));
        let ret = expr_ty(return_ty);
        (
            s.op_u16(
                Opcode::InvokeInstance,
                m,
                call_delta(ret is Void, params.len(), true) as int,
            ),
            ret,
        )
    }

    /// A call of a static method of a native class.
    pub open spec fn native_static(
        self,
        fqcn: Seq<char>,
        name: Seq<char>,
        params: Seq<TypeView>,
        return_ty: TypeView,
    ) -> (State, ExprTyView) {
        let (s, m) = self.method_of(fqcn, name, method_descriptor_text(params, return_ty));
        let ret = expr_ty(return_ty);
        (
            s.op_u16(
                Opcode::InvokeStatic,
                m,
                call_delta(ret is Void, params.len(), false) as int,
            ),
            ret,
        )
    }

    /// A call of a built-in method of an array. Arrays have no class: the
    /// name under which the method is entered is never looked up.
    pub open spec fn array_call(
        self,
        name: Seq<char>,
        params: Seq<ExprTyView>,
        return_ty: ExprTyView,
    ) -> State {
        let (s, m) = self.named_method(
            "system.Array"@,
            name,
            method_descriptor_text(as_types(params), as_type(return_ty)),
        );
        s.op_u16(
            Opcode::InvokeInstance,
            m,
            call_delta(return_ty is Void, params.len(), true) as int,
        )
    }
}

/// What a captured variable's field holds: its value, or the box of it.
pub open spec fn held_as(ty: ExprTyView, boxed: bool) -> ExprTyView {
    if boxed {
        ExprTyView::Object(box_name(as_type(ty)))
    } else {
        ty
    }
}

pub fn physical_ty(ty: &ExprTy, boxed: bool) -> (r: ExprTy)
    ensures
        r@ == held_as(ty@, boxed),
{
    if boxed {
        ExprTy::Object(box_fqcn(&expr_ty_to_type(ty)))
    } else {
        ty.copy()
    }
}

/// Fits the value on top of the stack to the type that is expected of it.
pub open spec fn coerced(
    s: State,
    actual: ExprTyView,
    expected: ExprTyView,
    what: Seq<char>,
) -> Done {
    if expected is Float && actual is Int {
        Ok(s.op(Opcode::I2F, 0))
    } else if actual is Null || (actual is Object && expected is Object) || (actual is Closure
        && expected is Void) || (actual is Closure && expected is Closure && same_shape(
        actual,
        expected,
    )) || actual == expected {
        Ok(s)
    } else {
        Err(
            "cannot assign "@ + shown(actual) + " to '"@ + what + "' of type "@ + shown(expected),
        )
    }
}

/// Brings the two numbers on top of the stack to one type.
pub open spec fn promoted(s: State, l: ExprTyView, r: ExprTyView) -> Typed {
    match (l, r) {
        (ExprTyView::Int, ExprTyView::Int) => Ok((s, ExprTyView::Int)),
        (ExprTyView::Float, ExprTyView::Float) => Ok((s, ExprTyView::Float)),
        (ExprTyView::Int, ExprTyView::Float) => Ok(
            (
                s.op(Opcode::Swap, 0).op(Opcode::I2F, 0).op(Opcode::Swap, 0),
                ExprTyView::Float,
            ),
        ),
        (ExprTyView::Float, ExprTyView::Int) => Ok((s.op(Opcode::I2F, 0), ExprTyView::Float)),
        (ExprTyView::Byte, ExprTyView::Byte) => Ok(
            (
                s.op(Opcode::B2I, 0).op(Opcode::Swap, 0).op(Opcode::B2I, 0).op(Opcode::Swap, 0),
                ExprTyView::Int,
            ),
        ),
        (ExprTyView::Byte, ExprTyView::Int) => Ok(
            (
                s.op(Opcode::Swap, 0).op(Opcode::B2I, 0).op(Opcode::Swap, 0),
                ExprTyView::Int,
            ),
        ),
        (ExprTyView::Int, ExprTyView::Byte) => Ok((s.op(Opcode::B2I, 0), ExprTyView::Int)),
        (ExprTyView::Byte, ExprTyView::Float) => Ok(
            (
                s.op(Opcode::Swap, 0).op(Opcode::B2I, 0).op(Opcode::I2F, 0).op(Opcode::Swap, 0),
                ExprTyView::Float,
            ),
        ),
        (ExprTyView::Float, ExprTyView::Byte) => Ok(
            (s.op(Opcode::B2I, 0).op(Opcode::I2F, 0), ExprTyView::Float),
        ),
        _ => Err("arithmetic/comparison between "@ + shown(l) + " and "@ + shown(r)),
    }
}

/// A call of a method of a native template class, the receiver and the
/// arguments being on the stack.
pub open spec fn native_instance_call(
    c: CxView,
    s: State,
    fqcn: Seq<char>,
    name: Seq<char>,
    argc: nat,
) -> Done {
    match native_method_sig(c.natives, fqcn, name, argc) {
        Some((params, ret)) => {
            let (s1, m) = s.named_method(fqcn, name, method_descriptor_text(params, ret));
            Ok(
                s1.op_u16(
                    Opcode::InvokeInstance,
                    m,
                    call_delta(expr_ty(ret) is Void, argc, true) as int,
                ),
            )
        },
        None => Err(
            "unknown method '"@ + name + "' on '"@ + fqcn + "' with "@ + decimal_text(argc)
                + " argument(s)"@,
        ),
    }
}

/// Converts the value on top of the stack for a cast that is known to be
/// valid.
pub open spec fn converted(s: State, actual: ExprTyView, target: ExprTyView) -> State {
    match (actual, target) {
        (ExprTyView::Int, ExprTyView::Float) => s.op(Opcode::I2F, 0),
        (ExprTyView::Float, ExprTyView::Int) => s.op(Opcode::F2I, 0),
        (ExprTyView::Int, ExprTyView::Byte) => s.op(Opcode::I2B, 0),
        (ExprTyView::Byte, ExprTyView::Int) => s.op(Opcode::B2I, 0),
        (ExprTyView::Byte, ExprTyView::Float) => s.op(Opcode::B2I, 0).op(Opcode::I2F, 0),
        (ExprTyView::Float, ExprTyView::Byte) => s.op(Opcode::F2I, 0).op(Opcode::I2B, 0),
        (ExprTyView::StringT, ExprTyView::StringT) => s,
        (_, ExprTyView::StringT) => s.op(Opcode::ToString, 0),
        (ExprTyView::Object(_), ExprTyView::Object(fqcn)) => {
            let (s1, class) = s.class(fqcn);
            s1.op_u16(Opcode::CheckCast, class, 0)
        },
        _ => s,
    }
}

/// The jumps taken where the value on top of the stack, of type `ty`, counts
/// as false.
pub open spec fn falsy_jumps(s: State, ty: ExprTyView) -> (State, Seq<int>) {
    let s1 = s.op(Opcode::Dup, 1).op(Opcode::IsNull, 0);
    let s2 = s1.branch(Opcode::IfTrue, -1);
    let zero = match ty {
        ExprTyView::Bool => Some(s2.op(Opcode::Dup, 1).op(Opcode::ConstFalse, 1)),
        ExprTyView::Int => Some(s2.op(Opcode::Dup, 1).op(Opcode::ConstIZero, 1)),
        ExprTyView::Float => Some(s2.op(Opcode::Dup, 1).op(Opcode::ConstFZero, 1)),
        ExprTyView::Byte => Some(
            s2.op(Opcode::Dup, 1).op(Opcode::B2I, 0).op(Opcode::ConstIZero, 1),
        ),
        _ => None,
    };
    match zero {
        Some(s3) => {
            let s4 = s3.op(Opcode::CmpEq, -1);
            (s4.branch(Opcode::IfTrue, -1), seq![s1.pc(), s4.pc()])
        },
        None => (s2, seq![s1.pc()]),
    }
}

impl Emitter {
    pub fn emit_int_const(&mut self, v: i64)
        ensures
            final(self)@ == old(self)@.int_const(v),
            grows(old(self)@, final(self)@),
            nests(old(self)@, final(self)@),
    {
        if v == 0 {
            self.op(Opcode::ConstIZero, 1);
        } else if v == 1 {
            self.op(Opcode::ConstIOne, 1);
        } else if -128 <= v && v <= 127 {
            self.op_i8(Opcode::BiPush, v as i8, 1);
        } else if -32768 <= v && v <= 32767 {
            self.op_i16(Opcode::SiPush, v as i16, 1);
        } else {
            let i: u16 = self.add_int(v);
            self.op_u16(Opcode::Ldc, i, 1);
        }
    }

    pub fn emit_float_const(&mut self, bits: u64)
        ensures
            final(self)@ == old(self)@.float_const(bits),
            grows(old(self)@, final(self)@),
            nests(old(self)@, final(self)@),
    {
        if bits == 0 || bits == 0x8000_0000_0000_0000 {
            self.op(Opcode::ConstFZero, 1);
        } else if bits == 0x3ff0_0000_0000_0000 {
            self.op(Opcode::ConstFOne, 1);
        } else {
            let i: u16 = self.add_float(bits);
            self.op_u16(Opcode::Ldc, i, 1);
        }
    }

    pub fn field_ref_of(&mut self, fqcn: &str, name: &str, ty: &Type) -> (r: u16)
        ensures
            (final(self)@, r) == old(self)@.field_of(fqcn@, name@, ty@),
            grows(old(self)@, final(self)@),
            nests(old(self)@, final(self)@),
    {
        let class: u16 = self.add_class(fqcn);
        let n: u16 = self.add_utf8(name);
        let t: u16 = self.add_type_desc(type_descriptor(ty).as_str());
        self.add_field_ref(class, n, t)
    }

    pub fn box_value_field_ref(&mut self, inner_ty: &ExprTy) -> (r: u16)
        ensures
            (final(self)@, r) == old(self)@.box_value(inner_ty@),
            grows(old(self)@, final(self)@),
            nests(old(self)@, final(self)@),
    {
        let ty = expr_ty_to_type(inner_ty);
        self.field_ref_of(box_fqcn(&ty).as_str(), "value", &ty)
    }

    pub fn method_ref_of(&mut self, fqcn: &str, name: &str, descriptor: &str) -> (r: u16)
        ensures
            (final(self)@, r) == old(self)@.method_of(fqcn@, name@, descriptor@),
            grows(old(self)@, final(self)@),
            nests(old(self)@, final(self)@),
    {
        let class: u16 = self.add_class(fqcn);
        let n: u16 = self.add_utf8(name);
        let d: u16 = self.add_type_desc(descriptor);
        self.add_method_ref(class, n, d)
    }

    pub fn named_method_ref(&mut self, fqcn: &str, name: &str, descriptor: &str) -> (r: u16)
        ensures
            (final(self)@, r) == old(self)@.named_method(fqcn@, name@, descriptor@),
            grows(old(self)@, final(self)@),
            nests(old(self)@, final(self)@),
    {
        let n: u16 = self.add_utf8(name);
        let d: u16 = self.add_type_desc(descriptor);
        let class: u16 = self.add_class(fqcn);
        self.add_method_ref(class, n, d)
    }

    pub fn emit_new(&mut self, fqcn: &str)
        ensures
            final(self)@ == old(self)@.new_of(fqcn@),
            grows(old(self)@, final(self)@),
            nests(old(self)@, final(self)@),
    {
        let class: u16 = self.add_class(fqcn);
        self.op_u16(Opcode::New, class, 1);
    }

    pub fn emit_new_box(&mut self, inner_ty: &ExprTy, var_local: u16) -> (r: u16)
        ensures
            final(self)@ == old(self)@.new_box(inner_ty@, var_local),
            r == new_box_slot(old(self)@, inner_ty@, var_local),
            grows(old(self)@, final(self)@),
            nests(old(self)@, final(self)@),
    {
        let name = box_fqcn(&expr_ty_to_type(inner_ty));
        self.emit_new(name.as_str());
        self.op(Opcode::Dup, 1);
        self.emit_load(var_local);
        let field: u16 = self.box_value_field_ref(inner_ty);
        self.op_u16(Opcode::SetField, field, -2);
        let slot: u16 = self.declare_scratch_local(ExprTy::Object(name));
        self.emit_store(slot);
        slot
    }

    pub fn rebox_local(&mut self, name: &str, ty: ExprTy)
        ensures
            final(self)@ == old(self)@.rebox(name@, ty@),
            grows(old(self)@, final(self)@),
            nests(old(self)@, final(self)@),
    {
        let raw: u16 = match self.lookup_local(name) {
            Some(slot) => slot.index,
            None => 0,
        };
        self.emit_new(box_fqcn(&expr_ty_to_type(&ty)).as_str());
        self.op(Opcode::Dup, 1);
        self.emit_load(raw);
        let field: u16 = self.box_value_field_ref(&ty);
        self.op_u16(Opcode::SetField, field, -2);
        let slot: u16 = self.declare_ref_param(owned(name), ty);
        self.emit_store(slot);
    }

    pub fn declare_boxed_var_uninit(&mut self, declared_ty: ExprTy, name: &str)
        ensures
            final(self)@ == old(self)@.empty_box(name@, declared_ty@),
            grows(old(self)@, final(self)@),
            nests(old(self)@, final(self)@),
    {
        self.emit_new(box_fqcn(&expr_ty_to_type(&declared_ty)).as_str());
        let slot: u16 = self.declare_ref_param(owned(name), declared_ty);
        self.emit_store(slot);
    }

    pub fn captured_field_ref(&mut self, this_fqcn: &str, name: &str, field: &CapturedField) -> (r:
        u16)
        ensures
            (final(self)@, r) == old(self)@.captured_field(this_fqcn@, name@, field@),
            grows(old(self)@, final(self)@),
            nests(old(self)@, final(self)@),
    {
        let ty = expr_ty_to_type(&physical_ty(&field.ty, field.boxed));
        self.field_ref_of(this_fqcn, name, &ty)
    }

    pub fn emit_get_captured_field_raw(
        &mut self,
        this_fqcn: &str,
        name: &str,
        field: &CapturedField,
    )
        ensures
            final(self)@ == old(self)@.get_captured_raw(this_fqcn@, name@, field@),
            grows(old(self)@, final(self)@),
            nests(old(self)@, final(self)@),
    {
        self.emit_load(0);
        let r: u16 = self.captured_field_ref(this_fqcn, name, field);
        self.op_u16(Opcode::GetField, r, 0);
    }

    pub fn emit_get_captured_field(&mut self, this_fqcn: &str, name: &str, field: &CapturedField)
        ensures
            final(self)@ == old(self)@.get_captured(this_fqcn@, name@, field@),
            grows(old(self)@, final(self)@),
            nests(old(self)@, final(self)@),
    {
        self.emit_get_captured_field_raw(this_fqcn, name, field);
        if field.boxed {
            let value: u16 = self.box_value_field_ref(&field.ty);
            self.op_u16(Opcode::GetField, value, 0);
        }
    }

    pub fn emit_operator_call(
        &mut self,
        fqcn: &str,
        method_name: &str,
        params: &Vec<Type>,
        return_ty: &Type,
    ) -> (r: ExprTy)
        ensures
            (final(self)@, r@) == old(self)@.operator_call(
                fqcn@,
                method_name@,
                type_views(params@),
                return_ty@,
            ),
            grows(old(self)@, final(self)@),
            nests(old(self)@, final(self)@),
    {
        let m: u16 = self.named_method_ref(
            fqcn,
            method_name,
            method_descriptor(params, return_ty).as_str(),
        );
        let ret = expr_ty_of(return_ty);
        self.op_u16(Opcode::InvokeInstance, m, delta_of_call(ret.is_void(), params.len(), true));
        ret
    }

    pub fn emit_native_static(
        &mut self,
        fqcn: &str,
        name: &str,
        params: &Vec<Type>,
        return_ty: &Type,
    ) -> (r: ExprTy)
        ensures
            (final(self)@, r@) == old(self)@.native_static(
                fqcn@,
                name@,
                type_views(params@),
                return_ty@,
            ),
            grows(old(self)@, final(self)@),
            nests(old(self)@, final(self)@),
    {
        let m: u16 = self.method_ref_of(fqcn, name, method_descriptor(params, return_ty).as_str());
        let ret = expr_ty_of(return_ty);
        self.op_u16(Opcode::InvokeStatic, m, delta_of_call(ret.is_void(), params.len(), false));
        ret
    }

    pub fn emit_array_call(&mut self, name: &str, param_types: &Vec<ExprTy>, return_ty: &ExprTy)
        ensures
            final(self)@ == old(self)@.array_call(
                name@,
                expr_ty_views(param_types@),
                return_ty@,
            ),
            grows(old(self)@, final(self)@),
            nests(old(self)@, final(self)@),
    {
        let m: u16 = self.named_method_ref(
            "system.Array",
            name,
            method_descriptor(
                &expr_tys_to_types(param_types),
                &expr_ty_to_type(return_ty),
            ).as_str(),
        );
        self.op_u16(
            Opcode::InvokeInstance,
            m,
            delta_of_call(return_ty.is_void(), param_types.len(), true),
        );
    }

    pub fn coerce_value(&mut self, actual: &ExprTy, expected: &ExprTy, what: &str) -> (r: Result<
        (),
        CodegenError,
    >)
        ensures
            done_as(r, final(self)@, coerced(old(self)@, actual@, expected@, what@)),
            grows(old(self)@, final(self)@),
            r is Ok ==> nests(old(self)@, final(self)@),
    {
        if matches!(expected, ExprTy::Float) && matches!(actual, ExprTy::Int) {
            self.op(Opcode::I2F, 0);
            return Ok(());
        }
        let fits = match (actual, expected) {
            (ExprTy::Null, _) => true,
            (ExprTy::Object(_), ExprTy::Object(_)) => true,
            (ExprTy::Closure { .. }, ExprTy::Void) => true,
            (ExprTy::Closure { .. }, ExprTy::Closure { .. }) => closure_shape_eq(actual, expected)
                || actual.same(expected),
            _ => actual.same(expected),
        };
        if fits {
            Ok(())
        } else {
            Err(
                CodegenError::Unsupported(
                    cat6(
                        "cannot assign ",
                        show(actual).as_str(),
                        " to '",
                        what,
                        "' of type ",
                        show(expected).as_str(),
                    ),
                ),
            )
        }
    }

    pub fn promote_numeric(&mut self, ty_l: &ExprTy, ty_r: &ExprTy) -> (r: Result<
        ExprTy,
        CodegenError,
    >)
        ensures
            typed_as(r, final(self)@, promoted(old(self)@, ty_l@, ty_r@)),
            grows(old(self)@, final(self)@),
            r is Ok ==> nests(old(self)@, final(self)@),
    {
        match (ty_l, ty_r) {
            (ExprTy::Int, ExprTy::Int) => Ok(ExprTy::Int),
            (ExprTy::Float, ExprTy::Float) => Ok(ExprTy::Float),
            (ExprTy::Int, ExprTy::Float) => {
                self.op(Opcode::Swap, 0);
                self.op(Opcode::I2F, 0);
                self.op(Opcode::Swap, 0);
                Ok(ExprTy::Float)
            },
            (ExprTy::Float, ExprTy::Int) => {
                self.op(Opcode::I2F, 0);
                Ok(ExprTy::Float)
            },
            (ExprTy::Byte, ExprTy::Byte) => {
                self.op(Opcode::B2I, 0);
                self.op(Opcode::Swap, 0);
                self.op(Opcode::B2I, 0);
                self.op(Opcode::Swap, 0);
                Ok(ExprTy::Int)
            },
            (ExprTy::Byte, ExprTy::Int) => {
                self.op(Opcode::Swap, 0);
                self.op(Opcode::B2I, 0);
                self.op(Opcode::Swap, 0);
                Ok(ExprTy::Int)
            },
            (ExprTy::Int, ExprTy::Byte) => {
                self.op(Opcode::B2I, 0);
                Ok(ExprTy::Int)
            },
            (ExprTy::Byte, ExprTy::Float) => {
                self.op(Opcode::Swap, 0);
                self.op(Opcode::B2I, 0);
                self.op(Opcode::I2F, 0);
                self.op(Opcode::Swap, 0);
                Ok(ExprTy::Float)
            },
            (ExprTy::Float, ExprTy::Byte) => {
                self.op(Opcode::B2I, 0);
                self.op(Opcode::I2F, 0);
                Ok(ExprTy::Float)
            },
            _ => Err(
                CodegenError::Unsupported(
                    cat4(
                        "arithmetic/comparison between ",
                        show(ty_l).as_str(),
                        " and ",
                        show(ty_r).as_str(),
                    ),
                ),
            ),
        }
    }

    pub fn emit_native_instance_call(&mut self, c: Cx, fqcn: &str, name: &str, argc: usize) -> (r:
        Result<(), CodegenError>)
        ensures
            done_as(
                r,
                final(self)@,
                native_instance_call(c@, old(self)@, fqcn@, name@, argc as nat),
            ),
            grows(old(self)@, final(self)@),
            r is Ok ==> nests(old(self)@, final(self)@),
    {
        match method_signature(c.unit.natives, fqcn, name, argc) {
            Some((params, ret)) => {
                let m: u16 = self.named_method_ref(
                    fqcn,
                    name,
                    method_descriptor(&params, &ret).as_str(),
                );
                let void = expr_ty_of(&ret).is_void();
                self.op_u16(Opcode::InvokeInstance, m, delta_of_call(void, argc, true));
                Ok(())
            },
            None => Err(
                CodegenError::Unsupported(
                    cat7(
                        "unknown method '",
                        name,
                        "' on '",
                        fqcn,
                        "' with ",
                        decimal(argc as u64).as_str(),
                        " argument(s)",
                    ),
                ),
            ),
        }
    }

    pub fn emit_conversion(&mut self, actual: &ExprTy, target: &ExprTy)
        ensures
            final(self)@ == converted(old(self)@, actual@, target@),
            grows(old(self)@, final(self)@),
            nests(old(self)@, final(self)@),
    {
        match (actual, target) {
            (ExprTy::Int, ExprTy::Float) => self.op(Opcode::I2F, 0),
            (ExprTy::Float, ExprTy::Int) => self.op(Opcode::F2I, 0),
            (ExprTy::Int, ExprTy::Byte) => self.op(Opcode::I2B, 0),
            (ExprTy::Byte, ExprTy::Int) => self.op(Opcode::B2I, 0),
            (ExprTy::Byte, ExprTy::Float) => {
                self.op(Opcode::B2I, 0);
                self.op(Opcode::I2F, 0);
            },
            (ExprTy::Float, ExprTy::Byte) => {
                self.op(Opcode::F2I, 0);
                self.op(Opcode::I2B, 0);
            },
            (ExprTy::StringT, ExprTy::StringT) => {},
            (_, ExprTy::StringT) => self.op(Opcode::ToString, 0),
            (ExprTy::Object(_), ExprTy::Object(fqcn)) => {
                let class: u16 = self.add_class(fqcn.as_str());
                self.op_u16(Opcode::CheckCast, class, 0);
            },
            _ => {},
        }
    }

    pub fn emit_falsy_jumps(&mut self, ty: &ExprTy) -> (r: Vec<usize>)
        ensures
            (final(self)@, positions(r@)) == falsy_jumps(old(self)@, ty@),
            grows(old(self)@, final(self)@),
            nests(old(self)@, final(self)@),
    {
        let mut jumps: Vec<usize> = Vec::new();
        self.op(Opcode::Dup, 1);
        self.op(Opcode::IsNull, 0);
        let null_jump: usize = self.branch(Opcode::IfTrue, -1);
        jumps.push(null_jump);
        let zero = match ty {
            ExprTy::Bool => {
                self.op(Opcode::Dup, 1);
                self.op(Opcode::ConstFalse, 1);
                true
            },
            ExprTy::Int => {
                self.op(Opcode::Dup, 1);
                self.op(Opcode::ConstIZero, 1);
                true
            },
            ExprTy::Float => {
                self.op(Opcode::Dup, 1);
                self.op(Opcode::ConstFZero, 1);
                true
            },
            ExprTy::Byte => {
                self.op(Opcode::Dup, 1);
                self.op(Opcode::B2I, 0);
                self.op(Opcode::ConstIZero, 1);
                true
            },
            _ => false,
        };
        if zero {
            self.op(Opcode::CmpEq, -1);
            let zero_jump: usize = self.branch(Opcode::IfTrue, -1);
            jumps.push(zero_jump);
        }
        assert(positions(jumps@) =~= falsy_jumps(old(self)@, ty@).1);
        jumps
    }
}

/// The slot of a box that was just made.
pub open spec fn new_box_slot(s: State, inner: ExprTyView, var_local: u16) -> u16 {
    let s1 = s.new_of(box_name(as_type(inner))).op(Opcode::Dup, 1).load(var_local);
    let (s2, field) = s1.box_value(inner);
    s2.op_u16(Opcode::SetField, field, -2).next_local
}

} // verus!
