//! Laws of compiled code.

use crate::ast::{ClassDecl, MethodDecl, MethodKind, MethodSig, TypeView, Visibility};
use crate::bytecode::constant_pool::{with_class, EntryView};
use crate::bytecode::module::{MethodView, ModuleView};
use crate::bytecode::reader::be16;
use crate::bytecode::{class_flags, method_flags};
use crate::class_table::{interfaces_from, Classes};
use crate::codegen::emitter::{aimed, offset, slot_in, SlotView, State};
use crate::codegen::expr_ty::{
    as_type, as_types, expr_ty, expr_tys, same_shape, same_shapes, ExprTyView, FUNCTION_TYPE_FQCN,
};
use crate::codegen::program::{
    abstract_method, all_methods_code, bit_if, class_bits, class_modules, field_descriptors,
    head_of, interface_method, kind_bit, method_bits, method_code, method_inits,
    method_visibility, methods_code, static_methods, with_classes, ClassCxView, HeadView,
};
use crate::codegen::stdlib::{native_static, printlike, stdlib_class};
use crate::codegen::vars::declared;
use crate::names::bound_to_push;
use crate::native_generics::Natives;
use crate::resolve::{resolved_name, resolved_names};
use crate::sema::stdlib::static_sig;
use crate::text::texts;
use vstd::prelude::*;

verus! {

/// Whether a method has nothing but its signature, as methods without a body
/// do.
pub open spec fn is_stub(m: MethodView) -> bool {
    &&& m.flags & method_flags::ABSTRACT != 0
    &&& m.max_locals == 0
    &&& m.max_stack == 0
    &&& m.code.len() == 0
    &&& m.exception_table.len() == 0
    &&& m.line_table.len() == 0
}

/// An abstract method is compiled to a stub.
pub proof fn abstract_method_is_stub(
    cp: Seq<EntryView>,
    m: MethodDecl,
    imports: Seq<(Seq<char>, Seq<char>)>,
)
    ensures
        is_stub(abstract_method(cp, m, imports).1),
{
    reveal(abstract_method);
    assert(forall|v: u16, s: u16| #[trigger] ((v | 256u16) | s) & 256u16 != 0) by (bit_vector);
}

/// So is a method of an interface.
pub proof fn interface_method_is_stub(
    cp: Seq<EntryView>,
    m: MethodSig,
    imports: Seq<(Seq<char>, Seq<char>)>,
)
    ensures
        is_stub(interface_method(cp, m, imports).1),
{
    assert((1u16 | 256u16) & 256u16 != 0) by (bit_vector);
}

/// The flags of a method say of what kind it is, and nothing else.
pub proof fn method_flags_tell(h: HeadView)
    ensures
        (method_bits(h) & method_flags::FINAL != 0) == h.is_final,
        (method_bits(h) & method_flags::STATIC != 0) == h.is_static,
        (method_bits(h) & method_flags::CONSTRUCTOR != 0) == (h.kind == MethodKind::Constructor),
        (method_bits(h) & method_flags::DESTRUCTOR != 0) == (h.kind == MethodKind::Destructor),
        (method_bits(h) & method_flags::PUBLIC != 0) == (h.visibility == Visibility::Public),
        (method_bits(h) & method_flags::PROTECTED != 0) == (h.visibility == Visibility::Protected),
        (method_bits(h) & method_flags::PRIVATE != 0) == (h.visibility == Visibility::Private),
        method_bits(h) & method_flags::ABSTRACT == 0,
{
    reveal(method_bits);
    let v: u16 = method_visibility(h.visibility);
    let s: u16 = bit_if(h.is_static, method_flags::STATIC);
    let f: u16 = bit_if(h.is_final, method_flags::FINAL);
    let k: u16 = kind_bit(h.kind);
    assert((v | s | f | k) & 512u16 == f && (v | s | f | k) & 8u16 == s && (v | s | f | k) & 64u16
        == k & 64u16 && (v | s | f | k) & 128u16 == k & 128u16 && (v | s | f | k) & 1u16 == v
        & 1u16 && (v | s | f | k) & 2u16 == v & 2u16 && (v | s | f | k) & 4u16 == v & 4u16 && (v | s
        | f | k) & 256u16 == 0) by (bit_vector)
        requires
            v == 1 || v == 2 || v == 4,
            s == 0 || s == 8,
            f == 0 || f == 512,
            k == 0 || k == 64 || k == 128,
    ;
    assert(1u16 & 1u16 == 1 && 1u16 & 2u16 == 0 && 1u16 & 4u16 == 0 && 2u16 & 1u16 == 0 && 2u16
        & 2u16 == 2 && 2u16 & 4u16 == 0 && 4u16 & 1u16 == 0 && 4u16 & 2u16 == 0 && 4u16 & 4u16
        == 4 && 64u16 & 64u16 == 64 && 64u16 & 128u16 == 0 && 128u16 & 64u16 == 0 && 128u16
        & 128u16 == 128 && 0u16 & 64u16 == 0 && 0u16 & 128u16 == 0) by (bit_vector);
}

/// So do those of a class.
pub proof fn class_flags_tell(c: ClassDecl)
    ensures
        (class_bits(c) & class_flags::ABSTRACT != 0) == c.is_abstract,
        (class_bits(c) & class_flags::FINAL != 0) == c.is_final,
        (class_bits(c) & class_flags::READONLY != 0) == c.is_readonly,
        (class_bits(c) & class_flags::ENUM != 0) == c.is_enum,
        class_bits(c) & class_flags::INTERFACE == 0,
{
    let r: u16 = bit_if(c.is_readonly, class_flags::READONLY);
    let e: u16 = bit_if(c.is_enum, class_flags::ENUM);
    let a: u16 = bit_if(c.is_abstract, class_flags::ABSTRACT);
    let f: u16 = bit_if(c.is_final, class_flags::FINAL);
    assert((r | e | a | f) & 8u16 == a && (r | e | a | f) & 16u16 == f && (r | e | a | f) & 1u16
        == r && (r | e | a | f) & 4u16 == e && (r | e | a | f) & 2u16 == 0) by (bit_vector)
        requires
            r == 0 || r == 1,
            e == 0 || e == 4,
            a == 0 || a == 8,
            f == 0 || f == 16,
    ;
}

/// Whether a compiled method is what its declaration says.
pub open spec fn method_matches(v: MethodView, m: MethodDecl) -> bool {
    if m.is_abstract {
        is_stub(v)
    } else {
        v.flags == method_bits(head_of(m))
    }
}

proof fn methods_match(
    k: ClassCxView,
    cp: Seq<EntryView>,
    class: ClassDecl,
    i: int,
    methods: Seq<MethodView>,
    closures: Seq<ModuleView>,
)
    requires
        0 <= i <= class.methods@.len(),
        methods.len() == i,
        forall|j: int| 0 <= j < i ==> method_matches(#[trigger] methods[j], class.methods@[j]),
        methods_code(k, cp, class, i, methods, closures) is Ok,
    ensures
        methods_code(k, cp, class, i, methods, closures) matches Ok((_, ms, _)) ==> ms.len()
            == class.methods@.len() && forall|j: int|
            0 <= j < ms.len() ==> method_matches(#[trigger] ms[j], class.methods@[j]),
    decreases class.methods@.len() - i,
{
    if i < class.methods@.len() {
        let m = class.methods@[i];
        if m.is_abstract {
            let (cp1, v) = abstract_method(cp, m, k.imports);
            abstract_method_is_stub(cp, m, k.imports);
            methods_match(k, cp1, class, i + 1, methods.push(v), closures);
        } else {
            reveal(method_code);
            match method_code(k, cp, m.name@, i as nat, head_of(m), method_inits(class, m)) {
                Ok((cp1, v, more)) => {
                    assert(v.flags == method_bits(head_of(m)));
                    methods_match(k, cp1, class, i + 1, methods.push(v), closures + more);
                },
                Err(_) => {},
            }
        }
    }
}

/// A compiled class has all its methods, in the order of their declarations:
/// the abstract ones as stubs, the others with the flags of theirs.
pub proof fn class_keeps_its_methods(
    class: ClassDecl,
    fqcn: Seq<char>,
    imports: Seq<(Seq<char>, Seq<char>)>,
    classes: Classes,
    natives: Natives,
    level: nat,
    j: int,
)
    requires
        class_modules(class, fqcn, imports, classes, natives, level) is Ok,
        0 <= j < class.methods@.len(),
    ensures
        class_modules(class, fqcn, imports, classes, natives, level) matches Ok(ms) ==> j
            < ms[0].methods.len() && method_matches(ms[0].methods[j], class.methods@[j]),
{
    class_methods_match(class, fqcn, imports, classes, natives, level);
}

proof fn all_methods_match(k: ClassCxView, cp: Seq<EntryView>, class: ClassDecl)
    requires
        all_methods_code(k, cp, class) is Ok,
    ensures
        all_methods_code(k, cp, class) matches Ok((_, ms, _)) ==> ms.len() >= class.methods@.len()
            && forall|j: int|
            0 <= j < class.methods@.len() ==> method_matches(#[trigger] ms[j], class.methods@[j]),
{
    methods_match(k, cp, class, 0, Seq::empty(), Seq::empty());
}

proof fn class_methods_match(
    class: ClassDecl,
    fqcn: Seq<char>,
    imports: Seq<(Seq<char>, Seq<char>)>,
    classes: Classes,
    natives: Natives,
    level: nat,
)
    requires
        class_modules(class, fqcn, imports, classes, natives, level) is Ok,
    ensures
        class_modules(class, fqcn, imports, classes, natives, level) matches Ok(ms) ==> ms.len()
            > 0 && ms[0].methods.len() >= class.methods@.len() && forall|j: int|
            0 <= j < class.methods@.len() ==> method_matches(
                #[trigger] ms[0].methods[j],
                class.methods@[j],
            ),
{
    let (cp0, this_class) = with_class(Seq::empty(), fqcn);
    let (cp1, super_class) = match class.extends {
        Some(name) => with_class(
            cp0,
            resolved_name(name@, imports),
        ),
        None => (cp0, 0u16),
    };
    let ifaces = interfaces_from(
        classes,
        resolved_names(texts(class.implements@), imports),
    );
    let (cp2, interfaces) = with_classes(cp1, ifaces, ifaces.len() as int);
    let (cp3, fields) = field_descriptors(
        cp2,
        class.fields@,
        imports,
        class.fields@.len() as int,
    );
    let (cp4, static_sigs) = static_methods(
        cp3,
        this_class,
        class.methods@,
        imports,
        class.methods@.len() as int,
    );
    let k = ClassCxView {
        classes,
        imports,
        static_sigs,
        natives,
        this_class,
        this_fqcn: fqcn,
        fields: class.fields@,
        level,
    };
    all_methods_match(k, cp4, class);
    if let Ok((_, methods, closures)) = all_methods_code(k, cp4, class) {
        if let Ok(ms) = class_modules(class, fqcn, imports, classes, natives, level) {
            assert(ms[0].methods == methods);
        }
    }
}

/// The target of the jump at `pc`, as the machine finds it: its signed operand
/// counts from the jump itself.
pub open spec fn jump_target(code: Seq<u8>, pc: int) -> int {
    let operand = code[pc + 1] * 256 + code[pc + 2];
    if operand < 0x8000 {
        pc + operand
    } else {
        pc + operand - 0x1_0000
    }
}

proof fn offset_reads_back(target: u16, pc: u16)
    requires
        -0x8000 <= target - pc < 0x8000,
    ensures
        offset(target as int, pc as int) as int == if target >= pc {
            target - pc
        } else {
            target - pc + 0x1_0000
        },
{
}

/// A jump that was aimed leads to its target, if that is no further away than
/// the operand can tell.
pub proof fn aimed_jump_arrives(code: Seq<u8>, pc: int, target: int)
    requires
        0 <= pc,
        pc + 2 < code.len() <= 0xffff,
        0 <= target <= code.len(),
        -0x8000 <= target - pc < 0x8000,
    ensures
        jump_target(aimed(code, pc, target), pc) == target,
{
    offset_reads_back(target as u16, pc as u16);
    let x = offset(target, pc);
    let b = be16(x);
    assert(b[0] as int == x as int / 256);
    assert(b[1] as int == x as int % 256);
    let after = aimed(code, pc, target);
    assert(after[pc + 1] == b[0]);
    assert(after[pc + 2] == b[1]);
}

/// Aiming a jump changes nothing but its operand.
pub proof fn aiming_changes_operand_only(code: Seq<u8>, pc: int, target: int, i: int)
    requires
        0 <= i < code.len(),
        i != pc + 1,
        i != pc + 2,
    ensures
        aimed(code, pc, target).len() == code.len(),
        aimed(code, pc, target)[i] == code[i],
{
}

/// A class counts as a native one with static methods exactly where it has a
/// static method: one that prints, or one with a signature.
pub proof fn stdlib_classes_are_those_with_methods(fqcn: Seq<char>)
    ensures
        stdlib_class(fqcn) <==> (exists|name: Seq<char>| printlike(fqcn, name)) || (exists|
            name: Seq<char>,
            argc: nat,
        |
            #[trigger] native_static(fqcn, name, argc) is Some),
{
    reveal(stdlib_class);
    reveal(native_static);
    reveal_strlit("system.Out");
    reveal_strlit("system.Err");
    reveal_strlit("system.In");
    reveal_strlit("system.Int");
    reveal_strlit("system.Float");
    reveal_strlit("system.Bool");
    reveal_strlit("system.String");
    reveal_strlit("system.io.File");
    reveal_strlit("system.io.Directory");
    reveal_strlit("system.io.Path");
    reveal_strlit("system.SecureRandom");
    reveal_strlit("system.Uuid");
    reveal_strlit("system.Env");
    reveal_strlit("system.net.TcpStream");
    reveal_strlit("system.net.Http");
    reveal_strlit("system.thread.Thread");
    reveal_strlit("system.ps.Process");
    reveal_strlit("system.text.Regex");
    reveal_strlit("system.text.Encoding");
    reveal_strlit("system.time.DateTime");
    reveal_strlit("system.time.TimeZone");
    if fqcn == "system.Out"@ {
        assert(fqcn.len() == 10);
        assert(printlike(fqcn, "print"@));
    }
    if fqcn == "system.Err"@ {
        assert(fqcn.len() == 10);
        assert(fqcn[7] != "system.Out"@[7]);
        assert(printlike(fqcn, "print"@));
    }
    if fqcn == "system.In"@ {
        assert(fqcn.len() == 9);
        assert(native_static(fqcn, "readLine"@, 0) is Some);
    }
    if fqcn == "system.Int"@ {
        assert(fqcn.len() == 10);
        assert(fqcn[7] != "system.Out"@[7]);
        assert(fqcn[7] != "system.Err"@[7]);
        assert(native_static(fqcn, "parse"@, 1) is Some);
    }
    if fqcn == "system.Float"@ {
        assert(fqcn.len() == 12);
        assert(native_static(fqcn, "parse"@, 1) is Some);
    }
    if fqcn == "system.Bool"@ {
        assert(fqcn.len() == 11);
        assert(native_static(fqcn, "parse"@, 1) is Some);
    }
    if fqcn == "system.String"@ {
        assert(fqcn.len() == 13);
        assert(native_static(fqcn, "length"@, 1) is Some);
    }
    if fqcn == "system.io.File"@ {
        assert(fqcn.len() == 14);
        assert(native_static(fqcn, "exists"@, 1) is Some);
    }
    if fqcn == "system.io.Directory"@ {
        assert(fqcn.len() == 19);
        assert(native_static(fqcn, "list"@, 1) is Some);
    }
    if fqcn == "system.io.Path"@ {
        assert(fqcn.len() == 14);
        assert(fqcn[10] != "system.io.File"@[10]);
        assert(native_static(fqcn, "join"@, 1) is Some);
    }
    if fqcn == "system.SecureRandom"@ {
        assert(fqcn.len() == 19);
        assert(fqcn[7] != "system.io.Directory"@[7]);
        assert(native_static(fqcn, "nextBytes"@, 1) is Some);
    }
    if fqcn == "system.Uuid"@ {
        assert(fqcn.len() == 11);
        assert(fqcn[7] != "system.Bool"@[7]);
        assert(native_static(fqcn, "random"@, 0) is Some);
    }
    if fqcn == "system.Env"@ {
        assert(fqcn.len() == 10);
        assert(fqcn[7] != "system.Out"@[7]);
        assert(fqcn[8] != "system.Err"@[8]);
        assert(fqcn[7] != "system.Int"@[7]);
        assert(native_static(fqcn, "get"@, 1) is Some);
    }
    if fqcn == "system.net.TcpStream"@ {
        assert(fqcn.len() == 20);
        assert(native_static(fqcn, "connect"@, 2) is Some);
    }
    if fqcn == "system.net.Http"@ {
        assert(fqcn.len() == 15);
        assert(native_static(fqcn, "get"@, 1) is Some);
    }
    if fqcn == "system.thread.Thread"@ {
        assert(fqcn.len() == 20);
        assert(fqcn[7] != "system.net.TcpStream"@[7]);
        assert(native_static(fqcn, "sleep"@, 1) is Some);
    }
    if fqcn == "system.ps.Process"@ {
        assert(fqcn.len() == 17);
        assert(native_static(fqcn, "list"@, 0) is Some);
    }
    if fqcn == "system.text.Regex"@ {
        assert(fqcn.len() == 17);
        assert(fqcn[7] != "system.ps.Process"@[7]);
        assert(native_static(fqcn, "match"@, 2) is Some);
    }
    if fqcn == "system.text.Encoding"@ {
        assert(fqcn.len() == 20);
        assert(fqcn[7] != "system.net.TcpStream"@[7]);
        assert(fqcn[8] != "system.thread.Thread"@[8]);
        assert(native_static(fqcn, "encodeUtf8"@, 1) is Some);
    }
    if fqcn == "system.time.DateTime"@ {
        assert(fqcn.len() == 20);
        assert(fqcn[7] != "system.net.TcpStream"@[7]);
        assert(fqcn[8] != "system.thread.Thread"@[8]);
        assert(fqcn[8] != "system.text.Encoding"@[8]);
        assert(native_static(fqcn, "now"@, 0) is Some);
    }
    if fqcn == "system.time.TimeZone"@ {
        assert(fqcn.len() == 20);
        assert(fqcn[7] != "system.net.TcpStream"@[7]);
        assert(fqcn[8] != "system.thread.Thread"@[8]);
        assert(fqcn[8] != "system.text.Encoding"@[8]);
        assert(fqcn[12] != "system.time.DateTime"@[12]);
        assert(native_static(fqcn, "getDefault"@, 0) is Some);
    }
}

/// The signature by which a native static method is called is the one that
/// calls are checked against; only what prints, and `system.ps.Process.run`,
/// is called in a way of its own.
pub proof fn native_signatures_agree(fqcn: Seq<char>, name: Seq<char>, argc: nat)
    requires
        fqcn != "system.Out"@,
        fqcn != "system.Err"@,
        !(fqcn == "system.ps.Process"@ && name == "run"@),
    ensures
        native_static(fqcn, name, argc) == static_sig(fqcn, name, argc),
        static_sig(fqcn, name, argc) matches Some(sig) ==> sig.0.len() == argc,
{
    reveal(native_static);
    reveal_strlit("run");
}

/// Whether a type can be written in a program: the type of a closure literal
/// cannot.
pub open spec fn writable_type(t: ExprTyView) -> bool
    decreases t,
{
    match t {
        ExprTyView::Array(inner) => writable_type(*inner),
        ExprTyView::Closure { params, return_ty, fqcn, .. } => fqcn == FUNCTION_TYPE_FQCN@
            && writable_types(params) && writable_type(*return_ty),
        _ => true,
    }
}

pub open spec fn writable_types(s: Seq<ExprTyView>) -> bool
    decreases s,
{
    forall|i: int| 0 <= i < s.len() ==> writable_type(#[trigger] s[i])
}

/// A type that can be written is got back from how it is written.
pub proof fn written_type_reads_back(t: ExprTyView)
    requires
        writable_type(t),
    ensures
        expr_ty(as_type(t)) == t,
    decreases t,
{
    match t {
        ExprTyView::Array(inner) => {
            written_type_reads_back(*inner);
        },
        ExprTyView::Closure { params, return_ty, .. } => {
            written_types_read_back(params);
            written_type_reads_back(*return_ty);
        },
        _ => {},
    }
}

proof fn written_types_read_back(s: Seq<ExprTyView>)
    requires
        writable_types(s),
    ensures
        expr_tys(as_types(s)) == s,
    decreases s,
{
    assert forall|i: int| 0 <= i < s.len() implies expr_tys(as_types(s))[i] == s[i] by {
        assert(decreases_to!(s => s[i]));
        written_type_reads_back(s[i]);
    }
    assert(expr_tys(as_types(s)) =~= s);
}

/// Whether neither a union nor a template's instance occurs in a type.
pub open spec fn flat_type(t: TypeView) -> bool
    decreases t,
{
    match t {
        TypeView::Union(_) => false,
        TypeView::Generic(_, _) => false,
        TypeView::Array(inner) => flat_type(*inner),
        TypeView::Function { params, return_type, .. } => flat_types(params) && flat_type(
            *return_type,
        ),
        _ => true,
    }
}

pub open spec fn flat_types(s: Seq<TypeView>) -> bool
    decreases s,
{
    forall|i: int| 0 <= i < s.len() ==> flat_type(#[trigger] s[i])
}

/// The static type of a value determines the type that was written for it, the
/// exceptions of a function type too, as long as neither a union nor a
/// template's instance occurs in it.
pub proof fn static_type_keeps_the_type(t: TypeView)
    requires
        flat_type(t),
    ensures
        as_type(expr_ty(t)) == t,
    decreases t,
{
    match t {
        TypeView::Array(inner) => {
            static_type_keeps_the_type(*inner);
        },
        TypeView::Function { params, return_type, .. } => {
            static_types_keep_the_types(params);
            static_type_keeps_the_type(*return_type);
        },
        _ => {},
    }
}

proof fn static_types_keep_the_types(s: Seq<TypeView>)
    requires
        flat_types(s),
    ensures
        as_types(expr_tys(s)) == s,
    decreases s,
{
    assert forall|i: int| 0 <= i < s.len() implies as_types(expr_tys(s))[i] == s[i] by {
        assert(decreases_to!(s => s[i]));
        static_type_keeps_the_type(s[i]);
    }
    assert(as_types(expr_tys(s)) =~= s);
}

/// Every type has its own shape.
pub proof fn shape_reflexive(t: ExprTyView)
    ensures
        same_shape(t, t),
    decreases t,
{
    match t {
        ExprTyView::Array(inner) => {
            shape_reflexive(*inner);
        },
        ExprTyView::Closure { params, return_ty, .. } => {
            shapes_reflexive(params, params.len() as int);
            shape_reflexive(*return_ty);
        },
        _ => {},
    }
}

proof fn shapes_reflexive(s: Seq<ExprTyView>, n: int)
    requires
        n <= s.len(),
    ensures
        same_shapes(s, s, n),
    decreases s, n,
{
    if n > 0 {
        assert(decreases_to!(s => s[n - 1]));
        shapes_reflexive(s, n - 1);
        shape_reflexive(s[n - 1]);
    }
}

/// Having the same shape goes both ways.
pub proof fn shape_symmetric(a: ExprTyView, b: ExprTyView)
    requires
        same_shape(a, b),
    ensures
        same_shape(b, a),
    decreases a,
{
    match (a, b) {
        (ExprTyView::Array(x), ExprTyView::Array(y)) => {
            shape_symmetric(*x, *y);
        },
        (
            ExprTyView::Closure { params: pa, return_ty: ra, .. },
            ExprTyView::Closure { params: pb, return_ty: rb, .. },
        ) => {
            shapes_symmetric(pa, pb, pa.len() as int);
            shape_symmetric(*ra, *rb);
        },
        _ => {},
    }
}

proof fn shapes_symmetric(a: Seq<ExprTyView>, b: Seq<ExprTyView>, n: int)
    requires
        n <= a.len(),
        a.len() == b.len(),
        same_shapes(a, b, n),
    ensures
        same_shapes(b, a, n),
    decreases a, n,
{
    if n > 0 {
        assert(decreases_to!(a => a[n - 1]));
        shapes_symmetric(a, b, n - 1);
        shape_symmetric(a[n - 1], b[n - 1]);
    }
}

/// The class of a closure and its exceptions are no part of its shape.
pub proof fn shape_ignores_class(
    params: Seq<ExprTyView>,
    return_ty: Box<ExprTyView>,
    t: Seq<Seq<char>>,
    f: Seq<char>,
    u: Seq<Seq<char>>,
    g: Seq<char>,
)
    ensures
        same_shape(
            (ExprTyView::Closure { params, return_ty, throws: t, fqcn: f }),
            (ExprTyView::Closure { params, return_ty, throws: u, fqcn: g }),
        ),
{
    shapes_reflexive(params, params.len() as int);
    shape_reflexive(*return_ty);
}

/// Every parameter takes one slot, in the order of the parameters, a `ref`
/// one too; a name means its parameter.
pub proof fn parameters_take_one_slot_each(
    s: State,
    names: Seq<Seq<char>>,
    tys: Seq<ExprTyView>,
    refs: Seq<bool>,
    n: nat,
    k: int,
)
    requires
        s.scopes.len() > 0,
        names.no_duplicates(),
        0 <= k < n <= names.len(),
        s.next_local + n <= 0xffff,
    ensures
        declared(s, names, tys, refs, n as int).next_local == s.next_local + n,
        declared(s, names, tys, refs, n as int).max_locals >= s.next_local + n,
        declared(s, names, tys, refs, n as int).lookup(names[k]) == Some(
            SlotView {
                index: (s.next_local + k) as u16,
                ty: tys[k],
                boxed: if refs[k] {
                    Some(tys[k])
                } else {
                    None
                },
            },
        ),
    decreases n,
{
    let m = (n - 1) as nat;
    let a = declared(s, names, tys, refs, m as int);
    let b = declared(s, names, tys, refs, n as int);
    declared_keeps_scopes(s, names, tys, refs, m as int);
    reveal(State::declare);
    if m == 0 {
        assert(a == s);
    } else {
        parameters_take_one_slot_each(
            s,
            names,
            tys,
            refs,
            m,
            if k < m {
                k
            } else {
                0
            },
        );
    }
    let top = s.scopes.len() - 1;
    let slot = SlotView {
        index: a.next_local,
        ty: tys[m as int],
        boxed: if refs[m as int] {
            Some(tys[m as int])
        } else {
            None
        },
    };
    assert(b.scopes[top] == a.scopes[top].push((names[m as int], slot)));
    bound_to_push(a.scopes[top], names[m as int], slot, names[k]);
    if k < m {
        assert(names[k] != names[m as int]);
        outer_scopes_same(a.scopes, b.scopes, names[k], top);
    }
}

/// Declaring parameters neither opens nor closes a scope.
proof fn declared_keeps_scopes(
    s: State,
    names: Seq<Seq<char>>,
    tys: Seq<ExprTyView>,
    refs: Seq<bool>,
    n: int,
)
    ensures
        declared(s, names, tys, refs, n).scopes.len() == s.scopes.len(),
    decreases n,
{
    if n > 0 {
        declared_keeps_scopes(s, names, tys, refs, n - 1);
        reveal(State::declare);
    }
}

proof fn outer_scopes_same(
    a: Seq<Seq<(Seq<char>, SlotView)>>,
    b: Seq<Seq<(Seq<char>, SlotView)>>,
    name: Seq<char>,
    n: int,
)
    requires
        0 <= n <= a.len(),
        a.len() == b.len(),
        forall|i: int| 0 <= i < n ==> #[trigger] a[i] == b[i],
    ensures
        slot_in(a, name, n) == slot_in(b, name, n),
    decreases n,
{
    if n > 0 {
        outer_scopes_same(a, b, name, n - 1);
    }
}

} // verus!
