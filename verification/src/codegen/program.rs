//! Compilation of methods, classes and programs.

use crate::ast::{
    clone_types, ClassDecl, Expr, FieldDecl, InterfaceDecl, MethodDecl, MethodKind, MethodSig,
    Param, SourceFile, SourceItem, Stmt, StmtKind, Type, TypeView, Visibility,
};
use crate::bytecode::{class_flags, field_flags, method_flags};
use crate::bytecode::constant_pool::{
    class_name_of, with_class, with_method_ref, with_type_desc, with_utf8, ConstantPool, EntryView,
};
use crate::bytecode::laws::{interned_is_found, interned_keeps};
use crate::bytecode::module::{
    method_views, FieldDescriptor, HashAlgo, MethodDescriptor, MethodView, Module, ModuleView,
    VERSION,
};
use crate::bytecode::opcode::Opcode;
use crate::class_table::{
    build_class_table, interface_closure, interfaces_from, leading_required, param_defaults,
    param_defaults_of, param_names, param_names_of, param_refs, param_refs_of, param_types,
    param_types_of, required_count, table_of, ClassTable, Classes,
};
use crate::codegen::closure::{
    boxed_captures_in_block, collect_block, collect_expr, in_block, in_expr, Occurs,
};
use crate::codegen::emitter::{
    fresh, module_views, sig_views, typings_views, Cx, CxView, Emitter, MethodSigView, Overloads,
    State, Unit,
};
use crate::codegen::error::CodegenError;
use crate::codegen::expr_ty::{
    calling_convention_params, copy_expr_tys, expr_ty, expr_ty_of, expr_ty_views, expr_tys,
    expr_tys_of, passed_types, ExprTy, ExprTyView,
};
use crate::codegen::growth::{
    distinct, empty_distinct, extended, extended_self, extended_trans, grown_in_order, grows,
    interned_grows, method_in_order, methods_in_order, module_in_order,
    modules_in_order, modules_in_order_join, name_stays, pool_grows,
};
use crate::codegen::lowered::{field_assign_code, stmt_code, stmts_code};
use crate::codegen::naming::{class_is_read, headed, headed_stays, header_is_read, names_class, typed};
use crate::codegen::ops::{done_as, Done};
use crate::codegen::stmt::blocks;
use crate::codegen::type_desc::{
    method_descriptor, method_descriptor_text, type_descriptor, type_descriptor_text,
};
use crate::codegen::vars::{declared, reboxed};
use crate::names::{bound_to, NameMap, NameSet};
use crate::native_generics::{NativeClasses, Natives};
use crate::probe::{with_params, Site, SiteView, Typings};
use crate::resolve::{
    fqcn_of, full_name, import_map, imports_of, resolve_name, resolve_names, resolve_type,
    resolved_name, resolved_names, resolved_type, Prelude,
};
use crate::text::{cat3, clone_strings, decimal, decimal_text, owned, str_eq, texts};
use vstd::prelude::*;

verus! {

broadcast use crate::codegen::growth::group_growth;

pub open spec fn field_visibility(v: Visibility) -> u16 {
    match v {
        Visibility::Public => field_flags::PUBLIC,
        Visibility::Protected => field_flags::PROTECTED,
        Visibility::Private => field_flags::PRIVATE,
    }
}

fn visibility_field_flag(v: Visibility) -> (r: u16)
    ensures
        r == field_visibility(v),
{
    match v {
        Visibility::Public => field_flags::PUBLIC,
        Visibility::Protected => field_flags::PROTECTED,
        Visibility::Private => field_flags::PRIVATE,
    }
}

pub open spec fn method_visibility(v: Visibility) -> u16 {
    match v {
        Visibility::Public => method_flags::PUBLIC,
        Visibility::Protected => method_flags::PROTECTED,
        Visibility::Private => method_flags::PRIVATE,
    }
}

fn visibility_method_flag(v: Visibility) -> (r: u16)
    ensures
        r == method_visibility(v),
{
    match v {
        Visibility::Public => method_flags::PUBLIC,
        Visibility::Protected => method_flags::PROTECTED,
        Visibility::Private => method_flags::PRIVATE,
    }
}

/// `bit`, or no bit.
pub open spec fn bit_if(on: bool, bit: u16) -> u16 {
    if on {
        bit
    } else {
        0
    }
}

fn flag_if(on: bool, bit: u16) -> (r: u16)
    ensures
        r == bit_if(on, bit),
{
    if on {
        bit
    } else {
        0
    }
}

/// What the compilation of a method needs of its declaration.
pub struct HeadView {
    pub kind: MethodKind,
    pub visibility: Visibility,
    pub is_static: bool,
    pub is_final: bool,
    pub return_type: TypeView,
    pub params: Seq<Param>,
    pub throws: Seq<Seq<char>>,
    pub body: Seq<Stmt>,
}

pub open spec fn head_of(m: MethodDecl) -> HeadView {
    HeadView {
        kind: m.kind,
        visibility: m.visibility,
        is_static: m.is_static,
        is_final: m.is_final,
        return_type: m.return_type@,
        params: m.params@,
        throws: texts(m.throws@),
        body: m.body@,
    }
}

/// The method that gives the static fields of a class their initial values.
pub open spec fn clinit_head() -> HeadView {
    HeadView {
        kind: MethodKind::Normal,
        visibility: Visibility::Public,
        is_static: true,
        is_final: false,
        return_type: TypeView::Void,
        params: Seq::empty(),
        throws: Seq::empty(),
        body: Seq::empty(),
    }
}

fn clinit_decl(line: u32) -> (r: MethodDecl)
    ensures
        head_of(r) == clinit_head(),
{
    let r = MethodDecl {
        name: owned("<clinit>"),
        kind: MethodKind::Normal,
        visibility: Visibility::Public,
        visibility_explicit: true,
        is_static: true,
        is_const: false,
        is_abstract: false,
        is_final: false,
        is_nodiscard: false,
        return_type: Type::Void,
        params: Vec::new(),
        throws: Vec::new(),
        body: Vec::new(),
        decl_line: line,
    };
    assert(r.params@ =~= Seq::empty());
    assert(texts(r.throws@) =~= Seq::empty());
    assert(r.body@ =~= Seq::empty());
    r
}

/// The descriptor of a method: its parameters as they are passed, and its
/// result.
#[verifier::opaque]
pub open spec fn signature_text(
    params: Seq<Param>,
    return_type: TypeView,
    imports: Seq<(Seq<char>, Seq<char>)>,
) -> Seq<char> {
    method_descriptor_text(
        passed_types(param_types(params, imports), param_refs(params)),
        resolved_type(return_type, imports),
    )
}

fn signature_of(params: &Vec<Param>, return_type: &Type, imports: &NameMap<String>) -> (r: String)
    ensures
        r@ == signature_text(params@, return_type@, imports@),
{
    reveal(signature_text);
    let passed = calling_convention_params(&param_types_of(params, imports), &param_refs_of(params));
    method_descriptor(&passed, &resolve_type(return_type, imports))
}

/// The pool with the name and the descriptor of a method entered.
pub open spec fn with_header(
    cp: Seq<EntryView>,
    name: Seq<char>,
    params: Seq<Param>,
    return_type: TypeView,
    imports: Seq<(Seq<char>, Seq<char>)>,
) -> (Seq<EntryView>, u16, u16) {
    let (cp1, n) = with_utf8(cp, name);
    let (cp2, d) = with_type_desc(cp1, signature_text(params, return_type, imports));
    (cp2, n, d)
}

fn add_header(
    cp: &mut ConstantPool,
    name: &str,
    params: &Vec<Param>,
    return_type: &Type,
    imports: &NameMap<String>,
) -> (r: (u16, u16))
    ensures
        (final(cp)@, r.0, r.1) == with_header(old(cp)@, name@, params@, return_type@, imports@),
        extended(old(cp)@, final(cp)@),
{
    let n: u16 = cp.add_utf8(name);
    let ghost mid = cp@;
    let signature = signature_of(params, return_type, imports);
    let d: u16 = cp.add_type_desc(signature.as_str());
    proof {
        pool_grows(old(cp)@, name@);
        pool_grows(mid, signature@);
        extended_trans(old(cp)@, mid, cp@);
    }
    (n, d)
}

/// The pool with the first `n` classes entered, and their indices.
pub open spec fn with_classes(cp: Seq<EntryView>, names: Seq<Seq<char>>, n: int) -> (
    Seq<EntryView>,
    Seq<u16>,
)
    decreases n,
{
    if n <= 0 {
        (cp, Seq::empty())
    } else {
        let (cp1, indices) = with_classes(cp, names, n - 1);
        let (cp2, i) = with_class(cp1, names[n - 1]);
        (cp2, indices.push(i))
    }
}

/// Those indices name the classes in every pool that comes of that one.
proof fn classes_are_named(
    cp: Seq<EntryView>,
    names: Seq<Seq<char>>,
    n: int,
    q: Seq<EntryView>,
)
    requires
        extended(with_classes(cp, names, n).0, q),
    ensures
        with_classes(cp, names, n).1.len() == if n <= 0 {
            0
        } else {
            n
        },
        forall|i: int|
            0 <= i < n ==> names_class(q, #[trigger] with_classes(cp, names, n).1[i], names[i]),
    decreases n,
{
    if n > 0 {
        let (cp1, indices) = with_classes(cp, names, n - 1);
        let (cp2, index) = with_class(cp1, names[n - 1]);
        pool_grows(cp1, names[n - 1]);
        extended_trans(cp1, cp2, q);
        classes_are_named(cp, names, n - 1, q);
        class_is_read(cp1, names[n - 1], q);
        assert forall|i: int| 0 <= i < n implies names_class(
            q,
            #[trigger] with_classes(cp, names, n).1[i],
            names[i],
        ) by {
            if i < n - 1 {
                assert(with_classes(cp, names, n).1[i] == indices[i]);
            }
        }
    }
}

fn add_classes(cp: &mut ConstantPool, names: &Vec<String>) -> (r: Vec<u16>)
    ensures
        (final(cp)@, r@) == with_classes(old(cp)@, texts(names@), names@.len() as int),
        extended(old(cp)@, final(cp)@),
{
    proof {
        extended_self(cp@);
    }
    let ghost ns = texts(names@);
    let ghost cp0 = cp@;
    let mut out: Vec<u16> = Vec::new();
    let mut i: usize = 0;
    assert(out@ =~= Seq::<u16>::empty());
    while i < names.len()
        invariant
            i <= names@.len(),
            ns == texts(names@),
            cp0 == old(cp)@,
            (cp@, out@) == with_classes(cp0, ns, i as int),
            extended(cp0, cp@),
        decreases names@.len() - i,
    {
        assert(ns[i as int] == names@[i as int]@);
        let ghost mid = cp@;
        let index: u16 = cp.add_class(names[i].as_str());
        proof {
            pool_grows(mid, ns[i as int]);
            extended_trans(cp0, mid, cp@);
        }
        out.push(index);
        i = i + 1;
    }
    out
}

/// A method without code, as abstract methods and those of interfaces are.
pub open spec fn stub(flags: u16, name_index: u16, descriptor_index: u16, throws: Seq<u16>) -> MethodView {
    MethodView {
        flags,
        name_index,
        descriptor_index,
        throws_types: throws,
        max_locals: 0,
        max_stack: 0,
        code: Seq::empty(),
        exception_table: Seq::empty(),
        line_table: Seq::empty(),
    }
}

fn stub_descriptor(flags: u16, name_index: u16, descriptor_index: u16, throws_types: Vec<u16>) -> (r:
    MethodDescriptor)
    ensures
        r@ == stub(flags, name_index, descriptor_index, throws_types@),
{
    MethodDescriptor {
        flags,
        name_index,
        descriptor_index,
        throws_types,
        max_locals: 0,
        max_stack: 0,
        code: Vec::new(),
        exception_table: Vec::new(),
        line_table: Vec::new(),
    }
}

/// Whether the pool gives a method the name and the signature that it has in
/// the source.
pub open spec fn method_headed(
    cp: Seq<EntryView>,
    v: MethodView,
    m: MethodDecl,
    imports: Seq<(Seq<char>, Seq<char>)>,
) -> bool {
    headed(cp, v, m.name@, signature_text(m.params@, m.return_type@, imports))
}

#[verifier::opaque]
pub open spec fn abstract_method(
    cp: Seq<EntryView>,
    m: MethodDecl,
    imports: Seq<(Seq<char>, Seq<char>)>,
) -> (Seq<EntryView>, MethodView) {
    let (cp1, n, d) = with_header(cp, m.name@, m.params@, m.return_type@, imports);
    let throws = resolved_names(texts(m.throws@), imports);
    let (cp2, indices) = with_classes(cp1, throws, throws.len() as int);
    let flags = method_visibility(m.visibility) | method_flags::ABSTRACT | bit_if(
        m.is_static,
        method_flags::STATIC,
    );
    (cp2, stub(flags, n, d, indices))
}

fn abstract_method_descriptor(
    method: &MethodDecl,
    cp: &mut ConstantPool,
    imports: &NameMap<String>,
) -> (r: MethodDescriptor)
    ensures
        (final(cp)@, r@) == abstract_method(old(cp)@, *method, imports@),
        extended(old(cp)@, final(cp)@),
        method_in_order(r@),
        method_headed(final(cp)@, r@, *method, imports@),
{
    reveal(abstract_method);
    let (n, d) = add_header(
        cp,
        method.name.as_str(),
        &method.params,
        &method.return_type,
        imports,
    );
    let ghost mid = cp@;
    let throws = resolve_names(&method.throws, imports);
    let indices = add_classes(cp, &throws);
    proof {
        extended_trans(old(cp)@, mid, cp@);
        header_is_read(
            old(cp)@,
            method.name@,
            signature_text(method.params@, method.return_type@, imports@),
            cp@,
        );
    }
    let flags: u16 = visibility_method_flag(method.visibility) | method_flags::ABSTRACT | flag_if(
        method.is_static,
        method_flags::STATIC,
    );
    stub_descriptor(flags, n, d, indices)
}

pub open spec fn interface_method(
    cp: Seq<EntryView>,
    m: MethodSig,
    imports: Seq<(Seq<char>, Seq<char>)>,
) -> (Seq<EntryView>, MethodView) {
    let (cp1, n, d) = with_header(cp, m.name@, m.params@, m.return_type@, imports);
    (cp1, stub(method_flags::PUBLIC | method_flags::ABSTRACT, n, d, Seq::empty()))
}

fn interface_method_descriptor(sig: &MethodSig, cp: &mut ConstantPool, imports: &NameMap<String>) -> (
    r: MethodDescriptor)
    ensures
        (final(cp)@, r@) == interface_method(old(cp)@, *sig, imports@),
        extended(old(cp)@, final(cp)@),
        method_in_order(r@),
{
    let (n, d) = add_header(cp, sig.name.as_str(), &sig.params, &sig.return_type, imports);
    stub_descriptor(method_flags::PUBLIC | method_flags::ABSTRACT, n, d, Vec::new())
}

/// The fields whose initial values a method is to set: those of the objects
/// made or those of the class, on `target`, and whether after the method's
/// first statement.
pub struct Inits {
    pub target: Expr,
    pub of_class: bool,
    pub after_first: bool,
}

/// Whether a field is one of those, and has an initial value.
pub open spec fn initialized(f: FieldDecl, of_class: bool) -> bool {
    f.is_static == of_class && f.init is Some
}

/// Whether any of the fields from the `i`-th on is.
pub open spec fn any_initialized(fields: Seq<FieldDecl>, of_class: bool, i: int) -> bool
    decreases fields.len() - i,
{
    if i < 0 || i >= fields.len() {
        false
    } else {
        initialized(fields[i], of_class) || any_initialized(fields, of_class, i + 1)
    }
}

fn has_initialized(fields: &Vec<FieldDecl>, of_class: bool) -> (r: bool)
    ensures
        r == any_initialized(fields@, of_class, 0),
{
    let mut i: usize = 0;
    while i < fields.len()
        invariant
            i <= fields@.len(),
            any_initialized(fields@, of_class, 0) == any_initialized(fields@, of_class, i as int),
        decreases fields@.len() - i,
    {
        if fields[i].is_static == of_class && fields[i].init.is_some() {
            return true;
        }
        i = i + 1;
    }
    false
}

/// The names that occur in the initial values of the first `n` fields.
pub open spec fn in_inits(fields: Seq<FieldDecl>, of_class: bool, o: Occurs, n: int) -> Set<Seq<char>>
    decreases n,
{
    if n <= 0 {
        Set::empty()
    } else if initialized(fields[n - 1], of_class) {
        in_inits(fields, of_class, o, n - 1).union(in_expr(fields[n - 1].init->0, o))
    } else {
        in_inits(fields, of_class, o, n - 1)
    }
}

/// The names that occur in a method's body and the initial values it sets.
pub open spec fn in_method(
    fields: Seq<FieldDecl>,
    inits: Option<Inits>,
    body: Seq<Stmt>,
    o: Occurs,
) -> Set<Seq<char>> {
    match inits {
        Some(i) => in_inits(fields, i.of_class, o, fields.len() as int).union(in_block(body, o)),
        None => in_block(body, o),
    }
}

/// The variables of a method that need a box.
#[verifier::opaque]
pub open spec fn boxed_in_method(
    fields: Seq<FieldDecl>,
    inits: Option<Inits>,
    body: Seq<Stmt>,
) -> Set<Seq<char>> {
    in_method(fields, inits, body, Occurs::Captured).intersect(
        in_method(fields, inits, body, Occurs::Mutated),
    )
}

fn names_in_method(
    fields: &Vec<FieldDecl>,
    inits: &Option<Inits>,
    body: &Vec<Stmt>,
    o: Occurs,
) -> (r: NameSet)
    ensures
        r@ == in_method(fields@, *inits, body@, o),
{
    let mut names = NameSet::new();
    if let Some(inits) = inits {
        let of_class = inits.of_class;
        let mut i: usize = 0;
        while i < fields.len()
            invariant
                i <= fields@.len(),
                names@ == in_inits(fields@, of_class, o, i as int),
            decreases fields@.len() - i,
        {
            if fields[i].is_static == of_class {
                if let Some(e) = &fields[i].init {
                    collect_expr(e, o, &mut names);
                }
            }
            i = i + 1;
        }
    }
    collect_block(body, o, &mut names);
    assert(names@ =~= in_method(fields@, *inits, body@, o));
    names
}

fn boxed_names(fields: &Vec<FieldDecl>, inits: &Option<Inits>, body: &Vec<Stmt>) -> (r: NameSet)
    ensures
        r@ == boxed_in_method(fields@, *inits, body@),
{
    reveal(boxed_in_method);
    if inits.is_none() {
        return boxed_captures_in_block(body);
    }
    let captured = names_in_method(fields, inits, body, Occurs::Captured);
    let mutated = names_in_method(fields, inits, body, Occurs::Mutated);
    captured.intersection(&mutated)
}

/// The initial values of the fields from the `i`-th on.
pub open spec fn inits_code(
    c: CxView,
    s: State,
    fields: Seq<FieldDecl>,
    inits: Inits,
    i: int,
) -> Done
    decreases fields.len() - i,
{
    if i < 0 || i >= fields.len() {
        Ok(s)
    } else if !initialized(fields[i], inits.of_class) {
        inits_code(c, s, fields, inits, i + 1)
    } else {
        match field_assign_code(
            c,
            s,
            inits.target,
            fields[i].name@,
            fields[i].init->0,
        ) {
            Err(e) => Err(e),
            Ok((s1, t)) => {
                inits_code(
                    c,
                    if t is Void {
                        s1
                    } else {
                        s1.op(Opcode::Pop, -1)
                    },
                    fields,
                    inits,
                    i + 1,
                )
            },
        }
    }
}

/// The body of a method, with the initial values it sets.
#[verifier::opaque]
pub open spec fn method_body_code(
    c: CxView,
    s: State,
    fields: Seq<FieldDecl>,
    inits: Option<Inits>,
    body: Seq<Stmt>,
) -> Done {
    match inits {
        Some(inits) => {
            match if inits.after_first {
                stmt_code(c, s, body[0], Seq::empty())
            } else {
                Done::Ok(s)
            } {
                Err(e) => Err(e),
                Ok(s1) => match inits_code(c, s1, fields, inits, 0) {
                    Err(e) => Err(e),
                    Ok(s2) => {
                        stmts_code(
                            c,
                            s2,
                            body,
                            Seq::empty(),
                            if inits.after_first {
                                1
                            } else {
                                0
                            },
                        )
                    },
                },
            }
        },
        None => stmts_code(c, s, body, Seq::empty(), 0),
    }
}

/// A class while its methods are compiled.
pub struct ClassCx<'a> {
    pub classes: &'a ClassTable<'a>,
    pub imports: &'a NameMap<String>,
    pub static_sigs: &'a NameMap<Overloads<'a>>,
    pub natives: &'a NativeClasses,
    pub this_class: u16,
    pub this_fqcn: &'a str,
    pub fields: &'a Vec<FieldDecl>,
    pub level: usize,
}

pub struct ClassCxView {
    pub classes: Classes,
    pub imports: Seq<(Seq<char>, Seq<char>)>,
    pub static_sigs: Seq<(Seq<char>, Seq<MethodSigView>)>,
    pub natives: Natives,
    pub this_class: u16,
    pub this_fqcn: Seq<char>,
    pub fields: Seq<FieldDecl>,
    pub level: nat,
}

impl<'a> View for ClassCx<'a> {
    type V = ClassCxView;

    open spec fn view(&self) -> ClassCxView {
        ClassCxView {
            classes: self.classes@,
            imports: self.imports@,
            static_sigs: self.static_sigs@,
            natives: self.natives@,
            this_class: self.this_class,
            this_fqcn: self.this_fqcn@,
            fields: self.fields@,
            level: self.level as nat,
        }
    }
}

/// The context of the `index`-th method's body.
pub open spec fn method_cx(
    k: ClassCxView,
    index: nat,
    params: Seq<Param>,
    boxed: Set<Seq<char>>,
) -> CxView {
    let site = SiteView {
        classes: k.classes,
        imports: k.imports,
        natives: k.natives,
        home: k.this_fqcn,
    };
    CxView {
        classes: k.classes,
        imports: k.imports,
        static_sigs: k.static_sigs,
        natives: k.natives,
        this_class: k.this_class,
        this_fqcn: k.this_fqcn,
        captured_fields: Seq::empty(),
        boxed_captures: boxed,
        closure_name_prefix: k.this_fqcn + "$m"@ + decimal_text(index),
        home: k.this_fqcn,
        level: k.level,
        typings: with_params(site, Seq::empty(), params, params.len() as int),
        tries: Seq::empty(),
    }
}

/// The state at the start of a method's body: `this` unless it is static, then
/// its parameters.
#[verifier::opaque]
pub open spec fn method_start(
    k: ClassCxView,
    cp: Seq<EntryView>,
    h: HeadView,
    boxed: Set<Seq<char>>,
) -> State {
    let s0 = fresh(cp).push_scope();
    let s1 = if h.is_static {
        s0
    } else {
        s0.declare_local("this"@, ExprTyView::Object(k.this_fqcn))
    };
    let names = param_names(h.params);
    let tys = expr_tys(param_types(h.params, k.imports));
    let refs = param_refs(h.params);
    let n = names.len() as int;
    reboxed(declared(s1, names, tys, refs, n), boxed, names, tys, refs, n)
}

pub open spec fn kind_bit(kind: MethodKind) -> u16 {
    match kind {
        MethodKind::Constructor => method_flags::CONSTRUCTOR,
        MethodKind::Destructor => method_flags::DESTRUCTOR,
        MethodKind::Normal => 0,
    }
}

fn kind_flag(kind: MethodKind) -> (r: u16)
    ensures
        r == kind_bit(kind),
{
    match kind {
        MethodKind::Constructor => method_flags::CONSTRUCTOR,
        MethodKind::Destructor => method_flags::DESTRUCTOR,
        MethodKind::Normal => 0,
    }
}

#[verifier::opaque]
pub open spec fn method_bits(h: HeadView) -> u16 {
    method_visibility(h.visibility) | bit_if(h.is_static, method_flags::STATIC) | bit_if(
        h.is_final,
        method_flags::FINAL,
    ) | kind_bit(h.kind)
}

/// What compiling methods comes to: the pool, the methods, and the classes of
/// their closures.
pub type Methods = Result<(Seq<EntryView>, Seq<MethodView>, Seq<ModuleView>), Seq<char>>;

/// The end of a method: a method that returns nothing returns at its end.
pub open spec fn method_end(s: State, return_type: TypeView) -> State {
    if return_type is Void {
        s.exit_op(Opcode::Return).pop_scope()
    } else {
        s.pop_scope()
    }
}

/// A method with code: the pool after it, the method, and the classes of its
/// closures.
#[verifier::opaque]
pub open spec fn method_code(
    k: ClassCxView,
    cp: Seq<EntryView>,
    name: Seq<char>,
    index: nat,
    h: HeadView,
    inits: Option<Inits>,
) -> Result<(Seq<EntryView>, MethodView, Seq<ModuleView>), Seq<char>> {
    let (cp1, name_index, descriptor_index) = with_header(
        cp,
        name,
        h.params,
        h.return_type,
        k.imports,
    );
    let boxed = boxed_in_method(k.fields, inits, h.body);
    let c = method_cx(k, index, h.params, boxed);
    match method_body_code(c, method_start(k, cp1, h, boxed), k.fields, inits, h.body) {
        Err(e) => Err(e),
        Ok(s) => {
            let end = method_end(s, resolved_type(h.return_type, k.imports));
            let throws = resolved_names(h.throws, k.imports);
            let (cp2, throws_types) = with_classes(end.cp, throws, throws.len() as int);
            Ok(
                (
                    cp2,
                    MethodView {
                        flags: method_bits(h),
                        name_index,
                        descriptor_index,
                        throws_types,
                        max_locals: end.max_locals,
                        max_stack: end.max_stack(),
                        code: end.code,
                        exception_table: end.exception_table,
                        line_table: end.line_table,
                    },
                    end.closures,
                ),
            )
        },
    }
}

fn compile_field_inits(em: &mut Emitter, c: Cx, fields: &Vec<FieldDecl>, inits: &Inits) -> (r: Result<
    (),
    CodegenError,
>)
    ensures
        done_as(r, final(em)@, inits_code(c@, old(em)@, fields@, *inits, 0)),
        grows(old(em)@, final(em)@),
{
    let ghost whole = inits_code(c@, em@, fields@, *inits, 0);
    let mut i: usize = 0;
    while i < fields.len()
        invariant
            i <= fields@.len(),
            grows(old(em)@, em@),
            whole == inits_code(c@, old(em)@, fields@, *inits, 0),
            whole == inits_code(c@, em@, fields@, *inits, i as int),
        decreases fields@.len() - i,
    {
        if fields[i].is_static == inits.of_class {
            if let Some(value) = &fields[i].init {
                let ty = em.compile_field_assign(
                    c,
                    &inits.target,
                    fields[i].name.as_str(),
                    value,
                )?;
                if !ty.is_void() {
                    em.op(Opcode::Pop, -1);
                }
            }
        }
        i = i + 1;
    }
    Ok(())
}

fn compile_method_body(
    em: &mut Emitter,
    c: Cx,
    fields: &Vec<FieldDecl>,
    inits: &Option<Inits>,
    body: &Vec<Stmt>,
) -> (r: Result<(), CodegenError>)
    requires
        *inits matches Some(i) ==> i.after_first ==> body@.len() > 0,
    ensures
        done_as(r, final(em)@, method_body_code(c@, old(em)@, fields@, *inits, body@)),
        grows(old(em)@, final(em)@),
{
    reveal(method_body_code);
    let none: Vec<&Vec<Stmt>> = Vec::new();
    assert(blocks(none@) =~= Seq::empty());
    match inits {
        Some(inits) => {
            let mut from: usize = 0;
            if inits.after_first {
                em.compile_stmt(c, &body[0], &none)?;
                from = 1;
            }
            compile_field_inits(em, c, fields, inits)?;
            em.compile_stmts_from(c, body, &none, from)
        },
        None => em.compile_stmts(c, body, &none),
    }
}

fn start_method(k: &ClassCx, cp: ConstantPool, method: &MethodDecl, boxed: &NameSet) -> (em: Emitter)
    ensures
        em@ == method_start(k@, cp@, head_of(*method), boxed@),
        grows(fresh(cp@), em@),
{
    reveal(method_start);
    let mut em = Emitter::new(cp);
    em.push_scope();
    if !method.is_static {
        em.declare_local(owned("this"), ExprTy::Object(owned(k.this_fqcn)));
    }
    let names = param_names_of(&method.params);
    let tys = expr_tys_of(&param_types_of(&method.params, k.imports));
    let refs = param_refs_of(&method.params);
    assert(texts(names@).len() == method.params@.len());
    assert(expr_ty_views(tys@).len() == method.params@.len());
    em.declare_params(&names, &tys, &refs);
    em.rebox_params(boxed, &names, &tys, &refs);
    em
}

fn flags_of(method: &MethodDecl) -> (r: u16)
    ensures
        r == method_bits(head_of(*method)),
{
    reveal(method_bits);
    visibility_method_flag(method.visibility) | flag_if(method.is_static, method_flags::STATIC)
        | flag_if(method.is_final, method_flags::FINAL) | kind_flag(method.kind)
}

/// Compiles a method of a class; the pool is handed on.
fn compile_method(
    k: &ClassCx,
    cp: ConstantPool,
    name: &str,
    index: usize,
    method: &MethodDecl,
    inits: &Option<Inits>,
) -> (r: Result<(ConstantPool, MethodDescriptor, Vec<Module>), CodegenError>)
    requires
        *inits matches Some(i) ==> i.after_first ==> method.body@.len() > 0,
    ensures
        ({
            let want = method_code(k@, cp@, name@, index as nat, head_of(*method), *inits);
            match r {
                Ok((pool, m, closures)) => want == Result::<
                    (Seq<EntryView>, MethodView, Seq<ModuleView>),
                    Seq<char>,
                >::Ok((pool@, m@, module_views(closures@))),
                Err(e) => want == Result::<
                    (Seq<EntryView>, MethodView, Seq<ModuleView>),
                    Seq<char>,
                >::Err(e@),
            }
        }),
        r matches Ok((pool, m, closures)) ==> extended(cp@, pool@) && method_in_order(m@)
            && modules_in_order(module_views(closures@)) && headed(
            pool@,
            m@,
            name@,
            signature_text(method.params@, method.return_type@, k@.imports),
        ),
{
    reveal(method_code);
    let ghost h = head_of(*method);
    let mut pool = cp;
    let (name_index, descriptor_index) = add_header(
        &mut pool,
        name,
        &method.params,
        &method.return_type,
        k.imports,
    );
    let unit = Unit {
        classes: k.classes,
        imports: k.imports,
        static_sigs: k.static_sigs,
        natives: k.natives,
        this_class: k.this_class,
        this_fqcn: owned(k.this_fqcn),
        captured_fields: NameMap::new(),
        boxed_captures: boxed_names(k.fields, inits, &method.body),
        closure_name_prefix: cat3(k.this_fqcn, "$m", decimal(index as u64).as_str()),
        home: owned(k.this_fqcn),
    };
    let mut typings = Typings::new();
    let site = Site {
        classes: k.classes,
        imports: k.imports,
        natives: k.natives,
        home: k.this_fqcn,
    };
    typings.enter(&site, &method.params);
    let tries: Vec<&Typings> = Vec::new();
    assert(typings_views(tries@) =~= Seq::empty());
    let c = Cx { unit: &unit, level: k.level, typings: &typings, tries: &tries };
    let ghost boxed = boxed_in_method(k@.fields, *inits, h.body);
    assert(c@ == method_cx(k@, index as nat, method.params@, boxed));
    let ghost start = pool@;
    let mut em = start_method(k, pool, method, &unit.boxed_captures);
    compile_method_body(&mut em, c, k.fields, inits, &method.body)?;
    if matches!(resolve_type(&method.return_type, k.imports), Type::Void) {
        em.exit_op(Opcode::Return);
    }
    em.pop_scope();
    let ghost end = em@;
    let max_stack: u16 = em.max_stack();
    let mut pool = em.cp;
    let throws_types = add_classes(&mut pool, &resolve_names(&method.throws, k.imports));
    proof {
        grown_in_order(start, end);
        extended_trans(start, end.cp, pool@);
        extended_trans(cp@, start, pool@);
        header_is_read(
            cp@,
            name@,
            signature_text(method.params@, method.return_type@, k@.imports),
            pool@,
        );
    }
    let m = MethodDescriptor {
        flags: flags_of(method),
        name_index,
        descriptor_index,
        throws_types,
        max_locals: em.max_locals,
        max_stack,
        code: em.code,
        exception_table: em.exception_table,
        line_table: em.line_table,
    };
    Ok((pool, m, em.closures))
}

/// The fields of a class, entered in the pool.
pub open spec fn field_descriptors(
    cp: Seq<EntryView>,
    fields: Seq<FieldDecl>,
    imports: Seq<(Seq<char>, Seq<char>)>,
    n: int,
) -> (Seq<EntryView>, Seq<FieldDescriptor>)
    decreases n,
{
    if n <= 0 {
        (cp, Seq::empty())
    } else {
        let (cp0, done) = field_descriptors(cp, fields, imports, n - 1);
        let f = fields[n - 1];
        let (cp1, name_index) = with_utf8(cp0, f.name@);
        let (cp2, type_index) = with_type_desc(
            cp1,
            type_descriptor_text(resolved_type(f.ty@, imports)),
        );
        let flags = field_visibility(f.visibility) | bit_if(f.is_static, field_flags::STATIC)
            | bit_if(f.readonly, field_flags::READONLY);
        (cp2, done.push(FieldDescriptor { flags, name_index, type_index }))
    }
}

/// What a field is called and its type are read back in every pool that comes
/// of that one.
proof fn fields_are_typed(
    cp: Seq<EntryView>,
    fields: Seq<FieldDecl>,
    imports: Seq<(Seq<char>, Seq<char>)>,
    n: int,
    q: Seq<EntryView>,
)
    requires
        extended(field_descriptors(cp, fields, imports, n).0, q),
    ensures
        field_descriptors(cp, fields, imports, n).1.len() == if n <= 0 {
            0
        } else {
            n
        },
        forall|i: int|
            0 <= i < n ==> typed(
                q,
                #[trigger] field_descriptors(cp, fields, imports, n).1[i],
                fields[i].name@,
                type_descriptor_text(resolved_type(fields[i].ty@, imports)),
            ),
    decreases n,
{
    if n > 0 {
        let (cp0, done) = field_descriptors(cp, fields, imports, n - 1);
        let f = fields[n - 1];
        let desc = type_descriptor_text(resolved_type(f.ty@, imports));
        let cp1 = with_utf8(cp0, f.name@).0;
        let cp2 = with_type_desc(cp1, desc).0;
        pool_grows(cp0, f.name@);
        pool_grows(cp1, desc);
        extended_trans(cp0, cp1, cp2);
        extended_trans(cp0, cp2, q);
        fields_are_typed(cp, fields, imports, n - 1, q);
        header_is_read(cp0, f.name@, desc, q);
        assert forall|i: int| 0 <= i < n implies typed(
            q,
            #[trigger] field_descriptors(cp, fields, imports, n).1[i],
            fields[i].name@,
            type_descriptor_text(resolved_type(fields[i].ty@, imports)),
        ) by {
            if i < n - 1 {
                assert(field_descriptors(cp, fields, imports, n).1[i] == done[i]);
            }
        }
    }
}

fn add_fields(cp: &mut ConstantPool, fields: &Vec<FieldDecl>, imports: &NameMap<String>) -> (r: Vec<
    FieldDescriptor,
>)
    ensures
        (final(cp)@, r@) == field_descriptors(
            old(cp)@,
            fields@,
            imports@,
            fields@.len() as int,
        ),
        extended(old(cp)@, final(cp)@),
{
    let ghost cp0 = cp@;
    proof {
        extended_self(cp0);
    }
    let mut out: Vec<FieldDescriptor> = Vec::new();
    let mut i: usize = 0;
    assert(out@ =~= Seq::<FieldDescriptor>::empty());
    while i < fields.len()
        invariant
            i <= fields@.len(),
            cp0 == old(cp)@,
            (cp@, out@) == field_descriptors(cp0, fields@, imports@, i as int),
            extended(cp0, cp@),
        decreases fields@.len() - i,
    {
        let f = &fields[i];
        let ghost before = cp@;
        let name_index: u16 = cp.add_utf8(f.name.as_str());
        let ghost mid = cp@;
        let ty = resolve_type(&f.ty, imports);
        let desc = type_descriptor(&ty);
        let type_index: u16 = cp.add_type_desc(desc.as_str());
        proof {
            pool_grows(before, f.name@);
            pool_grows(mid, desc@);
            extended_trans(cp0, before, mid);
            extended_trans(cp0, mid, cp@);
        }
        let flags: u16 = visibility_field_flag(f.visibility) | flag_if(
            f.is_static,
            field_flags::STATIC,
        ) | flag_if(f.readonly, field_flags::READONLY);
        out.push(FieldDescriptor { flags, name_index, type_index });
        i = i + 1;
    }
    out
}

/// A static method that unqualified calls can mean.
pub open spec fn callable(m: MethodDecl) -> bool {
    m.is_static && m.kind == MethodKind::Normal
}

pub open spec fn overloads_of(
    table: Seq<(Seq<char>, Seq<MethodSigView>)>,
    name: Seq<char>,
) -> Seq<MethodSigView> {
    match bound_to(table, name) {
        Some(sigs) => sigs,
        None => Seq::empty(),
    }
}

/// The static methods among the first `n`, all overloads of a name together,
/// and the pool with a reference to each.
pub open spec fn static_methods(
    cp: Seq<EntryView>,
    this_class: u16,
    methods: Seq<MethodDecl>,
    imports: Seq<(Seq<char>, Seq<char>)>,
    n: int,
) -> (Seq<EntryView>, Seq<(Seq<char>, Seq<MethodSigView>)>)
    decreases n,
{
    if n <= 0 {
        (cp, Seq::empty())
    } else {
        let (cp0, table) = static_methods(cp, this_class, methods, imports, n - 1);
        let m = methods[n - 1];
        if !callable(m) {
            (cp0, table)
        } else {
            let (cp1, name_index, descriptor_index) = with_header(
                cp0,
                m.name@,
                m.params@,
                m.return_type@,
                imports,
            );
            let (cp2, method_ref_index) = with_method_ref(
                cp1,
                this_class,
                name_index,
                descriptor_index,
            );
            let params = param_types(m.params@, imports);
            let sig = MethodSigView {
                params,
                param_types: expr_tys(params),
                param_names: param_names(m.params@),
                defaults: param_defaults(m.params@),
                is_ref: param_refs(m.params@),
                required_count: leading_required(m.params@, 0),
                return_ty: expr_ty(resolved_type(m.return_type@, imports)),
                method_ref_index,
            };
            (cp2, table.push((m.name@, overloads_of(table, m.name@).push(sig))))
        }
    }
}

fn copy_sig<'a>(s: &crate::codegen::emitter::MethodSig<'a>) -> (r: crate::codegen::emitter::MethodSig<
    'a,
>)
    ensures
        r@ == s@,
{
    let mut defaults: Vec<Option<&'a Expr>> = Vec::new();
    let mut i: usize = 0;
    while i < s.defaults.len()
        invariant
            i <= s.defaults@.len(),
            defaults@ =~= s.defaults@.take(i as int),
        decreases s.defaults@.len() - i,
    {
        defaults.push(s.defaults[i]);
        i = i + 1;
    }
    assert(s.defaults@.take(i as int) =~= s.defaults@);
    let mut is_ref: Vec<bool> = Vec::new();
    let mut j: usize = 0;
    while j < s.is_ref.len()
        invariant
            j <= s.is_ref@.len(),
            is_ref@ =~= s.is_ref@.take(j as int),
        decreases s.is_ref@.len() - j,
    {
        is_ref.push(s.is_ref[j]);
        j = j + 1;
    }
    assert(s.is_ref@.take(j as int) =~= s.is_ref@);
    crate::codegen::emitter::MethodSig {
        params: clone_types(&s.params),
        param_types: copy_expr_tys(&s.param_types),
        param_names: clone_strings(&s.param_names),
        defaults,
        is_ref,
        required_count: s.required_count,
        return_ty: s.return_ty.copy(),
        method_ref_index: s.method_ref_index,
    }
}

/// The overloads of a name that are entered so far.
fn copy_overloads<'a>(table: &NameMap<Overloads<'a>>, name: &str) -> (r: Vec<
    crate::codegen::emitter::MethodSig<'a>,
>)
    ensures
        sig_views(r@) == overloads_of(table@, name@),
{
    let mut out: Vec<crate::codegen::emitter::MethodSig<'a>> = Vec::new();
    if let Some(o) = table.get(name) {
        let ghost want = sig_views(o.sigs@);
        let mut i: usize = 0;
        while i < o.sigs.len()
            invariant
                i <= o.sigs@.len(),
                want == sig_views(o.sigs@),
                out@.len() == i,
                forall|j: int| 0 <= j < i ==> (#[trigger] out@[j])@ == want[j],
            decreases o.sigs@.len() - i,
        {
            out.push(copy_sig(&o.sigs[i]));
            i = i + 1;
        }
        assert(sig_views(out@) =~= want);
    } else {
        assert(sig_views(out@) =~= Seq::empty());
    }
    out
}

fn add_static_methods<'a>(
    cp: &mut ConstantPool,
    this_class: u16,
    methods: &'a Vec<MethodDecl>,
    imports: &NameMap<String>,
) -> (r: NameMap<Overloads<'a>>)
    ensures
        (final(cp)@, r@) == static_methods(
            old(cp)@,
            this_class,
            methods@,
            imports@,
            methods@.len() as int,
        ),
        extended(old(cp)@, final(cp)@),
{
    let ghost cp0 = cp@;
    proof {
        extended_self(cp0);
    }
    let mut table: NameMap<Overloads<'a>> = NameMap::new();
    let mut i: usize = 0;
    while i < methods.len()
        invariant
            i <= methods@.len(),
            cp0 == old(cp)@,
            (cp@, table@) == static_methods(cp0, this_class, methods@, imports@, i as int),
            extended(cp0, cp@),
        decreases methods@.len() - i,
    {
        let m = &methods[i];
        if m.is_static && m.kind == MethodKind::Normal {
            let ghost before = cp@;
            let (name_index, descriptor_index) = add_header(
                cp,
                m.name.as_str(),
                &m.params,
                &m.return_type,
                imports,
            );
            let ghost mid = cp@;
            let method_ref_index: u16 = cp.add_method_ref(this_class, name_index, descriptor_index);
            proof {
                interned_grows(
                    mid,
                    EntryView::MethodRef { class_index: this_class, name_index, descriptor_index },
                );
                extended_trans(cp0, before, mid);
                extended_trans(cp0, mid, cp@);
            }
            let params = param_types_of(&m.params, imports);
            let sig = crate::codegen::emitter::MethodSig {
                param_types: expr_tys_of(&params),
                params,
                param_names: param_names_of(&m.params),
                defaults: param_defaults_of(&m.params),
                is_ref: param_refs_of(&m.params),
                required_count: required_count(&m.params),
                return_ty: expr_ty_of(&resolve_type(&m.return_type, imports)),
                method_ref_index,
            };
            let mut sigs = copy_overloads(&table, m.name.as_str());
            let ghost before = sig_views(sigs@);
            sigs.push(sig);
            assert(sig_views(sigs@) =~= before.push(sig@));
            table.insert(m.name.clone(), Overloads { sigs });
        }
        i = i + 1;
    }
    table
}

/// The initial values that a method of a class sets: a constructor sets those
/// of the object, unless it leaves that to another one, and after it has
/// called that of the superclass.
pub open spec fn method_inits(class: ClassDecl, m: MethodDecl) -> Option<Inits> {
    let first = if m.body@.len() > 0 {
        Some(m.body@[0].kind)
    } else {
        None
    };
    if class.is_enum || m.kind != MethodKind::Constructor || !any_initialized(class.fields@, false, 0)
        || first matches Some(StmtKind::ThisCall(_)) {
        None
    } else {
        Some(
            Inits {
                target: Expr::This,
                of_class: false,
                after_first: first matches Some(StmtKind::SuperCall(_)),
            },
        )
    }
}

fn inits_of(class: &ClassDecl, m: &MethodDecl) -> (r: Option<Inits>)
    ensures
        r == method_inits(*class, *m),
        r matches Some(i) ==> i.after_first ==> m.body@.len() > 0,
{
    if class.is_enum || m.kind != MethodKind::Constructor || !has_initialized(&class.fields, false) {
        return None;
    }
    let mut after_first = false;
    if m.body.len() > 0 {
        match &m.body[0].kind {
            StmtKind::ThisCall(_) => return None,
            StmtKind::SuperCall(_) => {
                after_first = true;
            },
            _ => {},
        }
    }
    Some(Inits { target: Expr::This, of_class: false, after_first })
}

/// The methods of a class from the `i`-th on, after those before.
pub open spec fn methods_code(
    k: ClassCxView,
    cp: Seq<EntryView>,
    class: ClassDecl,
    i: int,
    methods: Seq<MethodView>,
    closures: Seq<ModuleView>,
) -> Methods
    decreases class.methods@.len() - i,
{
    if i < 0 || i >= class.methods@.len() {
        Ok((cp, methods, closures))
    } else {
        let m = class.methods@[i];
        if m.is_abstract {
            let (cp1, method) = abstract_method(cp, m, k.imports);
            methods_code(k, cp1, class, i + 1, methods.push(method), closures)
        } else {
            match method_code(
                k,
                cp,
                m.name@,
                i as nat,
                head_of(m),
                method_inits(class, m),
            ) {
                Err(e) => Err(e),
                Ok((cp1, method, more)) => {
                    methods_code(k, cp1, class, i + 1, methods.push(method), closures + more)
                },
            }
        }
    }
}

/// The methods of a class, and the one that sets its static fields, if any of
/// them has an initial value.
pub open spec fn all_methods_code(k: ClassCxView, cp: Seq<EntryView>, class: ClassDecl) -> Methods {
    match methods_code(k, cp, class, 0, Seq::empty(), Seq::empty()) {
        Err(e) => Err(e),
        Ok((cp1, methods, closures)) => {
            if class.is_enum || !any_initialized(class.fields@, true, 0) {
                Ok((cp1, methods, closures))
            } else {
                match method_code(
                    k,
                    cp1,
                    "<clinit>"@,
                    class.methods@.len(),
                    clinit_head(),
                    Some(
                        Inits { target: Expr::Ident(class.name), of_class: true, after_first: false },
                    ),
                ) {
                    Err(e) => Err(e),
                    Ok((cp2, clinit, more)) => Ok((cp2, methods.push(clinit), closures + more)),
                }
            }
        },
    }
}

/// Whether the first methods are those of a class, by name and signature.
pub open spec fn methods_headed(
    cp: Seq<EntryView>,
    vs: Seq<MethodView>,
    ms: Seq<MethodDecl>,
    imports: Seq<(Seq<char>, Seq<char>)>,
) -> bool {
    ms.len() <= vs.len() && forall|j: int|
        0 <= j < ms.len() ==> method_headed(cp, #[trigger] vs[j], ms[j], imports)
}

/// Methods stay what they are while the pool grows and others follow.
proof fn headed_kept(
    p: Seq<EntryView>,
    q: Seq<EntryView>,
    vs: Seq<MethodView>,
    ws: Seq<MethodView>,
    ms: Seq<MethodDecl>,
    imports: Seq<(Seq<char>, Seq<char>)>,
)
    requires
        extended(p, q),
        methods_headed(p, vs, ms, imports),
        vs.len() <= ws.len(),
        forall|j: int| 0 <= j < vs.len() ==> #[trigger] ws[j] == vs[j],
    ensures
        methods_headed(q, ws, ms, imports),
{
    assert forall|j: int| 0 <= j < ms.len() implies method_headed(
        q,
        #[trigger] ws[j],
        ms[j],
        imports,
    ) by {
        assert(ws[j] == vs[j]);
        headed_stays(
            p,
            q,
            vs[j],
            ms[j].name@,
            signature_text(ms[j].params@, ms[j].return_type@, imports),
        );
    }
}

proof fn headed_join(
    p: Seq<EntryView>,
    q: Seq<EntryView>,
    vs: Seq<MethodView>,
    ws: Seq<MethodView>,
    ms: Seq<MethodDecl>,
    i: int,
    imports: Seq<(Seq<char>, Seq<char>)>,
)
    requires
        extended(p, q),
        0 <= i < ms.len(),
        vs.len() == i,
        ws.len() == i + 1,
        methods_headed(p, vs, ms.take(i), imports),
        forall|j: int| 0 <= j < i ==> #[trigger] ws[j] == vs[j],
        method_headed(q, ws[i], ms[i], imports),
    ensures
        methods_headed(q, ws, ms.take(i + 1), imports),
{
    headed_kept(p, q, vs, ws, ms.take(i), imports);
    let next = ms.take(i + 1);
    assert forall|j: int| 0 <= j < next.len() implies method_headed(
        q,
        #[trigger] ws[j],
        next[j],
        imports,
    ) by {
        if j < i {
            assert(next[j] == ms.take(i)[j]);
        }
    }
}

fn compile_methods(k: &ClassCx, cp: ConstantPool, class: &ClassDecl) -> (r: Result<
    (ConstantPool, Vec<MethodDescriptor>, Vec<Module>),
    CodegenError,
>)
    ensures
        match r {
            Ok((pool, methods, closures)) => all_methods_code(k@, cp@, *class) == Methods::Ok(
                (pool@, method_views(methods@), module_views(closures@)),
            ),
            Err(e) => all_methods_code(k@, cp@, *class) == Methods::Err(e@),
        },
        r matches Ok((pool, methods, closures)) ==> extended(cp@, pool@)
            && methods_in_order(method_views(methods@)) && modules_in_order(
            module_views(closures@),
        ) && methods_headed(pool@, method_views(methods@), class.methods@, k@.imports),
{
    proof {
        extended_self(cp@);
    }
    let ghost whole = methods_code(k@, cp@, *class, 0, Seq::empty(), Seq::empty());
    let ghost want = all_methods_code(k@, cp@, *class);
    let mut pool = cp;
    let mut methods: Vec<MethodDescriptor> = Vec::new();
    let mut closures: Vec<Module> = Vec::new();
    let mut i: usize = 0;
    assert(method_views(methods@) =~= Seq::empty());
    assert(module_views(closures@) =~= Seq::empty());
    while i < class.methods.len()
        invariant
            i <= class.methods@.len(),
            whole == methods_code(
                k@,
                pool@,
                *class,
                i as int,
                method_views(methods@),
                module_views(closures@),
            ),
            want == all_methods_code(k@, cp@, *class),
            whole is Err ==> want == Methods::Err(whole->Err_0),
            extended(cp@, pool@),
            methods_in_order(method_views(methods@)),
            modules_in_order(module_views(closures@)),
            methods@.len() == i,
            methods_headed(
                pool@,
                method_views(methods@),
                class.methods@.take(i as int),
                k@.imports,
            ),
        decreases class.methods@.len() - i,
    {
        let m = &class.methods[i];
        let ghost ms = method_views(methods@);
        let ghost cs = module_views(closures@);
        let ghost mid = pool@;
        if m.is_abstract {
            let d = abstract_method_descriptor(m, &mut pool, k.imports);
            methods.push(d);
            assert(method_views(methods@) =~= ms.push(d@));
        } else {
            let inits = inits_of(class, m);
            let (next, d, more) = compile_method(k, pool, m.name.as_str(), i, m, &inits)?;
            pool = next;
            methods.push(d);
            assert(method_views(methods@) =~= ms.push(d@));
            let ghost added = module_views(more@);
            let mut rest = more;
            closures.append(&mut rest);
            assert(module_views(closures@) =~= cs + added);
            proof {
                modules_in_order_join(cs, added);
            }
        }
        proof {
            extended_trans(cp@, mid, pool@);
            headed_join(
                mid,
                pool@,
                ms,
                method_views(methods@),
                class.methods@,
                i as int,
                k@.imports,
            );
        }
        i = i + 1;
    }
    assert(class.methods@.take(i as int) =~= class.methods@);
    if !class.is_enum && has_initialized(&class.fields, true) {
        let ghost ms = method_views(methods@);
        let ghost cs = module_views(closures@);
        let inits = Some(
            Inits {
                target: Expr::Ident(class.name.clone()),
                of_class: true,
                after_first: false,
            },
        );
        let ghost mid = pool@;
        let decl = clinit_decl(class.decl_line);
        let (next, d, more) = compile_method(
            k,
            pool,
            "<clinit>",
            class.methods.len(),
            &decl,
            &inits,
        )?;
        pool = next;
        methods.push(d);
        assert(method_views(methods@) =~= ms.push(d@));
        let ghost added = module_views(more@);
        let mut rest = more;
        closures.append(&mut rest);
        assert(module_views(closures@) =~= cs + added);
        proof {
            modules_in_order_join(cs, added);
            extended_trans(cp@, mid, pool@);
            headed_kept(
                mid,
                pool@,
                ms,
                method_views(methods@),
                class.methods@,
                k@.imports,
            );
        }
    }
    Ok((pool, methods, closures))
}

/// The methods of an interface, as stubs.
pub open spec fn interface_methods(
    cp: Seq<EntryView>,
    sigs: Seq<MethodSig>,
    imports: Seq<(Seq<char>, Seq<char>)>,
    n: int,
) -> (Seq<EntryView>, Seq<MethodView>)
    decreases n,
{
    if n <= 0 {
        (cp, Seq::empty())
    } else {
        let (cp1, done) = interface_methods(cp, sigs, imports, n - 1);
        let (cp2, m) = interface_method(cp1, sigs[n - 1], imports);
        (cp2, done.push(m))
    }
}

/// Whether the methods of a module are those of an interface, by name and
/// signature.
pub open spec fn signatures_headed(
    cp: Seq<EntryView>,
    vs: Seq<MethodView>,
    sigs: Seq<MethodSig>,
    imports: Seq<(Seq<char>, Seq<char>)>,
) -> bool {
    vs.len() == sigs.len() && forall|j: int|
        0 <= j < sigs.len() ==> headed(
            cp,
            #[trigger] vs[j],
            sigs[j].name@,
            signature_text(sigs[j].params@, sigs[j].return_type@, imports),
        )
}

proof fn interface_methods_headed(
    cp: Seq<EntryView>,
    sigs: Seq<MethodSig>,
    imports: Seq<(Seq<char>, Seq<char>)>,
    n: int,
    q: Seq<EntryView>,
)
    requires
        0 <= n <= sigs.len(),
        extended(interface_methods(cp, sigs, imports, n).0, q),
    ensures
        signatures_headed(
            q,
            interface_methods(cp, sigs, imports, n).1,
            sigs.take(n),
            imports,
        ),
    decreases n,
{
    if n > 0 {
        let (cp1, done) = interface_methods(cp, sigs, imports, n - 1);
        let m = sigs[n - 1];
        let descriptor = signature_text(m.params@, m.return_type@, imports);
        let cp2 = with_utf8(cp1, m.name@).0;
        let cp3 = with_type_desc(cp2, descriptor).0;
        pool_grows(cp1, m.name@);
        pool_grows(cp2, descriptor);
        extended_trans(cp1, cp2, cp3);
        extended_trans(cp1, cp3, q);
        interface_methods_headed(cp, sigs, imports, n - 1, q);
        header_is_read(cp1, m.name@, descriptor, q);
        let vs = interface_methods(cp, sigs, imports, n).1;
        let ms = sigs.take(n);
        assert forall|j: int| 0 <= j < n implies headed(
            q,
            #[trigger] vs[j],
            ms[j].name@,
            signature_text(ms[j].params@, ms[j].return_type@, imports),
        ) by {
            if j < n - 1 {
                assert(vs[j] == done[j]);
                assert(ms[j] == sigs.take(n - 1)[j]);
            }
        }
    }
}

fn add_interface_methods(cp: &mut ConstantPool, sigs: &Vec<MethodSig>, imports: &NameMap<String>) -> (r:
    Vec<MethodDescriptor>)
    ensures
        (final(cp)@, method_views(r@)) == interface_methods(
            old(cp)@,
            sigs@,
            imports@,
            sigs@.len() as int,
        ),
        extended(old(cp)@, final(cp)@),
        methods_in_order(method_views(r@)),
{
    let ghost cp0 = cp@;
    proof {
        extended_self(cp0);
    }
    let mut out: Vec<MethodDescriptor> = Vec::new();
    let mut i: usize = 0;
    assert(method_views(out@) =~= Seq::empty());
    while i < sigs.len()
        invariant
            i <= sigs@.len(),
            cp0 == old(cp)@,
            (cp@, method_views(out@)) == interface_methods(cp0, sigs@, imports@, i as int),
            extended(cp0, cp@),
            methods_in_order(method_views(out@)),
        decreases sigs@.len() - i,
    {
        let ghost before = method_views(out@);
        let ghost mid = cp@;
        let d = interface_method_descriptor(&sigs[i], cp, imports);
        proof {
            extended_trans(cp0, mid, cp@);
        }
        out.push(d);
        assert(method_views(out@) =~= before.push(d@));
        i = i + 1;
    }
    out
}

pub open spec fn class_bits(c: ClassDecl) -> u16 {
    bit_if(c.is_readonly, class_flags::READONLY) | bit_if(c.is_enum, class_flags::ENUM) | bit_if(
        c.is_abstract,
        class_flags::ABSTRACT,
    ) | bit_if(c.is_final, class_flags::FINAL)
}

/// What compiling files comes to.
pub type Modules = Result<Seq<ModuleView>, Seq<char>>;

/// The module of an interface.
pub open spec fn interface_module(
    iface: InterfaceDecl,
    fqcn: Seq<char>,
    imports: Seq<(Seq<char>, Seq<char>)>,
) -> ModuleView {
    let (cp, this_class) = with_class(Seq::empty(), fqcn);
    let (cp1, methods) = interface_methods(
        cp,
        iface.methods@,
        imports,
        iface.methods@.len() as int,
    );
    ModuleView {
        version: VERSION,
        constant_pool: cp1,
        this_class,
        class_flags: class_flags::INTERFACE,
        super_class: 0,
        interfaces: Seq::empty(),
        fields: Seq::empty(),
        methods,
        hash_algo: HashAlgo::Sha256,
    }
}

/// The modules of a class: its own, then those of its closures.
pub open spec fn class_modules(
    class: ClassDecl,
    fqcn: Seq<char>,
    imports: Seq<(Seq<char>, Seq<char>)>,
    classes: Classes,
    natives: Natives,
    level: nat,
) -> Modules {
    let (cp0, this_class) = with_class(Seq::empty(), fqcn);
    let (cp1, super_class) = match class.extends {
        Some(name) => with_class(cp0, resolved_name(name@, imports)),
        None => (cp0, 0),
    };
    let ifaces = interfaces_from(classes, resolved_names(texts(class.implements@), imports));
    let (cp2, interfaces) = with_classes(cp1, ifaces, ifaces.len() as int);
    let (cp3, fields) = field_descriptors(
        cp2,
        class.fields@,
        imports,
        class.fields@.len() as int,
    );
    let (cp4, static_sigs) = static_methods(
        cp3,
        this_class,
        class.methods@,
        imports,
        class.methods@.len() as int,
    );
    let k = ClassCxView {
        classes,
        imports,
        static_sigs,
        natives,
        this_class,
        this_fqcn: fqcn,
        fields: class.fields@,
        level,
    };
    match all_methods_code(k, cp4, class) {
        Err(e) => Err(e),
        Ok((cp5, methods, closures)) => {
            Ok(
                seq![
                    ModuleView {
                        version: VERSION,
                        constant_pool: cp5,
                        this_class,
                        class_flags: class_bits(class),
                        super_class,
                        interfaces,
                        fields,
                        methods,
                        hash_algo: HashAlgo::Sha256,
                    },
                ] + closures,
            )
        },
    }
}

/// The modules of a file.
pub open spec fn file_modules(
    f: SourceFile,
    files: Seq<SourceFile>,
    prelude: Prelude,
    classes: Classes,
    natives: Natives,
    level: nat,
) -> Modules {
    let imports = imports_of(f, files, prelude);
    match f.item {
        SourceItem::Interface(iface) => Ok(seq![interface_module(iface, full_name(f), imports)]),
        SourceItem::Class(class) => class_modules(
            class,
            full_name(f),
            imports,
            classes,
            natives,
            level,
        ),
    }
}

fn compile_interface(iface: &InterfaceDecl, fqcn: &str, imports: &NameMap<String>) -> (r: Module)
    ensures
        r@ == interface_module(*iface, fqcn@, imports@),
        module_in_order(r@),
        is_module_of(r@, fqcn@),
        signatures_headed(r@.constant_pool, r@.methods, iface.methods@, imports@),
{
    let mut cp = ConstantPool::new();
    let this_class: u16 = cp.add_class(fqcn);
    let ghost start = cp@;
    proof {
        first_class_named(fqcn@);
    }
    let methods = add_interface_methods(&mut cp, &iface.methods, imports);
    let r = Module {
        version: VERSION,
        constant_pool: cp,
        this_class,
        class_flags: class_flags::INTERFACE,
        super_class: 0,
        interfaces: Vec::new(),
        fields: Vec::new(),
        methods,
        hash_algo: HashAlgo::Sha256,
    };
    assert(r@.interfaces =~= Seq::empty());
    assert(r@.fields =~= Seq::empty());
    proof {
        name_stays(start, cp@, this_class, fqcn@);
        extended_self(cp@);
        interface_methods_headed(start, iface.methods@, imports@, iface.methods@.len() as int, cp@);
        assert(iface.methods@.take(iface.methods@.len() as int) =~= iface.methods@);
    }
    r
}

/// Whether a module is that of a class: it names the class, its superclass,
/// all interfaces that it implements, also those above the ones it lists, and
/// its fields and methods, each with its type.
pub open spec fn describes(
    m: ModuleView,
    class: ClassDecl,
    fqcn: Seq<char>,
    imports: Seq<(Seq<char>, Seq<char>)>,
    classes: Classes,
) -> bool {
    let cp = m.constant_pool;
    let ifaces = interfaces_from(classes, resolved_names(texts(class.implements@), imports));
    &&& is_module_of(m, fqcn)
    &&& match class.extends {
        Some(parent) => names_class(cp, m.super_class, resolved_name(parent@, imports)),
        None => m.super_class == 0,
    }
    &&& m.interfaces.len() == ifaces.len()
    &&& forall|i: int| 0 <= i < ifaces.len() ==> names_class(cp, #[trigger] m.interfaces[i], ifaces[i])
    &&& m.fields.len() == class.fields@.len()
    &&& forall|i: int|
        0 <= i < class.fields@.len() ==> typed(
            cp,
            #[trigger] m.fields[i],
            class.fields@[i].name@,
            type_descriptor_text(resolved_type(class.fields@[i].ty@, imports)),
        )
    &&& methods_headed(cp, m.methods, class.methods@, imports)
}

fn compile_class(
    class: &ClassDecl,
    fqcn: &str,
    imports: &NameMap<String>,
    classes: &ClassTable,
    natives: &NativeClasses,
    level: usize,
) -> (r: Result<Vec<Module>, CodegenError>)
    ensures
        ({
            let want = class_modules(*class, fqcn@, imports@, classes@, natives@, level as nat);
            match r {
                Ok(ms) => want == Modules::Ok(module_views(ms@)),
                Err(e) => want == Modules::Err(e@),
            }
        }),
        r matches Ok(ms) ==> modules_in_order(module_views(ms@)) && ms@.len() > 0 && describes(
            ms@[0]@,
            *class,
            fqcn@,
            imports@,
            classes@,
        ),
{
    let mut cp = ConstantPool::new();
    let this_class: u16 = cp.add_class(fqcn);
    let ghost cp0 = cp@;
    proof {
        first_class_named(fqcn@);
    }
    let super_class: u16 = match &class.extends {
        Some(name) => {
            let parent = resolve_name(name.as_str(), imports);
            let index: u16 = cp.add_class(parent.as_str());
            proof {
                pool_grows(cp0, parent@);
            }
            index
        },
        None => 0,
    };
    proof {
        extended_self(cp0);
    }
    let ghost cp1 = cp@;
    assert(extended(cp0, cp1));
    let ifaces = interface_closure(classes, &resolve_names(&class.implements, imports));
    let interfaces = add_classes(&mut cp, &ifaces);
    let ghost cp2 = cp@;
    let fields = add_fields(&mut cp, &class.fields, imports);
    let ghost cp3 = cp@;
    let static_sigs = add_static_methods(&mut cp, this_class, &class.methods, imports);
    let ghost cp4 = cp@;
    let k = ClassCx {
        classes,
        imports,
        static_sigs: &static_sigs,
        natives,
        this_class,
        this_fqcn: fqcn,
        fields: &class.fields,
        level,
    };
    let (pool, methods, closures) = compile_methods(&k, cp, class)?;
    proof {
        extended_trans(cp0, cp1, cp2);
        extended_trans(cp0, cp2, cp3);
        extended_trans(cp0, cp3, cp4);
        extended_trans(cp0, cp4, pool@);
        name_stays(cp0, pool@, this_class, fqcn@);
        extended_trans(cp3, cp4, pool@);
        extended_trans(cp2, cp3, pool@);
        extended_trans(cp1, cp2, pool@);
        if let Some(name) = &class.extends {
            class_is_read(cp0, resolved_name(name@, imports@), pool@);
        }
        classes_are_named(cp1, texts(ifaces@), ifaces@.len() as int, pool@);
        fields_are_typed(cp2, class.fields@, imports@, class.fields@.len() as int, pool@);
    }
    let flags: u16 = flag_if(class.is_readonly, class_flags::READONLY) | flag_if(
        class.is_enum,
        class_flags::ENUM,
    ) | flag_if(class.is_abstract, class_flags::ABSTRACT) | flag_if(
        class.is_final,
        class_flags::FINAL,
    );
    let own = Module {
        version: VERSION,
        constant_pool: pool,
        this_class,
        class_flags: flags,
        super_class,
        interfaces,
        fields,
        methods,
        hash_algo: HashAlgo::Sha256,
    };
    let ghost first = own@;
    let ghost rest = module_views(closures@);
    let mut modules: Vec<Module> = Vec::new();
    modules.push(own);
    let mut more = closures;
    modules.append(&mut more);
    assert(module_views(modules@) =~= seq![first] + rest);
    proof {
        assert(modules_in_order(seq![first]));
        modules_in_order_join(seq![first], rest);
        assert(module_views(modules@)[0] == first);
    }
    Ok(modules)
}

/// Compiles a file: its own module first, then those of its closures.
pub fn compile_file(
    file: &SourceFile,
    all_files: &Vec<SourceFile>,
    prelude: &Prelude,
    classes: &ClassTable,
    natives: &NativeClasses,
    level: usize,
) -> (r: Result<Vec<Module>, CodegenError>)
    ensures
        ({
            let want = file_modules(
                *file,
                all_files@,
                *prelude,
                classes@,
                natives@,
                level as nat,
            );
            match r {
                Ok(ms) => want == Modules::Ok(module_views(ms@)),
                Err(e) => want == Modules::Err(e@),
            }
        }),
        r matches Ok(ms) ==> modules_in_order(module_views(ms@)) && ms@.len() > 0
            && is_module_of(ms@[0]@, full_name(*file)) && (file.item matches SourceItem::Class(
            class,
        ) ==> describes(
            ms@[0]@,
            class,
            full_name(*file),
            imports_of(*file, all_files@, *prelude),
            classes@,
        )) && (file.item matches SourceItem::Interface(iface) ==> signatures_headed(
            ms@[0]@.constant_pool,
            ms@[0]@.methods,
            iface.methods@,
            imports_of(*file, all_files@, *prelude),
        )),
{
    let imports = import_map(file, all_files, prelude);
    let fqcn = fqcn_of(file);
    match &file.item {
        SourceItem::Interface(iface) => {
            let m = compile_interface(iface, fqcn.as_str(), &imports);
            let ghost view = m@;
            let mut modules: Vec<Module> = Vec::new();
            modules.push(m);
            assert(module_views(modules@) =~= seq![view]);
            assert(modules_in_order(seq![view]));
            Ok(modules)
        },
        SourceItem::Class(class) => compile_class(
            class,
            fqcn.as_str(),
            &imports,
            classes,
            natives,
            level,
        ),
    }
}

/// The number of parameters of the first `n` methods.
pub open spec fn param_count(methods: Seq<MethodDecl>, n: int) -> nat
    decreases n,
{
    if n <= 0 {
        0
    } else {
        param_count(methods, n - 1) + methods[n - 1].params@.len()
    }
}

/// The number of parameters of the first `n` methods of an interface.
pub open spec fn sig_param_count(methods: Seq<MethodSig>, n: int) -> nat
    decreases n,
{
    if n <= 0 {
        0
    } else {
        sig_param_count(methods, n - 1) + methods[n - 1].params@.len()
    }
}

/// The number of values that the first `n` files define beside their code:
/// of fields and of omitted arguments. No value can depend on more others.
pub open spec fn definition_count(files: Seq<SourceFile>, n: int) -> nat
    decreases n,
{
    if n <= 0 {
        0
    } else {
        definition_count(files, n - 1) + match files[n - 1].item {
            SourceItem::Class(c) => c.fields@.len() + param_count(
                c.methods@,
                c.methods@.len() as int,
            ),
            SourceItem::Interface(i) => sig_param_count(i.methods@, i.methods@.len() as int),
        }
    }
}

pub open spec fn capped(n: nat) -> nat {
    if n <= usize::MAX {
        n
    } else {
        usize::MAX as nat
    }
}

fn capped_sum(a: usize, b: usize) -> (r: usize)
    ensures
        r == capped((a + b) as nat),
{
    if a <= usize::MAX - b {
        a + b
    } else {
        usize::MAX
    }
}

fn count_definitions(files: &Vec<SourceFile>) -> (r: usize)
    ensures
        r == capped(definition_count(files@, files@.len() as int)),
{
    let mut total: usize = 0;
    let mut i: usize = 0;
    while i < files.len()
        invariant
            i <= files@.len(),
            total == capped(definition_count(files@, i as int)),
        decreases files@.len() - i,
    {
        let mut defined: usize = 0;
        let mut j: usize = 0;
        match &files[i].item {
            SourceItem::Class(class) => {
                while j < class.methods.len()
                    invariant
                        j <= class.methods@.len(),
                        defined == capped(param_count(class.methods@, j as int)),
                    decreases class.methods@.len() - j,
                {
                    defined = capped_sum(defined, class.methods[j].params.len());
                    j = j + 1;
                }
                defined = capped_sum(class.fields.len(), defined);
            },
            SourceItem::Interface(interface) => {
                while j < interface.methods.len()
                    invariant
                        j <= interface.methods@.len(),
                        defined == capped(sig_param_count(interface.methods@, j as int)),
                    decreases interface.methods@.len() - j,
                {
                    defined = capped_sum(defined, interface.methods[j].params.len());
                    j = j + 1;
                }
            },
        }
        total = capped_sum(total, defined);
        i = i + 1;
    }
    total
}

/// The modules of the files from the `i`-th on, after those before.
pub open spec fn modules_from(
    files: Seq<SourceFile>,
    prelude: Prelude,
    classes: Classes,
    natives: Natives,
    level: nat,
    i: int,
    done: Seq<ModuleView>,
) -> Modules
    decreases files.len() - i,
{
    if i < 0 || i >= files.len() {
        Ok(done)
    } else {
        match file_modules(files[i], files, prelude, classes, natives, level) {
            Err(e) => Err(e),
            Ok(more) => modules_from(files, prelude, classes, natives, level, i + 1, done + more),
        }
    }
}

/// The modules of a program.
pub open spec fn program_modules(files: Seq<SourceFile>, prelude: Prelude, natives: Natives) -> Modules {
    modules_from(
        files,
        prelude,
        table_of(files, prelude),
        natives,
        capped(definition_count(files, files.len() as int)),
        0,
        Seq::empty(),
    )
}

/// Compiles a whole program, given all its files with aliases and templates
/// expanded, the prelude's among them.
pub fn compile_program(files: &Vec<SourceFile>, prelude: &Prelude, natives: &NativeClasses) -> (r: Result<
    Vec<Module>,
    CodegenError,
>)
    ensures
        match r {
            Ok(ms) => program_modules(files@, *prelude, natives@) == Modules::Ok(
                module_views(ms@),
            ),
            Err(e) => program_modules(files@, *prelude, natives@) == Modules::Err(e@),
        },
        r matches Ok(ms) ==> modules_in_order(module_views(ms@)) && forall|k: int|
            0 <= k < files@.len() ==> has_module(
                module_views(ms@),
                full_name(#[trigger] files@[k]),
            ),
{
    let classes = build_class_table(files, prelude);
    let level: usize = count_definitions(files);
    let ghost whole = program_modules(files@, *prelude, natives@);
    let mut modules: Vec<Module> = Vec::new();
    let mut i: usize = 0;
    assert(module_views(modules@) =~= Seq::empty());
    while i < files.len()
        invariant
            i <= files@.len(),
            whole == program_modules(files@, *prelude, natives@),
            whole == modules_from(
                files@,
                *prelude,
                classes@,
                natives@,
                level as nat,
                i as int,
                module_views(modules@),
            ),
            modules_in_order(module_views(modules@)),
            forall|k: int|
                0 <= k < i ==> has_module(
                    module_views(modules@),
                    full_name(#[trigger] files@[k]),
                ),
        decreases files@.len() - i,
    {
        let ghost done = module_views(modules@);
        let more = compile_file(&files[i], files, prelude, &classes, natives, level)?;
        let ghost added = module_views(more@);
        let mut rest = more;
        modules.append(&mut rest);
        assert(module_views(modules@) =~= done + added);
        proof {
            modules_in_order_join(done, added);
            assert forall|k: int| 0 <= k < i + 1 implies has_module(
                done + added,
                full_name(#[trigger] files@[k]),
            ) by {
                let name = full_name(files@[k]);
                if k < i {
                    let j = choose|j: int|
                        0 <= j < done.len() && is_module_of(#[trigger] done[j], name);
                    assert(is_module_of((done + added)[j], name));
                } else {
                    assert(added[0] == (done + added)[done.len() as int]);
                    assert(is_module_of((done + added)[done.len() as int], name));
                }
            }
        }
        i = i + 1;
    }
    Ok(modules)
}

/// Whether a module is that of a class.
pub open spec fn is_module_of(m: ModuleView, fqcn: Seq<char>) -> bool {
    class_name_of(m.constant_pool, m.this_class) == Some(fqcn)
}

pub open spec fn has_module(ms: Seq<ModuleView>, fqcn: Seq<char>) -> bool {
    exists|j: int| 0 <= j < ms.len() && is_module_of(#[trigger] ms[j], fqcn)
}

/// The first class that is put into a pool is found by its name.
proof fn first_class_named(fqcn: Seq<char>)
    ensures
        ({
            let (cp, this_class) = with_class(Seq::empty(), fqcn);
            class_name_of(cp, this_class) == Some(fqcn) && distinct(cp)
        }),
{
    empty_distinct();
    pool_grows(Seq::empty(), fqcn);
    let none = Seq::<EntryView>::empty();
    let (cp, name_index) = with_utf8(none, fqcn);
    interned_is_found(none, EntryView::Utf8(fqcn));
    interned_is_found(cp, EntryView::Class { name_index });
    interned_keeps(cp, EntryView::Class { name_index }, name_index);
}

/// The first module from the `i`-th on that is that of a class.
pub open spec fn module_of(ms: Seq<ModuleView>, fqcn: Seq<char>, i: int) -> Option<ModuleView>
    decreases ms.len() - i,
{
    if i < 0 || i >= ms.len() {
        None
    } else if is_module_of(ms[i], fqcn) {
        Some(ms[i])
    } else {
        module_of(ms, fqcn, i + 1)
    }
}

/// Compiles a program, and picks the module of one of its files.
pub fn compile_source_file(
    file: &SourceFile,
    files: &Vec<SourceFile>,
    prelude: &Prelude,
    natives: &NativeClasses,
) -> (r: Result<Module, CodegenError>)
    ensures
        match program_modules(files@, *prelude, natives@) {
            Err(e) => r matches Err(f) && f@ == e,
            Ok(ms) => match module_of(ms, full_name(*file), 0) {
                Some(m) => r matches Ok(n) && n@ == m,
                None => r matches Err(f) && f@ == "no module of class '"@ + full_name(*file) + "'"@,
            },
        },
        r matches Ok(m) ==> module_in_order(m@) && is_module_of(m@, full_name(*file)),
        program_modules(files@, *prelude, natives@) is Ok && (exists|k: int|
            0 <= k < files@.len() && full_name(#[trigger] files@[k]) == full_name(*file))
            ==> r is Ok,
{
    let fqcn = fqcn_of(file);
    let mut modules = compile_program(files, prelude, natives)?;
    let ghost ms = module_views(modules@);
    let mut i: usize = 0;
    while i < modules.len()
        invariant
            i <= modules@.len(),
            ms == module_views(modules@),
            fqcn@ == full_name(*file),
            program_modules(files@, *prelude, natives@) == Modules::Ok(ms),
            module_of(ms, fqcn@, 0) == module_of(ms, fqcn@, i as int),
            modules_in_order(ms),
            forall|k: int| 0 <= k < files@.len() ==> has_module(ms, full_name(#[trigger] files@[k])),
            forall|j: int| 0 <= j < i ==> !is_module_of(#[trigger] ms[j], fqcn@),
        decreases modules@.len() - i,
    {
        assert(ms[i as int] == modules@[i as int]@);
        let own = match modules[i].this_class_name() {
            Some(name) => str_eq(name, fqcn.as_str()),
            None => false,
        };
        if own {
            return Ok(modules.swap_remove(i));
        }
        i = i + 1;
    }
    Err(CodegenError::Unsupported(cat3("no module of class '", fqcn.as_str(), "'")))
}

} // verus!
