use nlvm::ast::{
    Arg, BinOp, CatchClause, ClassDecl, ClosureBody, Expr, FieldDecl, InterfaceDecl, LValue,
    MatchArm, MethodDecl, MethodKind, MethodSig, Param, SourceFile, SourceItem, Stmt, StmtKind,
    SwitchCase, Type, UnOp, Visibility,
};
use nlvm::bytecode::constant_pool::{ConstantPool, ConstantPoolEntry};
use nlvm::bytecode::module::{MethodDescriptor, Module};
use nlvm::bytecode::opcode::Opcode;
use nlvm::bytecode::{class_flags, method_flags};
use nlvm::codegen::closure::{boxed_captures, referenced_names};
use nlvm::codegen::emitter::Emitter;
use nlvm::codegen::expr_ty::{
    box_fqcn, calling_convention_params, closure_shape_eq, expr_ty_of, expr_ty_to_type, show,
    ExprTy,
};
use nlvm::codegen::program::{compile_program, compile_source_file};
use nlvm::codegen::type_desc::{method_descriptor, type_descriptor};
use nlvm::native_generics::NativeClasses;
use nlvm::resolve::Prelude;
use nlvm::sema::types::display;

fn no_prelude() -> Prelude {
    Prelude { classes: Vec::new(), aliases: Vec::new() }
}

fn class(name: &str, fields: Vec<FieldDecl>, methods: Vec<MethodDecl>) -> ClassDecl {
    ClassDecl {
        name: name.to_string(),
        type_params: Vec::new(),
        extends: None,
        implements: Vec::new(),
        fields,
        methods,
        is_readonly: false,
        is_abstract: false,
        is_final: false,
        is_enum: false,
        enum_cases: Vec::new(),
        decl_line: 1,
    }
}

fn method(name: &str, params: Vec<Param>, return_type: Type, body: Vec<Stmt>) -> MethodDecl {
    MethodDecl {
        name: name.to_string(),
        kind: MethodKind::Normal,
        visibility: Visibility::Public,
        visibility_explicit: true,
        is_static: true,
        is_const: false,
        is_abstract: false,
        is_final: false,
        is_nodiscard: false,
        return_type,
        params,
        throws: Vec::new(),
        body,
        decl_line: 1,
    }
}

fn param(name: &str, ty: Type) -> Param {
    Param { name: name.to_string(), ty, default: None, is_ref: false, is_const: false }
}

fn field(name: &str, ty: Type, init: Option<Expr>) -> FieldDecl {
    FieldDecl {
        name: name.to_string(),
        ty,
        init,
        visibility: Visibility::Public,
        visibility_explicit: true,
        is_static: false,
        readonly: false,
    }
}

fn file(c: ClassDecl) -> SourceFile {
    SourceFile {
        path: format!("{}.nl", c.name),
        namespace: vec!["t".to_string()],
        uses: Vec::new(),
        item: SourceItem::Class(c),
    }
}

fn at(line: u32, kind: StmtKind) -> Stmt {
    Stmt { kind, line }
}

fn name(s: &str) -> Expr {
    Expr::Ident(s.to_string())
}

fn num(v: i64) -> Expr {
    Expr::IntLit(v)
}

fn run(e: Expr) -> Stmt {
    at(2, StmtKind::Expr(e))
}

fn give(e: Expr) -> Stmt {
    at(3, StmtKind::Return(Some(e)))
}

fn var(n: &str, ty: Type, init: Option<Expr>) -> Stmt {
    at(2, StmtKind::VarDecl { ty: Some(ty), name: n.to_string(), init, is_const: false })
}

fn set(n: &str, e: Expr) -> Expr {
    Expr::Assign(LValue::Local(n.to_string()), Box::new(e))
}

fn binary(op: BinOp, a: Expr, b: Expr) -> Expr {
    Expr::Binary(op, Box::new(a), Box::new(b))
}

fn arg(value: Expr) -> Arg {
    Arg { name: None, value, is_ref: false }
}

fn compile(c: ClassDecl) -> Result<Module, String> {
    let files = vec![file(c)];
    compile_source_file(&files[0], &files, &no_prelude(), &NativeClasses::new())
        .map_err(|e| e.message())
}

fn compile_body(params: Vec<Param>, return_type: Type, body: Vec<Stmt>) -> Result<Module, String> {
    compile(class("A", Vec::new(), vec![method("f", params, return_type, body)]))
}

fn compiled(params: Vec<Param>, return_type: Type, body: Vec<Stmt>) -> MethodDescriptor {
    let module = compile_body(params, return_type, body).unwrap();
    module.find_method("f").unwrap().clone()
}

fn code_of(params: Vec<Param>, return_type: Type, body: Vec<Stmt>) -> Vec<u8> {
    compiled(params, return_type, body).code
}

fn refused(params: Vec<Param>, return_type: Type, body: Vec<Stmt>) -> String {
    compile_body(params, return_type, body).unwrap_err()
}

fn op(o: Opcode) -> Vec<u8> {
    vec![o.byte()]
}

fn op1(o: Opcode, operand: u16) -> Vec<u8> {
    let mut v = vec![o.byte()];
    v.extend(operand.to_be_bytes());
    v
}

fn code(parts: Vec<Vec<u8>>) -> Vec<u8> {
    parts.concat()
}

#[test]
fn integer_constants_take_the_shortest_form() {
    let of = |v: i64| code_of(Vec::new(), Type::Int, vec![give(num(v))]);
    assert_eq!(of(0), code(vec![op(Opcode::ConstIZero), op(Opcode::ReturnValue)]));
    assert_eq!(of(1), code(vec![op(Opcode::ConstIOne), op(Opcode::ReturnValue)]));
    assert_eq!(
        of(-2),
        code(vec![vec![Opcode::BiPush.byte(), 0xfe], op(Opcode::ReturnValue)])
    );
    assert_eq!(of(300), code(vec![op1(Opcode::SiPush, 300), op(Opcode::ReturnValue)]));
    let module = compile_body(Vec::new(), Type::Int, vec![give(num(1 << 40))]).unwrap();
    let f = module.find_method("f").unwrap();
    assert_eq!(f.code[0], Opcode::Ldc.byte());
    let index = u16::from_be_bytes([f.code[1], f.code[2]]);
    assert!(matches!(
        module.constant_pool.get(index),
        Some(ConstantPoolEntry::Int(v)) if *v == 1 << 40
    ));
}

#[test]
fn arithmetic_is_evaluated_left_to_right() {
    let f = compiled(
        vec![param("a", Type::Int), param("b", Type::Int)],
        Type::Int,
        vec![give(binary(BinOp::Sub, name("a"), binary(BinOp::Mul, name("b"), num(1))))],
    );
    assert_eq!(
        f.code,
        code(vec![
            op1(Opcode::Load, 0),
            op1(Opcode::Load, 1),
            op(Opcode::ConstIOne),
            op(Opcode::IMul),
            op(Opcode::ISub),
            op(Opcode::ReturnValue),
        ])
    );
    assert_eq!((f.max_locals, f.max_stack), (2, 3));
}

#[test]
fn an_integer_is_promoted_to_a_float() {
    let a = || vec![param("a", Type::Float), param("n", Type::Int)];
    let right = code_of(a(), Type::Float, vec![give(binary(BinOp::Add, name("a"), name("n")))]);
    assert_eq!(
        right,
        code(vec![
            op1(Opcode::Load, 0),
            op1(Opcode::Load, 1),
            op(Opcode::I2F),
            op(Opcode::FAdd),
            op(Opcode::ReturnValue),
        ])
    );
}

#[test]
fn branch_jumps_past_its_body() {
    let f = code_of(
        vec![param("b", Type::Bool)],
        Type::Int,
        vec![
            at(
                2,
                StmtKind::If { cond: name("b"), then_branch: vec![give(num(1))], else_branch: None },
            ),
            give(num(0)),
        ],
    );
    assert_eq!(f[..3], op1(Opcode::Load, 0));
    assert_eq!(f[3], Opcode::IfFalse.byte());
    let offset = i16::from_be_bytes([f[4], f[5]]);
    let target = (3 + offset as i64) as usize;
    assert_eq!(f[target], Opcode::ConstIZero.byte());
}

#[test]
fn loop_jumps_back_to_its_condition() {
    let f = code_of(
        vec![param("b", Type::Bool)],
        Type::Void,
        vec![at(2, StmtKind::While { cond: name("b"), body: Vec::new() })],
    );
    assert_eq!(
        f,
        code(vec![
            op1(Opcode::Load, 0),
            op1(Opcode::IfFalse, 6),
            op1(Opcode::Goto, (-6i16) as u16),
            op(Opcode::Return),
        ])
    );
}

#[test]
fn break_and_continue_need_a_loop() {
    assert!(refused(Vec::new(), Type::Void, vec![at(2, StmtKind::Break)])
        .starts_with("unsupported construct: "));
    assert!(refused(Vec::new(), Type::Void, vec![at(2, StmtKind::Continue)])
        .starts_with("unsupported construct: "));
}

#[test]
fn unknown_variable_is_refused() {
    let e = refused(Vec::new(), Type::Int, vec![give(name("x"))]);
    assert!(e.starts_with("unsupported construct: ") && e.contains("'x'"), "{}", e);
}

#[test]
fn unknown_function_is_refused() {
    let e = refused(
        Vec::new(),
        Type::Void,
        vec![run(Expr::Call("g".to_string(), Vec::new()))],
    );
    assert!(e.starts_with("unsupported construct: "), "{}", e);
}

#[test]
fn void_return_type_wants_no_value() {
    assert_eq!(code_of(Vec::new(), Type::Void, Vec::new()), op(Opcode::Return));
}

#[test]
fn assigned_value_is_kept_or_dropped() {
    let stmt = code_of(
        vec![param("x", Type::Int)],
        Type::Void,
        vec![run(set("x", num(1)))],
    );
    let value = code_of(
        vec![param("x", Type::Int)],
        Type::Int,
        vec![give(set("x", num(1)))],
    );
    assert_eq!(value.last(), Some(&Opcode::ReturnValue.byte()));
    assert_eq!(stmt.last(), Some(&Opcode::Return.byte()));
    assert!(value.contains(&Opcode::Dup.byte()));
}

#[test]
fn handlers_are_in_the_exception_table() {
    let body = vec![at(
        2,
        StmtKind::Try {
            body: vec![run(set("x", num(2)))],
            catches: vec![CatchClause {
                ty: "A".to_string(),
                var: "e".to_string(),
                body: vec![run(set("x", num(3)))],
            }],
            finally: None,
        },
    )];
    let module = compile_body(vec![param("x", Type::Int)], Type::Void, body).unwrap();
    let f = module.find_method("f").unwrap();
    assert_eq!(f.exception_table.len(), 1);
    let e = f.exception_table[0];
    assert_eq!(e.start_pc, 0);
    assert!(e.start_pc < e.end_pc && e.end_pc <= e.handler_pc);
    assert!((e.handler_pc as usize) < f.code.len());
    assert_eq!(module.constant_pool.class_name_at(e.catch_type), Some("t.A"));
}

#[test]
fn finally_is_replayed_on_every_way_out() {
    let body = |inner: Vec<Stmt>| {
        vec![
            at(
                2,
                StmtKind::Try {
                    body: inner,
                    catches: Vec::new(),
                    finally: Some(vec![run(set("x", num(77)))]),
                },
            ),
            give(name("x")),
        ]
    };
    let replays = |code: &[u8]| {
        code.windows(2).filter(|w| w[0] == Opcode::BiPush.byte() && w[1] == 77).count()
    };
    let plain = compiled(vec![param("x", Type::Int)], Type::Int, body(Vec::new()));
    let returning = compiled(vec![param("x", Type::Int)], Type::Int, body(vec![give(num(5))]));
    assert_eq!(replays(&returning.code), replays(&plain.code) + 1);
    assert!(returning.exception_table.iter().any(|e| e.catch_type == 0));
}

#[test]
fn switch_and_match_are_compiled() {
    let switch = at(
        2,
        StmtKind::Switch {
            subject: name("x"),
            cases: vec![
                SwitchCase { value: Some(num(1)), body: vec![at(3, StmtKind::Break)] },
                SwitchCase { value: None, body: vec![run(set("x", num(9)))] },
            ],
        },
    );
    assert!(compile_body(vec![param("x", Type::Int)], Type::Void, vec![switch]).is_ok());
    let matched = Expr::Match(
        Box::new(name("x")),
        vec![
            MatchArm { pattern: Some(num(1)), value: num(10) },
            MatchArm { pattern: None, value: num(20) },
        ],
    );
    assert!(compile_body(vec![param("x", Type::Int)], Type::Int, vec![give(matched)]).is_ok());
}

#[test]
fn named_and_default_arguments_are_put_in_order() {
    let of = |args: Vec<Arg>| {
        let mut b = param("b", Type::Int);
        b.default = Some(num(1));
        let g = method("g", vec![param("a", Type::Int), b], Type::Int, vec![give(name("a"))]);
        let call = Expr::Call("g".to_string(), args);
        let f = method("f", Vec::new(), Type::Int, vec![give(call)]);
        let module = compile(class("A", Vec::new(), vec![g, f])).unwrap();
        module.find_method("f").unwrap().code.clone()
    };
    let given = |n: &str, v: i64| Arg { name: Some(n.to_string()), value: num(v), is_ref: false };
    let default = of(vec![arg(num(0))]);
    assert_eq!(of(vec![arg(num(0)), arg(num(1))]), default);
    assert_eq!(of(vec![given("b", 1), given("a", 0)]), default);
    assert_eq!(default[..2], [Opcode::ConstIZero.byte(), Opcode::ConstIOne.byte()]);
    assert_eq!(default[2], Opcode::InvokeStatic.byte());
}

#[test]
fn field_initializers_run_in_the_constructor() {
    let mut ctor = method("construct", Vec::new(), Type::Void, Vec::new());
    ctor.kind = MethodKind::Constructor;
    ctor.is_static = false;
    let module =
        compile(class("A", vec![field("n", Type::Int, Some(num(1)))], vec![ctor])).unwrap();
    let c = module.find_method("construct").unwrap();
    assert_ne!(c.flags & method_flags::CONSTRUCTOR, 0);
    let field_ref = u16::from_be_bytes([c.code[9], c.code[10]]);
    assert_eq!(
        c.code,
        code(vec![
            op1(Opcode::Load, 0),
            op(Opcode::ConstIOne),
            op(Opcode::Dup),
            op1(Opcode::Store, 1),
            op1(Opcode::SetField, field_ref),
            op1(Opcode::Load, 1),
            op(Opcode::Pop),
            op(Opcode::Return),
        ])
    );
    assert!(matches!(
        module.constant_pool.get(field_ref),
        Some(ConstantPoolEntry::FieldRef { name_index, .. })
            if module.constant_pool.utf8_at(*name_index) == Some("n")
    ));
    assert_eq!(module.fields.len(), 1);
    assert!(module.find_field("n").is_some());
}

#[test]
fn flags_tell_what_a_class_is() {
    let mut c = class("A", Vec::new(), Vec::new());
    c.is_readonly = true;
    c.is_final = true;
    let module = compile(c).unwrap();
    assert_eq!(module.class_flags, class_flags::READONLY | class_flags::FINAL);
    assert_eq!(module.this_class_name(), Some("t.A"));
}

#[test]
fn closure_becomes_a_class_of_its_own() {
    let closure = Expr::Closure {
        params: vec![param("y", Type::Int)],
        return_type: Some(Type::Int),
        throws: Vec::new(),
        body: ClosureBody::Expr(Box::new(binary(BinOp::Add, name("x"), name("y")))),
    };
    let decl = at(
        2,
        StmtKind::VarDecl { ty: None, name: "g".to_string(), init: Some(closure), is_const: false },
    );
    let files = vec![file(class(
        "A",
        Vec::new(),
        vec![method("f", vec![param("x", Type::Int)], Type::Void, vec![decl])],
    ))];
    let modules = compile_program(&files, &no_prelude(), &NativeClasses::new()).unwrap();
    assert_eq!(modules.len(), 2);
    assert_eq!(modules[0].this_class_name(), Some("t.A"));
    assert!(modules[1].find_field("x").is_some());
    assert!(modules[1].find_field("y").is_none());
}

#[test]
fn captures_that_change_are_boxed() {
    let reading = Expr::Closure {
        params: Vec::new(),
        return_type: None,
        throws: Vec::new(),
        body: ClosureBody::Expr(Box::new(binary(BinOp::Add, name("x"), name("z")))),
    };
    let body = ClosureBody::Block(vec![run(reading), run(set("x", num(1)))]);
    let names = referenced_names(&body);
    assert!(names.contains("x") && names.contains("z"));
    assert_eq!(boxed_captures(&body).sorted(), vec!["x"]);
}

#[test]
fn every_file_gets_its_module() {
    let files = vec![
        file(class("A", Vec::new(), Vec::new())),
        file(class("B", Vec::new(), Vec::new())),
    ];
    let modules = compile_program(&files, &no_prelude(), &NativeClasses::new()).unwrap();
    let names: Vec<_> = modules.iter().map(|m| m.this_class_name().unwrap().to_string()).collect();
    assert_eq!(names, vec!["t.A", "t.B"]);
}

#[test]
fn missing_module_is_refused() {
    let files = vec![file(class("A", Vec::new(), Vec::new()))];
    let other = file(class("B", Vec::new(), Vec::new()));
    let e = compile_source_file(&other, &files, &no_prelude(), &NativeClasses::new()).unwrap_err();
    assert_eq!(e.message(), "unsupported construct: no module of class 't.B'");
}

#[test]
fn lines_are_recorded_in_order() {
    let f = compiled(
        vec![param("x", Type::Int)],
        Type::Void,
        vec![
            at(5, StmtKind::Expr(set("x", num(1)))),
            at(0, StmtKind::Expr(set("x", num(2)))),
            at(6, StmtKind::Expr(set("x", num(3)))),
        ],
    );
    let lines: Vec<u32> = f.line_table.iter().map(|e| e.line).collect();
    assert_eq!(lines, vec![5, 6]);
    assert!(f.line_table.windows(2).all(|w| w[0].start_pc <= w[1].start_pc));
}

#[test]
fn patched_branch_reaches_its_target() {
    let mut em = Emitter::new(ConstantPool::new());
    let pc = em.branch(Opcode::Goto, 0);
    em.op(Opcode::ConstNull, 1);
    em.op(Opcode::Pop, -1);
    em.patch_branch(pc);
    assert_eq!(em.pc(), 5);
    assert_eq!(em.code, vec![Opcode::Goto.byte(), 0, 5, Opcode::ConstNull.byte(), Opcode::Pop.byte()]);
    em.patch_branch_to(pc, 3);
    assert_eq!(em.code[..3], [Opcode::Goto.byte(), 0, 3]);
    assert_eq!(em.max_stack(), 1);
}

#[test]
fn descriptors_are_written_types() {
    assert_eq!(type_descriptor(&Type::Array(Box::new(Type::Int))), "int[]");
    assert_eq!(type_descriptor(&Type::Union(vec![Type::StringT, Type::NullT])), "string|null");
    assert_eq!(
        method_descriptor(&vec![Type::Int, Type::Named("t.A".to_string())], &Type::Void),
        "(int, t.A) -> void"
    );
}

#[test]
fn ref_parameters_are_passed_in_boxes() {
    assert_eq!(box_fqcn(&Type::Array(Box::new(Type::Int))), "Box<int[]>");
    let passed = calling_convention_params(&vec![Type::Int, Type::Bool], &vec![true, false]);
    let shown: Vec<String> = passed.iter().map(display).collect();
    assert_eq!(shown, vec!["Box<int>", "bool"]);
}

#[test]
fn static_types_read_back() {
    for t in [
        Type::Int,
        Type::Array(Box::new(Type::Float)),
        Type::Named("t.A".to_string()),
        Type::Function {
            params: vec![Type::Int],
            return_type: Box::new(Type::Bool),
            throws: Vec::new(),
        },
    ] {
        assert_eq!(display(&expr_ty_to_type(&expr_ty_of(&t))), display(&t));
    }
}

#[test]
fn closures_of_one_shape_are_alike() {
    let closure = |fqcn: &str, p: ExprTy| ExprTy::Closure {
        params: vec![p],
        return_ty: Box::new(ExprTy::Void),
        throws: Vec::new(),
        fqcn: fqcn.to_string(),
    };
    let a = closure("A$1", ExprTy::Int);
    let b = closure("A$2", ExprTy::Int);
    let c = closure("A$1", ExprTy::Bool);
    assert!(closure_shape_eq(&a, &a) && closure_shape_eq(&a, &b) && closure_shape_eq(&b, &a));
    assert!(!closure_shape_eq(&a, &c));
    assert!(!a.same(&b));
    assert_eq!(show(&a), "Closure { params: [Int], return_ty: Void, fqcn: \"A$1\" }");
    assert_eq!(show(&ExprTy::Object("t.A".to_string())), "Object(\"t.A\")");
}

#[test]
fn negation_and_not() {
    let neg = code_of(
        vec![param("x", Type::Int)],
        Type::Int,
        vec![give(Expr::Unary(UnOp::Neg, Box::new(name("x"))))],
    );
    assert_eq!(
        neg,
        code(vec![op1(Opcode::Load, 0), op(Opcode::INeg), op(Opcode::ReturnValue)])
    );
    let not = code_of(
        vec![param("b", Type::Bool)],
        Type::Bool,
        vec![give(Expr::Unary(UnOp::Not, Box::new(name("b"))))],
    );
    assert_eq!(not, code(vec![op1(Opcode::Load, 0), op(Opcode::Not), op(Opcode::ReturnValue)]));
}

#[test]
fn declared_variable_without_value() {
    let f = compiled(
        Vec::new(),
        Type::Int,
        vec![var("x", Type::Int, None), run(set("x", num(1))), give(name("x"))],
    );
    assert_eq!(f.max_locals, 1);
}

#[test]
fn defaults_that_refer_to_each_other_are_refused() {
    let mut p = param("p", Type::Int);
    p.default = Some(Expr::Call("g".to_string(), Vec::new()));
    let g = method("g", vec![p], Type::Int, vec![give(name("p"))]);
    let f = method("f", Vec::new(), Type::Int, vec![give(Expr::Call("g".to_string(), Vec::new()))]);
    let e = compile(class("A", Vec::new(), vec![g, f])).unwrap_err();
    assert!(e.starts_with("unsupported construct: "), "{}", e);
}

#[test]
fn constants_are_held_once() {
    let module = compile_body(
        vec![param("x", Type::Int)],
        Type::Int,
        vec![
            run(set("x", num(1 << 40))),
            run(set("x", num(1 << 40))),
            give(Expr::Call("f".to_string(), vec![arg(name("x"))])),
        ],
    )
    .unwrap();
    let entries = module.constant_pool.entries();
    for (i, a) in entries.iter().enumerate() {
        for b in &entries[i + 1..] {
            assert!(!a.same(b));
        }
    }
}

#[test]
fn module_describes_its_class() {
    let interface = |name: &str, extends: &[&str]| SourceFile {
        path: String::new(),
        namespace: vec!["t".to_string()],
        uses: Vec::new(),
        item: SourceItem::Interface(InterfaceDecl {
            name: name.to_string(),
            extends: extends.iter().map(|s| s.to_string()).collect(),
            methods: vec![MethodSig {
                name: "m".to_string(),
                params: Vec::new(),
                return_type: Type::Void,
                is_const: false,
            }],
            decl_line: 1,
        }),
    };
    let mut c = class(
        "C",
        vec![field("n", Type::Named("P".to_string()), None)],
        vec![method("f", vec![param("a", Type::Int)], Type::Void, Vec::new())],
    );
    c.extends = Some("P".to_string());
    c.implements = vec!["I".to_string()];
    let files = vec![
        file(class("P", Vec::new(), Vec::new())),
        file(c),
        interface("I", &["J"]),
        interface("J", &[]),
    ];
    let modules = compile_program(&files, &no_prelude(), &NativeClasses::new()).unwrap();
    let m = &modules[1];
    let pool = &m.constant_pool;
    assert_eq!(m.this_class_name(), Some("t.C"));
    assert_eq!(pool.class_name_at(m.super_class), Some("t.P"));
    let interfaces: Vec<_> = m.interfaces.iter().map(|i| pool.class_name_at(*i)).collect();
    assert_eq!(interfaces, vec![Some("t.I"), Some("t.J")]);
    assert_eq!(pool.type_desc_at(m.fields[0].type_index), Some("t.P"));
    assert_eq!(pool.utf8_at(m.methods[0].name_index), Some("f"));
    assert_eq!(pool.type_desc_at(m.methods[0].descriptor_index), Some("(int) -> void"));
    assert!(modules[2].find_method_by_descriptor("m", "() -> void").is_some());
    assert_eq!(modules[0].super_class, 0);
}

#[test]
fn inner_scope_leaves_outer_variables() {
    let f = code_of(
        Vec::new(),
        Type::Int,
        vec![
            var("x", Type::Int, Some(num(1))),
            at(3, StmtKind::Block(vec![var("x", Type::Int, Some(num(0)))])),
            give(name("x")),
        ],
    );
    assert_eq!(
        f,
        code(vec![
            op(Opcode::ConstIOne),
            op1(Opcode::Store, 0),
            op(Opcode::ConstIZero),
            op1(Opcode::Store, 1),
            op1(Opcode::Load, 0),
            op(Opcode::ReturnValue),
        ])
    );
}

#[test]
fn break_leaves_the_innermost_loop() {
    let inner = at(
        3,
        StmtKind::While { cond: name("b"), body: vec![at(4, StmtKind::Break)] },
    );
    let f = code_of(
        vec![param("b", Type::Bool)],
        Type::Void,
        vec![at(2, StmtKind::While { cond: name("b"), body: vec![inner] })],
    );
    assert_eq!(
        f,
        code(vec![
            op1(Opcode::Load, 0),
            op1(Opcode::IfFalse, 18),
            op1(Opcode::Load, 0),
            op1(Opcode::IfFalse, 9),
            op1(Opcode::Goto, 6),
            op1(Opcode::Goto, (-9i16) as u16),
            op1(Opcode::Goto, (-18i16) as u16),
            op(Opcode::Return),
        ])
    );
}

#[test]
fn parameters_take_the_first_slots() {
    let mut f = method(
        "f",
        vec![param("a", Type::Int), param("b", Type::Int)],
        Type::Int,
        vec![give(name("b"))],
    );
    f.is_static = false;
    let module = compile(class("A", Vec::new(), vec![f])).unwrap();
    let f = module.find_method("f").unwrap();
    assert_eq!(f.code, code(vec![op1(Opcode::Load, 2), op(Opcode::ReturnValue)]));
    assert_eq!(f.max_locals, 3);
}

#[test]
fn function_type_keeps_its_exceptions() {
    let t = Type::Function {
        params: vec![Type::Int],
        return_type: Box::new(Type::Bool),
        throws: vec!["t.E".to_string()],
    };
    match expr_ty_to_type(&expr_ty_of(&t)) {
        Type::Function { params, return_type, throws } => {
            assert_eq!(params.len(), 1);
            assert!(matches!(*return_type, Type::Bool));
            assert_eq!(throws, vec!["t.E".to_string()]);
        }
        _ => panic!("not a function type"),
    }
    let plain = Type::Function {
        params: vec![Type::Int],
        return_type: Box::new(Type::Bool),
        throws: Vec::new(),
    };
    assert!(!expr_ty_of(&t).same(&expr_ty_of(&plain)));
    assert!(closure_shape_eq(&expr_ty_of(&t), &expr_ty_of(&plain)));
}

fn instance(mut m: MethodDecl) -> MethodDecl {
    m.is_static = false;
    m
}

fn built(params: Vec<Param>, body: Vec<Stmt>) -> MethodDecl {
    let mut m = instance(method("construct", params, Type::Void, body));
    m.kind = MethodKind::Constructor;
    m
}

/// A class `B` with two constructors, two methods `g` and two static methods
/// `h`, for an integer and for a string.
fn overloaded() -> ClassDecl {
    let of = |t: Type| vec![param("x", t)];
    class(
        "B",
        Vec::new(),
        vec![
            built(of(Type::Int), Vec::new()),
            built(of(Type::StringT), Vec::new()),
            instance(method("g", of(Type::Int), Type::Int, vec![give(num(1))])),
            instance(method("g", of(Type::StringT), Type::Int, vec![give(num(2))])),
            method("h", of(Type::Int), Type::Int, vec![give(num(1))]),
            method("h", of(Type::StringT), Type::Int, vec![give(num(2))]),
        ],
    )
}

/// Whether something is called by this descriptor.
fn calls(module: &Module, descriptor: &str) -> bool {
    let pool = &module.constant_pool;
    pool.entries().iter().any(|e| match e {
        ConstantPoolEntry::MethodRef { descriptor_index, .. } => {
            pool.type_desc_at(*descriptor_index) == Some(descriptor)
        }
        _ => false,
    })
}

/// Whether class `A`, compiled beside `B`, calls something by this descriptor.
fn names(a: ClassDecl, descriptor: &str) -> bool {
    let files = vec![file(a), file(overloaded())];
    let module =
        compile_source_file(&files[0], &files, &no_prelude(), &NativeClasses::new()).unwrap();
    calls(&module, descriptor)
}

#[test]
fn call_is_bound_by_its_argument_types() {
    let of = |t: Type| method_descriptor(&vec![t], &Type::Void);
    let to_int = |t: Type| method_descriptor(&vec![t], &Type::Int);
    let text = || vec![arg(Expr::StringLit("s".to_string()))];
    let body = |e: Expr| class("A", Vec::new(), vec![method("f", Vec::new(), Type::Void, vec![run(e)])]);
    let new_b = |args: Vec<Arg>| Expr::New("t.B".to_string(), Vec::new(), args);
    assert!(names(body(new_b(text())), &of(Type::StringT)));
    assert!(!names(body(new_b(text())), &of(Type::Int)));
    assert!(names(body(new_b(vec![arg(num(1))])), &of(Type::Int)));
    let on_object = |args: Vec<Arg>| {
        Expr::MethodCall(Box::new(new_b(vec![arg(num(1))])), "g".to_string(), args)
    };
    assert!(names(body(on_object(text())), &to_int(Type::StringT)));
    assert!(!names(body(on_object(text())), &to_int(Type::Int)));
    let on_class = |args: Vec<Arg>| {
        Expr::MethodCall(
            Box::new(Expr::FieldAccess(Box::new(name("t")), "B".to_string())),
            "h".to_string(),
            args,
        )
    };
    assert!(names(body(on_class(text())), &to_int(Type::StringT)));
    assert!(!names(body(on_class(text())), &to_int(Type::Int)));
}

#[test]
fn delegation_is_bound_by_its_argument_types() {
    let of = |t: Type| method_descriptor(&vec![t], &Type::Void);
    let text = || vec![arg(Expr::StringLit("s".to_string()))];
    let mut child = class(
        "A",
        Vec::new(),
        vec![built(Vec::new(), vec![at(2, StmtKind::SuperCall(text()))])],
    );
    child.extends = Some("t.B".to_string());
    assert!(names(child, &of(Type::StringT)));
    let mut child = class(
        "A",
        Vec::new(),
        vec![instance(method(
            "k",
            Vec::new(),
            Type::Int,
            vec![give(Expr::MethodCall(Box::new(Expr::Super), "g".to_string(), text()))],
        ))],
    );
    child.extends = Some("t.B".to_string());
    assert!(names(child, &method_descriptor(&vec![Type::StringT], &Type::Int)));
    let own = class(
        "A",
        Vec::new(),
        vec![
            built(vec![param("x", Type::Bool)], Vec::new()),
            built(vec![param("x", Type::Float)], Vec::new()),
            built(Vec::new(), vec![at(2, StmtKind::ThisCall(vec![arg(num(1))]))]),
        ],
    );
    let module = compile(own).unwrap();
    assert!(calls(&module, &of(Type::Float)));
    assert!(!calls(&module, &of(Type::Bool)));
}

#[test]
fn call_is_bound_by_the_types_of_composite_arguments() {
    let text = || Expr::StringLit("s".to_string());
    let to_int = |t: Type| method_descriptor(&vec![t], &Type::Int);
    let h = |e: Expr| {
        Expr::MethodCall(
            Box::new(Expr::FieldAccess(Box::new(name("t")), "B".to_string())),
            "h".to_string(),
            vec![arg(e)],
        )
    };
    let body = |e: Expr| {
        let strings = Type::Array(Box::new(Type::StringT));
        class(
            "A",
            Vec::new(),
            vec![
                method("m", vec![param("x", Type::Bool)], Type::Bool, vec![give(name("x"))]),
                method("m", vec![param("x", Type::StringT)], Type::StringT, vec![give(name("x"))]),
                method("f", vec![param("a", strings)], Type::Void, vec![run(h(e))]),
            ],
        )
    };
    for e in [
        Expr::Index(Box::new(name("a")), Box::new(num(0))),
        Expr::Call("m".to_string(), vec![arg(text())]),
        Expr::Ternary(Box::new(Expr::BoolLit(true)), Box::new(text()), Box::new(text())),
        Expr::Elvis(Box::new(text()), Box::new(text())),
        binary(BinOp::Add, text(), num(1)),
    ] {
        assert!(names(body(e), &to_int(Type::StringT)));
    }
    for e in [
        Expr::Unary(UnOp::Neg, Box::new(num(1))),
        binary(BinOp::Mul, num(2), num(3)),
        binary(BinOp::Cmp3, num(2), num(3)),
        h(text()),
    ] {
        assert!(names(body(e), &to_int(Type::Int)));
    }
}

#[test]
fn closure_in_a_box_is_read_from_it() {
    let function = || Type::Function {
        params: Vec::new(),
        return_type: Box::new(Type::Int),
        throws: Vec::new(),
    };
    let call = || vec![give(Expr::Call("g".to_string(), Vec::new()))];
    let plain = code_of(vec![param("g", function())], Type::Int, call());
    assert_eq!(plain[0], Opcode::Load.byte());
    assert_eq!(plain[3], Opcode::InvokeClosure.byte());
    let mut by_reference = param("g", function());
    by_reference.is_ref = true;
    let boxed = code_of(vec![by_reference], Type::Int, call());
    assert_eq!(boxed[0], Opcode::Load.byte());
    assert_eq!(boxed[3], Opcode::GetField.byte());
    assert_eq!(boxed[6], Opcode::InvokeClosure.byte());
}
