use nlvm::ast::{
    Arg, ClassDecl, ClosureBody, Expr, InterfaceDecl, LValue, MatchArm, MethodDecl, MethodKind,
    MethodSig, Param, SourceFile, SourceItem, Stmt, StmtKind, Type, Visibility,
};
use nlvm::bytecode::constant_pool::ConstantPoolEntry;
use nlvm::bytecode::module::Module;
use nlvm::codegen::program::{compile_program, compile_source_file};
use nlvm::codegen::type_desc::method_descriptor;
use nlvm::names::NameMap;
use nlvm::native_generics::{NativeClass, NativeClasses, NativeMethod};
use nlvm::resolve::Prelude;
use nlvm::sema::program::check_compile;

fn class(name: &str, methods: Vec<MethodDecl>) -> ClassDecl {
    ClassDecl {
        name: name.to_string(),
        type_params: Vec::new(),
        extends: None,
        implements: Vec::new(),
        fields: Vec::new(),
        methods,
        is_readonly: false,
        is_abstract: false,
        is_final: false,
        is_enum: false,
        enum_cases: Vec::new(),
        decl_line: 1,
    }
}

fn child(name: &str, parent: &str) -> ClassDecl {
    let mut c = class(name, Vec::new());
    c.extends = Some(parent.to_string());
    c
}

fn fixed(name: &str, params: Vec<Param>, return_type: Type, body: Vec<Stmt>) -> MethodDecl {
    MethodDecl {
        name: name.to_string(),
        kind: MethodKind::Normal,
        visibility: Visibility::Public,
        visibility_explicit: true,
        is_static: true,
        is_const: false,
        is_abstract: false,
        is_final: false,
        is_nodiscard: false,
        return_type,
        params,
        throws: Vec::new(),
        body,
        decl_line: 1,
    }
}

fn param(name: &str, ty: Type) -> Param {
    Param { name: name.to_string(), ty, default: None, is_ref: false, is_const: false }
}

fn file(namespace: &[&str], item: SourceItem) -> SourceFile {
    SourceFile {
        path: "t.nl".to_string(),
        namespace: namespace.iter().map(|s| s.to_string()).collect(),
        uses: Vec::new(),
        item,
    }
}

fn in_t(c: ClassDecl) -> SourceFile {
    file(&["t"], SourceItem::Class(c))
}

fn prelude() -> Prelude {
    Prelude { classes: vec!["Exception".to_string()], aliases: Vec::new() }
}

fn at(kind: StmtKind) -> Stmt {
    Stmt { kind, line: 2 }
}

fn name(s: &str) -> Expr {
    Expr::Ident(s.to_string())
}

fn arg(value: Expr) -> Arg {
    Arg { name: None, value, is_ref: false }
}

fn path(names: &[&str]) -> Expr {
    let mut e = name(names[0]);
    for n in &names[1..] {
        e = Expr::FieldAccess(Box::new(e), n.to_string());
    }
    e
}

fn on(target: Expr, method: &str, args: Vec<Expr>) -> Expr {
    Expr::MethodCall(Box::new(target), method.to_string(), args.into_iter().map(arg).collect())
}

fn text(s: &str) -> Expr {
    Expr::StringLit(s.to_string())
}

fn named(s: &str) -> Type {
    Type::Named(s.to_string())
}

fn nullable(t: Type) -> Type {
    Type::Union(vec![t, Type::NullT])
}

fn auto(n: &str, init: Expr) -> Stmt {
    at(StmtKind::VarDecl { ty: None, name: n.to_string(), init: Some(init), is_const: false })
}

/// `p(argument)`, on the class `C`.
fn call(argument: Expr) -> Stmt {
    at(StmtKind::Expr(on(path(&["t", "C"]), "p", vec![argument])))
}

fn calls(module: &Module, descriptor: &str) -> bool {
    let pool = &module.constant_pool;
    pool.entries().iter().any(|e| match e {
        ConstantPoolEntry::MethodRef { descriptor_index, .. } => {
            pool.type_desc_at(*descriptor_index) == Some(descriptor)
        }
        _ => false,
    })
}

fn natives() -> NativeClasses {
    let mut natives = NativeClasses::new();
    natives.insert(
        "system.List<string>".to_string(),
        NativeClass {
            element: Some(Type::StringT),
            fields: NameMap::new(),
            ctors: vec![Vec::new()],
            methods: vec![
                NativeMethod {
                    name: "size".to_string(),
                    params: Vec::new(),
                    return_ty: Type::Int,
                },
                NativeMethod {
                    name: "get".to_string(),
                    params: vec![Type::Int],
                    return_ty: Type::StringT,
                },
            ],
        },
    );
    natives
}

/// Checks and compiles a program in which a method of this body calls `p`,
/// which is there first for `other` and then for `wanted`. The first throws an
/// exception that nothing handles: the check passes only where it binds the
/// second.
fn binds(wanted: Type, other: Type, body: Vec<Stmt>) {
    let of = |t: &Type| method_descriptor(&vec![copied(t)], &Type::Void);
    let (want, unwanted) = (of(&wanted), of(&other));
    let mut first = fixed("p", vec![param("x", other)], Type::Void, Vec::new());
    first.throws = vec!["Exception".to_string()];
    let second = fixed("p", vec![param("x", wanted)], Type::Void, Vec::new());
    let params = vec![
        param("s", Type::StringT),
        param("n", nullable(Type::StringT)),
        param("a", Type::Array(Box::new(Type::StringT))),
        param("l", named("system.List<string>")),
        param("u", Type::Union(vec![named("t.D"), named("t.E")])),
        param("d", named("t.D")),
    ];
    let files = vec![
        in_t(class("A", vec![fixed("f", params, Type::Void, body)])),
        in_t(class("C", vec![first, second])),
        in_t(class("D", Vec::new())),
        in_t(class("E", Vec::new())),
        in_t(child("F", "t.D")),
        file(&[], SourceItem::Class(class("Exception", Vec::new()))),
    ];
    let natives = natives();
    let checked = check_compile(&files, &files, &Vec::new(), &prelude(), &natives);
    assert!(checked.is_ok(), "{}", checked.unwrap_err().message());
    let module = compile_source_file(&files[0], &files, &prelude(), &natives).unwrap();
    assert!(calls(&module, &want));
    assert!(!calls(&module, &unwanted));
}

fn copied(t: &Type) -> Type {
    match t {
        Type::Int => Type::Int,
        Type::Float => Type::Float,
        Type::StringT => Type::StringT,
        Type::Bool => Type::Bool,
        Type::Named(n) => Type::Named(n.clone()),
        Type::Array(inner) => Type::Array(Box::new(copied(inner))),
        _ => panic!("not used here"),
    }
}

#[test]
fn method_of_a_string_or_an_array_tells_its_type() {
    binds(Type::Int, Type::Float, vec![call(on(name("s"), "length", Vec::new()))]);
    binds(Type::Int, Type::Float, vec![call(on(name("a"), "length", Vec::new()))]);
    let part = on(name("a"), "slice", vec![Expr::IntLit(0), Expr::IntLit(1)]);
    binds(Type::Array(Box::new(Type::StringT)), Type::Int, vec![call(part)]);
    let found = Expr::Closure {
        params: vec![param("x", Type::StringT)],
        return_type: Some(Type::Bool),
        throws: Vec::new(),
        body: ClosureBody::Expr(Box::new(Expr::BoolLit(true))),
    };
    binds(Type::StringT, Type::Int, vec![call(on(name("a"), "find", vec![found]))]);
}

#[test]
fn native_methods_tell_their_types() {
    let length = on(path(&["system", "String"]), "length", vec![name("s")]);
    binds(Type::Int, Type::Float, vec![call(length)]);
    let first = on(name("l"), "get", vec![Expr::IntLit(0)]);
    binds(Type::StringT, Type::Int, vec![call(first)]);
    binds(Type::Int, Type::Float, vec![call(on(name("l"), "size", Vec::new()))]);
}

#[test]
fn match_tells_the_type_of_its_arms() {
    let chosen = Expr::Match(
        Box::new(name("s")),
        vec![
            MatchArm { pattern: Some(text("a")), value: text("b") },
            MatchArm { pattern: None, value: text("c") },
        ],
    );
    binds(Type::StringT, Type::Int, vec![call(chosen)]);
}

#[test]
fn variables_tell_their_types() {
    binds(Type::StringT, Type::Int, vec![call(name("n"))]);
    binds(Type::Int, Type::Float, vec![auto("x", on(name("s"), "length", Vec::new())), call(name("x"))]);
    let looped = StmtKind::ForEach {
        ty: None,
        var: "x".to_string(),
        iterable: name("l"),
        body: vec![call(name("x"))],
    };
    binds(Type::StringT, Type::Int, vec![at(looped)]);
    let inner = Expr::Closure {
        params: vec![param("y", Type::Int)],
        return_type: Some(Type::Void),
        throws: Vec::new(),
        body: ClosureBody::Block(vec![auto("z", name("s")), call(name("z"))]),
    };
    let literal = vec![auto("g", inner)];
    let modules = {
        let mut first = fixed("p", vec![param("x", Type::Int)], Type::Void, Vec::new());
        first.throws = vec!["Exception".to_string()];
        let second = fixed("p", vec![param("x", Type::StringT)], Type::Void, Vec::new());
        let files = vec![
            in_t(class("A", vec![fixed("f", vec![param("s", Type::StringT)], Type::Void, literal)])),
            in_t(class("C", vec![first, second])),
            file(&[], SourceItem::Class(class("Exception", Vec::new()))),
        ];
        assert!(check_compile(&files, &files, &Vec::new(), &prelude(), &natives()).is_ok());
        compile_program(&files, &prelude(), &natives()).unwrap()
    };
    let callers = &modules[..modules.len() - 2];
    assert_eq!(callers.len(), 2);
    let called = |t: Type| {
        let descriptor = method_descriptor(&vec![t], &Type::Void);
        callers.iter().any(|m| calls(m, &descriptor))
    };
    assert!(called(Type::StringT));
    assert!(!called(Type::Int));
}

fn tested(var: &str, class: &str, then_branch: Vec<Stmt>) -> Stmt {
    at(StmtKind::If {
        cond: Expr::InstanceOf(Box::new(name(var)), class.to_string()),
        then_branch,
        else_branch: None,
    })
}

#[test]
fn test_of_a_class_tells_a_type_where_it_holds() {
    binds(named("t.E"), named("t.D"), vec![tested("u", "t.E", vec![call(name("u"))])]);
    binds(named("t.F"), named("t.D"), vec![tested("d", "t.F", vec![call(name("d"))])]);
    let reset = Expr::Assign(LValue::Local("d".to_string()), Box::new(name("d")));
    let body = vec![at(StmtKind::Expr(reset)), call(name("d"))];
    binds(named("t.D"), named("t.F"), vec![tested("d", "t.F", body)]);
}

#[test]
fn finally_block_calls_one_method_on_every_way_out() {
    let body = vec![tested("d", "t.F", vec![at(StmtKind::Return(None))])];
    let guarded = StmtKind::Try {
        body,
        catches: Vec::new(),
        finally: Some(vec![call(name("d"))]),
    };
    binds(named("t.D"), named("t.F"), vec![at(guarded)]);
}

#[test]
fn interface_call_may_omit_an_argument() {
    let mut x = param("x", Type::Int);
    x.default = Some(Expr::IntLit(1));
    let files = vec![
        in_t(class(
            "A",
            vec![fixed(
                "f",
                Vec::new(),
                Type::Void,
                vec![
                    at(StmtKind::VarDecl {
                        ty: Some(named("t.I")),
                        name: "i".to_string(),
                        init: None,
                        is_const: false,
                    }),
                    at(StmtKind::Expr(on(name("i"), "m", Vec::new()))),
                ],
            )],
        )),
        file(
            &["t"],
            SourceItem::Interface(InterfaceDecl {
                name: "I".to_string(),
                extends: Vec::new(),
                methods: vec![MethodSig {
                    name: "m".to_string(),
                    params: vec![x],
                    return_type: Type::Void,
                    is_const: false,
                }],
                decl_line: 1,
            }),
        ),
    ];
    let modules = compile_program(&files, &prelude(), &natives()).unwrap();
    let descriptor = method_descriptor(&vec![Type::Int], &Type::Void);
    assert!(modules.iter().any(|m| calls(m, &descriptor)));
}
