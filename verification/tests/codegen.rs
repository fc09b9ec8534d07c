use nlvm::ast::{
    BinOp, ClassDecl, Expr, InterfaceDecl, LValue, MethodDecl, MethodKind, MethodSig, Param,
    SourceFile, SourceItem, Stmt, StmtKind, Type, Visibility,
};
use nlvm::bytecode::module::Module;
use nlvm::bytecode::{class_flags, method_flags};
use nlvm::codegen::program::compile_source_file;
use nlvm::native_generics::NativeClasses;
use nlvm::resolve::Prelude;

fn no_prelude() -> Prelude {
    Prelude { classes: Vec::new(), aliases: Vec::new() }
}

fn class(name: &str, methods: Vec<MethodDecl>) -> ClassDecl {
    ClassDecl {
        name: name.to_string(),
        type_params: Vec::new(),
        extends: None,
        implements: Vec::new(),
        fields: Vec::new(),
        methods,
        is_readonly: false,
        is_abstract: false,
        is_final: false,
        is_enum: false,
        enum_cases: Vec::new(),
        decl_line: 2,
    }
}

fn method(name: &str, return_type: Type, params: Vec<Param>, body: Vec<Stmt>) -> MethodDecl {
    MethodDecl {
        name: name.to_string(),
        kind: MethodKind::Normal,
        visibility: Visibility::Public,
        visibility_explicit: true,
        is_static: false,
        is_const: false,
        is_abstract: false,
        is_final: false,
        is_nodiscard: false,
        return_type,
        params,
        throws: Vec::new(),
        body,
        decl_line: 3,
    }
}

fn param(name: &str, ty: Type) -> Param {
    Param { name: name.to_string(), ty, default: None, is_ref: false, is_const: false }
}

fn source(path: &str, namespace: &[&str], item: SourceItem) -> SourceFile {
    SourceFile {
        path: path.to_string(),
        namespace: namespace.iter().map(|s| s.to_string()).collect(),
        uses: Vec::new(),
        item,
    }
}

fn at(line: u32, kind: StmtKind) -> Stmt {
    Stmt { kind, line }
}

fn ident(name: &str) -> Expr {
    Expr::Ident(name.to_string())
}

fn int_var(line: u32, name: &str, value: i64) -> Stmt {
    at(
        line,
        StmtKind::VarDecl {
            ty: Some(Type::Int),
            name: name.to_string(),
            init: Some(Expr::IntLit(value)),
            is_const: false,
        },
    )
}

fn compile(file: SourceFile) -> Module {
    let files = vec![file];
    let natives = NativeClasses::new();
    compile_source_file(&files[0], &files, &no_prelude(), &natives).unwrap()
}

#[test]
fn line_table_tracks_source_lines() {
    let mut main = method(
        "main",
        Type::Int,
        vec![param("args", Type::Array(Box::new(Type::StringT)))],
        vec![
            int_var(4, "x", 1),
            int_var(5, "y", 2),
            at(
                6,
                StmtKind::If {
                    cond: Expr::Binary(BinOp::Lt, Box::new(ident("x")), Box::new(ident("y"))),
                    then_branch: vec![at(
                        7,
                        StmtKind::Expr(Expr::Assign(
                            LValue::Local("x".to_string()),
                            Box::new(ident("y")),
                        )),
                    )],
                    else_branch: None,
                },
            ),
            at(9, StmtKind::Return(Some(ident("x")))),
        ],
    );
    main.is_static = true;
    let module = compile(source(
        "Program.nl",
        &["test"],
        SourceItem::Class(class("Program", vec![main])),
    ));
    let method = module.find_method("main").unwrap();

    assert!(
        !method.line_table.is_empty(),
        "expected a non-empty line table for a method with real statements"
    );

    let mut prev_pc = None;
    for entry in &method.line_table {
        if let Some(p) = prev_pc {
            assert!(
                entry.start_pc > p,
                "line table entries must have strictly increasing start_pc"
            );
        }
        assert!((entry.start_pc as usize) < method.code.len());
        prev_pc = Some(entry.start_pc);
    }

    let lines: Vec<u32> = method.line_table.iter().map(|e| e.line).collect();
    assert_eq!(lines, vec![4, 5, 6, 7, 9]);
}

#[test]
fn abstract_method_compiles_to_codeless_abstract_stub() {
    let mut area = method("area", Type::Float, Vec::new(), Vec::new());
    area.is_abstract = true;
    let mut shape = class("Shape", vec![area]);
    shape.is_abstract = true;
    let module = compile(source(
        "Shape.nl",
        &["test", "abstract_stub"],
        SourceItem::Class(shape),
    ));

    assert_ne!(module.class_flags & class_flags::ABSTRACT, 0);

    let method = module
        .find_method("area")
        .expect("abstract method must still appear in the compiled module");
    assert_ne!(method.flags & method_flags::ABSTRACT, 0);
    assert_eq!(method.max_locals, 0);
    assert_eq!(method.max_stack, 0);
    assert!(method.code.is_empty());
    assert!(method.exception_table.is_empty());
    assert!(method.line_table.is_empty());
}

#[test]
fn interface_method_compiles_to_codeless_abstract_stub() {
    let shape = InterfaceDecl {
        name: "Shape".to_string(),
        extends: Vec::new(),
        methods: vec![MethodSig {
            name: "area".to_string(),
            params: Vec::new(),
            return_type: Type::Float,
            is_const: false,
        }],
        decl_line: 2,
    };
    let module = compile(source(
        "Shape.nl",
        &["test", "interface_stub"],
        SourceItem::Interface(shape),
    ));

    assert_ne!(module.class_flags & class_flags::INTERFACE, 0);

    let method = module
        .find_method("area")
        .expect("interface method must appear in the compiled module");
    assert_ne!(method.flags & method_flags::ABSTRACT, 0);
    assert!(method.code.is_empty());
}

#[test]
fn final_method_carries_final_flag() {
    let mut construct = method("construct", Type::Void, Vec::new(), Vec::new());
    construct.kind = MethodKind::Constructor;
    let mut label = method(
        "label",
        Type::StringT,
        Vec::new(),
        vec![at(4, StmtKind::Return(Some(Expr::StringLit("base".to_string()))))],
    );
    label.is_final = true;
    let module = compile(source(
        "Base.nl",
        &["test", "final_flag"],
        SourceItem::Class(class("Base", vec![construct, label])),
    ));

    let method = module.find_method("label").unwrap();
    assert_ne!(method.flags & method_flags::FINAL, 0);
}
