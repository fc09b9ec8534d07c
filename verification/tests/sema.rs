use nlvm::ast::{
    Arg, BinOp, CatchClause, ClassDecl, ClosureBody, Expr, FieldDecl, InterfaceDecl, LValue,
    MatchArm, MethodDecl, MethodKind, MethodSig, Param, SourceFile, SourceItem, Stmt, StmtKind,
    Type, TypeParam, UnOp, UseDecl, Visibility,
};
use nlvm::native_generics::NativeClasses;
use nlvm::resolve::Prelude;
use nlvm::sema::class_rules::relabel_template_operator_error;
use nlvm::sema::error::{LocatedError, LocatedWarning, SemaError, SemaWarning};
use nlvm::sema::program::{
    check_compile, check_compile_with_warnings, check_entry_point, Instantiation,
};
use nlvm::sema::types::is_primitive_display;

fn class(name: &str, fields: Vec<FieldDecl>, methods: Vec<MethodDecl>) -> ClassDecl {
    ClassDecl {
        name: name.to_string(),
        type_params: Vec::new(),
        extends: None,
        implements: Vec::new(),
        fields,
        methods,
        is_readonly: false,
        is_abstract: false,
        is_final: false,
        is_enum: false,
        enum_cases: Vec::new(),
        decl_line: 2,
    }
}

fn child(name: &str, parent: &str, methods: Vec<MethodDecl>) -> ClassDecl {
    let mut c = class(name, Vec::new(), methods);
    c.extends = Some(parent.to_string());
    c
}

fn field(name: &str, ty: Type, init: Option<Expr>) -> FieldDecl {
    FieldDecl {
        name: name.to_string(),
        ty,
        init,
        visibility: Visibility::Public,
        visibility_explicit: true,
        is_static: false,
        readonly: false,
    }
}

fn method(name: &str, params: Vec<Param>, return_type: Type, body: Vec<Stmt>) -> MethodDecl {
    MethodDecl {
        name: name.to_string(),
        kind: MethodKind::Normal,
        visibility: Visibility::Public,
        visibility_explicit: true,
        is_static: false,
        is_const: false,
        is_abstract: false,
        is_final: false,
        is_nodiscard: false,
        return_type,
        params,
        throws: Vec::new(),
        body,
        decl_line: 3,
    }
}

fn ctor(params: Vec<Param>, body: Vec<Stmt>) -> MethodDecl {
    let mut m = method("construct", params, Type::Void, body);
    m.kind = MethodKind::Constructor;
    m
}

fn fixed(mut m: MethodDecl) -> MethodDecl {
    m.is_static = true;
    m
}

fn throwing(mut m: MethodDecl, throws: &[&str]) -> MethodDecl {
    m.throws = throws.iter().map(|s| s.to_string()).collect();
    m
}

fn param(name: &str, ty: Type) -> Param {
    Param { name: name.to_string(), ty, default: None, is_ref: false, is_const: false }
}

fn file(item: SourceItem) -> SourceFile {
    let name = match &item {
        SourceItem::Class(c) => c.name.clone(),
        SourceItem::Interface(i) => i.name.clone(),
    };
    SourceFile {
        path: format!("{}.nl", name),
        namespace: vec!["t".to_string()],
        uses: Vec::new(),
        item,
    }
}

fn global(c: ClassDecl) -> SourceFile {
    let mut f = file(SourceItem::Class(c));
    f.namespace = Vec::new();
    f
}

fn one(c: ClassDecl) -> SourceFile {
    file(SourceItem::Class(c))
}

fn interface(name: &str, methods: Vec<MethodSig>) -> SourceFile {
    file(SourceItem::Interface(InterfaceDecl {
        name: name.to_string(),
        extends: Vec::new(),
        methods,
        decl_line: 2,
    }))
}

fn sig(name: &str, is_const: bool) -> MethodSig {
    MethodSig { name: name.to_string(), params: Vec::new(), return_type: Type::Void, is_const }
}

fn prelude() -> Prelude {
    Prelude {
        classes: vec!["Exception".to_string(), "RuntimeException".to_string()],
        aliases: Vec::new(),
    }
}

fn exceptions() -> Vec<SourceFile> {
    vec![
        global(class("Exception", Vec::new(), Vec::new())),
        global(child("RuntimeException", "Exception", Vec::new())),
    ]
}

fn check(mut files: Vec<SourceFile>) -> Result<Vec<LocatedWarning>, LocatedError> {
    files.extend(exceptions());
    check_compile_with_warnings(&files, &files, &Vec::new(), &prelude(), &NativeClasses::new())
}

fn message(files: Vec<SourceFile>) -> String {
    check(files).unwrap_err().message()
}

/// The message on a program of one class `A` with one method `f` of this body,
/// without its place.
fn in_body(params: Vec<Param>, return_type: Type, body: Vec<Stmt>) -> String {
    let a = class("A", Vec::new(), vec![method("f", params, return_type, body)]);
    check(vec![one(a)]).unwrap_err().error.message()
}

fn passes(params: Vec<Param>, return_type: Type, body: Vec<Stmt>) {
    let a = class("A", Vec::new(), vec![method("f", params, return_type, body)]);
    assert!(check(vec![one(a)]).is_ok());
}

fn at(line: u32, kind: StmtKind) -> Stmt {
    Stmt { kind, line }
}

fn name(s: &str) -> Expr {
    Expr::Ident(s.to_string())
}

fn num(v: i64) -> Expr {
    Expr::IntLit(v)
}

fn text(s: &str) -> Expr {
    Expr::StringLit(s.to_string())
}

fn named(s: &str) -> Type {
    Type::Named(s.to_string())
}

fn nullable(t: Type) -> Type {
    Type::Union(vec![t, Type::NullT])
}

fn var(n: &str, ty: Type, init: Option<Expr>) -> Stmt {
    at(4, StmtKind::VarDecl { ty: Some(ty), name: n.to_string(), init, is_const: false })
}

fn constant(n: &str, ty: Type, init: Expr) -> Stmt {
    at(4, StmtKind::VarDecl { ty: Some(ty), name: n.to_string(), init: Some(init), is_const: true })
}

fn run(e: Expr) -> Stmt {
    at(5, StmtKind::Expr(e))
}

fn give(e: Expr) -> Stmt {
    at(6, StmtKind::Return(Some(e)))
}

fn set(n: &str, e: Expr) -> Stmt {
    run(Expr::Assign(LValue::Local(n.to_string()), Box::new(e)))
}

fn set_field(target: Expr, n: &str, e: Expr) -> Stmt {
    run(Expr::Assign(LValue::Field(Box::new(target), n.to_string()), Box::new(e)))
}

fn binary(op: BinOp, a: Expr, b: Expr) -> Expr {
    Expr::Binary(op, Box::new(a), Box::new(b))
}

fn arg(value: Expr) -> Arg {
    Arg { name: None, value, is_ref: false }
}

fn given(n: &str, value: Expr) -> Arg {
    Arg { name: Some(n.to_string()), value, is_ref: false }
}

fn call(n: &str, args: Vec<Arg>) -> Expr {
    Expr::Call(n.to_string(), args)
}

fn invoke(target: Expr, n: &str, args: Vec<Arg>) -> Expr {
    Expr::MethodCall(Box::new(target), n.to_string(), args)
}

fn fresh(n: &str, args: Vec<Arg>) -> Expr {
    Expr::New(n.to_string(), Vec::new(), args)
}

fn when(cond: Expr, then_branch: Vec<Stmt>, else_branch: Option<Vec<Stmt>>) -> Stmt {
    at(5, StmtKind::If { cond, then_branch, else_branch })
}

fn catch(ty: &str, body: Vec<Stmt>) -> CatchClause {
    CatchClause { ty: ty.to_string(), var: "e".to_string(), body }
}

fn attempt(body: Vec<Stmt>, catches: Vec<CatchClause>) -> Stmt {
    at(5, StmtKind::Try { body, catches, finally: None })
}

fn throw(n: &str) -> Stmt {
    at(5, StmtKind::Throw(fresh(n, Vec::new())))
}

/// A static method `g` with these parameters, and `f`, which runs `body`.
fn calling(params: Vec<Param>, body: Vec<Stmt>) -> Result<Vec<LocatedWarning>, LocatedError> {
    let g = fixed(method("g", params, Type::Void, Vec::new()));
    let f = fixed(method("f", Vec::new(), Type::Void, body));
    check(vec![one(class("A", Vec::new(), vec![g, f]))])
}

fn calling_error(params: Vec<Param>, args: Vec<Arg>) -> String {
    calling(params, vec![run(call("g", args))]).unwrap_err().error.message()
}

#[test]
fn error_is_located_at_its_statement() {
    let a = class(
        "A",
        Vec::new(),
        vec![method("f", Vec::new(), Type::Void, vec![var("x", Type::Int, Some(text("s")))])],
    );
    let e = check(vec![one(a)]).unwrap_err();
    assert_eq!(e.file, "A.nl");
    assert_eq!(e.line, 4);
    assert_eq!(e.code(), "E004");
    assert_eq!(
        e.message(),
        "A.nl:4: E004 \u{2014} Type 'string' is not assignable to 'int'"
    );
}

#[test]
fn variable_is_read_only_once_assigned() {
    let body = vec![var("x", Type::Int, None), give(name("x"))];
    assert_eq!(
        in_body(Vec::new(), Type::Int, body),
        "E001 \u{2014} Variable 'x' may not have been initialized"
    );
    passes(Vec::new(), Type::Int, vec![var("x", Type::Int, None), set("x", num(1)), give(name("x"))]);
}

#[test]
fn branches_must_both_assign() {
    let p = || vec![param("b", Type::Bool)];
    let one_sided = vec![
        var("x", Type::Int, None),
        when(name("b"), vec![set("x", num(1))], None),
        give(name("x")),
    ];
    assert!(in_body(p(), Type::Int, one_sided).starts_with("E001"));
    passes(
        p(),
        Type::Int,
        vec![
            var("x", Type::Int, None),
            when(name("b"), vec![set("x", num(1))], Some(vec![set("x", num(2))])),
            give(name("x")),
        ],
    );
    passes(
        p(),
        Type::Int,
        vec![
            var("x", Type::Int, None),
            when(name("b"), vec![set("x", num(1))], Some(vec![give(num(0))])),
            give(name("x")),
        ],
    );
}

#[test]
fn field_without_value_is_refused() {
    let parts = || vec![field("p", named("Part"), None), field("n", Type::Int, None)];
    let part = || one(class("Part", Vec::new(), Vec::new()));
    let stored = || set_field(Expr::This, "p", fresh("Part", Vec::new()));
    let with = |ctors: Vec<MethodDecl>| check(vec![part(), one(class("A", parts(), ctors))]);
    assert_eq!(
        with(vec![ctor(Vec::new(), Vec::new())]).unwrap_err().message(),
        "A.nl:2: E002 \u{2014} Property 'p' of non-nullable type 't.Part' is not initialized in constructor"
    );
    assert_eq!(with(Vec::new()).unwrap_err().code(), "E002");
    assert!(with(vec![ctor(Vec::new(), vec![stored()])]).is_ok());
    let b = || vec![param("b", Type::Bool)];
    let one_sided = ctor(b(), vec![when(name("b"), vec![stored()], None)]);
    assert_eq!(with(vec![one_sided]).unwrap_err().code(), "E002");
    let both = ctor(b(), vec![when(name("b"), vec![stored()], Some(vec![stored()]))]);
    assert!(with(vec![both]).is_ok());
}

#[test]
fn null_needs_a_nullable_type() {
    assert_eq!(
        in_body(Vec::new(), Type::Void, vec![var("x", Type::StringT, Some(Expr::NullLit))]),
        "E003 \u{2014} Cannot assign 'null' to type 'string' (type does not include null)"
    );
    passes(Vec::new(), Type::Void, vec![var("x", nullable(Type::StringT), Some(Expr::NullLit))]);
}

#[test]
fn numbers_widen_but_do_not_narrow() {
    passes(Vec::new(), Type::Void, vec![var("x", Type::Float, Some(num(1)))]);
    let bits = 1.5f64.to_bits();
    assert!(in_body(Vec::new(), Type::Void, vec![var("x", Type::Int, Some(Expr::FloatLit(bits)))])
        .starts_with("E004"));
}

#[test]
fn auto_needs_a_value() {
    let bare = at(
        4,
        StmtKind::VarDecl { ty: None, name: "x".to_string(), init: None, is_const: false },
    );
    assert_eq!(
        in_body(Vec::new(), Type::Void, vec![bare]),
        "E005 \u{2014} Cannot use 'auto' without an initializer"
    );
    let from = at(
        4,
        StmtKind::VarDecl { ty: None, name: "x".to_string(), init: Some(num(3)), is_const: false },
    );
    passes(Vec::new(), Type::Int, vec![from, give(name("x"))]);
}

#[test]
fn casts_are_between_related_types() {
    let cast = |t: Type, e: Expr| run(Expr::Cast(t, Box::new(e)));
    assert_eq!(
        in_body(Vec::new(), Type::Void, vec![cast(Type::Bool, num(1))]),
        "E007 \u{2014} Cannot cast 'int' to 'bool'"
    );
    passes(Vec::new(), Type::Void, vec![cast(Type::Float, num(1)), cast(Type::Int, num(1))]);
}

#[test]
fn concatenation_needs_a_stringable() {
    assert_eq!(
        in_body(
            vec![param("xs", Type::Array(Box::new(Type::Int)))],
            Type::Void,
            vec![run(binary(BinOp::Add, text("s"), name("xs")))]
        ),
        "E008 \u{2014} Cannot concatenate 'string' with type 'int[]' (type does not implement Stringable)"
    );
    passes(Vec::new(), Type::StringT, vec![give(binary(BinOp::Add, text("s"), num(1)))]);
}

#[test]
fn operators_need_their_operands() {
    assert_eq!(
        in_body(Vec::new(), Type::Void, vec![run(binary(BinOp::Sub, text("s"), num(1)))]),
        "E009 \u{2014} Operator '-' is not defined for types 'string' and 'int'"
    );
    assert_eq!(
        in_body(
            Vec::new(),
            Type::Void,
            vec![run(Expr::Unary(UnOp::Neg, Box::new(Expr::BoolLit(true))))]
        ),
        "E009 \u{2014} Operator '-' is not defined for type 'bool'"
    );
}

#[test]
fn template_operator_error_names_the_template() {
    let a = class(
        "Box<string>",
        Vec::new(),
        vec![method(
            "f",
            vec![param("s", Type::StringT)],
            Type::Void,
            vec![run(binary(BinOp::Sub, name("s"), name("s")))],
        )],
    );
    let e = check(vec![one(a)]).unwrap_err();
    assert_eq!(e.code(), "E006");
    assert!(matches!(e.error, SemaError::TemplateOperatorUnsupported(_, _, _)));
}

#[test]
fn const_method_does_not_write() {
    let mut f = method("f", Vec::new(), Type::Void, vec![set_field(Expr::This, "n", num(1))]);
    f.is_const = true;
    let a = class("A", vec![field("n", Type::Int, Some(num(0)))], vec![f]);
    assert_eq!(
        message(vec![one(a)]),
        "A.nl:5: E010 \u{2014} Cannot modify property 'n' in a const method"
    );
}

#[test]
fn const_method_calls_const_methods_only() {
    let g = method("g", Vec::new(), Type::Void, Vec::new());
    let mut f = method("f", Vec::new(), Type::Void, vec![run(invoke(Expr::This, "g", Vec::new()))]);
    f.is_const = true;
    assert_eq!(
        message(vec![one(class("A", Vec::new(), vec![g, f]))]),
        "A.nl:5: E011 \u{2014} Cannot call non-const method 'g' in a const method"
    );
}

#[test]
fn const_variable_is_not_modified() {
    assert_eq!(
        in_body(
            Vec::new(),
            Type::Void,
            vec![constant("x", Type::Int, num(1)), set("x", num(2))]
        ),
        "E012 \u{2014} Cannot modify const variable 'x'"
    );
    assert_eq!(
        in_body(
            Vec::new(),
            Type::Void,
            vec![constant("x", Type::Int, num(1)), run(Expr::PostIncr("x".to_string()))]
        ),
        "E012 \u{2014} Cannot modify const variable 'x'"
    );
}

#[test]
fn readonly_class_is_not_modified() {
    let mut a = class(
        "A",
        vec![field("n", Type::Int, Some(num(0)))],
        vec![method("f", Vec::new(), Type::Void, vec![set_field(Expr::This, "n", num(1))])],
    );
    a.is_readonly = true;
    let e = check(vec![one(a)]).unwrap_err();
    assert_eq!(e.code(), "E013");
}

#[test]
fn readonly_property_is_not_modified() {
    let mut n = field("n", Type::Int, Some(num(0)));
    n.readonly = true;
    let a = class(
        "A",
        vec![n],
        vec![method("f", Vec::new(), Type::Void, vec![set_field(Expr::This, "n", num(1))])],
    );
    assert_eq!(
        message(vec![one(a)]),
        "A.nl:5: E014 \u{2014} Cannot modify readonly property 'n'"
    );
    let mut n = field("n", Type::Int, None);
    n.readonly = true;
    let set_it = ctor(Vec::new(), vec![set_field(Expr::This, "n", num(1))]);
    assert!(check(vec![one(class("A", vec![n], vec![set_it]))]).is_ok());
}

#[test]
fn checked_exception_is_caught_or_declared() {
    assert_eq!(
        in_body(Vec::new(), Type::Void, vec![throw("Exception")]),
        "E015 \u{2014} Unhandled checked exception 'Exception' \u{2014} must be caught or declared in 'throws'"
    );
    passes(Vec::new(), Type::Void, vec![throw("RuntimeException")]);
    passes(
        Vec::new(),
        Type::Void,
        vec![attempt(vec![throw("Exception")], vec![catch("Exception", Vec::new())])],
    );
    let f = throwing(
        method("f", Vec::new(), Type::Void, vec![throw("Exception")]),
        &["Exception"],
    );
    assert!(check(vec![one(class("A", Vec::new(), vec![f]))]).is_ok());
}

#[test]
fn override_keeps_the_declared_exceptions() {
    let own = || one(child("Mine", "Exception", Vec::new()));
    let parent = |throws: &[&str]| {
        one(class(
            "P",
            Vec::new(),
            vec![throwing(method("f", Vec::new(), Type::Void, Vec::new()), throws)],
        ))
    };
    let c = |throws: &[&str]| {
        one(child(
            "C",
            "P",
            vec![throwing(method("f", Vec::new(), Type::Void, Vec::new()), throws)],
        ))
    };
    assert_eq!(
        message(vec![own(), parent(&["Mine"]), c(&[])]),
        "C.nl:3: E016 \u{2014} Overriding method 'f' does not declare exception 't.Mine' from parent method"
    );
    assert_eq!(
        message(vec![own(), parent(&[]), c(&["Mine"])]),
        "C.nl:3: E017 \u{2014} Overriding method 'f' declares exception 't.Mine' not thrown by parent method"
    );
    assert!(check(vec![own(), parent(&["Mine"]), c(&["Mine"])]).is_ok());
}

#[test]
fn private_member_is_not_accessible() {
    let mut secret = method("secret", Vec::new(), Type::Void, Vec::new());
    secret.visibility = Visibility::Private;
    let a = one(class("A", Vec::new(), vec![secret]));
    let b = one(class(
        "B",
        Vec::new(),
        vec![method(
            "f",
            vec![param("a", named("A"))],
            Type::Void,
            vec![run(invoke(name("a"), "secret", Vec::new()))],
        )],
    ));
    assert_eq!(
        message(vec![a, b]),
        "B.nl:5: E018 \u{2014} Member 'secret' is not accessible from 't.B' (visibility: private)"
    );
}

#[test]
fn visibility_is_written_out() {
    let mut f = method("f", Vec::new(), Type::Void, Vec::new());
    f.visibility_explicit = false;
    assert_eq!(
        message(vec![one(class("A", Vec::new(), vec![f]))]),
        "A.nl:2: E019 \u{2014} Missing visibility modifier on member 'f'"
    );
}

#[test]
fn ref_arguments_are_marked_variables() {
    let r = || {
        let mut p = param("r", Type::Int);
        p.is_ref = true;
        vec![p]
    };
    let by_ref = |value: Expr| Arg { name: None, value, is_ref: true };
    let e = calling(r(), vec![run(call("g", vec![by_ref(num(1))]))]).unwrap_err();
    assert_eq!(e.code(), "E020");
    let x = || var("x", Type::Int, Some(num(1)));
    let e = calling(r(), vec![x(), run(call("g", vec![arg(name("x"))]))]).unwrap_err();
    assert_eq!(e.code(), "E021");
    assert!(calling(r(), vec![x(), run(call("g", vec![by_ref(name("x"))]))]).is_ok());
}

#[test]
fn optional_parameter_is_not_ref() {
    let mut p = param("r", Type::Int);
    p.is_ref = true;
    p.default = Some(num(1));
    let f = method("f", vec![p], Type::Void, Vec::new());
    assert_eq!(
        message(vec![one(class("A", Vec::new(), vec![f]))]),
        "A.nl:3: E022 \u{2014} Optional parameters cannot be declared 'ref'"
    );
}

#[test]
fn default_is_constant() {
    let mut p = param("n", Type::Int);
    p.default = Some(call("g", Vec::new()));
    let e = check(vec![one(class(
        "A",
        Vec::new(),
        vec![method("f", vec![p], Type::Void, Vec::new())],
    ))])
    .unwrap_err();
    assert_eq!(e.code(), "E026");
}

#[test]
fn arguments_are_bound_once_and_completely() {
    let two = || vec![param("a", Type::Int), param("b", Type::Int)];
    assert_eq!(
        calling_error(two(), vec![arg(num(1))]),
        "E023 \u{2014} Required parameter 'b' not provided"
    );
    assert_eq!(
        calling_error(two(), vec![given("a", num(1)), arg(num(2))]),
        "E024 \u{2014} Positional argument after named argument"
    );
    assert_eq!(
        calling_error(two(), vec![arg(num(1)), given("a", num(2))]),
        "E025 \u{2014} Parameter 'a' provided both positionally and by name"
    );
    let ok = vec![run(call("g", vec![given("b", num(2)), given("a", num(1))]))];
    assert!(calling(two(), ok).is_ok());
}

fn main_method(return_type: Type) -> MethodDecl {
    fixed(method(
        "main",
        vec![param("args", Type::Array(Box::new(Type::StringT)))],
        return_type,
        vec![give(num(0))],
    ))
}

#[test]
fn program_has_one_entry_point() {
    let none = vec![one(class("A", Vec::new(), Vec::new()))];
    let e = check_entry_point(&none).unwrap_err();
    assert_eq!(e.message(), "E027 \u{2014} No 'main' method found");
    let two = vec![
        one(class("A", Vec::new(), vec![main_method(Type::Int)])),
        one(class("B", Vec::new(), vec![main_method(Type::Int)])),
    ];
    let e = check_entry_point(&two).unwrap_err();
    assert_eq!(e.message(), "A.nl:3: E028 \u{2014} Multiple 'main' methods found");
    let bad = vec![one(class("A", Vec::new(), vec![main_method(Type::Void)]))];
    let e = check_entry_point(&bad).unwrap_err();
    assert_eq!(
        e.message(),
        "A.nl:3: E029 \u{2014} 'main' method has incorrect signature (expected: public static int main(string[]))"
    );
    let good = vec![one(class("A", Vec::new(), vec![main_method(Type::Int)]))];
    assert!(check_entry_point(&good).is_ok());
}

#[test]
fn arrays_without_default_are_not_sized() {
    let made = |t: Type| run(Expr::NewArray(t, vec![Some(num(3))]));
    assert_eq!(
        in_body(Vec::new(), Type::Void, vec![made(named("A"))]),
        "E031 \u{2014} Cannot create array of non-nullable type 't.A' with fixed size (no default value)"
    );
    passes(Vec::new(), Type::Void, vec![made(Type::Int), made(nullable(named("A")))]);
}

#[test]
fn inner_array_sizes_are_not_skipped() {
    let e = Expr::NewArray(Type::Int, vec![Some(num(2)), None, Some(num(3))]);
    let a = class("A", Vec::new(), vec![method("f", Vec::new(), Type::Void, vec![run(e)])]);
    assert_eq!(check(vec![one(a)]).unwrap_err().code(), "E038");
}

#[test]
fn abstract_class_is_not_instantiated() {
    let mut a = class("A", Vec::new(), Vec::new());
    a.is_abstract = true;
    let b = class(
        "B",
        Vec::new(),
        vec![method("f", Vec::new(), Type::Void, vec![run(fresh("A", Vec::new()))])],
    );
    assert_eq!(
        message(vec![one(a), one(b)]),
        "B.nl:5: E032 \u{2014} Cannot instantiate abstract class 't.A'"
    );
}

#[test]
fn concrete_class_implements_every_method() {
    let parent = || {
        let mut f = method("f", Vec::new(), Type::Void, Vec::new());
        f.is_abstract = true;
        let mut a = class("A", Vec::new(), vec![f]);
        a.is_abstract = true;
        one(a)
    };
    let e = check(vec![parent(), one(child("B", "A", Vec::new()))]).unwrap_err();
    assert!(matches!(&e.error, SemaError::ClassMustBeAbstract(c, m) if c == "B" && m == "f"));
    assert_eq!((e.code(), e.line), ("E033", 2));
    let b = child("B", "A", vec![method("f", Vec::new(), Type::Void, Vec::new())]);
    assert!(check(vec![parent(), one(b)]).is_ok());
}

#[test]
fn abstract_method_has_no_body() {
    let mut f = method("f", Vec::new(), Type::Void, vec![run(num(1))]);
    f.is_abstract = true;
    let mut a = class("A", Vec::new(), vec![f]);
    a.is_abstract = true;
    assert_eq!(check(vec![one(a)]).unwrap_err().code(), "E034");
}

#[test]
fn final_is_not_extended_or_overridden() {
    let mut a = class("A", Vec::new(), Vec::new());
    a.is_final = true;
    let e = check(vec![one(a), one(child("B", "A", Vec::new()))]).unwrap_err();
    assert_eq!(e.message(), "B.nl:2: E035 \u{2014} Cannot extend final class 't.A'");
    let mut f = method("f", Vec::new(), Type::Void, Vec::new());
    f.is_final = true;
    let a = class("A", Vec::new(), vec![f]);
    let b = child("B", "A", vec![method("f", Vec::new(), Type::Void, Vec::new())]);
    assert_eq!(check(vec![one(a), one(b)]).unwrap_err().code(), "E036");
}

#[test]
fn abstract_and_final_exclude_each_other() {
    let mut a = class("A", Vec::new(), Vec::new());
    a.is_abstract = true;
    a.is_final = true;
    assert_eq!(check(vec![one(a)]).unwrap_err().code(), "E049");
}

#[test]
fn template_arguments_meet_their_bounds() {
    let mut pair = class("Pair", Vec::new(), Vec::new());
    pair.type_params =
        vec![TypeParam { name: "T".to_string(), bound: Some("Base".to_string()) }];
    let base = || one(class("Base", Vec::new(), Vec::new()));
    let good = || one(child("Good", "Base", Vec::new()));
    let other = || one(class("Other", Vec::new(), Vec::new()));
    let files = vec![base(), good(), other()];
    let sources = vec![one(pair), base(), good(), other()];
    let with = |arg: &str| {
        vec![Instantiation { template: "t.Pair".to_string(), args: vec![named(arg)] }]
    };
    let natives = NativeClasses::new();
    let e = check_compile(&files, &sources, &with("t.Other"), &prelude(), &natives).unwrap_err();
    assert_eq!(
        e.message(),
        "Pair.nl:2: E037 \u{2014} Type 't.Other' does not satisfy bound 't.Base' (required by template 't.Pair')"
    );
    assert!(check_compile(&files, &sources, &with("t.Good"), &prelude(), &natives).is_ok());
}

#[test]
fn loop_variable_of_a_const_collection_is_const() {
    let each = at(
        5,
        StmtKind::ForEach {
            ty: Some(Type::Int),
            var: "x".to_string(),
            iterable: name("xs"),
            body: vec![set("x", num(1))],
        },
    );
    let mut xs = param("xs", Type::Array(Box::new(Type::Int)));
    xs.is_const = true;
    assert_eq!(
        in_body(vec![xs], Type::Void, vec![each]),
        "E039 \u{2014} Cannot modify loop variable 'x' \u{2014} implicitly const when iterating over read-only collection"
    );
}

#[test]
fn static_method_has_no_this() {
    let f = fixed(method("f", Vec::new(), Type::Void, vec![run(Expr::This)]));
    assert_eq!(
        message(vec![one(class("A", Vec::new(), vec![f]))]),
        "A.nl:5: E040 \u{2014} Cannot use 'this' in a static context"
    );
}

#[test]
fn methods_differ_in_signature() {
    let f = |t: Type| method("f", vec![param("p", t)], Type::Void, Vec::new());
    assert_eq!(
        message(vec![one(class("A", Vec::new(), vec![f(Type::Int), f(Type::Int)]))]),
        "A.nl:2: E041 \u{2014} Duplicate method 'f' with identical signature in class 'A'"
    );
    let overloads = class("A", Vec::new(), vec![f(Type::Int), f(Type::StringT)]);
    assert!(check(vec![one(overloads)]).is_ok());
}

#[test]
fn classes_differ_in_name() {
    let a = || one(class("A", Vec::new(), Vec::new()));
    assert_eq!(message(vec![a(), a()]), "A.nl:2: E042 \u{2014} Duplicate class definition 't.A'");
}

#[test]
fn imports_differ_in_name() {
    let mut a = one(class("A", Vec::new(), Vec::new()));
    a.uses = vec![
        UseDecl { path: "u.X".to_string(), alias: None },
        UseDecl { path: "v.X".to_string(), alias: None },
    ];
    assert_eq!(
        check(vec![a]).unwrap_err().error.message(),
        "E043 \u{2014} Import creates duplicate symbol 'X'"
    );
}

#[test]
fn const_interface_method_is_implemented_const() {
    let mut b = class("B", Vec::new(), vec![method("f", Vec::new(), Type::Void, Vec::new())]);
    b.implements = vec!["I".to_string()];
    let e = check(vec![interface("I", vec![sig("f", true)]), one(b)]).unwrap_err();
    assert_eq!(
        e.error.message(),
        "E044 \u{2014} Method 'f' implementing interface 't.I' must be declared const"
    );
}

#[test]
fn delegation_comes_first_and_ends() {
    let this_call = |args: Vec<Arg>| at(5, StmtKind::ThisCall(args));
    let late = class(
        "A",
        Vec::new(),
        vec![
            ctor(Vec::new(), vec![run(num(1)), this_call(vec![arg(num(1))])]),
            ctor(vec![param("n", Type::Int)], Vec::new()),
        ],
    );
    assert_eq!(check(vec![one(late)]).unwrap_err().code(), "E045");
    let round = class(
        "A",
        Vec::new(),
        vec![
            ctor(Vec::new(), vec![this_call(vec![arg(num(1))])]),
            ctor(vec![param("n", Type::Int)], vec![this_call(Vec::new())]),
        ],
    );
    assert_eq!(
        check(vec![one(round)]).unwrap_err().error.message(),
        "E046 \u{2014} Constructor delegation cycle in class 'A'"
    );
    let good = class(
        "A",
        Vec::new(),
        vec![
            ctor(Vec::new(), vec![this_call(vec![arg(num(1))])]),
            ctor(vec![param("n", Type::Int)], Vec::new()),
        ],
    );
    assert!(check(vec![one(good)]).is_ok());
}

#[test]
fn match_covers_every_value() {
    let arm = |pattern: Option<Expr>, v: i64| MatchArm { pattern, value: num(v) };
    let m = |arms: Vec<MatchArm>| vec![give(Expr::Match(Box::new(name("b")), arms))];
    let p = || vec![param("b", Type::Bool)];
    let lone = vec![arm(Some(Expr::BoolLit(true)), 1)];
    assert!(in_body(p(), Type::Int, m(lone)).starts_with("E047"));
    let both = vec![arm(Some(Expr::BoolLit(true)), 1), arm(Some(Expr::BoolLit(false)), 0)];
    passes(p(), Type::Int, m(both));
    let rest = vec![arm(Some(Expr::BoolLit(true)), 1), arm(None, 0)];
    passes(p(), Type::Int, m(rest));
}

#[test]
fn catch_after_a_wider_one_is_unreachable() {
    let body = vec![attempt(
        vec![throw("Exception")],
        vec![catch("Exception", Vec::new()), catch("RuntimeException", Vec::new())],
    )];
    assert_eq!(
        in_body(Vec::new(), Type::Void, body),
        "E048 \u{2014} Unreachable catch clause: 'RuntimeException' is already caught by earlier clause 'Exception'"
    );
}

#[test]
fn every_error_has_its_code_and_message() {
    let s = |t: &str| t.to_string();
    let cases = vec![
        (
            SemaError::NotDefinitelyAssigned(s("p")),
            "E001",
            "E001 \u{2014} Variable 'p' may not have been initialized",
        ),
        (
            SemaError::NullToNonNullable(s("p")),
            "E003",
            "E003 \u{2014} Cannot assign 'null' to type 'p' (type does not include null)",
        ),
        (
            SemaError::NotAssignable(s("p"), s("q")),
            "E004",
            "E004 \u{2014} Type 'p' is not assignable to 'q'",
        ),
        (
            SemaError::AutoWithoutInitializer,
            "E005",
            "E005 \u{2014} Cannot use 'auto' without an initializer",
        ),
        (
            SemaError::BadCast(s("p"), s("q")),
            "E007",
            "E007 \u{2014} Cannot cast 'p' to 'q'",
        ),
        (
            SemaError::BadConcatenation(s("p")),
            "E008",
            "E008 \u{2014} Cannot concatenate 'string' with type 'p' (type does not implement Stringable)",
        ),
        (
            SemaError::BadBinaryOperator(s("p"), s("q"), s("r")),
            "E009",
            "E009 \u{2014} Operator 'p' is not defined for types 'q' and 'r'",
        ),
        (
            SemaError::BadUnaryOperator(s("p"), s("q")),
            "E009",
            "E009 \u{2014} Operator 'p' is not defined for type 'q'",
        ),
        (
            SemaError::DuplicateMethod(s("p"), s("q")),
            "E041",
            "E041 \u{2014} Duplicate method 'p' with identical signature in class 'q'",
        ),
        (
            SemaError::DiamondInterfaceConflict(s("p"), s("q"), s("r"), s("s")),
            "E041",
            "E041 \u{2014} Method 'p' is inherited from both 'q' and 'r' with different return types (diamond merge in 's')",
        ),
        (
            SemaError::DuplicateClass(s("p")),
            "E042",
            "E042 \u{2014} Duplicate class definition 'p'",
        ),
        (
            SemaError::ThisCallNotFirst,
            "E045",
            "E045 \u{2014} 'this(...)' delegation call must be the first statement of the constructor",
        ),
        (
            SemaError::DelegationCycle(s("p")),
            "E046",
            "E046 \u{2014} Constructor delegation cycle in class 'p'",
        ),
        (
            SemaError::MatchNotExhaustive(s("p")),
            "E047",
            "E047 \u{2014} Match expression is not exhaustive (missing 'p')",
        ),
        (
            SemaError::UnreachableCatch(s("p"), s("q")),
            "E048",
            "E048 \u{2014} Unreachable catch clause: 'p' is already caught by earlier clause 'q'",
        ),
        (
            SemaError::UnhandledCheckedException(s("p")),
            "E015",
            "E015 \u{2014} Unhandled checked exception 'p' \u{2014} must be caught or declared in 'throws'",
        ),
        (
            SemaError::MissingThrowsInOverride(s("p"), s("q")),
            "E016",
            "E016 \u{2014} Overriding method 'p' does not declare exception 'q' from parent method",
        ),
        (
            SemaError::ExtraThrowsInOverride(s("p"), s("q")),
            "E017",
            "E017 \u{2014} Overriding method 'p' declares exception 'q' not thrown by parent method",
        ),
        (
            SemaError::NoMainMethod,
            "E027",
            "E027 \u{2014} No 'main' method found",
        ),
        (
            SemaError::MultipleMainMethods,
            "E028",
            "E028 \u{2014} Multiple 'main' methods found",
        ),
        (
            SemaError::BadMainSignature,
            "E029",
            "E029 \u{2014} 'main' method has incorrect signature (expected: public static int main(string[]))",
        ),
        (
            SemaError::StaticContextMisuse(s("p")),
            "E040",
            "E040 \u{2014} Cannot use 'p' in a static context",
        ),
        (
            SemaError::DuplicateImportSymbol(s("p")),
            "E043",
            "E043 \u{2014} Import creates duplicate symbol 'p'",
        ),
        (
            SemaError::NonNullableArrayFixedSize(s("p")),
            "E031",
            "E031 \u{2014} Cannot create array of non-nullable type 'p' with fixed size (no default value)",
        ),
        (
            SemaError::MemberNotAccessible(s("p"), s("q"), s("r")),
            "E018",
            "E018 \u{2014} Member 'p' is not accessible from 'q' (visibility: r)",
        ),
        (
            SemaError::MissingVisibilityModifier(s("p")),
            "E019",
            "E019 \u{2014} Missing visibility modifier on member 'p'",
        ),
        (
            SemaError::PropertyNotInitialized(s("p"), s("q")),
            "E002",
            "E002 \u{2014} Property 'p' of non-nullable type 'q' is not initialized in constructor",
        ),
        (
            SemaError::ConstMethodPropertyModification(s("p")),
            "E010",
            "E010 \u{2014} Cannot modify property 'p' in a const method",
        ),
        (
            SemaError::ConstMethodNonConstCall(s("p")),
            "E011",
            "E011 \u{2014} Cannot call non-const method 'p' in a const method",
        ),
        (
            SemaError::MethodMustBeConst(s("p"), s("q")),
            "E044",
            "E044 \u{2014} Method 'p' implementing interface 'q' must be declared const",
        ),
        (
            SemaError::ConstModification(s("p")),
            "E012",
            "E012 \u{2014} Cannot modify const variable 'p'",
        ),
        (
            SemaError::ConstLoopVariableModification(s("p")),
            "E039",
            "E039 \u{2014} Cannot modify loop variable 'p' \u{2014} implicitly const when iterating over read-only collection",
        ),
        (
            SemaError::TemplateBoundNotSatisfied(s("p"), s("q"), s("r")),
            "E037",
            "E037 \u{2014} Type 'p' does not satisfy bound 'q' (required by template 'r')",
        ),
        (
            SemaError::TemplateOperatorUnsupported(s("p"), s("q"), s("r")),
            "E006",
            "E006 \u{2014} Type 'p' does not support operator 'q' (required by template 'r')",
        ),
        (
            SemaError::ReadonlyClassModification(s("p"), s("q")),
            "E013",
            "E013 \u{2014} Cannot modify property 'p' of readonly class 'q'",
        ),
        (
            SemaError::ReadonlyPropertyModification(s("p")),
            "E014",
            "E014 \u{2014} Cannot modify readonly property 'p'",
        ),
        (
            SemaError::InstantiateAbstractClass(s("p")),
            "E032",
            "E032 \u{2014} Cannot instantiate abstract class 'p'",
        ),
        (
            SemaError::ClassMustBeAbstract(s("p"), s("q")),
            "E033",
            "E033 \u{2014} Class 'p' must be declared abstract (has unimplemented abstract method 'q')",
        ),
        (
            SemaError::AbstractMethodHasBody(s("p")),
            "E034",
            "E034 \u{2014} Abstract method 'p' cannot have a body",
        ),
        (
            SemaError::ExtendFinalClass(s("p")),
            "E035",
            "E035 \u{2014} Cannot extend final class 'p'",
        ),
        (
            SemaError::OverrideFinalMethod(s("p")),
            "E036",
            "E036 \u{2014} Cannot override final method 'p'",
        ),
        (
            SemaError::ConflictingModifiers(s("p")),
            "E049",
            "E049 \u{2014} Conflicting modifiers 'abstract' and 'final' on 'p'",
        ),
        (
            SemaError::NonContiguousArrayDimensionOmission(s("p")),
            "E038",
            "E038 \u{2014} Non-first dimension size omitted in middle position in 'p'",
        ),
        (
            SemaError::RequiredParamNotProvided(s("p")),
            "E023",
            "E023 \u{2014} Required parameter 'p' not provided",
        ),
        (
            SemaError::PositionalArgAfterNamed,
            "E024",
            "E024 \u{2014} Positional argument after named argument",
        ),
        (
            SemaError::ParamProvidedTwice(s("p")),
            "E025",
            "E025 \u{2014} Parameter 'p' provided both positionally and by name",
        ),
        (
            SemaError::DefaultNotConstant(s("p")),
            "E026",
            "E026 \u{2014} Default value for parameter 'p' must be a compile-time constant",
        ),
        (
            SemaError::RefArgNotVariable(s("p")),
            "E020",
            "E020 \u{2014} Argument for 'ref' parameter 'p' must be a variable",
        ),
        (
            SemaError::MissingRefKeyword(s("p")),
            "E021",
            "E021 \u{2014} Missing 'ref' keyword at call site for parameter 'p'",
        ),
        (
            SemaError::OptionalCannotBeRef,
            "E022",
            "E022 \u{2014} Optional parameters cannot be declared 'ref'",
        ),
    ];
    for (error, code, message) in cases {
        assert_eq!(error.code(), code);
        assert_eq!(error.message(), message);
    }
}

#[test]
fn discarded_result_is_warned_of() {
    let mut g = fixed(method("g", Vec::new(), Type::Int, vec![give(num(1))]));
    g.is_nodiscard = true;
    let f = fixed(method("f", Vec::new(), Type::Void, vec![run(call("g", Vec::new()))]));
    let ws = check(vec![one(class("A", Vec::new(), vec![g, f]))]).unwrap();
    assert_eq!(ws.len(), 1);
    let mut h = method("h", Vec::new(), Type::Int, vec![give(num(1))]);
    h.is_nodiscard = true;
    let f = method("f", Vec::new(), Type::Void, vec![run(invoke(Expr::This, "h", Vec::new()))]);
    let ws = check(vec![one(class("A", Vec::new(), vec![h, f]))]).unwrap();
    assert_eq!(ws.len(), 1);
    assert!(matches!(&ws[0].warning, SemaWarning::NodiscardDiscarded(n) if n == "h"));
    assert_eq!(ws[0].code(), "W001");
    assert_eq!(
        ws[0].message(),
        "A.nl:5: W001 \u{2014} Return value of nodiscard method 'h' is discarded"
    );
}

#[test]
fn null_test_narrows_a_variable() {
    let p = || vec![param("s", nullable(Type::StringT))];
    let not_null = || binary(BinOp::Ne, name("s"), Expr::NullLit);
    passes(
        p(),
        Type::Void,
        vec![when(not_null(), vec![var("t", Type::StringT, Some(name("s")))], None)],
    );
    let after = vec![when(not_null(), Vec::new(), None), var("t", Type::StringT, Some(name("s")))];
    assert!(in_body(p(), Type::Void, after).starts_with("E00"));
    let exits = vec![
        when(
            binary(BinOp::Eq, name("s"), Expr::NullLit),
            vec![at(5, StmtKind::Return(None))],
            None,
        ),
        var("t", Type::StringT, Some(name("s"))),
    ];
    passes(p(), Type::Void, exits);
}

#[test]
fn subclass_is_assignable_to_its_ancestor() {
    let files = |target: &str, value: &str| {
        vec![
            one(class("P", Vec::new(), Vec::new())),
            one(child("C", "P", Vec::new())),
            one(class(
                "A",
                Vec::new(),
                vec![method(
                    "f",
                    vec![param("v", named(value))],
                    Type::Void,
                    vec![var("x", named(target), Some(name("v")))],
                )],
            )),
        ]
    };
    assert!(check(files("P", "C")).is_ok());
    assert!(check(files("C", "C")).is_ok());
    assert_eq!(
        check(files("C", "P")).unwrap_err().error.message(),
        "E004 \u{2014} Type 't.P' is not assignable to 't.C'"
    );
}

#[test]
fn closure_body_is_checked() {
    let closure = |body: ClosureBody| {
        run(Expr::Closure {
            params: vec![param("n", Type::Int)],
            return_type: Some(Type::Int),
            throws: Vec::new(),
            body,
        })
    };
    let value = |e: Expr| vec![closure(ClosureBody::Expr(Box::new(e)))];
    let block = |e: Expr| vec![closure(ClosureBody::Block(vec![give(e)]))];
    passes(Vec::new(), Type::Void, value(binary(BinOp::Add, name("n"), num(1))));
    let bad = binary(BinOp::Sub, name("n"), text("s"));
    assert!(in_body(Vec::new(), Type::Void, value(bad)).starts_with("E009"));
    passes(Vec::new(), Type::Void, block(name("n")));
    assert!(in_body(Vec::new(), Type::Void, block(text("s"))).starts_with("E004"));
}

#[test]
fn repeated_literal_arm_is_unreachable() {
    let m = |subject: Type, a: Expr, b: Expr| {
        let arm = |pattern: Option<Expr>, v: i64| MatchArm { pattern, value: num(v) };
        let arms = vec![arm(Some(a), 1), arm(Some(b), 2), arm(None, 3)];
        let f = method(
            "f",
            vec![param("x", subject)],
            Type::Int,
            vec![give(Expr::Match(Box::new(name("x")), arms))],
        );
        check(vec![one(class("A", Vec::new(), vec![f]))])
    };
    let float = |v: f64| Expr::FloatLit(v.to_bits());
    let twice = m(Type::Float, float(1.5), float(1.5)).unwrap_err();
    assert_eq!(
        twice.error.message(),
        "E047 \u{2014} Match expression is not exhaustive (missing 'unreachable duplicate arm')"
    );
    assert_eq!(m(Type::Float, float(0.0), float(-0.0)).unwrap_err().code(), "E047");
    assert!(m(Type::Float, float(1.5), float(2.5)).is_ok());
    assert!(m(Type::Float, float(f64::NAN), float(f64::NAN)).is_ok());
    assert!(m(Type::Float, float(1.0), num(1)).is_ok());
    let optional = nullable(Type::Int);
    assert_eq!(m(optional, Expr::NullLit, Expr::NullLit).unwrap_err().code(), "E047");
    assert_eq!(m(Type::Int, num(1), num(1)).unwrap_err().code(), "E047");
    assert_eq!(m(Type::StringT, text("a"), text("a")).unwrap_err().code(), "E047");
    assert!(m(Type::StringT, text("a"), text("b")).is_ok());
}

#[test]
fn const_method_of_an_inherited_interface_is_implemented_const() {
    let mut j = interface("J", Vec::new());
    if let SourceItem::Interface(decl) = &mut j.item {
        decl.extends = vec!["I".to_string()];
    }
    let mut c = class("C", Vec::new(), vec![method("m", Vec::new(), Type::Void, Vec::new())]);
    c.implements = vec!["J".to_string()];
    let e = check(vec![interface("I", vec![sig("m", true)]), j, one(c)]).unwrap_err();
    assert_eq!(
        e.error.message(),
        "E044 \u{2014} Method 'm' implementing interface 't.I' must be declared const"
    );
}

#[test]
fn bare_call_means_the_overload_that_fits() {
    let g = |t: Type, ret: Type, body: Vec<Stmt>| {
        fixed(method("g", vec![param("x", t)], ret, body))
    };
    let with = |body: Vec<Stmt>| {
        check(vec![one(class(
            "A",
            Vec::new(),
            vec![
                g(Type::Int, Type::Int, vec![give(num(1))]),
                g(Type::StringT, Type::StringT, vec![give(name("x"))]),
                fixed(method("f", Vec::new(), Type::Void, body)),
            ],
        ))])
    };
    assert!(with(vec![run(call("g", vec![arg(num(1))]))]).is_ok());
    assert!(with(vec![run(call("g", vec![arg(text("s"))]))]).is_ok());
    assert!(with(vec![var("n", Type::Int, Some(call("g", vec![arg(num(1))])))]).is_ok());
    let wrong = with(vec![var("n", Type::Int, Some(call("g", vec![arg(text("s"))])))]);
    assert_eq!(wrong.unwrap_err().code(), "E004");
    assert_eq!(with(vec![run(call("g", Vec::new()))]).unwrap_err().code(), "E023");
    let neither = with(vec![run(call("g", vec![arg(Expr::BoolLit(true))]))]);
    assert_eq!(neither.unwrap_err().code(), "E004");
}

#[test]
fn call_means_the_overload_that_fits() {
    let p = |t: Type| vec![param("x", t)];
    let hidden = |mut m: MethodDecl| {
        m.visibility = Visibility::Private;
        m
    };
    let b = || {
        class(
            "B",
            Vec::new(),
            vec![
                ctor(p(Type::Int), Vec::new()),
                hidden(ctor(p(Type::StringT), Vec::new())),
                method("g", p(Type::Int), Type::Int, vec![give(num(1))]),
                method("g", p(Type::StringT), Type::StringT, vec![give(name("x"))]),
                fixed(method("h", p(Type::Int), Type::Int, vec![give(num(1))])),
                fixed(method("h", p(Type::StringT), Type::StringT, vec![give(name("x"))])),
            ],
        )
    };
    let with = |body: Vec<Stmt>| {
        let f = method("f", vec![param("b", named("B"))], Type::Void, body);
        check(vec![one(b()), one(class("A", Vec::new(), vec![f]))])
    };
    assert!(with(vec![run(fresh("B", vec![arg(num(1))]))]).is_ok());
    assert_eq!(with(vec![run(fresh("B", vec![arg(text("s"))]))]).unwrap_err().code(), "E018");
    let typed = |t: Type, e: Expr| with(vec![var("y", t, Some(e))]);
    let g = |e: Expr| invoke(name("b"), "g", vec![arg(e)]);
    assert!(typed(Type::Int, g(num(1))).is_ok());
    assert!(typed(Type::StringT, g(text("s"))).is_ok());
    assert_eq!(typed(Type::Int, g(text("s"))).unwrap_err().code(), "E004");
    let h = |e: Expr| invoke(name("B"), "h", vec![arg(e)]);
    assert!(typed(Type::StringT, h(text("s"))).is_ok());
    assert_eq!(typed(Type::StringT, h(num(1))).unwrap_err().code(), "E004");
    assert!(typed(Type::Int, invoke(name("b"), "g", vec![given("x", text("s"))])).is_ok());
}

#[test]
fn delegation_means_the_overload_that_fits() {
    let by_ref = |t: Type| {
        let mut p = param("x", t);
        p.is_ref = true;
        vec![p]
    };
    let b = || {
        class(
            "B",
            Vec::new(),
            vec![
                ctor(by_ref(Type::Int), Vec::new()),
                ctor(vec![param("x", Type::StringT)], Vec::new()),
            ],
        )
    };
    let child_of_b = |e: Expr| {
        let body = vec![at(5, StmtKind::SuperCall(vec![arg(e)]))];
        check(vec![one(b()), one(child("C", "B", vec![ctor(Vec::new(), body)]))])
    };
    assert!(child_of_b(text("s")).is_ok());
    assert_eq!(child_of_b(num(1)).unwrap_err().code(), "E021");
    let own = |e: Expr| {
        let mut c = b();
        c.methods.push(ctor(Vec::new(), vec![at(5, StmtKind::ThisCall(vec![arg(e)]))]));
        check(vec![one(c)])
    };
    assert!(own(text("s")).is_ok());
    assert_eq!(own(num(1)).unwrap_err().code(), "E021");
}

#[test]
fn environment_and_time_are_typed() {
    let system = || Expr::FieldAccess(Box::new(name("system")), "Env".to_string());
    let time = |class: &str| {
        Expr::FieldAccess(
            Box::new(Expr::FieldAccess(Box::new(name("system")), "time".to_string())),
            class.to_string(),
        )
    };
    let wrong = var("n", Type::Int, Some(invoke(system(), "get", vec![arg(text("HOME"))])));
    assert!(in_body(Vec::new(), Type::Void, vec![wrong]).starts_with("E0"));
    let right = var("s", nullable(Type::StringT), Some(invoke(system(), "get", vec![arg(text("H"))])));
    passes(Vec::new(), Type::Void, vec![right]);
    let bad_arg = run(invoke(system(), "remove", vec![arg(num(1))]));
    assert!(in_body(Vec::new(), Type::Void, vec![bad_arg]).starts_with("E004"));
    let now = || invoke(time("DateTime"), "now", Vec::new());
    let year = |t: Type| var("y", t, Some(invoke(now(), "getYear", Vec::new())));
    passes(Vec::new(), Type::Void, vec![year(Type::Int)]);
    assert!(in_body(Vec::new(), Type::Void, vec![year(Type::StringT)]).starts_with("E004"));
}

#[test]
fn codes_are_shared_only_by_kindred_errors() {
    let s = |t: &str| t.to_string();
    assert_eq!(
        SemaError::BadBinaryOperator(s("+"), s("a"), s("b")).code(),
        SemaError::BadUnaryOperator(s("-"), s("c")).code()
    );
    assert_eq!(
        SemaError::DuplicateMethod(s("m"), s("A")).code(),
        SemaError::DiamondInterfaceConflict(s("n"), s("I"), s("J"), s("K")).code()
    );
    assert_ne!(SemaError::NoMainMethod.code(), SemaError::MultipleMainMethods.code());
    let e = SemaError::NotAssignable(s("a"), s("b"));
    assert!(e.message().starts_with(&format!("{} \u{2014} ", e.code())));
}

#[test]
fn operator_errors_are_relabelled_in_templates_only() {
    let s = |t: &str| t.to_string();
    let missing = || SemaError::BadBinaryOperator(s("+"), s("int"), s("t.A"));
    assert_eq!(
        relabel_template_operator_error(missing(), "t.Box<t.A>"),
        SemaError::TemplateOperatorUnsupported(s("t.A"), s("+"), s("t.Box"))
    );
    assert_eq!(relabel_template_operator_error(missing(), "t.Box"), missing());
    let once = relabel_template_operator_error(missing(), "t.Box<t.A>");
    assert_eq!(relabel_template_operator_error(once.clone(), "t.Box<t.A>"), once);
    assert_eq!(
        relabel_template_operator_error(SemaError::NoMainMethod, "t.Box<t.A>"),
        SemaError::NoMainMethod
    );
    assert!(is_primitive_display("int") && is_primitive_display("null"));
    assert!(!is_primitive_display("int[]") && !is_primitive_display("t.A"));
}

#[test]
fn object_is_cast_to_an_inherited_interface() {
    let files = |from: &str, to: &str| {
        let cast = Expr::Cast(named(to), Box::new(name("x")));
        let f = method("f", vec![param("x", named(from))], Type::Void, vec![run(cast)]);
        vec![
            interface("I", Vec::new()),
            interface("Other", Vec::new()),
            one(child("B", "A", Vec::new())),
            one(class("C", Vec::new(), vec![f])),
        ]
    };
    let with = |from: &str, to: &str| {
        let mut all = files(from, to);
        let mut j = interface("J", Vec::new());
        if let SourceItem::Interface(decl) = &mut j.item {
            decl.extends = vec!["I".to_string()];
        }
        let mut a = class("A", Vec::new(), Vec::new());
        a.implements = vec!["J".to_string()];
        all.push(j);
        all.push(one(a));
        check(all)
    };
    assert!(with("B", "I").is_ok() && with("I", "B").is_ok());
    assert!(with("B", "A").is_ok() && with("J", "I").is_ok());
    assert_eq!(with("B", "Other").unwrap_err().code(), "E007");
}
