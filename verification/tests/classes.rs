use nlvm::ast::{
    ClassDecl, Expr, FieldDecl, InterfaceDecl, MethodDecl, MethodKind, Param, SourceFile,
    SourceItem, Type, UseDecl, Visibility,
};
use nlvm::class_table::{
    arity_in_range, best_overload, build_class_table, find_ctor_overload, find_field,
    find_field_owner, find_method, find_method_exact, find_method_owner,
    find_method_owner_overload, find_operator_method, implements_interface, interface_closure,
    is_accessible, is_subclass_or_same, required_count, satisfies_bound,
};
use nlvm::names::{IdMap, IdSet, NameMap, NameSet};
use nlvm::resolve::{
    dotted_path, fqcn_of, import_map, resolve_name, resolve_type, substitute_self, Prelude,
};
use nlvm::sema::class_rules::is_checked_exception;
use nlvm::sema::types::{
    debug, display, is_assignable, is_nullable, numeric_rank, strip_null, widen_numeric,
};
use nlvm::text::{decimal, head, hex, join, starts_with, str_eq, tail};

fn class(name: &str, extends: Option<&str>, implements: &[&str]) -> ClassDecl {
    ClassDecl {
        name: name.to_string(),
        type_params: Vec::new(),
        extends: extends.map(|s| s.to_string()),
        implements: implements.iter().map(|s| s.to_string()).collect(),
        fields: Vec::new(),
        methods: Vec::new(),
        is_readonly: false,
        is_abstract: false,
        is_final: false,
        is_enum: false,
        enum_cases: Vec::new(),
        decl_line: 1,
    }
}

fn method(name: &str, params: Vec<Type>, kind: MethodKind) -> MethodDecl {
    MethodDecl {
        name: name.to_string(),
        kind,
        visibility: Visibility::Public,
        visibility_explicit: true,
        is_static: false,
        is_const: false,
        is_abstract: false,
        is_final: false,
        is_nodiscard: false,
        return_type: Type::Void,
        params: params.into_iter().map(|ty| param("p", ty)).collect(),
        throws: Vec::new(),
        body: Vec::new(),
        decl_line: 1,
    }
}

fn normal(name: &str, params: Vec<Type>) -> MethodDecl {
    method(name, params, MethodKind::Normal)
}

fn param(name: &str, ty: Type) -> Param {
    Param { name: name.to_string(), ty, default: None, is_ref: false, is_const: false }
}

fn field(name: &str, ty: Type) -> FieldDecl {
    FieldDecl {
        name: name.to_string(),
        ty,
        init: None,
        visibility: Visibility::Protected,
        visibility_explicit: true,
        is_static: false,
        readonly: false,
    }
}

fn file(namespace: &[&str], item: SourceItem) -> SourceFile {
    SourceFile {
        path: String::new(),
        namespace: namespace.iter().map(|s| s.to_string()).collect(),
        uses: Vec::new(),
        item,
    }
}

fn in_t(c: ClassDecl) -> SourceFile {
    file(&["t"], SourceItem::Class(c))
}

fn interface(name: &str, extends: &[&str]) -> SourceFile {
    file(
        &["t"],
        SourceItem::Interface(InterfaceDecl {
            name: name.to_string(),
            extends: extends.iter().map(|s| s.to_string()).collect(),
            methods: Vec::new(),
            decl_line: 1,
        }),
    )
}

fn no_prelude() -> Prelude {
    Prelude { classes: Vec::new(), aliases: Vec::new() }
}

fn named(s: &str) -> Type {
    Type::Named(s.to_string())
}

fn nullable(t: Type) -> Type {
    Type::Union(vec![t, Type::NullT])
}

/// `A`, its subclass `B` and B's subclass `C`, which implements `I`.
fn family() -> Vec<SourceFile> {
    let mut a = class("A", None, &[]);
    a.fields = vec![field("n", Type::Int)];
    a.methods = vec![
        normal("f", vec![Type::Int]),
        normal("add", vec![named("A")]),
        method("construct", vec![], MethodKind::Constructor),
    ];
    let mut b = class("B", Some("A"), &[]);
    b.methods = vec![
        normal("f", vec![Type::StringT]),
        normal("f", vec![Type::Int, Type::Int]),
        method("construct", vec![Type::Int], MethodKind::Constructor),
        method("construct", vec![Type::StringT], MethodKind::Constructor),
    ];
    vec![
        in_t(a),
        in_t(b),
        in_t(class("C", Some("B"), &["I"])),
        interface("I", &["J"]),
        interface("J", &["K"]),
        interface("K", &[]),
    ]
}

#[test]
fn subclass_relation_follows_the_chain() {
    let files = family();
    let t = build_class_table(&files, &no_prelude());
    assert!(is_subclass_or_same(&t, "t.A", "t.A"));
    assert!(is_subclass_or_same(&t, "t.B", "t.A"));
    assert!(is_subclass_or_same(&t, "t.C", "t.A"));
    assert!(!is_subclass_or_same(&t, "t.A", "t.B"));
    assert!(is_subclass_or_same(&t, "unknown", "unknown"));
    assert!(!is_subclass_or_same(&t, "unknown", "t.A"));
}

#[test]
fn endless_chain_of_classes_is_left() {
    let files =
        vec![in_t(class("A", Some("B"), &[])), in_t(class("B", Some("A"), &[]))];
    let t = build_class_table(&files, &no_prelude());
    assert!(is_subclass_or_same(&t, "t.A", "t.B"));
    assert!(!is_subclass_or_same(&t, "t.A", "t.C"));
    assert!(find_method(&t, "t.A", "f", 0).is_none());
}

#[test]
fn interfaces_are_closed_under_extension() {
    let files = family();
    let t = build_class_table(&files, &no_prelude());
    let mut all = interface_closure(&t, &vec!["t.I".to_string()]);
    all.sort();
    assert_eq!(all, vec!["t.I", "t.J", "t.K"]);
    assert!(implements_interface(&t, "t.C", "t.K"));
    assert!(!implements_interface(&t, "t.B", "t.K"));
    assert!(satisfies_bound(&t, "t.C", "t.J"));
    assert!(satisfies_bound(&t, "t.C", "t.A"));
    assert!(!satisfies_bound(&t, "t.A", "t.C"));
}

#[test]
fn visibility_decides_access() {
    let files = family();
    let t = build_class_table(&files, &no_prelude());
    assert!(is_accessible(&t, Visibility::Public, "t.A", "x.Y"));
    assert!(is_accessible(&t, Visibility::Protected, "t.A", "t.C"));
    assert!(!is_accessible(&t, Visibility::Protected, "t.C", "t.A"));
    assert!(is_accessible(&t, Visibility::Private, "t.A", "t.A"));
    assert!(!is_accessible(&t, Visibility::Private, "t.A", "t.B"));
}

#[test]
fn nearest_method_is_found() {
    let files = family();
    let t = build_class_table(&files, &no_prelude());
    let (owner, m) = find_method_owner(&t, "t.C", "f", 1).unwrap();
    assert_eq!(owner, "t.B");
    assert_eq!(display(&m.params[0]), "string");
    assert_eq!(find_method_owner(&t, "t.C", "f", 2).unwrap().0, "t.B");
    assert_eq!(find_method_owner(&t, "t.C", "add", 1).unwrap().0, "t.A");
    assert!(find_method(&t, "t.C", "f", 3).is_none());
    let exact = find_method_exact(&t, "t.C", "f", &vec![Type::Int]).unwrap();
    assert_eq!(exact.params.len(), 1);
    assert!(find_method_exact(&t, "t.C", "f", &vec![Type::Bool]).is_none());
    let op = find_operator_method(&t, "t.B", "add", &vec![named("t.A")]);
    assert_eq!(op.unwrap().0, "t.A");
}

#[test]
fn overload_is_the_best_match() {
    let files = family();
    let t = build_class_table(&files, &no_prelude());
    let ints = vec![Type::Int];
    let floats = vec![Type::Float];
    let objects = vec![named("t.A")];
    let int_arg = vec![Some(Type::Int)];
    assert_eq!(best_overload(&t, &vec![&floats, &ints], &int_arg), Some(1));
    assert_eq!(best_overload(&t, &vec![&objects, &floats], &int_arg), Some(1));
    assert_eq!(best_overload(&t, &vec![&objects], &int_arg), Some(0));
    assert_eq!(best_overload(&t, &vec![&objects, &objects], &int_arg), Some(0));
    assert_eq!(best_overload(&t, &Vec::new(), &int_arg), None);
    let (owner, m) =
        find_method_owner_overload(&t, "t.B", "f", 1, &vec![Some(Type::StringT)]).unwrap();
    assert_eq!((owner.as_str(), m.params.len()), ("t.B", 1));
    let c = find_ctor_overload(&t, "t.B", 1, &vec![Some(Type::StringT)]).unwrap();
    assert_eq!(display(&c.params[0]), "string");
    let c = find_ctor_overload(&t, "t.B", 1, &vec![Some(Type::Int)]).unwrap();
    assert_eq!(display(&c.params[0]), "int");
}

#[test]
fn field_and_constructor_are_found() {
    let files = family();
    let t = build_class_table(&files, &no_prelude());
    let (owner, f) = find_field_owner(&t, "t.C", "n").unwrap();
    assert_eq!(owner, "t.A");
    assert_eq!(f.visibility, Visibility::Protected);
    assert!(find_field(&t, "t.C", "m").is_none());
    assert!(find_ctor_overload(&t, "t.A", 0, &Vec::new()).is_some());
    assert!(find_ctor_overload(&t, "t.A", 1, &vec![None]).is_none());
    assert_eq!(display(&find_ctor_overload(&t, "t.B", 1, &vec![None]).unwrap().params[0]), "int");
}

#[test]
fn arity_counts_leading_required_parameters() {
    let with_default = |name: &str| {
        let mut p = param(name, Type::Int);
        p.default = Some(Expr::IntLit(1));
        p
    };
    let params = vec![param("a", Type::Int), with_default("b"), with_default("c")];
    assert_eq!(required_count(&params), 1);
    assert!(!arity_in_range(1, 3, 0));
    assert!(arity_in_range(1, 3, 1));
    assert!(arity_in_range(1, 3, 3));
    assert!(!arity_in_range(1, 3, 4));
}

#[test]
fn runtime_exceptions_are_unchecked() {
    let files = vec![
        file(&[], SourceItem::Class(class("Exception", None, &[]))),
        file(&[], SourceItem::Class(class("RuntimeException", Some("Exception"), &[]))),
        file(&[], SourceItem::Class(class("IoError", Some("Exception"), &[]))),
        file(&[], SourceItem::Class(class("BadIndex", Some("RuntimeException"), &[]))),
        file(&[], SourceItem::Class(class("Other", None, &[]))),
    ];
    let t = build_class_table(&files, &no_prelude());
    assert!(is_checked_exception(&t, "Exception"));
    assert!(is_checked_exception(&t, "IoError"));
    assert!(!is_checked_exception(&t, "RuntimeException"));
    assert!(!is_checked_exception(&t, "BadIndex"));
    assert!(!is_checked_exception(&t, "Other"));
}

#[test]
fn names_are_resolved_by_precedence() {
    let prelude = Prelude {
        classes: vec!["Exception".to_string(), "B".to_string()],
        aliases: vec![("Err".to_string(), "Exception".to_string())],
    };
    let mut a = in_t(class("A", None, &[]));
    a.uses = vec![
        UseDecl { path: "u.X".to_string(), alias: None },
        UseDecl { path: "u.Y".to_string(), alias: Some("Why".to_string()) },
    ];
    let files = vec![a, in_t(class("B", None, &[])), file(&["v"], SourceItem::Class(class("Z", None, &[])))];
    let imports = import_map(&files[0], &files, &prelude);
    assert_eq!(fqcn_of(&files[0]), "t.A");
    assert_eq!(resolve_name("A", &imports), "t.A");
    assert_eq!(resolve_name("B", &imports), "t.B");
    assert_eq!(resolve_name("X", &imports), "u.X");
    assert_eq!(resolve_name("Why", &imports), "u.Y");
    assert_eq!(resolve_name("Y", &imports), "Y");
    assert_eq!(resolve_name("Z", &imports), "Z");
    assert_eq!(resolve_name("Err", &imports), "Exception");
    let ty = Type::Array(Box::new(nullable(named("B"))));
    assert_eq!(display(&resolve_type(&ty, &imports)), display(&Type::Array(Box::new(nullable(named("t.B"))))));
}

#[test]
fn dotted_paths_are_read() {
    let path = Expr::FieldAccess(
        Box::new(Expr::FieldAccess(Box::new(Expr::Ident("a".to_string())), "b".to_string())),
        "C".to_string(),
    );
    assert_eq!(dotted_path(&path), Some("a.b.C".to_string()));
    assert_eq!(dotted_path(&Expr::This), None);
}

#[test]
fn self_stands_for_the_class() {
    assert_eq!(display(&substitute_self(&Type::Int, "t.A")), "int");
    assert_eq!(display(&substitute_self(&named("B"), "t.A")), "B");
}

#[test]
fn assignability_of_plain_types() {
    assert!(is_assignable(&Type::Int, &Type::Int));
    assert!(is_assignable(&Type::Int, &Type::Float));
    assert!(!is_assignable(&Type::Float, &Type::Int));
    assert!(is_assignable(&Type::NullT, &nullable(Type::Int)));
    assert!(!is_assignable(&Type::NullT, &Type::Int));
    assert!(is_assignable(&Type::Int, &nullable(Type::Int)));
    assert!(!is_assignable(&nullable(Type::Int), &Type::Int));
}

#[test]
fn null_is_stripped() {
    assert!(is_nullable(&nullable(Type::Int)));
    assert!(!is_nullable(&Type::Int));
    assert_eq!(display(&strip_null(&nullable(Type::Int))), "int");
    assert_eq!(display(&strip_null(&Type::Int)), "int");
}

#[test]
fn numbers_widen_to_the_wider_type() {
    assert!(numeric_rank(&Type::Byte) < numeric_rank(&Type::Int));
    assert!(numeric_rank(&Type::Int) < numeric_rank(&Type::Float));
    assert_eq!(numeric_rank(&Type::Bool), None);
    let wide = |a: &Type, b: &Type| widen_numeric(a, b).map(|t| display(&t));
    assert_eq!(wide(&Type::Int, &Type::Float), Some("float".to_string()));
    assert_eq!(wide(&Type::Float, &Type::Int), Some("float".to_string()));
    assert_eq!(wide(&Type::Byte, &Type::Int), Some("int".to_string()));
    assert_eq!(wide(&Type::Int, &Type::StringT), None);
}

#[test]
fn types_are_shown() {
    assert_eq!(display(&Type::Array(Box::new(Type::StringT))), "string[]");
    assert_eq!(display(&nullable(named("t.A"))), "t.A|null");
    assert_eq!(display(&Type::Void), "void");
    assert_eq!(debug(&Type::Array(Box::new(Type::Int))), "Array(Int)");
    assert_eq!(debug(&named("a\"b")), "Named(\"a\\\"b\")");
    assert_eq!(debug(&nullable(Type::Int)), "Union([Int, NullT])");
    let generic = Type::Generic("List".to_string(), vec![Type::Int]);
    assert_eq!(debug(&generic), "Generic(\"List\", [Int])");
    let function = Type::Function {
        params: vec![Type::Int],
        return_type: Box::new(Type::Void),
        throws: vec!["E".to_string()],
    };
    assert_eq!(
        debug(&function),
        "Function { params: [Int], return_type: Void, throws: [\"E\"] }"
    );
    assert_eq!(debug(&function), format!("{:?}", function));
}

#[test]
fn later_binding_of_a_name_wins() {
    let mut m: NameMap<u8> = NameMap::new();
    m.insert("a".to_string(), 1);
    m.insert("b".to_string(), 2);
    m.insert("a".to_string(), 3);
    assert_eq!(m.get("a"), Some(&3));
    assert_eq!(m.get("b"), Some(&2));
    assert_eq!(m.get("c"), None);
}

#[test]
fn name_sets_are_sets() {
    let mut a = NameSet::new();
    let mut b = NameSet::new();
    for n in ["z", "x", "y", "x"] {
        a.insert(n.to_string());
    }
    b.insert("y".to_string());
    b.insert("w".to_string());
    assert!(a.contains("x") && !a.contains("w"));
    assert_eq!(a.sorted(), vec!["x", "y", "z"]);
    assert_eq!(a.intersection(&b).sorted(), vec!["y"]);
    assert_eq!(a.difference(&b).sorted(), vec!["x", "z"]);
    a.extend(&b);
    assert_eq!(a.sorted(), vec!["w", "x", "y", "z"]);
}

#[test]
fn id_sets_and_maps() {
    let mut a = IdSet::new();
    let mut b = IdSet::new();
    a.insert(1);
    a.insert(2);
    b.insert(2);
    b.insert(3);
    let u = a.union(&b);
    assert!(u.contains(1) && u.contains(2) && u.contains(3) && !u.contains(4));
    let i = a.intersection(&b);
    assert!(i.contains(2) && !i.contains(1) && !i.contains(3));
    assert!(a.copy().contains(1));
    let mut m: IdMap<u8> = IdMap::new();
    m.insert(7, 1);
    m.insert(7, 2);
    assert_eq!(m.get(7), Some(&2));
    m.remove(7);
    assert_eq!(m.get(7), None);
}

#[test]
fn text_helpers() {
    assert_eq!(decimal(0), "0");
    assert_eq!(decimal(u64::MAX), "18446744073709551615");
    assert_eq!(hex(0x4e4c, 8), "00004e4c");
    assert_eq!(hex(0x12345, 4), "2345");
    assert_eq!(join(&vec!["a".to_string(), "b".to_string()], "; "), "a; b");
    assert_eq!(join(&Vec::new(), ", "), "");
    assert_eq!(head("Box<int>", '<'), "Box");
    assert_eq!(tail("a.b.C", '.'), "C");
    assert_eq!(tail("C", '.'), "C");
    assert!(starts_with("alpha", "al") && !starts_with("al", "alpha"));
    assert!(str_eq("x", "x") && !str_eq("x", "y"));
}
