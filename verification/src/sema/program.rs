//! The check of a whole program.

use crate::ast::{
    same_strings, same_type, type_views, ClassDecl, MethodDecl, MethodKind, SourceFile, SourceItem,
    Type, TypeParam, TypeView, UseDecl, Visibility,
};
use crate::class_table::{
    bound_met, build_class_table, param_types, param_types_of, parent_of, resolve_throws,
    satisfies_bound, table_of, thrown_types, ClassTable, Classes,
};
use crate::names::NameMap;
use crate::native_generics::{NativeClasses, Natives};
use crate::resolve::{
    fqcn_of, full_name, import_map, import_name, import_name_of, imports_of, resolve_name,
    resolve_names, resolve_type, resolved_name, resolved_names, resolved_type, simple_name,
    simple_name_of, Prelude,
};
use crate::sema::checked::{params_declared, stmts_checked, Fault};
use crate::sema::class_rules::{
    abstract_final, check_abstract_final, check_const_interface_impl,
    check_constructor_delegation, check_duplicate_methods, check_exception_override,
    check_property_initialization, check_visibility_modifiers, const_interface_impl,
    constructor_delegation, duplicate_methods, exception_override, property_initialization,
    relabel_template_operator_error, relabeled, visibility_modifiers,
};
use crate::sema::error::{
    Checked, ErrorView, LocatedError, LocatedView, LocatedWarning, LocatedWarningView, SemaError,
    SemaWarning, WarningView,
};
use crate::sema::flow::{flow_start, warning_views, MethodChecker};
use crate::sema::rules::{sig_views, EnvView, MethodEnv, StaticSig, StaticSigView};
use crate::text::{owned, str_eq, texts};
use vstd::prelude::*;

verus! {

/// A fault at a line.
pub type Located = (u32, SemaError);

/// Puts a fault at a line.
pub fn locate<T>(line: u32, r: Result<T, SemaError>) -> (out: Result<T, Located>)
    ensures
        out == (match r {
            Ok(v) => Ok(v),
            Err(e) => Err((line, e)),
        }),
{
    match r {
        Ok(v) => Ok(v),
        Err(e) => Err((line, e)),
    }
}

pub open spec fn at(line: u32, r: Checked) -> Result<(), Fault> {
    match r {
        Ok(_) => Ok(()),
        Err(e) => Err((line, e)),
    }
}

/// Warnings and the lines they are about.
pub type Warned = Result<Seq<(u32, WarningView)>, Fault>;

pub open spec fn warned_as(r: Result<Vec<(u32, SemaWarning)>, Located>, want: Warned) -> bool {
    match r {
        Ok(ws) => want == Warned::Ok(warning_views(ws@)),
        Err((line, e)) => want == Warned::Err((line, e@)),
    }
}

/// The static methods that calls by a bare name may mean, of the first `n`
/// methods of a class.
pub open spec fn static_sigs(
    ms: Seq<MethodDecl>,
    imports: Seq<(Seq<char>, Seq<char>)>,
    n: int,
) -> Seq<StaticSigView>
    decreases n,
{
    if n <= 0 {
        Seq::empty()
    } else if ms[n - 1].is_static && ms[n - 1].kind == MethodKind::Normal {
        static_sigs(ms, imports, n - 1).push(
            StaticSigView {
                name: ms[n - 1].name@,
                params: ms[n - 1].params@,
                param_types: param_types(ms[n - 1].params@, imports),
                return_ty: resolved_type(ms[n - 1].return_type@, imports),
                throws: thrown_types(texts(ms[n - 1].throws@), imports),
            },
        )
    } else {
        static_sigs(ms, imports, n - 1)
    }
}

fn collect_sigs<'a>(class: &'a ClassDecl, imports: &NameMap<String>) -> (r: Vec<StaticSig<'a>>)
    ensures
        sig_views(r@) == static_sigs(class.methods@, imports@, class.methods@.len() as int),
{
    let mut sigs: Vec<StaticSig<'a>> = Vec::new();
    let mut i: usize = 0;
    while i < class.methods.len()
        invariant
            i <= class.methods@.len(),
            sig_views(sigs@) =~= static_sigs(class.methods@, imports@, i as int),
        decreases class.methods@.len() - i,
    {
        let m = &class.methods[i];
        if m.is_static && m.kind == MethodKind::Normal {
            let ghost before = sigs@;
            let sig = StaticSig {
                name: &m.name,
                params: &m.params,
                param_types: param_types_of(&m.params, imports),
                return_ty: resolve_type(&m.return_type, imports),
                throws: resolve_throws(&m.throws, imports),
            };
            let ghost view = sig@;
            sigs.push(sig);
            assert(sig_views(sigs@) =~= sig_views(before).push(view));
        }
        i = i + 1;
    }
    sigs
}

/// What a method of a class is checked against.
pub open spec fn method_env(
    m: MethodDecl,
    sigs: Seq<StaticSigView>,
    classes: Classes,
    imports: Seq<(Seq<char>, Seq<char>)>,
    natives: Natives,
    this_fqcn: Seq<char>,
) -> EnvView {
    EnvView {
        sigs,
        classes,
        imports,
        natives,
        is_static: m.is_static,
        is_const_method: m.is_const,
        is_constructor: m.kind == MethodKind::Constructor,
        this_fqcn,
        super_fqcn: parent_of(classes, this_fqcn),
        method_throws: resolved_names(texts(m.throws@), imports),
    }
}

/// The parameters and the body of a method are as they must be.
pub open spec fn method_checked(c: EnvView, m: MethodDecl) -> Warned {
    let s = flow_start(resolved_type(m.return_type@, c.imports), m.decl_line).push_scope();
    match params_declared(c, s, m.params@, true, 0) {
        Err(e) => Err(e),
        Ok(s1) => match stmts_checked(c, s1, m.body@, false, 0) {
            Err(e) => Err(e),
            Ok((_, s2)) => Ok(s2.warnings),
        },
    }
}

fn check_method(
    method: &MethodDecl,
    sigs: &Vec<StaticSig>,
    classes: &ClassTable,
    imports: &NameMap<String>,
    natives: &NativeClasses,
    this_fqcn: &str,
) -> (r: Result<Vec<(u32, SemaWarning)>, Located>)
    ensures
        warned_as(
            r,
            method_checked(
                method_env(*method, sig_views(sigs@), classes@, imports@, natives@, this_fqcn@),
                *method,
            ),
        ),
{
    let super_fqcn = match classes.get(this_fqcn) {
        Some(info) => match &info.extends {
            Some(p) => Some(p.clone()),
            None => None,
        },
        None => None,
    };
    let env = MethodEnv {
        sigs,
        classes,
        imports,
        natives,
        is_static: method.is_static,
        is_const_method: method.is_const,
        is_constructor: method.kind == MethodKind::Constructor,
        this_fqcn: owned(this_fqcn),
        super_fqcn,
        method_throws: resolve_names(&method.throws, imports),
    };
    assert(env@ == method_env(*method, sig_views(sigs@), classes@, imports@, natives@, this_fqcn@));
    let mut checker = MethodChecker::new(
        resolve_type(&method.return_type, imports),
        method.decl_line,
    );
    checker.push_scope();
    if let Err(e) = checker.declare_params(&env, &method.params, true) {
        return Err((checker.current_line, e));
    }
    match checker.check_stmts(&env, &method.body) {
        Ok(_) => Ok(checker.warnings),
        Err(e) => Err((checker.current_line, e)),
    }
}

/// The methods of a class from the `i`-th on; `acc` are the warnings on those
/// before.
pub open spec fn methods_checked(
    class: ClassDecl,
    sigs: Seq<StaticSigView>,
    classes: Classes,
    imports: Seq<(Seq<char>, Seq<char>)>,
    natives: Natives,
    this_fqcn: Seq<char>,
    acc: Seq<(u32, WarningView)>,
    i: int,
) -> Warned
    decreases class.methods@.len() - i,
{
    if i < 0 || i >= class.methods@.len() {
        Ok(acc)
    } else {
        let m = class.methods@[i];
        match method_checked(method_env(m, sigs, classes, imports, natives, this_fqcn), m) {
            Err((line, e)) => Err((line, relabeled(e, this_fqcn))),
            Ok(ws) => {
                match if !m.is_static && m.kind == MethodKind::Normal {
                    at(m.decl_line, exception_override(m, classes, imports, this_fqcn))
                } else {
                    Ok(())
                } {
                    Err(e) => Err(e),
                    Ok(_) => {
                        methods_checked(
                            class,
                            sigs,
                            classes,
                            imports,
                            natives,
                            this_fqcn,
                            acc + ws,
                            i + 1,
                        )
                    },
                }
            },
        }
    }
}

/// The declarations of a class, then its methods, are as they must be.
pub open spec fn class_checked(
    class: ClassDecl,
    classes: Classes,
    imports: Seq<(Seq<char>, Seq<char>)>,
    natives: Natives,
    this_fqcn: Seq<char>,
) -> Warned {
    let line = class.decl_line;
    match at(line, duplicate_methods(class)) {
        Err(e) => Err(e),
        Ok(_) => match at(line, constructor_delegation(class)) {
            Err(e) => Err(e),
            Ok(_) => match at(line, visibility_modifiers(class)) {
                Err(e) => Err(e),
                Ok(_) => match at(line, property_initialization(class, imports)) {
                    Err(e) => Err(e),
                    Ok(_) => match at(line, const_interface_impl(class, classes, this_fqcn)) {
                        Err(e) => Err(e),
                        Ok(_) => match at(line, abstract_final(class, classes, imports, this_fqcn)) {
                            Err(e) => Err(e),
                            Ok(_) => {
                                methods_checked(
                                    class,
                                    static_sigs(class.methods@, imports, class.methods@.len() as int),
                                    classes,
                                    imports,
                                    natives,
                                    this_fqcn,
                                    Seq::empty(),
                                    0,
                                )
                            },
                        },
                    },
                },
            },
        },
    }
}

fn check_methods(
    class: &ClassDecl,
    classes: &ClassTable,
    imports: &NameMap<String>,
    natives: &NativeClasses,
    this_fqcn: &str,
) -> (r: Result<Vec<(u32, SemaWarning)>, Located>)
    ensures
        warned_as(
            r,
            methods_checked(
                *class,
                static_sigs(class.methods@, imports@, class.methods@.len() as int),
                classes@,
                imports@,
                natives@,
                this_fqcn@,
                Seq::empty(),
                0,
            ),
        ),
{
    let sigs = collect_sigs(class, imports);
    let mut warnings: Vec<(u32, SemaWarning)> = Vec::new();
    let ghost whole = methods_checked(
        *class,
        sig_views(sigs@),
        classes@,
        imports@,
        natives@,
        this_fqcn@,
        Seq::empty(),
        0,
    );
    assert(warning_views(warnings@) =~= Seq::<(u32, WarningView)>::empty());
    let mut i: usize = 0;
    while i < class.methods.len()
        invariant
            i <= class.methods@.len(),
            sig_views(sigs@) == static_sigs(class.methods@, imports@, class.methods@.len() as int),
            whole == methods_checked(
                *class,
                sig_views(sigs@),
                classes@,
                imports@,
                natives@,
                this_fqcn@,
                Seq::empty(),
                0,
            ),
            whole == methods_checked(
                *class,
                sig_views(sigs@),
                classes@,
                imports@,
                natives@,
                this_fqcn@,
                warning_views(warnings@),
                i as int,
            ),
        decreases class.methods@.len() - i,
    {
        let m = &class.methods[i];
        match check_method(m, &sigs, classes, imports, natives, this_fqcn) {
            Ok(ws) => {
                let mut ws = ws;
                let ghost acc = warning_views(warnings@);
                let ghost more = warning_views(ws@);
                warnings.append(&mut ws);
                assert(warning_views(warnings@) =~= acc + more);
            },
            Err((line, e)) => {
                return Err((line, relabel_template_operator_error(e, this_fqcn)));
            },
        }
        if !m.is_static && m.kind == MethodKind::Normal {
            locate(m.decl_line, check_exception_override(m, classes, imports, this_fqcn))?;
        }
        i = i + 1;
    }
    Ok(warnings)
}

fn check_class(
    class: &ClassDecl,
    classes: &ClassTable,
    imports: &NameMap<String>,
    natives: &NativeClasses,
    this_fqcn: &str,
) -> (r: Result<Vec<(u32, SemaWarning)>, Located>)
    ensures
        warned_as(r, class_checked(*class, classes@, imports@, natives@, this_fqcn@)),
{
    let line: u32 = class.decl_line;
    locate(line, check_duplicate_methods(class))?;
    locate(line, check_constructor_delegation(class))?;
    locate(line, check_visibility_modifiers(class))?;
    locate(line, check_property_initialization(class, imports))?;
    locate(line, check_const_interface_impl(class, classes, this_fqcn))?;
    locate(line, check_abstract_final(class, classes, imports, this_fqcn))?;
    check_methods(class, classes, imports, natives, this_fqcn)
}

pub type FileWarned = Result<Seq<LocatedWarningView>, LocatedView>;

pub open spec fn located_views(v: Seq<LocatedWarning>) -> Seq<LocatedWarningView> {
    v.map_values(|w: LocatedWarning| w@)
}

pub open spec fn file_warned_as(
    r: Result<Vec<LocatedWarning>, LocatedError>,
    want: FileWarned,
) -> bool {
    match r {
        Ok(ws) => want == FileWarned::Ok(located_views(ws@)),
        Err(e) => want == FileWarned::Err(e@),
    }
}

/// Warnings with the file they are about.
pub open spec fn in_file(path: Seq<char>, ws: Seq<(u32, WarningView)>) -> Seq<LocatedWarningView> {
    ws.map_values(
        |w: (u32, WarningView)| LocatedWarningView { file: path, line: w.0, warning: w.1 },
    )
}

/// The class of a file is as it must be; of an interface nothing is asked.
pub open spec fn file_checked(
    file: SourceFile,
    files: Seq<SourceFile>,
    classes: Classes,
    prelude: Prelude,
    natives: Natives,
) -> FileWarned {
    match file.item {
        SourceItem::Interface(_) => Ok(Seq::empty()),
        SourceItem::Class(class) => match class_checked(
            class,
            classes,
            imports_of(file, files, prelude),
            natives,
            full_name(file),
        ) {
            Ok(ws) => Ok(in_file(file.path@, ws)),
            Err((line, error)) => Err(LocatedView { file: file.path@, line, error }),
        },
    }
}

/// Checks the class of a file.
pub fn check_source_file(
    file: &SourceFile,
    all_files: &Vec<SourceFile>,
    classes: &ClassTable,
    prelude: &Prelude,
    natives: &NativeClasses,
) -> (r: Result<Vec<LocatedWarning>, LocatedError>)
    ensures
        file_warned_as(r, file_checked(*file, all_files@, classes@, *prelude, natives@)),
{
    let class = match &file.item {
        SourceItem::Class(class) => class,
        SourceItem::Interface(_) => {
            let none: Vec<LocatedWarning> = Vec::new();
            assert(located_views(none@) =~= Seq::<LocatedWarningView>::empty());
            return Ok(none);
        },
    };
    let imports = import_map(file, all_files, prelude);
    let this_fqcn = fqcn_of(file);
    match check_class(class, classes, &imports, natives, this_fqcn.as_str()) {
        Ok(ws) => {
            let ghost views = warning_views(ws@);
            let mut out: Vec<LocatedWarning> = Vec::new();
            let mut rest = ws;
            let ghost mut n = 0int;
            while rest.len() > 0
                invariant
                    0 <= n <= views.len(),
                    rest@.len() == views.len() - n,
                    out@.len() == n,
                    warning_views(rest@) == views.skip(n),
                    forall|j: int|
                        0 <= j < n ==> (#[trigger] out@[j])@ == in_file(file.path@, views)[j],
                decreases rest@.len(),
            {
                let ghost before = rest@;
                let (line, warning) = rest.remove(0);
                assert(warning_views(before)[0] == views.skip(n)[0]);
                assert(warning_views(rest@) =~= warning_views(before).skip(1));
                assert(views.skip(n).skip(1) =~= views.skip(n + 1));
                out.push(LocatedWarning { file: file.path.clone(), line, warning });
                proof {
                    n = n + 1;
                }
            }
            assert(located_views(out@) =~= in_file(file.path@, views));
            Ok(out)
        },
        Err((line, error)) => Err(LocatedError { file: file.path.clone(), line, error }),
    }
}

/// The line that a file's class or interface is declared at.
pub open spec fn decl_line(file: SourceFile) -> u32 {
    match file.item {
        SourceItem::Class(c) => c.decl_line,
        SourceItem::Interface(i) => i.decl_line,
    }
}

pub fn decl_line_of(file: &SourceFile) -> (r: u32)
    ensures
        r == decl_line(*file),
{
    match &file.item {
        SourceItem::Class(c) => c.decl_line,
        SourceItem::Interface(i) => i.decl_line,
    }
}

/// The outcome of a check of files.
pub type FileChecked = Result<(), LocatedView>;

pub open spec fn file_checked_as(r: Result<(), LocatedError>, want: FileChecked) -> bool {
    match r {
        Ok(_) => want == FileChecked::Ok(()),
        Err(e) => want == FileChecked::Err(e@),
    }
}

/// A fault of a file as a whole.
pub open spec fn at_decl(file: SourceFile, error: ErrorView) -> LocatedView {
    LocatedView { file: file.path@, line: decl_line(file), error }
}

/// Whether an earlier file declares a class of the same full name.
pub open spec fn declared_before(files: Seq<SourceFile>, i: int) -> bool {
    exists|j: int| 0 <= j < i && full_name(#[trigger] files[j]) == full_name(files[i])
}

/// No two files from the `i`-th on declare, with those before, the same name.
pub open spec fn distinct_classes(files: Seq<SourceFile>, i: int) -> FileChecked
    decreases files.len() - i,
{
    if i < 0 || i >= files.len() {
        Ok(())
    } else if declared_before(files, i) {
        Err(at_decl(files[i], ErrorView::DuplicateClass(full_name(files[i]))))
    } else {
        distinct_classes(files, i + 1)
    }
}

pub fn check_duplicate_classes(files: &Vec<SourceFile>) -> (r: Result<(), LocatedError>)
    ensures
        file_checked_as(r, distinct_classes(files@, 0)),
{
    let ghost whole = distinct_classes(files@, 0);
    let mut i: usize = 0;
    while i < files.len()
        invariant
            i <= files@.len(),
            whole == distinct_classes(files@, 0),
            whole == distinct_classes(files@, i as int),
        decreases files@.len() - i,
    {
        let fqcn = fqcn_of(&files[i]);
        let mut j: usize = 0;
        while j < i
            invariant
                j <= i < files@.len(),
                fqcn@ == full_name(files@[i as int]),
                whole == distinct_classes(files@, 0),
                whole == distinct_classes(files@, i as int),
                forall|k: int|
                    0 <= k < j ==> full_name(#[trigger] files@[k]) != full_name(files@[i as int]),
            decreases i - j,
        {
            if str_eq(fqcn_of(&files[j]).as_str(), fqcn.as_str()) {
                assert(full_name(files@[j as int]) == full_name(files@[i as int]));
                return Err(
                    LocatedError {
                        file: files[i].path.clone(),
                        line: decl_line_of(&files[i]),
                        error: SemaError::DuplicateClass(fqcn),
                    },
                );
            }
            j = j + 1;
        }
        assert(!declared_before(files@, i as int));
        i = i + 1;
    }
    Ok(())
}

/// Whether another class of the file's namespace has the name that an import
/// binds to something else.
pub open spec fn neighbour_clash(file: SourceFile, other: SourceFile, u: UseDecl) -> bool {
    texts(other.namespace@) == texts(file.namespace@) && simple_name(other) != simple_name(file)
        && simple_name(other) == import_name(u) && full_name(other) != u.path@
}

/// Whether an import binds a name that already stands for something else: for
/// the file's own class, another one of its namespace, or an earlier import.
pub open spec fn import_clash(file: SourceFile, files: Seq<SourceFile>, i: int) -> bool {
    let u = file.uses@[i];
    (import_name(u) == simple_name(file) && u.path@ != full_name(file)) || (exists|k: int|
        0 <= k < files.len() && neighbour_clash(file, #[trigger] files[k], u)) || (exists|j: int|
        0 <= j < i && rebinds(#[trigger] file.uses@[j], u))
}

pub open spec fn rebinds(a: UseDecl, b: UseDecl) -> bool {
    import_name(a) == import_name(b) && a.path@ != b.path@
}

/// No import of a file from the `i`-th on does.
pub open spec fn imports_distinct(file: SourceFile, files: Seq<SourceFile>, i: int) -> FileChecked
    decreases file.uses@.len() - i,
{
    if i < 0 || i >= file.uses@.len() {
        Ok(())
    } else if import_clash(file, files, i) {
        Err(at_decl(file, ErrorView::DuplicateImportSymbol(import_name(file.uses@[i]))))
    } else {
        imports_distinct(file, files, i + 1)
    }
}

fn clashes_with_neighbour(file: &SourceFile, files: &Vec<SourceFile>, u: &UseDecl) -> (r: bool)
    ensures
        r == exists|k: int| 0 <= k < files@.len() && neighbour_clash(*file, #[trigger] files@[k], *u),
{
    let name = import_name_of(u);
    let own = simple_name_of(file);
    let mut k: usize = 0;
    while k < files.len()
        invariant
            k <= files@.len(),
            name@ == import_name(*u),
            own@ == simple_name(*file),
            forall|j: int| 0 <= j < k ==> !neighbour_clash(*file, #[trigger] files@[j], *u),
        decreases files@.len() - k,
    {
        let other = &files[k];
        let simple = simple_name_of(other);
        if same_strings(&other.namespace, &file.namespace) && !str_eq(
            simple.as_str(),
            own.as_str(),
        ) && str_eq(simple.as_str(), name.as_str()) && !str_eq(
            fqcn_of(other).as_str(),
            u.path.as_str(),
        ) {
            assert(neighbour_clash(*file, files@[k as int], *u));
            return true;
        }
        k = k + 1;
    }
    false
}

fn clashes_with_import(file: &SourceFile, i: usize) -> (r: bool)
    requires
        i < file.uses@.len(),
    ensures
        r == exists|j: int|
            0 <= j < i && rebinds(#[trigger] file.uses@[j], file.uses@[i as int]),
{
    let name = import_name_of(&file.uses[i]);
    let mut j: usize = 0;
    while j < i
        invariant
            j <= i < file.uses@.len(),
            name@ == import_name(file.uses@[i as int]),
            forall|k: int|
                0 <= k < j ==> !rebinds(#[trigger] file.uses@[k], file.uses@[i as int]),
        decreases i - j,
    {
        if str_eq(import_name_of(&file.uses[j]).as_str(), name.as_str()) && !str_eq(
            file.uses[j].path.as_str(),
            file.uses[i].path.as_str(),
        ) {
            assert(rebinds(file.uses@[j as int], file.uses@[i as int]));
            return true;
        }
        j = j + 1;
    }
    false
}

pub fn check_duplicate_imports(file: &SourceFile, all_files: &Vec<SourceFile>) -> (r: Result<
    (),
    LocatedError,
>)
    ensures
        file_checked_as(r, imports_distinct(*file, all_files@, 0)),
{
    let own_fqcn = fqcn_of(file);
    let ghost whole = imports_distinct(*file, all_files@, 0);
    let mut i: usize = 0;
    while i < file.uses.len()
        invariant
            i <= file.uses@.len(),
            own_fqcn@ == full_name(*file),
            whole == imports_distinct(*file, all_files@, 0),
            whole == imports_distinct(*file, all_files@, i as int),
        decreases file.uses@.len() - i,
    {
        let u = &file.uses[i];
        let name = import_name_of(u);
        let own = str_eq(name.as_str(), simple_name_of(file).as_str()) && !str_eq(
            u.path.as_str(),
            own_fqcn.as_str(),
        );
        if own || clashes_with_neighbour(file, all_files, u) || clashes_with_import(file, i) {
            return Err(
                LocatedError {
                    file: file.path.clone(),
                    line: decl_line_of(file),
                    error: SemaError::DuplicateImportSymbol(name),
                },
            );
        }
        i = i + 1;
    }
    Ok(())
}

/// A template applied to types.
#[derive(Debug)]
pub struct Instantiation {
    /// Full name of the template.
    pub template: String,
    pub args: Vec<Type>,
}

/// The first file from the `i`-th on that declares a name, or their number.
pub open spec fn file_at(files: Seq<SourceFile>, fqcn: Seq<char>, i: int) -> int
    decreases files.len() - i,
{
    if i >= files.len() {
        files.len() as int
    } else if full_name(files[i]) == fqcn {
        i
    } else {
        file_at(files, fqcn, i + 1)
    }
}

fn find_file(files: &Vec<SourceFile>, fqcn: &str) -> (r: usize)
    ensures
        r == file_at(files@, fqcn@, 0),
        r <= files@.len(),
{
    let mut i: usize = 0;
    while i < files.len()
        invariant
            i <= files@.len(),
            file_at(files@, fqcn@, 0) == file_at(files@, fqcn@, i as int),
        decreases files@.len() - i,
    {
        if str_eq(fqcn_of(&files[i]).as_str(), fqcn) {
            return i;
        }
        i = i + 1;
    }
    i
}

/// The first argument from the `i`-th on that is not what the bound of its
/// parameter asks for, and the bound.
pub open spec fn unmet_bound(
    params: Seq<TypeParam>,
    args: Seq<TypeView>,
    classes: Classes,
    imports: Seq<(Seq<char>, Seq<char>)>,
    i: int,
) -> Option<(Seq<char>, Seq<char>)>
    decreases params.len() - i,
{
    if i < 0 || i >= params.len() || i >= args.len() {
        None
    } else {
        match (params[i].bound, args[i]) {
            (Some(bound), TypeView::Named(arg)) => {
                let fqcn = resolved_name(bound@, imports);
                if bound_met(classes, arg, fqcn) {
                    unmet_bound(params, args, classes, imports, i + 1)
                } else {
                    Some((arg, fqcn))
                }
            },
            _ => unmet_bound(params, args, classes, imports, i + 1),
        }
    }
}

/// The arguments of an instantiation are what its template asks for.
pub open spec fn bounds_met(
    inst: Instantiation,
    files: Seq<SourceFile>,
    classes: Classes,
    prelude: Prelude,
) -> FileChecked {
    let k = file_at(files, inst.template@, 0);
    if k >= files.len() {
        Ok(())
    } else {
        match files[k].item {
            SourceItem::Interface(_) => Ok(()),
            SourceItem::Class(class) => match unmet_bound(
                class.type_params@,
                type_views(inst.args@),
                classes,
                imports_of(files[k], files, prelude),
                0,
            ) {
                None => Ok(()),
                Some((arg, bound)) => Err(
                    at_decl(
                        files[k],
                        ErrorView::TemplateBoundNotSatisfied(arg, bound, inst.template@),
                    ),
                ),
            },
        }
    }
}

pub open spec fn all_bounds_met(
    insts: Seq<Instantiation>,
    files: Seq<SourceFile>,
    classes: Classes,
    prelude: Prelude,
    i: int,
) -> FileChecked
    decreases insts.len() - i,
{
    if i < 0 || i >= insts.len() {
        Ok(())
    } else {
        match bounds_met(insts[i], files, classes, prelude) {
            Err(e) => Err(e),
            Ok(_) => all_bounds_met(insts, files, classes, prelude, i + 1),
        }
    }
}

fn find_unmet_bound(
    params: &Vec<TypeParam>,
    args: &Vec<Type>,
    classes: &ClassTable,
    imports: &NameMap<String>,
) -> (r: Option<(String, String)>)
    ensures
        unmet_bound(params@, type_views(args@), classes@, imports@, 0) == (match r {
            Some((arg, bound)) => Some((arg@, bound@)),
            None => None,
        }),
{
    let ghost ts = type_views(args@);
    let ghost whole = unmet_bound(params@, ts, classes@, imports@, 0);
    let mut i: usize = 0;
    while i < params.len() && i < args.len()
        invariant
            i <= params@.len(),
            ts == type_views(args@),
            whole == unmet_bound(params@, ts, classes@, imports@, 0),
            whole == unmet_bound(params@, ts, classes@, imports@, i as int),
        decreases params@.len() - i,
    {
        assert(ts[i as int] == args@[i as int]@);
        if let (Some(bound), Type::Named(arg)) = (&params[i].bound, &args[i]) {
            let fqcn = resolve_name(bound.as_str(), imports);
            if !satisfies_bound(classes, arg.as_str(), fqcn.as_str()) {
                return Some((arg.clone(), fqcn));
            }
        }
        i = i + 1;
    }
    None
}

fn check_bounds(
    inst: &Instantiation,
    files: &Vec<SourceFile>,
    classes: &ClassTable,
    prelude: &Prelude,
) -> (r: Result<(), LocatedError>)
    ensures
        file_checked_as(r, bounds_met(*inst, files@, classes@, *prelude)),
{
    let k: usize = find_file(files, inst.template.as_str());
    if k >= files.len() {
        return Ok(());
    }
    let file = &files[k];
    match &file.item {
        SourceItem::Interface(_) => Ok(()),
        SourceItem::Class(class) => {
            let imports = import_map(file, files, prelude);
            match find_unmet_bound(&class.type_params, &inst.args, classes, &imports) {
                None => Ok(()),
                Some((arg, bound)) => Err(
                    LocatedError {
                        file: file.path.clone(),
                        line: class.decl_line,
                        error: SemaError::TemplateBoundNotSatisfied(
                            arg,
                            bound,
                            inst.template.clone(),
                        ),
                    },
                ),
            }
        },
    }
}

pub fn check_template_bounds(
    files: &Vec<SourceFile>,
    instantiations: &Vec<Instantiation>,
    classes: &ClassTable,
    prelude: &Prelude,
) -> (r: Result<(), LocatedError>)
    ensures
        file_checked_as(
            r,
            all_bounds_met(instantiations@, files@, classes@, *prelude, 0),
        ),
{
    let ghost whole = all_bounds_met(instantiations@, files@, classes@, *prelude, 0);
    let mut i: usize = 0;
    while i < instantiations.len()
        invariant
            i <= instantiations@.len(),
            whole == all_bounds_met(instantiations@, files@, classes@, *prelude, 0),
            whole == all_bounds_met(instantiations@, files@, classes@, *prelude, i as int),
        decreases instantiations@.len() - i,
    {
        check_bounds(&instantiations[i], files, classes, prelude)?;
        i = i + 1;
    }
    Ok(())
}

/// The imports of the files from the `i`-th on are distinct.
pub open spec fn all_imports_distinct(files: Seq<SourceFile>, i: int) -> FileChecked
    decreases files.len() - i,
{
    if i < 0 || i >= files.len() {
        Ok(())
    } else {
        match imports_distinct(files[i], files, 0) {
            Err(e) => Err(e),
            Ok(_) => all_imports_distinct(files, i + 1),
        }
    }
}

/// The classes of the files from the `i`-th on are as they must be; `acc` are
/// the warnings on those before.
pub open spec fn files_checked(
    files: Seq<SourceFile>,
    classes: Classes,
    prelude: Prelude,
    natives: Natives,
    acc: Seq<LocatedWarningView>,
    i: int,
) -> FileWarned
    decreases files.len() - i,
{
    if i < 0 || i >= files.len() {
        Ok(acc)
    } else {
        match file_checked(files[i], files, classes, prelude, natives) {
            Err(e) => Err(e),
            Ok(ws) => files_checked(files, classes, prelude, natives, acc + ws, i + 1),
        }
    }
}

/// A program is as it must be. `files` are its classes and those of the
/// prelude, with all templates expanded; `sources` are the program's own files
/// before that, and `insts` the templates that they apply.
pub open spec fn program_checked(
    files: Seq<SourceFile>,
    sources: Seq<SourceFile>,
    insts: Seq<Instantiation>,
    prelude: Prelude,
    natives: Natives,
) -> FileWarned {
    let classes = table_of(files, prelude);
    match distinct_classes(files, 0) {
        Err(e) => Err(e),
        Ok(_) => match all_imports_distinct(files, 0) {
            Err(e) => Err(e),
            Ok(_) => match all_bounds_met(insts, sources, classes, prelude, 0) {
                Err(e) => Err(e),
                Ok(_) => files_checked(files, classes, prelude, natives, Seq::empty(), 0),
            },
        },
    }
}

fn check_all_imports(files: &Vec<SourceFile>) -> (r: Result<(), LocatedError>)
    ensures
        file_checked_as(r, all_imports_distinct(files@, 0)),
{
    let ghost whole = all_imports_distinct(files@, 0);
    let mut i: usize = 0;
    while i < files.len()
        invariant
            i <= files@.len(),
            whole == all_imports_distinct(files@, 0),
            whole == all_imports_distinct(files@, i as int),
        decreases files@.len() - i,
    {
        check_duplicate_imports(&files[i], files)?;
        i = i + 1;
    }
    Ok(())
}

/// Checks a program; gives what is worth a warning in it.
pub fn check_compile_with_warnings(
    files: &Vec<SourceFile>,
    sources: &Vec<SourceFile>,
    instantiations: &Vec<Instantiation>,
    prelude: &Prelude,
    natives: &NativeClasses,
) -> (r: Result<Vec<LocatedWarning>, LocatedError>)
    ensures
        file_warned_as(
            r,
            program_checked(files@, sources@, instantiations@, *prelude, natives@),
        ),
{
    check_duplicate_classes(files)?;
    check_all_imports(files)?;
    let classes = build_class_table(files, prelude);
    check_template_bounds(sources, instantiations, &classes, prelude)?;
    let mut warnings: Vec<LocatedWarning> = Vec::new();
    let ghost whole = files_checked(files@, classes@, *prelude, natives@, Seq::empty(), 0);
    assert(located_views(warnings@) =~= Seq::<LocatedWarningView>::empty());
    let mut i: usize = 0;
    while i < files.len()
        invariant
            i <= files@.len(),
            whole == program_checked(files@, sources@, instantiations@, *prelude, natives@),
            whole == files_checked(
                files@,
                classes@,
                *prelude,
                natives@,
                located_views(warnings@),
                i as int,
            ),
        decreases files@.len() - i,
    {
        let mut ws = check_source_file(&files[i], files, &classes, prelude, natives)?;
        let ghost acc = located_views(warnings@);
        let ghost more = located_views(ws@);
        warnings.append(&mut ws);
        assert(located_views(warnings@) =~= acc + more);
        i = i + 1;
    }
    Ok(warnings)
}

/// Checks a program.
pub fn check_compile(
    files: &Vec<SourceFile>,
    sources: &Vec<SourceFile>,
    instantiations: &Vec<Instantiation>,
    prelude: &Prelude,
    natives: &NativeClasses,
) -> (r: Result<(), LocatedError>)
    ensures
        match r {
            Ok(_) => program_checked(
                files@,
                sources@,
                instantiations@,
                *prelude,
                natives@,
            ) is Ok,
            Err(e) => program_checked(files@, sources@, instantiations@, *prelude, natives@)
                == FileWarned::Err(e@),
        },
{
    let _ = check_compile_with_warnings(files, sources, instantiations, prelude, natives)?;
    Ok(())
}

/// The methods called `main` among the first `n` of a class.
pub open spec fn mains_of(file: SourceFile, ms: Seq<MethodDecl>, n: int) -> Seq<
    (SourceFile, MethodDecl),
>
    decreases n,
{
    if n <= 0 {
        Seq::empty()
    } else if ms[n - 1].name@ == "main"@ {
        mains_of(file, ms, n - 1).push((file, ms[n - 1]))
    } else {
        mains_of(file, ms, n - 1)
    }
}

/// The methods called `main` in the classes of the first `n` files.
pub open spec fn mains(files: Seq<SourceFile>, n: int) -> Seq<(SourceFile, MethodDecl)>
    decreases n,
{
    if n <= 0 {
        Seq::empty()
    } else {
        match files[n - 1].item {
            SourceItem::Class(class) => mains(files, n - 1) + mains_of(
                files[n - 1],
                class.methods@,
                class.methods@.len() as int,
            ),
            SourceItem::Interface(_) => mains(files, n - 1),
        }
    }
}

/// Whether a method is `public static int main(string[])`.
pub open spec fn entry_signature(m: MethodDecl) -> bool {
    m.is_static && m.visibility == Visibility::Public && m.return_type@ == TypeView::Int
        && m.params@.len() == 1 && m.params@[0].ty@ == TypeView::Array(
        Box::new(TypeView::StringT),
    )
}

/// A program that is run has one `main`, of the right signature.
pub open spec fn entry_point(files: Seq<SourceFile>) -> FileChecked {
    let ms = mains(files, files.len() as int);
    if ms.len() == 0 {
        Err(LocatedView { file: Seq::empty(), line: 0, error: ErrorView::NoMainMethod })
    } else {
        let (file, m) = ms[0];
        if ms.len() > 1 {
            Err(
                LocatedView {
                    file: file.path@,
                    line: m.decl_line,
                    error: ErrorView::MultipleMainMethods,
                },
            )
        } else if !entry_signature(m) {
            Err(
                LocatedView {
                    file: file.path@,
                    line: m.decl_line,
                    error: ErrorView::BadMainSignature,
                },
            )
        } else {
            Ok(())
        }
    }
}

pub open spec fn candidate_views(v: Seq<(&SourceFile, &MethodDecl)>) -> Seq<
    (SourceFile, MethodDecl),
> {
    v.map_values(|e: (&SourceFile, &MethodDecl)| (*e.0, *e.1))
}

fn has_entry_signature(m: &MethodDecl) -> (r: bool)
    ensures
        r == entry_signature(*m),
{
    let element = Type::StringT;
    assert(element@ == TypeView::StringT);
    let strings = Type::Array(Box::new(element));
    m.is_static && m.visibility == Visibility::Public && same_type(&m.return_type, &Type::Int)
        && m.params.len() == 1 && same_type(&m.params[0].ty, &strings)
}

fn collect_mains<'a>(files: &'a Vec<SourceFile>) -> (r: Vec<(&'a SourceFile, &'a MethodDecl)>)
    ensures
        candidate_views(r@) == mains(files@, files@.len() as int),
{
    let mut out: Vec<(&'a SourceFile, &'a MethodDecl)> = Vec::new();
    assert(candidate_views(out@) =~= mains(files@, 0));
    let mut i: usize = 0;
    while i < files.len()
        invariant
            i <= files@.len(),
            candidate_views(out@) == mains(files@, i as int),
        decreases files@.len() - i,
    {
        let file = &files[i];
        if let SourceItem::Class(class) = &file.item {
            let ghost base = candidate_views(out@);
            let ms = &class.methods;
            let mut j: usize = 0;
            assert(base =~= base + mains_of(*file, ms@, 0));
            while j < ms.len()
                invariant
                    j <= ms@.len(),
                    candidate_views(out@) == base + mains_of(*file, ms@, j as int),
                decreases ms@.len() - j,
            {
                if str_eq(ms[j].name.as_str(), "main") {
                    let ghost before = candidate_views(out@);
                    out.push((file, &ms[j]));
                    assert(candidate_views(out@) =~= before.push((*file, ms@[j as int])));
                    assert(candidate_views(out@) =~= base + mains_of(*file, ms@, j as int + 1));
                }
                j = j + 1;
            }
        }
        i = i + 1;
    }
    out
}

/// Checks that a program can be run.
pub fn check_entry_point(files: &Vec<SourceFile>) -> (r: Result<(), LocatedError>)
    ensures
        file_checked_as(r, entry_point(files@)),
{
    let candidates = collect_mains(files);
    let ghost ms = candidate_views(candidates@);
    assert(ms.len() == candidates@.len());
    if candidates.len() == 0 {
        let file = owned("");
        proof {
            reveal_strlit("");
        }
        assert(file@ =~= Seq::<char>::empty());
        return Err(LocatedError { file, line: 0, error: SemaError::NoMainMethod });
    }
    assert(ms[0] == (*candidates@[0].0, *candidates@[0].1));
    let (file, m) = candidates[0];
    if candidates.len() > 1 {
        return Err(
            LocatedError {
                file: file.path.clone(),
                line: m.decl_line,
                error: SemaError::MultipleMainMethods,
            },
        );
    }
    if has_entry_signature(m) {
        Ok(())
    } else {
        Err(
            LocatedError {
                file: file.path.clone(),
                line: m.decl_line,
                error: SemaError::BadMainSignature,
            },
        )
    }
}

} // verus!
