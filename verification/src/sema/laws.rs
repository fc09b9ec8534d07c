//! Laws of the checks.

use crate::ast::{
    Arg, BinOp, ClassDecl, Expr, MethodDecl, MethodKind, SourceFile, SourceItem, Stmt, Type,
    TypeView,
};
use crate::binding::{binder, target_of};
use crate::class_table::{
    field_found, implementing, param_types, parent_of, subclass, table_of, ClassInfoView, Classes,
    FieldInfoView, MethodInfoView,
};
use crate::codegen::args::{actual, ActualView};
use crate::laws::{ancestor, bound_ancestor_is_near, import_binds, pigeonhole, subclass_transitive};
use crate::names::{bound_to, bound_to_push};
use crate::native::instance_sig;
use crate::native_generics::Natives;
use crate::resolve::{full_name, import_name, imports_of, resolved_name, Prelude};
use crate::sema::checked::{block_checked, expr_checked, merged, narrowed_block, narrowed_expr};
use crate::sema::class_rules::{
    abstract_final, all_implemented, checked_exception, class_ctors, const_interface_impl,
    constructor_delegation, delegate, delegates_for, delegation_argc, duplicate_methods,
    exact_method, first_endless, first_repeated, first_unimplemented, no_final_overridden,
    property_initialization, relabeled, repeated, same_signature, taker_bounds, unimplemented_in,
    visibility_modifiers,
};
use crate::sema::error::{Checked, ErrorView, LocatedWarningView};
use crate::sema::flow::{narrowing_is_undone, narrows, same_known, Flow, Narrowing};
use crate::sema::members::{stored, variable};
use crate::sema::program::{
    declared_before, distinct_classes, entry_point, entry_signature, file_checked, files_checked,
    import_clash, imports_distinct, mains, methods_checked, program_checked, rebinds, static_sigs,
    FileChecked, Instantiation,
};
use crate::sema::rules::{
    any_size, args_in_order, array_made, assignment, bindable, castable, caught_by, handled,
    named_before, object_accepted, object_assignable, object_flows, operated, readonly_class,
    required_given, sizes_given, writable, EnvView,
};
use crate::sema::stdlib::native_instance;
use crate::sema::types::{
    assignable_reflexive, display_text, display_texts, members_of, nullable, primitive_name,
    widened_symmetric,
};
use crate::text::{begins_with, char_pos, join_text};
use vstd::prelude::*;

verus! {

/// What a condition shows in one branch of an expression is not known after
/// the branch.
pub proof fn narrowing_leaves_no_trace_in_expr(
    c: EnvView,
    s: Flow,
    e: Expr,
    ns: Narrowing,
    id: u32,
)
    requires
        narrows(ns, id),
        narrowed_expr(c, s, e, ns) is Ok,
    ensures
        narrowed_expr(c, s, e, ns) matches Ok((_, after)) ==> same_known(
            after.narrowed,
            s.narrowed,
            id,
        ),
{
    reveal(Flow::restore);
    if let Ok((_, inner)) = expr_checked(c, s.narrow(ns), e) {
        narrowing_is_undone(inner.narrowed, s.narrowed, ns, id);
    }
}

/// Nor after a branch of statements.
pub proof fn narrowing_leaves_no_trace_in_block(
    c: EnvView,
    s: Flow,
    stmts: Seq<Stmt>,
    ns: Narrowing,
    id: u32,
)
    requires
        narrows(ns, id),
        narrowed_block(c, s, stmts, ns) is Ok,
    ensures
        narrowed_block(c, s, stmts, ns) matches Ok((_, after)) ==> same_known(
            after.narrowed,
            s.narrowed,
            id,
        ),
{
    reveal(Flow::restore);
    if let Ok((_, inner)) = block_checked(c, s.narrow(ns), stmts) {
        narrowing_is_undone(inner.narrowed, s.narrowed, ns, id);
    }
}

/// After two branches, at least one of which runs to its end, a variable is
/// assigned if it is in each that does. What both assign is assigned in any
/// case.
pub proof fn branches_merge(
    a: Set<u32>,
    a_ends: bool,
    b: Set<u32>,
    b_ends: bool,
    id: u32,
)
    ensures
        !(a_ends && b_ends) ==> (merged(a, a_ends, b, b_ends).contains(id) == ((a_ends
            || a.contains(id)) && (b_ends || b.contains(id)))),
        a.contains(id) && b.contains(id) ==> merged(a, a_ends, b, b_ends).contains(id),
{
}

proof fn in_order_from(names: Seq<Seq<char>>, args: Seq<Arg>, i: int, j: int)
    requires
        0 <= i <= j < args.len(),
        args_in_order(names, args, i) == Checked::Ok(()),
    ensures
        args_in_order(names, args, j) == Checked::Ok(()),
    decreases j - i,
{
    if i < j {
        in_order_from(names, args, i + 1, j);
    }
}

proof fn binder_finds(names: Seq<Seq<char>>, args: Seq<Arg>, p: int, n: int, i: int)
    requires
        0 <= i < n,
        target_of(names, args, i) == p,
    ensures
        binder(names, args, p, n) is Some,
    decreases n,
{
    if i < n - 1 {
        binder_finds(names, args, p, n - 1, i);
    }
}

/// In a call that is in order, no two arguments are for the same parameter.
pub proof fn no_parameter_given_twice(
    names: Seq<Seq<char>>,
    args: Seq<Arg>,
    i: int,
    j: int,
)
    requires
        args_in_order(names, args, 0) == Checked::Ok(()),
        0 <= i < j < args.len(),
        target_of(names, args, i) < names.len(),
    ensures
        target_of(names, args, i) != target_of(names, args, j),
{
    in_order_from(names, args, 0, j);
    let p = target_of(names, args, j);
    if p == target_of(names, args, i) {
        match args[j].name {
            None => {
                if args[i].name is Some {
                    assert(named_before(args, j));
                }
            },
            Some(name) => {
                binder_finds(names, args, p, j, i);
            },
        }
    }
}

/// In a call that is in order, arguments by position come before those by
/// name.
pub proof fn positions_come_first(names: Seq<Seq<char>>, args: Seq<Arg>, i: int, j: int)
    requires
        args_in_order(names, args, 0) == Checked::Ok(()),
        0 <= i < j < args.len(),
        args[j].name is None,
    ensures
        args[i].name is None,
{
    in_order_from(names, args, 0, j);
    if args[i].name is Some {
        assert(named_before(args, j));
    }
}

proof fn required_from(names: Seq<Seq<char>>, required: nat, args: Seq<Arg>, i: int, p: int)
    requires
        0 <= i <= p < names.len(),
        p < required,
        required_given(names, required, args, i) == Checked::Ok(()),
    ensures
        binder(names, args, p, args.len() as int) is Some,
    decreases p - i,
{
    if i < p {
        required_from(names, required, args, i + 1, p);
    }
}

/// A call that can be bound gives every required parameter an argument.
pub proof fn required_parameters_given(
    names: Seq<Seq<char>>,
    required: nat,
    args: Seq<Arg>,
    p: int,
)
    requires
        bindable(names, required, args) == Checked::Ok(()),
        0 <= p < names.len(),
        p < required,
    ensures
        binder(names, args, p, args.len() as int) is Some,
{
    reveal(bindable);
    required_from(names, required, args, 0, p);
}

/// A call that passed the checks lacks nothing when it is compiled, if the
/// parameters that are not required have default values.
pub proof fn checked_call_lacks_nothing(
    names: Seq<Seq<char>>,
    required: nat,
    defaults: Seq<Option<Expr>>,
    args: Seq<Arg>,
    p: int,
)
    requires
        bindable(names, required, args) == Checked::Ok(()),
        defaults.len() == names.len(),
        forall|q: int| required <= q < defaults.len() ==> #[trigger] defaults[q] is Some,
        0 <= p < names.len(),
    ensures
        actual(names, defaults, args, p) != ActualView::Missing,
{
    if p < required {
        required_parameters_given(names, required, args, p);
    } else {
        assert(defaults[p] is Some);
    }
}

proof fn distinct_from(files: Seq<SourceFile>, k: int, j: int)
    requires
        0 <= k <= j < files.len(),
        distinct_classes(files, k) == FileChecked::Ok(()),
    ensures
        !declared_before(files, j),
    decreases j - k,
{
    if k < j {
        distinct_from(files, k + 1, j);
    }
}

/// In a program that passed the checks no two classes have the same name.
pub proof fn classes_are_distinct(files: Seq<SourceFile>, i: int, j: int)
    requires
        distinct_classes(files, 0) == FileChecked::Ok(()),
        0 <= i < j < files.len(),
    ensures
        full_name(files[i]) != full_name(files[j]),
{
    distinct_from(files, 0, j);
}

proof fn first_repeated_is(ms: Seq<MethodDecl>, k: int, i: int)
    requires
        0 <= k <= i < ms.len(),
        first_repeated(ms, k) == ms.len(),
    ensures
        !repeated(ms, i),
    decreases i - k,
{
    if k < i {
        first_repeated_is(ms, k + 1, i);
    }
}

proof fn first_repeated_bounds(ms: Seq<MethodDecl>, k: int)
    requires
        0 <= k <= ms.len(),
    ensures
        k <= first_repeated(ms, k) <= ms.len(),
    decreases ms.len() - k,
{
    if k < ms.len() && !repeated(ms, k) {
        first_repeated_bounds(ms, k + 1);
    }
}

/// In a class that passed the checks no two methods have the same signature.
pub proof fn methods_are_distinct(class: ClassDecl, i: int, j: int)
    requires
        duplicate_methods(class) == Checked::Ok(()),
        0 <= i < j < class.methods@.len(),
    ensures
        !same_signature(class.methods@[i], class.methods@[j]),
{
    first_repeated_bounds(class.methods@, 0);
    first_repeated_is(class.methods@, 0, i);
}

proof fn imports_from(file: SourceFile, files: Seq<SourceFile>, k: int, j: int)
    requires
        0 <= k <= j < file.uses@.len(),
        imports_distinct(file, files, k) == FileChecked::Ok(()),
    ensures
        !import_clash(file, files, j),
    decreases j - k,
{
    if k < j {
        imports_from(file, files, k + 1, j);
    }
}

/// In a file that passed the checks every import means the class that it
/// names.
pub proof fn imports_mean_what_they_name(
    file: SourceFile,
    files: Seq<SourceFile>,
    prelude: Prelude,
    i: int,
)
    requires
        imports_distinct(file, files, 0) == FileChecked::Ok(()),
        0 <= i < file.uses@.len(),
    ensures
        resolved_name(import_name(file.uses@[i]), imports_of(file, files, prelude))
            == file.uses@[i].path@,
{
    assert forall|j: int|
        i < j < file.uses@.len() && import_name(#[trigger] file.uses@[j]) == import_name(
            file.uses@[i],
        ) implies file.uses@[j].path@ == file.uses@[i].path@ by {
        imports_from(file, files, 0, j);
        if file.uses@[j].path@ != file.uses@[i].path@ {
            assert(rebinds(file.uses@[i], file.uses@[j]));
        }
    }
    import_binds(file, files, prelude, i);
}

/// The constructor that delegation from the `k`-th one reaches after `n`
/// steps.
pub open spec fn delegate_after(ctors: Seq<MethodDecl>, k: int, n: nat) -> Option<int>
    decreases n,
{
    if n == 0 {
        Some(k)
    } else {
        match delegate(ctors, k) {
            Some(next) => delegate_after(ctors, next, (n - 1) as nat),
            None => None,
        }
    }
}

proof fn delegates_iff(ctors: Seq<MethodDecl>, k: int, n: nat)
    ensures
        delegates_for(ctors, k, n) == (delegate_after(ctors, k, n) is Some),
    decreases n,
{
    if n > 0 {
        if let Some(next) = delegate(ctors, k) {
            delegates_iff(ctors, next, (n - 1) as nat);
        }
    }
}

proof fn delegate_adds(ctors: Seq<MethodDecl>, k: int, m: nat, n: nat)
    requires
        delegate_after(ctors, k, m) is Some,
    ensures
        delegate_after(ctors, k, m + n) == delegate_after(
            ctors,
            delegate_after(ctors, k, m)->0,
            n,
        ),
    decreases m,
{
    if m > 0 {
        delegate_adds(ctors, delegate(ctors, k)->0, (m - 1) as nat, n);
    }
}

proof fn delegate_prefix(ctors: Seq<MethodDecl>, k: int, m: nat, n: nat)
    requires
        m <= n,
        delegate_after(ctors, k, n) is Some,
    ensures
        delegate_after(ctors, k, m) is Some,
    decreases m,
{
    if m > 0 {
        delegate_prefix(ctors, delegate(ctors, k)->0, (m - 1) as nat, (n - 1) as nat);
    }
}

proof fn delegate_within(ctors: Seq<MethodDecl>, k: int, m: nat)
    requires
        0 <= k < ctors.len(),
        delegate_after(ctors, k, m) is Some,
    ensures
        0 <= delegate_after(ctors, k, m)->0 < ctors.len(),
    decreases m,
{
    if m > 0 {
        let next = delegate(ctors, k)->0;
        if let Some(argc) = delegation_argc(ctors[k]) {
            taker_bounds(ctors, argc, 0);
        }
        delegate_within(ctors, next, (m - 1) as nat);
    }
}

/// A delegation that goes on for as many steps as there are constructors
/// never ends: what is refused as a circle is one.
pub proof fn long_delegation_is_endless(ctors: Seq<MethodDecl>, k: int, n: nat)
    requires
        0 <= k < ctors.len(),
        delegates_for(ctors, k, ctors.len()),
    ensures
        delegates_for(ctors, k, n),
    decreases n,
{
    let len = ctors.len();
    delegates_iff(ctors, k, len);
    if n <= len {
        delegate_prefix(ctors, k, n, len);
        delegates_iff(ctors, k, n);
    } else {
        let ws = Seq::new(len + 1, |i: int| delegate_after(ctors, k, i as nat)->0);
        let pool = Seq::new(len, |i: int| i);
        assert forall|i: int| 0 <= i < ws.len() implies pool.contains(#[trigger] ws[i]) by {
            delegate_prefix(ctors, k, i as nat, len);
            delegate_within(ctors, k, i as nat);
            assert(pool[ws[i]] == ws[i]);
        }
        pigeonhole(ws, pool);
        let (i, j) = choose|i: int, j: int|
            0 <= i < j < ws.len() && #[trigger] ws[i] == #[trigger] ws[j];
        delegate_prefix(ctors, k, i as nat, len);
        delegate_prefix(ctors, k, j as nat, len);
        long_delegation_is_endless(ctors, k, (n - (j - i)) as nat);
        delegates_iff(ctors, k, (n - (j - i)) as nat);
        delegate_prefix(ctors, k, i as nat, (n - (j - i)) as nat);
        delegate_adds(ctors, k, i as nat, (n - j) as nat);
        delegate_adds(ctors, k, j as nat, (n - j) as nat);
        assert(delegate_after(ctors, k, n) == delegate_after(ctors, k, (n - (j - i)) as nat));
        delegates_iff(ctors, k, n);
    }
}

proof fn endless_from(ctors: Seq<MethodDecl>, i: int, k: int)
    requires
        0 <= i <= k < ctors.len(),
        first_endless(ctors, i) >= ctors.len(),
    ensures
        !delegates_for(ctors, k, ctors.len()),
    decreases k - i,
{
    if i < k {
        endless_from(ctors, i + 1, k);
    }
}

/// In a class that passed the checks every delegation ends.
pub proof fn delegation_ends(class: ClassDecl, k: int)
    requires
        constructor_delegation(class) == Checked::Ok(()),
        0 <= k < class_ctors(class).len(),
    ensures
        !delegates_for(class_ctors(class), k, class_ctors(class).len()),
{
    endless_from(class_ctors(class), 0, k);
}

/// A value may be stored where its own type is declared.
pub proof fn assignment_to_own_type(t: Classes, ty: TypeView)
    ensures
        assignment(t, ty, ty) == Checked::Ok(()),
{
    reveal(assignment);
    assignable_reflexive(ty);
}

/// A value may be cast to its own type.
pub proof fn cast_to_own_type(t: Classes, ty: TypeView)
    ensures
        castable(t, ty, ty) == Checked::Ok(()),
    decreases ty,
{
    if let TypeView::Array(elem) = ty {
        cast_to_own_type(t, *elem);
    }
}

/// An object may be cast to any class or interface above its own class, and
/// back.
pub proof fn cast_up_and_down(t: Classes, sub: Seq<char>, sup: Seq<char>)
    requires
        subclass(t, sub, sup) || implementing(t, sub, sup),
    ensures
        castable(t, TypeView::Named(sub), TypeView::Named(sup)) == Checked::Ok(()),
        castable(t, TypeView::Named(sup), TypeView::Named(sub)) == Checked::Ok(()),
{
}

/// An object may be stored as any class above its own.
pub proof fn object_assignable_upward(t: Classes, sub: Seq<char>, sup: Seq<char>)
    requires
        subclass(t, sub, sup),
    ensures
        assignment(t, TypeView::Named(sub), TypeView::Named(sup)) == Checked::Ok(()),
{
    reveal(assignment);
    reveal(object_assignable);
    let v = members_of(TypeView::Named(sub));
    let m = members_of(TypeView::Named(sup));
    assert(m[0] == TypeView::Named(sup));
    assert(v[0] == TypeView::Named(sub));
    assert(object_flows(t, v[0], m[0]));
    assert(object_accepted(t, v[0], m));
}

/// `null` is only stored where the type allows it.
pub proof fn null_is_refused(t: Classes, target: TypeView)
    requires
        !nullable(target),
    ensures
        assignment(t, TypeView::NullT, target) is Err,
{
    reveal(assignment);
}

/// Exceptions that need not be declared are handled everywhere.
pub proof fn unchecked_exceptions_are_free(c: EnvView, s: Flow, exc: Seq<char>)
    requires
        subclass(c.classes, exc, "RuntimeException"@),
    ensures
        handled(c, s, exc) == Checked::Ok(()),
{
    reveal(handled);
}

/// So is what the method declares, and what is below it.
pub proof fn declared_exceptions_are_handled(c: EnvView, s: Flow, exc: Seq<char>, i: int)
    requires
        0 <= i < c.method_throws.len(),
        subclass(c.classes, exc, c.method_throws[i]),
    ensures
        handled(c, s, exc) == Checked::Ok(()),
{
    reveal(handled);
    assert(caught_by(c.classes, exc, c.method_throws));
}

/// And what an enclosing `try` catches, and what is below it.
pub proof fn caught_exceptions_are_handled(c: EnvView, s: Flow, exc: Seq<char>, i: int, j: int)
    requires
        0 <= i < s.catch_stack.len(),
        0 <= j < s.catch_stack[i].len(),
        subclass(c.classes, exc, s.catch_stack[i][j]),
    ensures
        handled(c, s, exc) == Checked::Ok(()),
{
    reveal(handled);
    assert(caught_by(c.classes, exc, s.catch_stack[i]));
}

/// Where an exception is handled, those below it are.
pub proof fn handling_covers_subclasses(c: EnvView, s: Flow, exc: Seq<char>, sub: Seq<char>)
    requires
        checked_exception(c.classes, exc),
        handled(c, s, exc) == Checked::Ok(()),
        subclass(c.classes, sub, exc),
    ensures
        handled(c, s, sub) == Checked::Ok(()),
{
    reveal(handled);
    if caught_by(c.classes, exc, c.method_throws) {
        let i = choose|i: int|
            0 <= i < c.method_throws.len() && subclass(
                c.classes,
                exc,
                #[trigger] c.method_throws[i],
            );
        subclass_transitive(c.classes, sub, exc, c.method_throws[i]);
        declared_exceptions_are_handled(c, s, sub, i);
    } else {
        let i = choose|i: int|
            0 <= i < s.catch_stack.len() && caught_by(
                c.classes,
                exc,
                #[trigger] s.catch_stack[i],
            );
        let j = choose|j: int|
            0 <= j < s.catch_stack[i].len() && subclass(
                c.classes,
                exc,
                #[trigger] s.catch_stack[i][j],
            );
        subclass_transitive(c.classes, sub, exc, s.catch_stack[i][j]);
        caught_exceptions_are_handled(c, s, sub, i, j);
    }
}

/// Arithmetic gives a number, never a byte, and does not care for the order
/// of its operands' types.
pub proof fn arithmetic_is_numeric(op: BinOp, l: TypeView, r: TypeView)
    requires
        op == BinOp::Add || op == BinOp::Sub || op
            == BinOp::Mul || op == BinOp::Div || op
            == BinOp::Mod,
    ensures
        operated(op, l, r) matches Ok(t) ==> t is Int || t is Float,
        operated(op, l, r) is Ok == operated(op, r, l) is Ok,
{
    reveal(operated);
    widened_symmetric(l, r);
}

/// A program can be run if it has one `main`, and that is as it must be.
pub proof fn runnable_has_one_main(files: Seq<SourceFile>)
    ensures
        entry_point(files) is Ok == (mains(files, files.len() as int).len() == 1
            && entry_signature(mains(files, files.len() as int)[0].1)),
{
}

proof fn file_is_checked(
    files: Seq<SourceFile>,
    classes: Classes,
    prelude: Prelude,
    natives: Natives,
    acc: Seq<LocatedWarningView>,
    i: int,
    k: int,
)
    requires
        0 <= i <= k < files.len(),
        files_checked(files, classes, prelude, natives, acc, i) is Ok,
    ensures
        file_checked(files[k], files, classes, prelude, natives) is Ok,
    decreases k - i,
{
    if i < k {
        let ws = file_checked(files[i], files, classes, prelude, natives)->Ok_0;
        file_is_checked(files, classes, prelude, natives, acc + ws, i + 1, k);
    }
}

/// In a program that is accepted, every class keeps every rule.
pub proof fn accepted_class_keeps_the_rules(
    files: Seq<SourceFile>,
    sources: Seq<SourceFile>,
    insts: Seq<Instantiation>,
    prelude: Prelude,
    natives: Natives,
    k: int,
    class: ClassDecl,
)
    requires
        program_checked(files, sources, insts, prelude, natives) is Ok,
        0 <= k < files.len(),
        files[k].item == SourceItem::Class(class),
    ensures
        ({
            let classes = table_of(files, prelude);
            let imports = imports_of(files[k], files, prelude);
            let fqcn = full_name(files[k]);
            let sigs = static_sigs(class.methods@, imports, class.methods@.len() as int);
            &&& duplicate_methods(class) is Ok
            &&& constructor_delegation(class) is Ok
            &&& visibility_modifiers(class) is Ok
            &&& property_initialization(class, imports) is Ok
            &&& const_interface_impl(class, classes, fqcn) is Ok
            &&& abstract_final(class, classes, imports, fqcn) is Ok
            &&& methods_checked(
                class,
                sigs,
                classes,
                imports,
                natives,
                fqcn,
                Seq::empty(),
                0,
            ) is Ok
        }),
{
    file_is_checked(files, table_of(files, prelude), prelude, natives, Seq::empty(), 0, k);
}

/// A class that is accepted does not extend a final one.
pub proof fn final_class_is_not_extended(
    class: ClassDecl,
    classes: Classes,
    imports: Seq<(Seq<char>, Seq<char>)>,
    fqcn: Seq<char>,
    parent: Seq<char>,
    info: ClassInfoView,
)
    requires
        abstract_final(class, classes, imports, fqcn) is Ok,
        parent_of(classes, fqcn) == Some(parent),
        bound_to(classes, parent) == Some(info),
    ensures
        !info.is_final,
{
}

proof fn no_final_from(
    ms: Seq<MethodDecl>,
    classes: Classes,
    parent: Seq<char>,
    imports: Seq<(Seq<char>, Seq<char>)>,
    i: int,
    j: int,
)
    requires
        0 <= i <= j < ms.len(),
        no_final_overridden(ms, classes, parent, imports, i) is Ok,
        ms[j].kind == MethodKind::Normal,
    ensures
        exact_method(
            classes,
            parent,
            ms[j].name@,
            param_types(ms[j].params@, imports),
        ) matches Some(m) ==> !m.is_final,
    decreases j - i,
{
    if i < j {
        no_final_from(ms, classes, parent, imports, i + 1, j);
    }
}

/// Nor does it override a final method.
pub proof fn final_method_is_not_overridden(
    class: ClassDecl,
    classes: Classes,
    imports: Seq<(Seq<char>, Seq<char>)>,
    fqcn: Seq<char>,
    parent: Seq<char>,
    j: int,
)
    requires
        abstract_final(class, classes, imports, fqcn) is Ok,
        parent_of(classes, fqcn) == Some(parent),
        0 <= j < class.methods@.len(),
        class.methods@[j].kind == MethodKind::Normal,
    ensures
        exact_method(
            classes,
            parent,
            class.methods@[j].name@,
            param_types(class.methods@[j].params@, imports),
        ) matches Some(m) ==> !m.is_final,
{
    no_final_from(class.methods@, classes, parent, imports, 0, j);
}

proof fn first_unimplemented_is_first(
    classes: Classes,
    fqcn: Seq<char>,
    ms: Seq<MethodInfoView>,
    i: int,
    j: int,
)
    requires
        0 <= i <= j < ms.len(),
        unimplemented_in(classes, fqcn, ms[j]),
    ensures
        first_unimplemented(classes, fqcn, ms, i) <= j,
    decreases j - i,
{
    if i < j {
        first_unimplemented_is_first(classes, fqcn, ms, i + 1, j);
    }
}

proof fn implemented_above(
    class: ClassDecl,
    classes: Classes,
    fqcn: Seq<char>,
    current: Seq<char>,
    n: nat,
    d: nat,
    owner: Seq<char>,
    info: ClassInfoView,
    j: int,
)
    requires
        all_implemented(class, classes, fqcn, current, n) is Ok,
        d < n,
        ancestor(classes, current, d) == Some(owner),
        bound_to(classes, owner) == Some(info),
        0 <= j < info.methods.len(),
    ensures
        !unimplemented_in(classes, fqcn, info.methods[j]),
    decreases d,
{
    if d == 0 {
        if unimplemented_in(classes, fqcn, info.methods[j]) {
            first_unimplemented_is_first(classes, fqcn, info.methods, 0, j);
        }
    } else {
        let parent = parent_of(classes, current)->0;
        implemented_above(
            class,
            classes,
            fqcn,
            parent,
            (n - 1) as nat,
            (d - 1) as nat,
            owner,
            info,
            j,
        );
    }
}

/// A class that is accepted and not abstract leaves no method abstract that
/// it, or a class above it, declares: what a call finds has a body.
pub proof fn concrete_class_is_complete(
    class: ClassDecl,
    classes: Classes,
    imports: Seq<(Seq<char>, Seq<char>)>,
    fqcn: Seq<char>,
    owner: Seq<char>,
    info: ClassInfoView,
    j: int,
)
    requires
        abstract_final(class, classes, imports, fqcn) is Ok,
        !class.is_abstract,
        subclass(classes, fqcn, owner),
        bound_to(classes, owner) == Some(info),
        0 <= j < info.methods.len(),
        info.methods[j].is_abstract,
    ensures
        exact_method(
            classes,
            fqcn,
            info.methods[j].name,
            info.methods[j].params,
        ) matches Some(m) ==> !m.is_abstract,
{
    let d = bound_ancestor_is_near(classes, fqcn, owner);
    implemented_above(class, classes, fqcn, fqcn, classes.len(), d, owner, info, j);
}

proof fn sizes_given_stops(dims: Seq<Option<Expr>>, i: int, j: int)
    requires
        0 <= i <= j < dims.len(),
        dims[j] is None,
    ensures
        i + sizes_given(dims, i) <= j,
    decreases j - i,
{
    if i < j {
        sizes_given_stops(dims, i + 1, j);
    }
}

/// Where a size of a new array is omitted, all after it are.
pub proof fn omitted_sizes_come_last(
    c: EnvView,
    elem: Type,
    dims: Seq<Option<Expr>>,
    i: int,
    j: int,
)
    requires
        array_made(c, elem, dims) is Ok,
        0 <= i < j < dims.len(),
        dims[i] is None,
    ensures
        dims[j] is None,
{
    reveal(array_made);
    sizes_given_stops(dims, 0, i);
    if dims[j] is Some {
        assert(any_size(dims, sizes_given(dims, 0) as int));
    }
}

/// A readonly property is written by a constructor of the class that declares
/// it, on `this`, and nowhere else.
pub proof fn readonly_is_set_by_its_constructor(
    c: EnvView,
    target: Expr,
    fqcn: Seq<char>,
    name: Seq<char>,
    owner: Seq<char>,
    f: FieldInfoView,
)
    requires
        field_found(c.classes, fqcn, name) == Some((owner, f)),
        f.readonly || readonly_class(c.classes, owner),
    ensures
        writable(c, target, fqcn, name) is Ok == (c.is_constructor && c.this_fqcn == owner
            && target is This),
{
    reveal(writable);
}

/// A variable is read only where it is sure to have a value.
pub proof fn read_variable_has_a_value(s: Flow, name: Seq<char>, id: u32, ty: TypeView)
    requires
        s.lookup(name) == Some((id, ty)),
    ensures
        variable(s, name) is Ok == s.assigned.contains(id),
{
    reveal(variable);
}

/// A variable is written only where it is not constant; it then has a value,
/// of its declared type.
pub proof fn written_variable_is_mutable(
    c: EnvView,
    s: Flow,
    name: Seq<char>,
    value: TypeView,
    id: u32,
    ty: TypeView,
)
    requires
        s.lookup(name) == Some((id, ty)),
        stored(c, s, name, value) is Ok,
    ensures
        !s.const_vars.contains(id),
        !s.readonly_loop_vars.contains(id),
        stored(c, s, name, value) matches Ok((t, s1)) ==> t == ty && s1.assigned.contains(id)
            && s1.known_type(id, ty) == ty,
{
    reveal(stored);
    reveal(Flow::assign);
    reveal(Flow::forget);
}

/// Whether all variables in scope have numbers that were given out.
pub open spec fn numbers_given_out(s: Flow) -> bool {
    forall|i: int, j: int|
        0 <= i < s.scopes.len() && 0 <= j < s.scopes[i].len() ==> (
        #[trigger] s.scopes[i][j]).1.0 < s.next_id
}

/// A new variable has a number that no variable in scope has.
pub proof fn new_variable_has_a_new_number(s: Flow, name: Seq<char>, ty: TypeView)
    requires
        numbers_given_out(s),
        s.next_id < u32::MAX,
        s.scopes.len() > 0,
    ensures
        s.declare(name, ty).lookup(name) == Some((s.next_id, ty)),
        numbers_given_out(s.declare(name, ty)),
        forall|i: int, j: int|
            0 <= i < s.scopes.len() && 0 <= j < s.scopes[i].len() ==> (
            #[trigger] s.scopes[i][j]).1.0 != s.next_id,
{
    reveal(Flow::declare);
    reveal(Flow::lookup);
    let t = s.declare(name, ty);
    let n = s.scopes.len() as int;
    assert forall|i: int, j: int| 0 <= i < t.scopes.len() && 0 <= j < t.scopes[i].len() implies (
    #[trigger] t.scopes[i][j]).1.0 < t.next_id by {
        if i < n - 1 {
            assert(t.scopes[i] == s.scopes[i]);
            assert(s.scopes[i][j].1.0 < s.next_id);
        } else if j < s.scopes[i].len() {
            assert(t.scopes[i][j] == s.scopes[i][j]);
        }
    }
    bound_to_push(s.scopes[n - 1], name, (s.next_id, ty), name);
}

/// A class counts as a native one with instances exactly where its instances
/// have a method.
pub proof fn native_instances_are_those_with_methods(fqcn: Seq<char>)
    ensures
        native_instance(fqcn) <==> exists|name: Seq<char>, argc: nat|
            #[trigger] instance_sig(fqcn, name, argc) is Some,
{
    reveal(instance_sig);
    reveal_strlit("system.io.FileHandle");
    reveal_strlit("system.Random");
    reveal_strlit("system.net.TcpListener");
    reveal_strlit("system.net.TcpStream");
    reveal_strlit("system.net.UdpSocket");
    reveal_strlit("system.thread.Thread");
    reveal_strlit("system.thread.Mutex");
    reveal_strlit("system.thread.Semaphore");
    reveal_strlit("system.time.DateTime");
    reveal_strlit("system.time.TimeZone");
    if fqcn == "system.io.FileHandle"@ {
        assert(fqcn.len() == 20);
        assert(instance_sig(fqcn, "close"@, 0) is Some);
    }
    if fqcn == "system.Random"@ {
        assert(fqcn.len() == 13);
        assert(instance_sig(fqcn, "nextInt"@, 0) is Some);
    }
    if fqcn == "system.net.TcpListener"@ {
        assert(fqcn.len() == 22);
        assert(instance_sig(fqcn, "accept"@, 0) is Some);
    }
    if fqcn == "system.net.TcpStream"@ {
        assert(fqcn.len() == 20);
        assert(fqcn[7] != "system.io.FileHandle"@[7]);
        assert(instance_sig(fqcn, "read"@, 3) is Some);
    }
    if fqcn == "system.net.UdpSocket"@ {
        assert(fqcn.len() == 20);
        assert(fqcn[7] != "system.io.FileHandle"@[7]);
        assert(fqcn[11] != "system.net.TcpStream"@[11]);
        assert(instance_sig(fqcn, "bind"@, 2) is Some);
    }
    if fqcn == "system.thread.Thread"@ {
        assert(fqcn.len() == 20);
        assert(fqcn[7] != "system.io.FileHandle"@[7]);
        assert(fqcn[7] != "system.net.TcpStream"@[7]);
        assert(fqcn[7] != "system.net.UdpSocket"@[7]);
        assert(instance_sig(fqcn, "start"@, 0) is Some);
    }
    if fqcn == "system.thread.Mutex"@ {
        assert(fqcn.len() == 19);
        assert(instance_sig(fqcn, "lock"@, 0) is Some);
    }
    if fqcn == "system.thread.Semaphore"@ {
        assert(fqcn.len() == 23);
        assert(instance_sig(fqcn, "acquire"@, 0) is Some);
    }
    if fqcn == "system.time.DateTime"@ {
        assert(fqcn.len() == 20);
        assert(fqcn[7] != "system.io.FileHandle"@[7]);
        assert(fqcn[7] != "system.net.TcpStream"@[7]);
        assert(fqcn[7] != "system.net.UdpSocket"@[7]);
        assert(fqcn[8] != "system.thread.Thread"@[8]);
        assert(instance_sig(fqcn, "getYear"@, 0) is Some);
    }
    if fqcn == "system.time.TimeZone"@ {
        assert(fqcn.len() == 20);
        assert(fqcn[7] != "system.io.FileHandle"@[7]);
        assert(fqcn[7] != "system.net.TcpStream"@[7]);
        assert(fqcn[7] != "system.net.UdpSocket"@[7]);
        assert(fqcn[8] != "system.thread.Thread"@[8]);
        assert(fqcn[12] != "system.time.DateTime"@[12]);
        assert(instance_sig(fqcn, "getId"@, 0) is Some);
    }
}

/// The number in the code of an error.
spec fn rule_number(e: ErrorView) -> int {
    match e {
        ErrorView::NotDefinitelyAssigned(..) => 1,
        ErrorView::NullToNonNullable(..) => 3,
        ErrorView::NotAssignable(..) => 4,
        ErrorView::AutoWithoutInitializer => 5,
        ErrorView::BadCast(..) => 7,
        ErrorView::BadConcatenation(..) => 8,
        ErrorView::BadBinaryOperator(..) => 9,
        ErrorView::BadUnaryOperator(..) => 9,
        ErrorView::DuplicateMethod(..) => 41,
        ErrorView::DiamondInterfaceConflict(..) => 41,
        ErrorView::DuplicateClass(..) => 42,
        ErrorView::ThisCallNotFirst => 45,
        ErrorView::DelegationCycle(..) => 46,
        ErrorView::MatchNotExhaustive(..) => 47,
        ErrorView::UnreachableCatch(..) => 48,
        ErrorView::UnhandledCheckedException(..) => 15,
        ErrorView::MissingThrowsInOverride(..) => 16,
        ErrorView::ExtraThrowsInOverride(..) => 17,
        ErrorView::NoMainMethod => 27,
        ErrorView::MultipleMainMethods => 28,
        ErrorView::BadMainSignature => 29,
        ErrorView::StaticContextMisuse(..) => 40,
        ErrorView::DuplicateImportSymbol(..) => 43,
        ErrorView::NonNullableArrayFixedSize(..) => 31,
        ErrorView::MemberNotAccessible(..) => 18,
        ErrorView::MissingVisibilityModifier(..) => 19,
        ErrorView::PropertyNotInitialized(..) => 2,
        ErrorView::ConstMethodPropertyModification(..) => 10,
        ErrorView::ConstMethodNonConstCall(..) => 11,
        ErrorView::MethodMustBeConst(..) => 44,
        ErrorView::ConstModification(..) => 12,
        ErrorView::ConstLoopVariableModification(..) => 39,
        ErrorView::TemplateBoundNotSatisfied(..) => 37,
        ErrorView::TemplateOperatorUnsupported(..) => 6,
        ErrorView::ReadonlyClassModification(..) => 13,
        ErrorView::ReadonlyPropertyModification(..) => 14,
        ErrorView::InstantiateAbstractClass(..) => 32,
        ErrorView::ClassMustBeAbstract(..) => 33,
        ErrorView::AbstractMethodHasBody(..) => 34,
        ErrorView::ExtendFinalClass(..) => 35,
        ErrorView::OverrideFinalMethod(..) => 36,
        ErrorView::ConflictingModifiers(..) => 49,
        ErrorView::NonContiguousArrayDimensionOmission(..) => 38,
        ErrorView::RequiredParamNotProvided(..) => 23,
        ErrorView::PositionalArgAfterNamed => 24,
        ErrorView::ParamProvidedTwice(..) => 25,
        ErrorView::DefaultNotConstant(..) => 26,
        ErrorView::RefArgNotVariable(..) => 20,
        ErrorView::MissingRefKeyword(..) => 21,
        ErrorView::OptionalCannotBeRef => 22,
    }
}

spec fn decimal_digit(n: int) -> char {
    (n + '0' as int) as char
}

proof fn code_is_numbered(e: ErrorView)
    ensures
        0 <= rule_number(e) < 1000,
        e.code().len() == 4,
        e.code()[0] == 'E',
        e.code()[1] == decimal_digit(rule_number(e) / 100),
        e.code()[2] == decimal_digit(rule_number(e) / 10 % 10),
        e.code()[3] == decimal_digit(rule_number(e) % 10),
{
    reveal_strlit("E001");
    reveal_strlit("E002");
    reveal_strlit("E003");
    reveal_strlit("E004");
    reveal_strlit("E005");
    reveal_strlit("E006");
    reveal_strlit("E007");
    reveal_strlit("E008");
    reveal_strlit("E009");
    reveal_strlit("E010");
    reveal_strlit("E011");
    reveal_strlit("E012");
    reveal_strlit("E013");
    reveal_strlit("E014");
    reveal_strlit("E015");
    reveal_strlit("E016");
    reveal_strlit("E017");
    reveal_strlit("E018");
    reveal_strlit("E019");
    reveal_strlit("E020");
    reveal_strlit("E021");
    reveal_strlit("E022");
    reveal_strlit("E023");
    reveal_strlit("E024");
    reveal_strlit("E025");
    reveal_strlit("E026");
    reveal_strlit("E027");
    reveal_strlit("E028");
    reveal_strlit("E029");
    reveal_strlit("E031");
    reveal_strlit("E032");
    reveal_strlit("E033");
    reveal_strlit("E034");
    reveal_strlit("E035");
    reveal_strlit("E036");
    reveal_strlit("E037");
    reveal_strlit("E038");
    reveal_strlit("E039");
    reveal_strlit("E040");
    reveal_strlit("E041");
    reveal_strlit("E042");
    reveal_strlit("E043");
    reveal_strlit("E044");
    reveal_strlit("E045");
    reveal_strlit("E046");
    reveal_strlit("E047");
    reveal_strlit("E048");
    reveal_strlit("E049");
}

/// Every message begins with the code of its error and a dash; a code is an
/// `E` and three digits.
pub proof fn message_begins_with_its_code(e: ErrorView)
    ensures
        e.code().len() == 4,
        e.code()[0] == 'E',
        forall|i: int| 1 <= i < 4 ==> '0' <= #[trigger] e.code()[i] <= '9',
        begins_with(e.text(), e.code() + " — "@),
{
    code_is_numbered(e);
    let head = e.code() + " — "@;
    assert(e.text().take(head.len() as int) =~= head);
    assert forall|i: int| 1 <= i < 4 implies '0' <= #[trigger] e.code()[i] <= '9' by {
        assert(i == 1 || i == 2 || i == 3);
    }
}

/// Whether two errors violate the same rule: they are of the same kind, or an
/// operator is missing in both, or both are about a method that is there
/// twice.
pub open spec fn same_rule(a: ErrorView, b: ErrorView) -> bool {
    match (a, b) {
        (ErrorView::NotDefinitelyAssigned(..), ErrorView::NotDefinitelyAssigned(..)) => true,
        (ErrorView::NullToNonNullable(..), ErrorView::NullToNonNullable(..)) => true,
        (ErrorView::NotAssignable(..), ErrorView::NotAssignable(..)) => true,
        (ErrorView::AutoWithoutInitializer, ErrorView::AutoWithoutInitializer) => true,
        (ErrorView::BadCast(..), ErrorView::BadCast(..)) => true,
        (ErrorView::BadConcatenation(..), ErrorView::BadConcatenation(..)) => true,
        (ErrorView::BadBinaryOperator(..), ErrorView::BadBinaryOperator(..)) => true,
        (ErrorView::BadUnaryOperator(..), ErrorView::BadUnaryOperator(..)) => true,
        (ErrorView::DuplicateMethod(..), ErrorView::DuplicateMethod(..)) => true,
        (ErrorView::DiamondInterfaceConflict(..), ErrorView::DiamondInterfaceConflict(..)) => true,
        (ErrorView::DuplicateClass(..), ErrorView::DuplicateClass(..)) => true,
        (ErrorView::ThisCallNotFirst, ErrorView::ThisCallNotFirst) => true,
        (ErrorView::DelegationCycle(..), ErrorView::DelegationCycle(..)) => true,
        (ErrorView::MatchNotExhaustive(..), ErrorView::MatchNotExhaustive(..)) => true,
        (ErrorView::UnreachableCatch(..), ErrorView::UnreachableCatch(..)) => true,
        (ErrorView::UnhandledCheckedException(..), ErrorView::UnhandledCheckedException(..)) => true,
        (ErrorView::MissingThrowsInOverride(..), ErrorView::MissingThrowsInOverride(..)) => true,
        (ErrorView::ExtraThrowsInOverride(..), ErrorView::ExtraThrowsInOverride(..)) => true,
        (ErrorView::NoMainMethod, ErrorView::NoMainMethod) => true,
        (ErrorView::MultipleMainMethods, ErrorView::MultipleMainMethods) => true,
        (ErrorView::BadMainSignature, ErrorView::BadMainSignature) => true,
        (ErrorView::StaticContextMisuse(..), ErrorView::StaticContextMisuse(..)) => true,
        (ErrorView::DuplicateImportSymbol(..), ErrorView::DuplicateImportSymbol(..)) => true,
        (ErrorView::NonNullableArrayFixedSize(..), ErrorView::NonNullableArrayFixedSize(..)) => true,
        (ErrorView::MemberNotAccessible(..), ErrorView::MemberNotAccessible(..)) => true,
        (ErrorView::MissingVisibilityModifier(..), ErrorView::MissingVisibilityModifier(..)) => true,
        (ErrorView::PropertyNotInitialized(..), ErrorView::PropertyNotInitialized(..)) => true,
        (ErrorView::ConstMethodPropertyModification(..), ErrorView::ConstMethodPropertyModification(..)) => true,
        (ErrorView::ConstMethodNonConstCall(..), ErrorView::ConstMethodNonConstCall(..)) => true,
        (ErrorView::MethodMustBeConst(..), ErrorView::MethodMustBeConst(..)) => true,
        (ErrorView::ConstModification(..), ErrorView::ConstModification(..)) => true,
        (ErrorView::ConstLoopVariableModification(..), ErrorView::ConstLoopVariableModification(..)) => true,
        (ErrorView::TemplateBoundNotSatisfied(..), ErrorView::TemplateBoundNotSatisfied(..)) => true,
        (ErrorView::TemplateOperatorUnsupported(..), ErrorView::TemplateOperatorUnsupported(..)) => true,
        (ErrorView::ReadonlyClassModification(..), ErrorView::ReadonlyClassModification(..)) => true,
        (ErrorView::ReadonlyPropertyModification(..), ErrorView::ReadonlyPropertyModification(..)) => true,
        (ErrorView::InstantiateAbstractClass(..), ErrorView::InstantiateAbstractClass(..)) => true,
        (ErrorView::ClassMustBeAbstract(..), ErrorView::ClassMustBeAbstract(..)) => true,
        (ErrorView::AbstractMethodHasBody(..), ErrorView::AbstractMethodHasBody(..)) => true,
        (ErrorView::ExtendFinalClass(..), ErrorView::ExtendFinalClass(..)) => true,
        (ErrorView::OverrideFinalMethod(..), ErrorView::OverrideFinalMethod(..)) => true,
        (ErrorView::ConflictingModifiers(..), ErrorView::ConflictingModifiers(..)) => true,
        (ErrorView::NonContiguousArrayDimensionOmission(..), ErrorView::NonContiguousArrayDimensionOmission(..)) => true,
        (ErrorView::RequiredParamNotProvided(..), ErrorView::RequiredParamNotProvided(..)) => true,
        (ErrorView::PositionalArgAfterNamed, ErrorView::PositionalArgAfterNamed) => true,
        (ErrorView::ParamProvidedTwice(..), ErrorView::ParamProvidedTwice(..)) => true,
        (ErrorView::DefaultNotConstant(..), ErrorView::DefaultNotConstant(..)) => true,
        (ErrorView::RefArgNotVariable(..), ErrorView::RefArgNotVariable(..)) => true,
        (ErrorView::MissingRefKeyword(..), ErrorView::MissingRefKeyword(..)) => true,
        (ErrorView::OptionalCannotBeRef, ErrorView::OptionalCannotBeRef) => true,
        (ErrorView::BadBinaryOperator(..), ErrorView::BadUnaryOperator(..)) => true,
        (ErrorView::BadUnaryOperator(..), ErrorView::BadBinaryOperator(..)) => true,
        (ErrorView::DuplicateMethod(..), ErrorView::DiamondInterfaceConflict(..)) => true,
        (ErrorView::DiamondInterfaceConflict(..), ErrorView::DuplicateMethod(..)) => true,
        _ => false,
    }
}

proof fn numbered_by_rule(a: ErrorView, b: ErrorView)
    ensures
        same_rule(a, b) == (rule_number(a) == rule_number(b)),
{
}

/// Two errors have the same code exactly where they violate the same rule,
/// whatever they name.
pub proof fn codes_tell_rules_apart(a: ErrorView, b: ErrorView)
    ensures
        (a.code() == b.code()) == same_rule(a, b),
{
    code_is_numbered(a);
    code_is_numbered(b);
    numbered_by_rule(a, b);
    if rule_number(a) == rule_number(b) {
        assert(a.code() =~= b.code());
    }
}

proof fn char_pos_finds(s: Seq<char>, c: char, i: int)
    requires
        0 <= i <= s.len(),
    ensures
        (char_pos(s, c, i) < s.len()) == (exists|k: int| i <= k < s.len() && s[k] == c),
    decreases s.len() - i,
{
    if i < s.len() && s[i] != c {
        char_pos_finds(s, c, i + 1);
    }
}

/// Inside an expanded template, whose name holds a `<`, a missing operator is
/// the fault of the template's argument; every other error stays as it is, and
/// so does one that was relabelled already.
pub proof fn relabelling_is_for_operators_in_templates(e: ErrorView, this_fqcn: Seq<char>)
    ensures
        if this_fqcn.contains('<') && e.code() == "E009"@ {
            relabeled(e, this_fqcn).code() == "E006"@
        } else {
            relabeled(e, this_fqcn) == e
        },
        relabeled(relabeled(e, this_fqcn), this_fqcn) == relabeled(e, this_fqcn),
{
    char_pos_finds(this_fqcn, '<', 0);
    let missing = ErrorView::BadUnaryOperator(Seq::empty(), Seq::empty());
    codes_tell_rules_apart(e, missing);
}

/// Whether a type is one of the seven that have a name of their own.
pub open spec fn primitive_type(t: TypeView) -> bool {
    t is Int || t is Float || t is Bool || t is Byte || t is StringT || t is Void || t is NullT
}

proof fn joined_holds_separator(parts: Seq<Seq<char>>, sep: Seq<char>, c: char)
    requires
        parts.len() >= 2,
        sep.contains(c),
    ensures
        join_text(parts, sep).contains(c),
{
    let front = join_text(parts.drop_last(), sep);
    let k = sep.index_of(c);
    assert(sep[k] == c);
    assert((front + sep + parts.last())[front.len() + k] == c);
}

/// How a type is written is the name of a primitive type exactly where it is
/// one, except for a class with such a name and a union of one member.
pub proof fn primitive_names_are_for_primitive_types(t: TypeView)
    requires
        t matches TypeView::Named(name) ==> !primitive_name(name),
        t matches TypeView::Union(members) ==> members.len() != 1,
    ensures
        primitive_name(display_text(t)) == primitive_type(t),
{
    reveal_strlit("int");
    reveal_strlit("float");
    reveal_strlit("bool");
    reveal_strlit("byte");
    reveal_strlit("string");
    reveal_strlit("void");
    reveal_strlit("null");
    reveal_strlit("[]");
    reveal_strlit("|");
    reveal_strlit(">");
    reveal_strlit("(");
    let text = display_text(t);
    match t {
        TypeView::Array(_) => {
            assert(text.last() == ']');
        },
        TypeView::Union(members) => {
            if members.len() >= 2 {
                assert("|"@[0] == '|');
                joined_holds_separator(display_texts(members), "|"@, '|');
            }
        },
        TypeView::Generic(_, _) => {
            assert(text.last() == '>');
        },
        TypeView::Function { .. } => {
            assert(text[0] == '(');
        },
        _ => {},
    }
}

} // verus!
