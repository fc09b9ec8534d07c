//! The rules on the declarations of a class.

use crate::ast::{
    same_type, type_views, CatchClause, ClassDecl, Expr, FieldDecl, LValue, MethodDecl, MethodKind,
    Param, Stmt, StmtKind, Type, TypeView,
};
use crate::class_table::{
    arity_fits, arity_in_range, find_method_exact, interface_closure, interfaces_from,
    is_subclass_or_same, just_method,
    leading_required, method_found, method_infos, param_types, param_types_of, parent_of,
    required_count, resolve_throws, subclass, thrown_types, ClassTable, Classes, MethodInfo,
    MethodInfoView, Wanted,
};
use crate::names::{bound_to, NameMap};
use crate::resolve::{opt_string, resolve_type, resolved_type};
use crate::sema::error::{checked_as, Checked, ErrorView, SemaError};
use crate::sema::types::{display, display_text, is_primitive_display, primitive_name};
use crate::size::{block_size, catch_smaller, catches_size, stmt_no_larger, stmt_size};
use crate::text::{char_pos, contains_char, head, head_text, owned, str_eq, texts};
use vstd::prelude::*;

verus! {

/// The types of parameters as they are written.
pub open spec fn written_types(params: Seq<Param>) -> Seq<TypeView> {
    params.map_values(|p: Param| p.ty@)
}

/// Whether two methods have the same name and parameter types.
pub open spec fn same_signature(a: MethodDecl, b: MethodDecl) -> bool {
    a.name@ == b.name@ && written_types(a.params@) == written_types(b.params@)
}

fn signatures_equal(a: &MethodDecl, b: &MethodDecl) -> (r: bool)
    ensures
        r == same_signature(*a, *b),
{
    let ghost ta = written_types(a.params@);
    let ghost tb = written_types(b.params@);
    if !str_eq(a.name.as_str(), b.name.as_str()) {
        return false;
    }
    if a.params.len() != b.params.len() {
        assert(ta.len() != tb.len());
        return false;
    }
    let mut i: usize = 0;
    while i < a.params.len()
        invariant
            i <= a.params@.len(),
            a.params@.len() == b.params@.len(),
            ta == written_types(a.params@),
            tb == written_types(b.params@),
            forall|j: int| 0 <= j < i ==> ta[j] == tb[j],
        decreases a.params@.len() - i,
    {
        if !same_type(&a.params[i].ty, &b.params[i].ty) {
            assert(ta[i as int] != tb[i as int]);
            return false;
        }
        assert(ta[i as int] == tb[i as int]);
        i = i + 1;
    }
    assert(ta =~= tb);
    true
}

/// Whether a later method has the signature of the `i`-th.
pub open spec fn repeated(ms: Seq<MethodDecl>, i: int) -> bool {
    exists|j: int| i < j < ms.len() && same_signature(ms[i], #[trigger] ms[j])
}

/// The first method from the `i`-th on whose signature comes again, or the
/// number of methods.
pub open spec fn first_repeated(ms: Seq<MethodDecl>, i: int) -> int
    decreases ms.len() - i,
{
    if i >= ms.len() {
        ms.len() as int
    } else if repeated(ms, i) {
        i
    } else {
        first_repeated(ms, i + 1)
    }
}

/// No two methods of a class have the same signature.
pub open spec fn duplicate_methods(class: ClassDecl) -> Checked {
    let i = first_repeated(class.methods@, 0);
    if i < class.methods@.len() {
        Err(ErrorView::DuplicateMethod(class.methods@[i].name@, class.name@))
    } else {
        Ok(())
    }
}

pub fn check_duplicate_methods(class: &ClassDecl) -> (r: Result<(), SemaError>)
    ensures
        checked_as(r, duplicate_methods(*class)),
{
    let ms = &class.methods;
    let mut i: usize = 0;
    while i < ms.len()
        invariant
            i <= ms@.len(),
            ms == class.methods,
            first_repeated(ms@, 0) == first_repeated(ms@, i as int),
        decreases ms@.len() - i,
    {
        let mut j: usize = i + 1;
        while j < ms.len()
            invariant
                i < j <= ms@.len(),
                ms == class.methods,
                first_repeated(ms@, 0) == first_repeated(ms@, i as int),
                forall|k: int| i < k < j ==> !same_signature(ms@[i as int], #[trigger] ms@[k]),
            decreases ms@.len() - j,
        {
            if signatures_equal(&ms[i], &ms[j]) {
                assert(repeated(ms@, i as int));
                return Err(SemaError::DuplicateMethod(ms[i].name.clone(), class.name.clone()));
            }
            j = j + 1;
        }
        assert(!repeated(ms@, i as int));
        i = i + 1;
    }
    Ok(())
}

/// The first field from the `i`-th on without a visibility modifier.
pub open spec fn first_bare_field(fs: Seq<FieldDecl>, i: int) -> int
    decreases fs.len() - i,
{
    if i >= fs.len() {
        fs.len() as int
    } else if !fs[i].visibility_explicit {
        i
    } else {
        first_bare_field(fs, i + 1)
    }
}

pub open spec fn first_bare_method(ms: Seq<MethodDecl>, i: int) -> int
    decreases ms.len() - i,
{
    if i >= ms.len() {
        ms.len() as int
    } else if !ms[i].visibility_explicit {
        i
    } else {
        first_bare_method(ms, i + 1)
    }
}

/// Every member says how visible it is.
pub open spec fn visibility_modifiers(class: ClassDecl) -> Checked {
    let f = first_bare_field(class.fields@, 0);
    let m = first_bare_method(class.methods@, 0);
    if f < class.fields@.len() {
        Err(ErrorView::MissingVisibilityModifier(class.fields@[f].name@))
    } else if m < class.methods@.len() {
        Err(ErrorView::MissingVisibilityModifier(class.methods@[m].name@))
    } else {
        Ok(())
    }
}

pub fn check_visibility_modifiers(class: &ClassDecl) -> (r: Result<(), SemaError>)
    ensures
        checked_as(r, visibility_modifiers(*class)),
{
    let mut i: usize = 0;
    while i < class.fields.len()
        invariant
            i <= class.fields@.len(),
            first_bare_field(class.fields@, 0) == first_bare_field(class.fields@, i as int),
        decreases class.fields@.len() - i,
    {
        if !class.fields[i].visibility_explicit {
            return Err(SemaError::MissingVisibilityModifier(class.fields[i].name.clone()));
        }
        i = i + 1;
    }
    let mut j: usize = 0;
    while j < class.methods.len()
        invariant
            j <= class.methods@.len(),
            first_bare_field(class.fields@, 0) == class.fields@.len(),
            first_bare_method(class.methods@, 0) == first_bare_method(class.methods@, j as int),
        decreases class.methods@.len() - j,
    {
        if !class.methods[j].visibility_explicit {
            return Err(SemaError::MissingVisibilityModifier(class.methods[j].name.clone()));
        }
        j = j + 1;
    }
    Ok(())
}

/// The constructors among the first `n` methods.
pub open spec fn ctor_decls(ms: Seq<MethodDecl>, n: int) -> Seq<MethodDecl>
    decreases n,
{
    if n <= 0 {
        Seq::empty()
    } else if ms[n - 1].kind == MethodKind::Constructor {
        ctor_decls(ms, n - 1).push(ms[n - 1])
    } else {
        ctor_decls(ms, n - 1)
    }
}

pub open spec fn class_ctors(class: ClassDecl) -> Seq<MethodDecl> {
    ctor_decls(class.methods@, class.methods@.len() as int)
}

pub open spec fn decls(v: Seq<&MethodDecl>) -> Seq<MethodDecl> {
    v.map_values(|m: &MethodDecl| *m)
}

fn constructors_of<'a>(class: &'a ClassDecl) -> (r: Vec<&'a MethodDecl>)
    ensures
        decls(r@) == class_ctors(*class),
{
    let mut out: Vec<&'a MethodDecl> = Vec::new();
    let mut i: usize = 0;
    assert(decls(out@) =~= ctor_decls(class.methods@, 0));
    while i < class.methods.len()
        invariant
            i <= class.methods@.len(),
            decls(out@) == ctor_decls(class.methods@, i as int),
        decreases class.methods@.len() - i,
    {
        if class.methods[i].kind == MethodKind::Constructor {
            let ghost before = decls(out@);
            out.push(&class.methods[i]);
            assert(decls(out@) =~= before.push(class.methods@[i as int]));
        }
        i = i + 1;
    }
    out
}

/// Whether a call with `argc` arguments can mean a method.
pub open spec fn takes(m: MethodDecl, argc: nat) -> bool {
    arity_fits(leading_required(m.params@, 0), m.params@.len(), argc)
}

/// The first constructor from the `i`-th on that takes `argc` arguments, or
/// their number.
pub open spec fn taker(ctors: Seq<MethodDecl>, argc: nat, i: int) -> int
    decreases ctors.len() - i,
{
    if i >= ctors.len() {
        ctors.len() as int
    } else if takes(ctors[i], argc) {
        i
    } else {
        taker(ctors, argc, i + 1)
    }
}

pub proof fn taker_bounds(ctors: Seq<MethodDecl>, argc: nat, i: int)
    requires
        0 <= i <= ctors.len(),
    ensures
        i <= taker(ctors, argc, i) <= ctors.len(),
    decreases ctors.len() - i,
{
    if i < ctors.len() && !takes(ctors[i], argc) {
        taker_bounds(ctors, argc, i + 1);
    }
}

fn find_taker(ctors: &Vec<&MethodDecl>, argc: usize) -> (r: Option<usize>)
    ensures
        match r {
            Some(k) => k == taker(decls(ctors@), argc as nat, 0) && k < ctors@.len(),
            None => taker(decls(ctors@), argc as nat, 0) == ctors@.len(),
        },
{
    let ghost ds = decls(ctors@);
    let mut i: usize = 0;
    while i < ctors.len()
        invariant
            i <= ctors@.len(),
            ds == decls(ctors@),
            taker(ds, argc as nat, 0) == taker(ds, argc as nat, i as int),
        decreases ctors@.len() - i,
    {
        assert(ds[i as int] == *ctors@[i as int]);
        if arity_in_range(required_count(&ctors[i].params), ctors[i].params.len(), argc) {
            return Some(i);
        }
        i = i + 1;
    }
    None
}

/// The arguments of the `this(...)` call that a constructor begins with.
pub open spec fn delegation_argc(ctor: MethodDecl) -> Option<nat> {
    if ctor.body@.len() > 0 {
        match ctor.body@[0].kind {
            StmtKind::ThisCall(args) => Some(args@.len()),
            _ => None,
        }
    } else {
        None
    }
}

fn delegated_argc(ctor: &MethodDecl) -> (r: Option<usize>)
    ensures
        match r {
            Some(n) => delegation_argc(*ctor) == Some(n as nat),
            None => delegation_argc(*ctor) is None,
        },
{
    if ctor.body.len() > 0 {
        match &ctor.body[0].kind {
            StmtKind::ThisCall(args) => Some(args.len()),
            _ => None,
        }
    } else {
        None
    }
}

/// The constructor that the `k`-th one leaves its work to.
pub open spec fn delegate(ctors: Seq<MethodDecl>, k: int) -> Option<int> {
    match delegation_argc(ctors[k]) {
        Some(argc) => {
            let next = taker(ctors, argc, 0);
            if next < ctors.len() {
                Some(next)
            } else {
                None
            }
        },
        None => None,
    }
}

/// Whether delegation from the `k`-th constructor goes on for `n` steps.
pub open spec fn delegates_for(ctors: Seq<MethodDecl>, k: int, n: nat) -> bool
    decreases n,
{
    n == 0 || match delegate(ctors, k) {
        Some(next) => delegates_for(ctors, next, (n - 1) as nat),
        None => false,
    }
}

/// The first constructor from the `k`-th on whose delegation does not end.
pub open spec fn first_endless(ctors: Seq<MethodDecl>, k: int) -> int
    decreases ctors.len() - k,
{
    if k >= ctors.len() {
        ctors.len() as int
    } else if delegates_for(ctors, k, ctors.len()) {
        k
    } else {
        first_endless(ctors, k + 1)
    }
}

/// Whether a `this(...)` or `super(...)` call stands anywhere but first.
pub open spec fn late_delegation(body: Seq<Stmt>) -> bool {
    exists|i: int|
        0 < i < body.len() && ((#[trigger] body[i]).kind is ThisCall || body[i].kind is SuperCall)
}

/// Whether it does in any constructor from the `k`-th on.
pub open spec fn any_late(ctors: Seq<MethodDecl>, k: int) -> bool
    decreases ctors.len() - k,
{
    k < ctors.len() && (late_delegation(ctors[k].body@) || any_late(ctors, k + 1))
}

/// Constructors delegate in their first statement, and not in a circle.
pub open spec fn constructor_delegation(class: ClassDecl) -> Checked {
    let ctors = class_ctors(class);
    if any_late(ctors, 0) {
        Err(ErrorView::ThisCallNotFirst)
    } else if first_endless(ctors, 0) < ctors.len() {
        Err(ErrorView::DelegationCycle(class.name@))
    } else {
        Ok(())
    }
}

fn has_late_delegation(body: &Vec<Stmt>) -> (r: bool)
    ensures
        r == late_delegation(body@),
{
    let mut i: usize = 1;
    while i < body.len()
        invariant
            1 <= i,
            forall|j: int|
                0 < j < i && j < body@.len() ==> !((#[trigger] body@[j]).kind is ThisCall
                    || body@[j].kind is SuperCall),
        decreases body@.len() - i,
    {
        if matches!(body[i].kind, StmtKind::ThisCall(_) | StmtKind::SuperCall(_)) {
            assert(body@[i as int].kind is ThisCall || body@[i as int].kind is SuperCall);
            return true;
        }
        i = i + 1;
    }
    false
}

fn runs_forever(ctors: &Vec<&MethodDecl>, start: usize) -> (r: bool)
    requires
        start < ctors@.len(),
    ensures
        r == delegates_for(decls(ctors@), start as int, ctors@.len()),
{
    let ghost ds = decls(ctors@);
    let mut current: usize = start;
    let mut n: usize = ctors.len();
    while n > 0
        invariant
            ds == decls(ctors@),
            current < ctors@.len(),
            delegates_for(ds, start as int, ctors@.len()) == delegates_for(
                ds,
                current as int,
                n as nat,
            ),
        decreases n,
    {
        assert(ds[current as int] == *ctors@[current as int]);
        let argc: usize = match delegated_argc(ctors[current]) {
            Some(argc) => argc,
            None => return false,
        };
        match find_taker(ctors, argc) {
            Some(next) => {
                current = next;
            },
            None => return false,
        }
        n = n - 1;
    }
    true
}

pub fn check_constructor_delegation(class: &ClassDecl) -> (r: Result<(), SemaError>)
    ensures
        checked_as(r, constructor_delegation(*class)),
{
    let ctors = constructors_of(class);
    let ghost ds = decls(ctors@);
    let mut i: usize = 0;
    while i < ctors.len()
        invariant
            i <= ctors@.len(),
            ds == decls(ctors@),
            ds == class_ctors(*class),
            any_late(ds, 0) == any_late(ds, i as int),
        decreases ctors@.len() - i,
    {
        assert(ds[i as int] == *ctors@[i as int]);
        if has_late_delegation(&ctors[i].body) {
            return Err(SemaError::ThisCallNotFirst);
        }
        i = i + 1;
    }
    let mut k: usize = 0;
    while k < ctors.len()
        invariant
            k <= ctors@.len(),
            ds == decls(ctors@),
            ds == class_ctors(*class),
            !any_late(ds, 0),
            first_endless(ds, 0) == first_endless(ds, k as int),
        decreases ctors@.len() - k,
    {
        if runs_forever(&ctors, k) {
            return Err(SemaError::DelegationCycle(class.name.clone()));
        }
        k = k + 1;
    }
    Ok(())
}

/// What is known after code of a constructor: whether the property is set, and
/// whether the code never runs to its end. There is no answer where the
/// constructor can return without having set it.
pub type Setting = Option<(bool, bool)>;

/// Whether a statement is `this.name = ...`.
pub open spec fn sets(stmt: Stmt, name: Seq<char>) -> bool {
    match stmt.kind {
        StmtKind::Expr(Expr::Assign(LValue::Field(target, field), _)) => *target is This && field@
            == name,
        _ => false,
    }
}

fn is_setting(stmt: &Stmt, name: &str) -> (r: bool)
    ensures
        r == sets(*stmt, name@),
{
    match &stmt.kind {
        StmtKind::Expr(Expr::Assign(LValue::Field(target, field), _)) => matches!(
            **target,
            Expr::This
        ) && str_eq(field.as_str(), name),
        _ => false,
    }
}

/// What is known where two ways of running come together.
pub open spec fn joined(a: (bool, bool), b: (bool, bool)) -> (bool, bool) {
    match (a.1, b.1) {
        (true, true) => (true, true),
        (true, false) => (b.0, false),
        (false, true) => (a.0, false),
        (false, false) => (a.0 && b.0, false),
    }
}

/// After the statements of a list from the `i`-th on. What follows the end of
/// a way of running is not looked at.
pub open spec fn set_after(
    stmts: Seq<Stmt>,
    name: Seq<char>,
    known: (bool, bool),
    i: int,
) -> Setting
    decreases block_size(stmts), 1nat, (stmts.len() - i) as nat,
{
    if i < 0 || i >= stmts.len() || known.1 {
        Some(known)
    } else {
        proof {
            stmt_no_larger(stmts, i);
        }
        match set_after_stmt(stmts[i], name, known.0) {
            Some(next) => set_after(stmts, name, next, i + 1),
            None => None,
        }
    }
}

/// Whether there is an answer for each of the handlers from the `i`-th on.
pub open spec fn handlers_answer(
    catches: Seq<CatchClause>,
    name: Seq<char>,
    set: bool,
    i: int,
) -> bool
    decreases catches_size(catches), 1nat, (catches.len() - i) as nat,
{
    if i < 0 || i >= catches.len() {
        true
    } else {
        proof {
            catch_smaller(catches, i);
        }
        set_after(catches[i].body@, name, (set, false), 0) is Some && handlers_answer(
            catches,
            name,
            set,
            i + 1,
        )
    }
}

/// After a statement. A loop may not run at all, and a `try` may break off
/// anywhere: nothing they set is sure to be set.
pub open spec fn set_after_stmt(stmt: Stmt, name: Seq<char>, set: bool) -> Setting
    decreases stmt_size(stmt), 0nat, 0nat,
{
    match stmt.kind {
        StmtKind::Return(_) => if set {
            Some((set, true))
        } else {
            None
        },
        StmtKind::Throw(_) => Some((set, true)),
        StmtKind::Expr(_) => Some((set || sets(stmt, name), false)),
        StmtKind::If { then_branch, else_branch, .. } => match set_after(
            then_branch@,
            name,
            (set, false),
            0,
        ) {
            None => None,
            Some(a) => match else_branch {
                Some(block) => match set_after(block@, name, (set, false), 0) {
                    None => None,
                    Some(b) => Some(joined(a, b)),
                },
                None => Some(joined(a, (set, false))),
            },
        },
        StmtKind::While { body, .. } => match set_after(body@, name, (set, false), 0) {
            None => None,
            Some(_) => Some((set, false)),
        },
        StmtKind::For { init, body, .. } => match set_after(init@, name, (set, false), 0) {
            None => None,
            Some(a) => match set_after(body@, name, (a.0, false), 0) {
                None => None,
                Some(_) => Some((a.0, false)),
            },
        },
        StmtKind::ForEach { body, .. } => match set_after(body@, name, (set, false), 0) {
            None => None,
            Some(_) => Some((set, false)),
        },
        StmtKind::Block(block) => set_after(block@, name, (set, false), 0),
        StmtKind::Try { body, catches, finally } => match set_after(
            body@,
            name,
            (set, false),
            0,
        ) {
            None => None,
            Some(_) => if !handlers_answer(catches@, name, set, 0) {
                None
            } else {
                match finally {
                    Some(block) => set_after(block@, name, (set, false), 0),
                    None => Some((set, false)),
                }
            },
        },
        _ => Some((set, false)),
    }
}

fn field_assigned_after(stmts: &Vec<Stmt>, name: &str, known: (bool, bool), from: usize) -> (r:
    Setting)
    ensures
        r == set_after(stmts@, name@, known, from as int),
    decreases block_size(stmts@), 1nat, 0nat,
{
    let mut current = known;
    let ghost whole = set_after(stmts@, name@, known, from as int);
    let mut i: usize = from;
    while i < stmts.len() && !current.1
        invariant
            whole == set_after(stmts@, name@, known, from as int),
            whole == set_after(stmts@, name@, current, i as int),
        decreases stmts@.len() - i,
    {
        proof {
            stmt_no_larger(stmts@, i as int);
        }
        match field_assigned_stmt(&stmts[i], name, current.0) {
            Some(next) => {
                current = next;
            },
            None => return None,
        }
        i = i + 1;
    }
    Some(current)
}

fn check_handlers(catches: &Vec<CatchClause>, name: &str, set: bool) -> (r: bool)
    ensures
        r == handlers_answer(catches@, name@, set, 0),
    decreases catches_size(catches@), 1nat, 0nat,
{
    let mut i: usize = 0;
    while i < catches.len()
        invariant
            i <= catches@.len(),
            handlers_answer(catches@, name@, set, 0) == handlers_answer(
                catches@,
                name@,
                set,
                i as int,
            ),
        decreases catches@.len() - i,
    {
        proof {
            catch_smaller(catches@, i as int);
        }
        if field_assigned_after(&catches[i].body, name, (set, false), 0).is_none() {
            return false;
        }
        i = i + 1;
    }
    true
}

fn join_settings(a: (bool, bool), b: (bool, bool)) -> (r: (bool, bool))
    ensures
        r == joined(a, b),
{
    match (a.1, b.1) {
        (true, true) => (true, true),
        (true, false) => (b.0, false),
        (false, true) => (a.0, false),
        (false, false) => (a.0 && b.0, false),
    }
}

fn field_assigned_stmt(stmt: &Stmt, name: &str, set: bool) -> (r: Setting)
    ensures
        r == set_after_stmt(*stmt, name@, set),
    decreases stmt_size(*stmt), 0nat, 0nat,
{
    match &stmt.kind {
        StmtKind::Return(_) => if set {
            Some((set, true))
        } else {
            None
        },
        StmtKind::Throw(_) => Some((set, true)),
        StmtKind::Expr(_) => Some((set || is_setting(stmt, name), false)),
        StmtKind::If { then_branch, else_branch, .. } => {
            match field_assigned_after(then_branch, name, (set, false), 0) {
                None => None,
                Some(a) => match else_branch {
                    Some(block) => match field_assigned_after(block, name, (set, false), 0) {
                        None => None,
                        Some(b) => Some(join_settings(a, b)),
                    },
                    None => Some(join_settings(a, (set, false))),
                },
            }
        },
        StmtKind::While { body, .. } => {
            match field_assigned_after(body, name, (set, false), 0) {
                None => None,
                Some(_) => Some((set, false)),
            }
        },
        StmtKind::For { init, body, .. } => {
            match field_assigned_after(init, name, (set, false), 0) {
                None => None,
                Some(a) => match field_assigned_after(body, name, (a.0, false), 0) {
                    None => None,
                    Some(_) => Some((a.0, false)),
                },
            }
        },
        StmtKind::ForEach { body, .. } => {
            match field_assigned_after(body, name, (set, false), 0) {
                None => None,
                Some(_) => Some((set, false)),
            }
        },
        StmtKind::Block(block) => field_assigned_after(block, name, (set, false), 0),
        StmtKind::Try { body, catches, finally } => {
            if field_assigned_after(body, name, (set, false), 0).is_none() || !check_handlers(
                catches,
                name,
                set,
            ) {
                return None;
            }
            match finally {
                Some(block) => field_assigned_after(block, name, (set, false), 0),
                None => Some((set, false)),
            }
        },
        _ => Some((set, false)),
    }
}

/// Whether every way through a constructor sets a property or leaves it to
/// another constructor to do so.
pub open spec fn ctor_sets(ctors: Seq<MethodDecl>, ctor: MethodDecl, name: Seq<char>) -> bool {
    let (set, from) = match delegation_argc(ctor) {
        Some(argc) => (taker(ctors, argc, 0) < ctors.len(), 1int),
        None => (false, 0int),
    };
    match set_after(ctor.body@, name, (set, false), from) {
        Some(known) => known.0 || known.1,
        None => false,
    }
}

fn check_ctor_property_init(ctors: &Vec<&MethodDecl>, ctor: &MethodDecl, name: &str) -> (r: bool)
    ensures
        r == ctor_sets(decls(ctors@), *ctor, name@),
{
    proof {
        if let Some(argc) = delegation_argc(*ctor) {
            taker_bounds(decls(ctors@), argc, 0);
        }
    }
    let known = match delegated_argc(ctor) {
        Some(argc) => {
            let credited = find_taker(ctors, argc).is_some();
            field_assigned_after(&ctor.body, name, (credited, false), 1)
        },
        None => field_assigned_after(&ctor.body, name, (false, false), 0),
    };
    match known {
        Some(known) => known.0 || known.1,
        None => false,
    }
}

/// Whether all constructors from the `k`-th on set a property.
pub open spec fn all_set(ctors: Seq<MethodDecl>, name: Seq<char>, k: int) -> bool
    decreases ctors.len() - k,
{
    k < 0 || k >= ctors.len() || (ctor_sets(ctors, ctors[k], name) && all_set(ctors, name, k + 1))
}

/// Whether a property has, by its type, no value until one is set, and none is
/// sure to be set.
pub open spec fn left_unset(
    f: FieldDecl,
    ctors: Seq<MethodDecl>,
    imports: Seq<(Seq<char>, Seq<char>)>,
) -> bool {
    f.init is None && resolved_type(f.ty@, imports) is Named && (ctors.len() == 0 || !all_set(
        ctors,
        f.name@,
        0,
    ))
}

/// The first property from the `i`-th on that is, or the number of fields.
pub open spec fn first_unset(
    fs: Seq<FieldDecl>,
    ctors: Seq<MethodDecl>,
    imports: Seq<(Seq<char>, Seq<char>)>,
    i: int,
) -> int
    decreases fs.len() - i,
{
    if i >= fs.len() {
        fs.len() as int
    } else if left_unset(fs[i], ctors, imports) {
        i
    } else {
        first_unset(fs, ctors, imports, i + 1)
    }
}

/// Every property that needs a value is set by every constructor.
pub open spec fn property_initialization(
    class: ClassDecl,
    imports: Seq<(Seq<char>, Seq<char>)>,
) -> Checked {
    let i = first_unset(class.fields@, class_ctors(class), imports, 0);
    if i < class.fields@.len() {
        Err(
            ErrorView::PropertyNotInitialized(
                class.fields@[i].name@,
                display_text(resolved_type(class.fields@[i].ty@, imports)),
            ),
        )
    } else {
        Ok(())
    }
}

fn all_ctors_set(ctors: &Vec<&MethodDecl>, name: &str) -> (r: bool)
    ensures
        r == all_set(decls(ctors@), name@, 0),
{
    let ghost ds = decls(ctors@);
    let mut k: usize = 0;
    while k < ctors.len()
        invariant
            k <= ctors@.len(),
            ds == decls(ctors@),
            all_set(ds, name@, 0) == all_set(ds, name@, k as int),
        decreases ctors@.len() - k,
    {
        assert(ds[k as int] == *ctors@[k as int]);
        if !check_ctor_property_init(ctors, ctors[k], name) {
            return false;
        }
        k = k + 1;
    }
    true
}

pub fn check_property_initialization(class: &ClassDecl, imports: &NameMap<String>) -> (r: Result<
    (),
    SemaError,
>)
    ensures
        checked_as(r, property_initialization(*class, imports@)),
{
    let ctors = constructors_of(class);
    let ghost ds = decls(ctors@);
    let mut i: usize = 0;
    while i < class.fields.len()
        invariant
            i <= class.fields@.len(),
            ds == decls(ctors@),
            ds == class_ctors(*class),
            first_unset(class.fields@, ds, imports@, 0) == first_unset(
                class.fields@,
                ds,
                imports@,
                i as int,
            ),
        decreases class.fields@.len() - i,
    {
        let f = &class.fields[i];
        let resolved = resolve_type(&f.ty, imports);
        if f.init.is_none() && matches!(resolved, Type::Named(_)) {
            assert(ds.len() == ctors@.len());
            if ctors.len() == 0 || !all_ctors_set(&ctors, f.name.as_str()) {
                return Err(SemaError::PropertyNotInitialized(f.name.clone(), display(&resolved)));
            }
        }
        i = i + 1;
    }
    Ok(())
}

/// The first ordinary method from the `i`-th on of a name and number of
/// parameters, or the number of methods.
pub open spec fn implementation(ms: Seq<MethodDecl>, name: Seq<char>, argc: nat, i: int) -> int
    decreases ms.len() - i,
{
    if i >= ms.len() {
        ms.len() as int
    } else if ms[i].kind == MethodKind::Normal && ms[i].name@ == name && ms[i].params@.len()
        == argc {
        i
    } else {
        implementation(ms, name, argc, i + 1)
    }
}

/// Whether a class implements a `const` method of an interface by one that is
/// not.
pub open spec fn drops_const(class: ClassDecl, m: MethodInfoView) -> bool {
    let i = implementation(class.methods@, m.name, m.params.len(), 0);
    m.is_const && i < class.methods@.len() && !class.methods@[i].is_const
}

/// The first method of an interface from the `j`-th on for which it does.
pub open spec fn first_dropped(class: ClassDecl, ms: Seq<MethodInfoView>, j: int) -> int
    decreases ms.len() - j,
{
    if j >= ms.len() {
        ms.len() as int
    } else if drops_const(class, ms[j]) {
        j
    } else {
        first_dropped(class, ms, j + 1)
    }
}

/// `const` methods of the interfaces from the `i`-th on are implemented by
/// `const` methods.
pub open spec fn const_from(
    class: ClassDecl,
    classes: Classes,
    ifaces: Seq<Seq<char>>,
    i: int,
) -> Checked
    decreases ifaces.len() - i,
{
    if i < 0 || i >= ifaces.len() {
        Ok(())
    } else {
        match bound_to(classes, ifaces[i]) {
            Some(info) => {
                let j = first_dropped(class, info.methods, 0);
                if j < info.methods.len() {
                    Err(ErrorView::MethodMustBeConst(info.methods[j].name, ifaces[i]))
                } else {
                    const_from(class, classes, ifaces, i + 1)
                }
            },
            None => const_from(class, classes, ifaces, i + 1),
        }
    }
}

pub open spec fn const_interface_impl(
    class: ClassDecl,
    classes: Classes,
    this_fqcn: Seq<char>,
) -> Checked {
    match bound_to(classes, this_fqcn) {
        Some(info) => const_from(class, classes, interfaces_from(classes, info.implements), 0),
        None => Ok(()),
    }
}

fn find_implementation(class: &ClassDecl, name: &str, argc: usize) -> (r: Option<usize>)
    ensures
        match r {
            Some(i) => i == implementation(class.methods@, name@, argc as nat, 0) && i
                < class.methods@.len(),
            None => implementation(class.methods@, name@, argc as nat, 0) == class.methods@.len(),
        },
{
    let ms = &class.methods;
    let mut i: usize = 0;
    while i < ms.len()
        invariant
            i <= ms@.len(),
            ms == class.methods,
            implementation(ms@, name@, argc as nat, 0) == implementation(
                ms@,
                name@,
                argc as nat,
                i as int,
            ),
        decreases ms@.len() - i,
    {
        if ms[i].kind == MethodKind::Normal && str_eq(ms[i].name.as_str(), name)
            && ms[i].params.len() == argc {
            return Some(i);
        }
        i = i + 1;
    }
    None
}

fn find_dropped(class: &ClassDecl, ms: &Vec<MethodInfo>) -> (r: Option<usize>)
    ensures
        match r {
            Some(j) => j == first_dropped(*class, method_infos(ms@), 0) && j < ms@.len(),
            None => first_dropped(*class, method_infos(ms@), 0) == ms@.len(),
        },
{
    let ghost vs = method_infos(ms@);
    let mut j: usize = 0;
    while j < ms.len()
        invariant
            j <= ms@.len(),
            vs == method_infos(ms@),
            first_dropped(*class, vs, 0) == first_dropped(*class, vs, j as int),
        decreases ms@.len() - j,
    {
        assert(vs[j as int] == ms@[j as int]@);
        if ms[j].is_const {
            if let Some(i) = find_implementation(class, ms[j].name.as_str(), ms[j].params.len()) {
                if !class.methods[i].is_const {
                    return Some(j);
                }
            }
        }
        j = j + 1;
    }
    None
}

pub fn check_const_interface_impl(class: &ClassDecl, classes: &ClassTable, this_fqcn: &str) -> (r:
    Result<(), SemaError>)
    ensures
        checked_as(r, const_interface_impl(*class, classes@, this_fqcn@)),
{
    let info = match classes.get(this_fqcn) {
        Some(info) => info,
        None => return Ok(()),
    };
    let all = interface_closure(classes, &info.implements);
    let ghost ifaces = texts(all@);
    let ghost whole = const_from(*class, classes@, ifaces, 0);
    let mut i: usize = 0;
    while i < all.len()
        invariant
            i <= all@.len(),
            ifaces == texts(all@),
            whole == const_interface_impl(*class, classes@, this_fqcn@),
            whole == const_from(*class, classes@, ifaces, i as int),
        decreases all@.len() - i,
    {
        assert(ifaces[i as int] == all@[i as int]@);
        if let Some(iface) = classes.get(all[i].as_str()) {
            if let Some(j) = find_dropped(class, &iface.methods) {
                assert(iface@.methods[j as int] == iface.methods@[j as int]@);
                return Err(
                    SemaError::MethodMustBeConst(
                        iface.methods[j].name.clone(),
                        all[i].clone(),
                    ),
                );
            }
        }
        i = i + 1;
    }
    Ok(())
}

/// The modifiers of the methods from the `i`-th on do not conflict, and
/// abstract methods have no body.
pub open spec fn method_modifiers(ms: Seq<MethodDecl>, i: int) -> Checked
    decreases ms.len() - i,
{
    if i < 0 || i >= ms.len() {
        Ok(())
    } else if ms[i].is_abstract && ms[i].is_final {
        Err(ErrorView::ConflictingModifiers(ms[i].name@))
    } else if ms[i].is_abstract && ms[i].body@.len() > 0 {
        Err(ErrorView::AbstractMethodHasBody(ms[i].name@))
    } else {
        method_modifiers(ms, i + 1)
    }
}

/// The method of `fqcn`, or the one it inherits, with exactly these
/// parameters.
pub open spec fn exact_method(
    classes: Classes,
    fqcn: Seq<char>,
    name: Seq<char>,
    params: Seq<TypeView>,
) -> Option<MethodInfoView> {
    just_method(method_found(classes, fqcn, Wanted::Exact { name, params }))
}

/// No method from the `i`-th on overrides one that is final.
pub open spec fn no_final_overridden(
    ms: Seq<MethodDecl>,
    classes: Classes,
    parent: Seq<char>,
    imports: Seq<(Seq<char>, Seq<char>)>,
    i: int,
) -> Checked
    decreases ms.len() - i,
{
    if i < 0 || i >= ms.len() {
        Ok(())
    } else if ms[i].kind == MethodKind::Normal && (exact_method(
        classes,
        parent,
        ms[i].name@,
        param_types(ms[i].params@, imports),
    ) matches Some(m) && m.is_final) {
        Err(ErrorView::OverrideFinalMethod(ms[i].name@))
    } else {
        no_final_overridden(ms, classes, parent, imports, i + 1)
    }
}

/// Nothing that is final is extended or overridden.
pub open spec fn finals_respected(
    class: ClassDecl,
    classes: Classes,
    imports: Seq<(Seq<char>, Seq<char>)>,
    this_fqcn: Seq<char>,
) -> Checked {
    match parent_of(classes, this_fqcn) {
        None => Ok(()),
        Some(parent) => if bound_to(classes, parent) matches Some(p) && p.is_final {
            Err(ErrorView::ExtendFinalClass(parent))
        } else {
            no_final_overridden(class.methods@, classes, parent, imports, 0)
        },
    }
}

/// Whether a class has nothing but an abstract method where `m` is.
pub open spec fn unimplemented_in(classes: Classes, fqcn: Seq<char>, m: MethodInfoView) -> bool {
    m.is_abstract && (exact_method(classes, fqcn, m.name, m.params) matches Some(n)
        && n.is_abstract)
}

/// The first method from the `j`-th on that a class leaves abstract.
pub open spec fn first_unimplemented(
    classes: Classes,
    fqcn: Seq<char>,
    ms: Seq<MethodInfoView>,
    j: int,
) -> int
    decreases ms.len() - j,
{
    if j >= ms.len() {
        ms.len() as int
    } else if unimplemented_in(classes, fqcn, ms[j]) {
        j
    } else {
        first_unimplemented(classes, fqcn, ms, j + 1)
    }
}

/// No method of `current`, or of the `n` classes above it, is left abstract.
pub open spec fn all_implemented(
    class: ClassDecl,
    classes: Classes,
    this_fqcn: Seq<char>,
    current: Seq<char>,
    n: nat,
) -> Checked
    decreases n,
{
    if n == 0 {
        Ok(())
    } else {
        match bound_to(classes, current) {
            None => Ok(()),
            Some(info) => {
                let j = first_unimplemented(classes, this_fqcn, info.methods, 0);
                if j < info.methods.len() {
                    Err(ErrorView::ClassMustBeAbstract(class.name@, info.methods[j].name))
                } else {
                    match info.extends {
                        Some(parent) => all_implemented(
                            class,
                            classes,
                            this_fqcn,
                            parent,
                            (n - 1) as nat,
                        ),
                        None => Ok(()),
                    }
                }
            },
        }
    }
}

/// The rules on abstract and final classes and methods.
pub open spec fn abstract_final(
    class: ClassDecl,
    classes: Classes,
    imports: Seq<(Seq<char>, Seq<char>)>,
    this_fqcn: Seq<char>,
) -> Checked {
    if class.is_abstract && class.is_final {
        Err(ErrorView::ConflictingModifiers(class.name@))
    } else {
        match method_modifiers(class.methods@, 0) {
            Err(e) => Err(e),
            Ok(_) => match finals_respected(class, classes, imports, this_fqcn) {
                Err(e) => Err(e),
                Ok(_) => {
                    if class.is_abstract {
                        Ok(())
                    } else {
                        all_implemented(class, classes, this_fqcn, this_fqcn, classes.len())
                    }
                },
            },
        }
    }
}

fn check_method_modifiers(ms: &Vec<MethodDecl>) -> (r: Result<(), SemaError>)
    ensures
        checked_as(r, method_modifiers(ms@, 0)),
{
    let mut i: usize = 0;
    while i < ms.len()
        invariant
            i <= ms@.len(),
            method_modifiers(ms@, 0) == method_modifiers(ms@, i as int),
        decreases ms@.len() - i,
    {
        if ms[i].is_abstract && ms[i].is_final {
            return Err(SemaError::ConflictingModifiers(ms[i].name.clone()));
        }
        if ms[i].is_abstract && ms[i].body.len() > 0 {
            return Err(SemaError::AbstractMethodHasBody(ms[i].name.clone()));
        }
        i = i + 1;
    }
    Ok(())
}

fn check_finals(class: &ClassDecl, classes: &ClassTable, imports: &NameMap<String>, this_fqcn: &str) -> (
    r: Result<(), SemaError>)
    ensures
        checked_as(r, finals_respected(*class, classes@, imports@, this_fqcn@)),
{
    let parent = match classes.get(this_fqcn) {
        Some(info) => match &info.extends {
            Some(p) => p,
            None => return Ok(()),
        },
        None => return Ok(()),
    };
    if let Some(p) = classes.get(parent.as_str()) {
        if p.is_final {
            return Err(SemaError::ExtendFinalClass(parent.clone()));
        }
    }
    let ms = &class.methods;
    let ghost whole = no_final_overridden(ms@, classes@, parent@, imports@, 0);
    let mut i: usize = 0;
    while i < ms.len()
        invariant
            i <= ms@.len(),
            whole == finals_respected(*class, classes@, imports@, this_fqcn@),
            whole == no_final_overridden(ms@, classes@, parent@, imports@, i as int),
        decreases ms@.len() - i,
    {
        if ms[i].kind == MethodKind::Normal {
            let params = param_types_of(&ms[i].params, imports);
            if let Some(m) = find_method_exact(
                classes,
                parent.as_str(),
                ms[i].name.as_str(),
                &params,
            ) {
                if m.is_final {
                    return Err(SemaError::OverrideFinalMethod(ms[i].name.clone()));
                }
            }
        }
        i = i + 1;
    }
    Ok(())
}

fn find_unimplemented(classes: &ClassTable, fqcn: &str, ms: &Vec<MethodInfo>) -> (r: Option<usize>)
    ensures
        match r {
            Some(j) => j == first_unimplemented(classes@, fqcn@, method_infos(ms@), 0) && j
                < ms@.len(),
            None => first_unimplemented(classes@, fqcn@, method_infos(ms@), 0) == ms@.len(),
        },
{
    let ghost vs = method_infos(ms@);
    let mut j: usize = 0;
    while j < ms.len()
        invariant
            j <= ms@.len(),
            vs == method_infos(ms@),
            first_unimplemented(classes@, fqcn@, vs, 0) == first_unimplemented(
                classes@,
                fqcn@,
                vs,
                j as int,
            ),
        decreases ms@.len() - j,
    {
        assert(vs[j as int] == ms@[j as int]@);
        if ms[j].is_abstract {
            if let Some(n) = find_method_exact(classes, fqcn, ms[j].name.as_str(), &ms[j].params) {
                if n.is_abstract {
                    return Some(j);
                }
            }
        }
        j = j + 1;
    }
    None
}

fn check_implemented(class: &ClassDecl, classes: &ClassTable, this_fqcn: &str) -> (r: Result<
    (),
    SemaError,
>)
    ensures
        checked_as(
            r,
            all_implemented(*class, classes@, this_fqcn@, this_fqcn@, classes@.len()),
        ),
{
    let ghost whole = all_implemented(*class, classes@, this_fqcn@, this_fqcn@, classes@.len());
    let mut current: String = owned(this_fqcn);
    let mut n: usize = classes.len();
    while n > 0
        invariant
            whole == all_implemented(*class, classes@, this_fqcn@, this_fqcn@, classes@.len()),
            whole == all_implemented(*class, classes@, this_fqcn@, current@, n as nat),
        decreases n,
    {
        let info = match classes.get(current.as_str()) {
            Some(info) => info,
            None => return Ok(()),
        };
        if let Some(j) = find_unimplemented(classes, this_fqcn, &info.methods) {
            assert(info@.methods[j as int] == info.methods@[j as int]@);
            return Err(
                SemaError::ClassMustBeAbstract(class.name.clone(), info.methods[j].name.clone()),
            );
        }
        current = match &info.extends {
            Some(parent) => parent.clone(),
            None => return Ok(()),
        };
        n = n - 1;
    }
    Ok(())
}

pub fn check_abstract_final(
    class: &ClassDecl,
    classes: &ClassTable,
    imports: &NameMap<String>,
    this_fqcn: &str,
) -> (r: Result<(), SemaError>)
    ensures
        checked_as(r, abstract_final(*class, classes@, imports@, this_fqcn@)),
{
    if class.is_abstract && class.is_final {
        return Err(SemaError::ConflictingModifiers(class.name.clone()));
    }
    check_method_modifiers(&class.methods)?;
    check_finals(class, classes, imports, this_fqcn)?;
    if class.is_abstract {
        Ok(())
    } else {
        check_implemented(class, classes, this_fqcn)
    }
}

/// Whether an exception must be declared: `Exception` and its subclasses, but
/// for those of `RuntimeException`.
pub open spec fn checked_exception(classes: Classes, fqcn: Seq<char>) -> bool {
    subclass(classes, fqcn, "Exception"@) && !subclass(classes, fqcn, "RuntimeException"@)
}

pub fn is_checked_exception(classes: &ClassTable, fqcn: &str) -> (r: bool)
    ensures
        r == checked_exception(classes@, fqcn@),
{
    is_subclass_or_same(classes, fqcn, "Exception") && !is_subclass_or_same(
        classes,
        fqcn,
        "RuntimeException",
    )
}

/// Whether one of the declared exceptions from the `i`-th on covers `fqcn`:
/// for a parent's exception one that is it or a subclass, for a child's one
/// that it is or is a subclass of.
pub open spec fn covered(
    classes: Classes,
    fqcn: Seq<char>,
    declared: Seq<TypeView>,
    by_child: bool,
    i: int,
) -> bool
    decreases declared.len() - i,
{
    if i < 0 || i >= declared.len() {
        false
    } else {
        covers(classes, fqcn, declared[i], by_child) || covered(
            classes,
            fqcn,
            declared,
            by_child,
            i + 1,
        )
    }
}

pub open spec fn covers(classes: Classes, fqcn: Seq<char>, declared: TypeView, by_child: bool) -> bool {
    match declared {
        TypeView::Named(d) => if by_child {
            subclass(classes, d, fqcn)
        } else {
            subclass(classes, fqcn, d)
        },
        _ => false,
    }
}

/// The first checked exception from the `i`-th on that is not covered.
pub open spec fn first_uncovered(
    classes: Classes,
    excs: Seq<TypeView>,
    declared: Seq<TypeView>,
    by_child: bool,
    i: int,
) -> Option<Seq<char>>
    decreases excs.len() - i,
{
    if i < 0 || i >= excs.len() {
        None
    } else {
        match excs[i] {
            TypeView::Named(fqcn) => if checked_exception(classes, fqcn) && !covered(
                classes,
                fqcn,
                declared,
                by_child,
                0,
            ) {
                Some(fqcn)
            } else {
                first_uncovered(classes, excs, declared, by_child, i + 1)
            },
            _ => first_uncovered(classes, excs, declared, by_child, i + 1),
        }
    }
}

/// A method declares the checked exceptions of the one it overrides, and no
/// others.
pub open spec fn exception_override(
    m: MethodDecl,
    classes: Classes,
    imports: Seq<(Seq<char>, Seq<char>)>,
    this_fqcn: Seq<char>,
) -> Checked {
    match parent_of(classes, this_fqcn) {
        None => Ok(()),
        Some(parent) => match exact_method(
            classes,
            parent,
            m.name@,
            param_types(m.params@, imports),
        ) {
            None => Ok(()),
            Some(over) => {
                let own = thrown_types(texts(m.throws@), imports);
                if over.is_static {
                    Ok(())
                } else {
                    match first_uncovered(classes, over.throws, own, true, 0) {
                        Some(fqcn) => Err(ErrorView::MissingThrowsInOverride(m.name@, fqcn)),
                        None => match first_uncovered(classes, own, over.throws, false, 0) {
                            Some(fqcn) => Err(ErrorView::ExtraThrowsInOverride(m.name@, fqcn)),
                            None => Ok(()),
                        },
                    }
                }
            },
        },
    }
}

fn is_covered(classes: &ClassTable, fqcn: &str, declared: &Vec<Type>, by_child: bool) -> (r: bool)
    ensures
        r == covered(classes@, fqcn@, type_views(declared@), by_child, 0),
{
    let ghost ds = type_views(declared@);
    let mut i: usize = 0;
    while i < declared.len()
        invariant
            i <= declared@.len(),
            ds == type_views(declared@),
            covered(classes@, fqcn@, ds, by_child, 0) == covered(
                classes@,
                fqcn@,
                ds,
                by_child,
                i as int,
            ),
        decreases declared@.len() - i,
    {
        assert(ds[i as int] == declared@[i as int]@);
        let hit = match &declared[i] {
            Type::Named(d) => if by_child {
                is_subclass_or_same(classes, d.as_str(), fqcn)
            } else {
                is_subclass_or_same(classes, fqcn, d.as_str())
            },
            _ => false,
        };
        if hit {
            return true;
        }
        i = i + 1;
    }
    false
}

fn find_uncovered(classes: &ClassTable, excs: &Vec<Type>, declared: &Vec<Type>, by_child: bool) -> (r:
    Option<String>)
    ensures
        opt_string(r) == first_uncovered(
            classes@,
            type_views(excs@),
            type_views(declared@),
            by_child,
            0,
        ),
{
    let ghost es = type_views(excs@);
    let ghost ds = type_views(declared@);
    let mut i: usize = 0;
    while i < excs.len()
        invariant
            i <= excs@.len(),
            es == type_views(excs@),
            ds == type_views(declared@),
            first_uncovered(classes@, es, ds, by_child, 0) == first_uncovered(
                classes@,
                es,
                ds,
                by_child,
                i as int,
            ),
        decreases excs@.len() - i,
    {
        assert(es[i as int] == excs@[i as int]@);
        if let Type::Named(fqcn) = &excs[i] {
            if is_checked_exception(classes, fqcn.as_str()) && !is_covered(
                classes,
                fqcn.as_str(),
                declared,
                by_child,
            ) {
                return Some(fqcn.clone());
            }
        }
        i = i + 1;
    }
    None
}

pub fn check_exception_override(
    method: &MethodDecl,
    classes: &ClassTable,
    imports: &NameMap<String>,
    this_fqcn: &str,
) -> (r: Result<(), SemaError>)
    ensures
        checked_as(r, exception_override(*method, classes@, imports@, this_fqcn@)),
{
    let parent = match classes.get(this_fqcn) {
        Some(info) => match &info.extends {
            Some(p) => p,
            None => return Ok(()),
        },
        None => return Ok(()),
    };
    let params = param_types_of(&method.params, imports);
    let over = match find_method_exact(classes, parent.as_str(), method.name.as_str(), &params) {
        Some(over) => over,
        None => return Ok(()),
    };
    if over.is_static {
        return Ok(());
    }
    let own = resolve_throws(&method.throws, imports);
    if let Some(fqcn) = find_uncovered(classes, &over.throws, &own, true) {
        return Err(SemaError::MissingThrowsInOverride(method.name.clone(), fqcn));
    }
    if let Some(fqcn) = find_uncovered(classes, &own, &over.throws, false) {
        return Err(SemaError::ExtraThrowsInOverride(method.name.clone(), fqcn));
    }
    Ok(())
}

/// An error inside an expanded template, whose class is called
/// `Template<...>`: an operator that is missing there is missing in the
/// template's argument.
pub open spec fn relabeled(e: ErrorView, this_fqcn: Seq<char>) -> ErrorView {
    if char_pos(this_fqcn, '<', 0) >= this_fqcn.len() {
        e
    } else {
        let template = head_text(this_fqcn, '<');
        match e {
            ErrorView::BadBinaryOperator(op, t1, t2) => ErrorView::TemplateOperatorUnsupported(
                if primitive_name(t1) {
                    t2
                } else {
                    t1
                },
                op,
                template,
            ),
            ErrorView::BadUnaryOperator(op, t) => ErrorView::TemplateOperatorUnsupported(
                t,
                op,
                template,
            ),
            _ => e,
        }
    }
}

pub fn relabel_template_operator_error(err: SemaError, this_fqcn: &str) -> (r: SemaError)
    ensures
        r@ == relabeled(err@, this_fqcn@),
{
    if !contains_char(this_fqcn, '<') {
        return err;
    }
    let template = head(this_fqcn, '<');
    match err {
        SemaError::BadBinaryOperator(op, t1, t2) => {
            let ty = if is_primitive_display(t1.as_str()) {
                t2
            } else {
                t1
            };
            SemaError::TemplateOperatorUnsupported(ty, op, template)
        },
        SemaError::BadUnaryOperator(op, t) => SemaError::TemplateOperatorUnsupported(
            t,
            op,
            template,
        ),
        other => other,
    }
}

} // verus!
