//! Laws of definite assignment: a variable counts as assigned after a
//! statement only if it is on every way through it.

use crate::ast::{CatchClause, Expr, LValue, Stmt, StmtKind, SwitchCase, Type, TypeView};
use crate::names::bound_to_push;
use crate::probe::cast;
use crate::resolve::resolved_name;
use crate::sema::checked::{
    block_checked, cases_checked, cast_block, catches_checked, expr_checked, merged, narrowed_block, opt_checked,
    stmt_checked, stmts_checked, try_checked, var_declared, Ended, Typed,
};
use crate::sema::error::ErrorView;
use crate::sema::flow::Flow;
use crate::sema::members::{catch_classes, stored, variable};
use crate::sema::rules::{narrowings, EnvView, Judged};
use crate::size::{case_smaller, cases_size, catch_smaller, catches_size};
use vstd::prelude::*;

verus! {

/// A loop may not run at all: after a `while` loop exactly those variables are
/// assigned that are after its condition alone, and a later read of any other
/// is refused. The loop runs to its end whatever its body does.
pub proof fn while_assigns_what_its_condition_does(
    c: EnvView,
    s: Flow,
    stmt: Stmt,
    cond: Expr,
    body: Vec<Stmt>,
    ended: bool,
    after: Flow,
)
    requires
        stmt.kind == (StmtKind::While { cond, body }),
        stmt_checked(c, s, stmt) == Ended::Ok((ended, after)),
    ensures
        !ended,
        expr_checked(c, s.at_line(stmt.line), cond) matches Ok((_, s1)) && after.assigned
            == s1.assigned,
        forall|name: Seq<char>|
            #![trigger variable(after, name)]
            after.lookup(name) matches Some((id, _)) ==> (expr_checked(
                c,
                s.at_line(stmt.line),
                cond,
            ) matches Ok((_, s1)) ==> (!s1.assigned.contains(id) ==> variable(after, name) == Judged::Err(
                ErrorView::NotDefinitelyAssigned(name),
            ))),
{
    reveal(Flow::with_assigned);
    reveal(variable);
}

/// Likewise a loop over a collection, which may be empty.
pub proof fn for_each_assigns_what_its_collection_does(
    c: EnvView,
    s: Flow,
    stmt: Stmt,
    ty: Option<Type>,
    var: String,
    iterable: Expr,
    body: Vec<Stmt>,
    ended: bool,
    after: Flow,
)
    requires
        stmt.kind == (StmtKind::ForEach { ty, var, iterable, body }),
        stmt_checked(c, s, stmt) == Ended::Ok((ended, after)),
    ensures
        !ended,
        expr_checked(c, s.at_line(stmt.line), iterable) matches Ok((_, s1)) && after.assigned
            == s1.assigned,
{
    reveal(Flow::with_assigned);
}

/// After a `for` loop no more is assigned than before it.
pub proof fn for_assigns_nothing(
    c: EnvView,
    s: Flow,
    stmt: Stmt,
    init: Vec<Stmt>,
    cond: Option<Expr>,
    step: Vec<Expr>,
    body: Vec<Stmt>,
    ended: bool,
    after: Flow,
)
    requires
        stmt.kind == (StmtKind::For { init, cond, step, body }),
        stmt_checked(c, s, stmt) == Ended::Ok((ended, after)),
    ensures
        !ended,
        after.assigned == s.assigned,
{
    reveal(Flow::with_assigned);
    reveal(Flow::at_line);
}

proof fn cases_assign_nothing(c: EnvView, s: Flow, cases: Seq<SwitchCase>, i: int)
    ensures
        cases_checked(c, s, cases, i) matches Ok(t) ==> t.assigned == s.assigned,
    decreases cases_size(cases), 1nat, (cases.len() - i) as nat,
{
    reveal(Flow::with_assigned);
    if 0 <= i < cases.len() {
        case_smaller(cases, i);
        if let Ok((_, s1)) = opt_checked(c, s, cases[i].value) {
            if let Ok((_, s2)) = block_checked(c, s1, cases[i].body@) {
                cases_assign_nothing(c, s2.with_assigned(s.assigned), cases, i + 1);
            }
        }
    }
}

/// No case of a `switch` is sure to run: what is assigned after it is what is
/// after its subject.
pub proof fn switch_assigns_what_its_subject_does(
    c: EnvView,
    s: Flow,
    stmt: Stmt,
    subject: Expr,
    cases: Vec<SwitchCase>,
    ended: bool,
    after: Flow,
)
    requires
        stmt.kind == (StmtKind::Switch { subject, cases }),
        stmt_checked(c, s, stmt) == Ended::Ok((ended, after)),
    ensures
        !ended,
        expr_checked(c, s.at_line(stmt.line), subject) matches Ok((_, s1)) && after.assigned
            == s1.assigned,
{
    if let Ok((_, s1)) = expr_checked(c, s.at_line(stmt.line), subject) {
        cases_assign_nothing(c, s1, cases@, 0);
    }
}

proof fn catches_assign_nothing(c: EnvView, s: Flow, catches: Seq<CatchClause>, i: int)
    ensures
        catches_checked(c, s, catches, i) matches Ok(t) ==> t.assigned == s.assigned,
    decreases catches_size(catches), 1nat, (catches.len() - i) as nat,
{
    reveal(Flow::with_assigned);
    if 0 <= i < catches.len() {
        catch_smaller(catches, i);
        let s1 = s.push_scope();
        let ty = TypeView::Named(
            resolved_name(catches[i].ty@, c.imports),
        );
        let s2 = s1.declare(catches[i].var@, ty).tell(catches[i].var@, Some(ty)).assign(s1.next_id);
        if let Ok((_, s3)) = stmts_checked(c, s2, catches[i].body@, false, 0) {
            catches_assign_nothing(
                c,
                s3.pop_scope().with_typings(s.typings).with_assigned(s.assigned),
                catches,
                i + 1,
            );
        }
    }
}

/// A `try` may break off at once, and a handler may be the way on: without a
/// `finally` block no more is assigned after it than before.
pub proof fn try_assigns_nothing(
    c: EnvView,
    s: Flow,
    stmt: Stmt,
    body: Vec<Stmt>,
    catches: Vec<CatchClause>,
    ended: bool,
    after: Flow,
)
    requires
        stmt.kind == (StmtKind::Try { body, catches, finally: None }),
        stmt_checked(c, s, stmt) == Ended::Ok((ended, after)),
    ensures
        !ended,
        after.assigned == s.assigned,
{
    try_parts(c, s.at_line(stmt.line), body@, catches@, None);
    reveal(Flow::at_line);
}

/// With a `finally` block, what is assigned after it is what that block
/// assigns where only what was before the `try` is assigned; the statement
/// runs to its end where that block does.
pub proof fn try_assigns_what_finally_does(
    c: EnvView,
    s: Flow,
    stmt: Stmt,
    body: Vec<Stmt>,
    catches: Vec<CatchClause>,
    block: Vec<Stmt>,
    ended: bool,
    after: Flow,
) -> (before: Flow)
    requires
        stmt.kind == (StmtKind::Try { body, catches, finally: Some(block) }),
        stmt_checked(c, s, stmt) == Ended::Ok((ended, after)),
    ensures
        before.assigned == s.assigned,
        block_checked(c, before, block@) == Ended::Ok((ended, after)),
{
    reveal(Flow::at_line);
    try_parts(c, s.at_line(stmt.line), body@, catches@, Some(block))
}

proof fn try_parts(
    c: EnvView,
    s: Flow,
    body: Seq<Stmt>,
    catches: Seq<CatchClause>,
    finally: Option<Vec<Stmt>>,
) -> (before: Flow)
    requires
        try_checked(c, s, body, catches, finally) is Ok,
    ensures
        before.assigned == s.assigned,
        match finally {
            Some(block) => block_checked(c, before, block@) == try_checked(
                c,
                s,
                body,
                catches,
                finally,
            ),
            None => try_checked(c, s, body, catches, finally) == Ended::Ok((false, before)),
        },
{
    reveal(Flow::with_assigned);
    let s1 = block_checked(
        c,
        s.push_catches(catch_classes(c, catches)),
        body,
    )->Ok_0.1;
    let s1b = s1.pop_catches().with_assigned(s.assigned);
    catches_assign_nothing(c, s1b, catches, 0);
    catches_checked(c, s1b, catches, 0)->Ok_0
}

/// After an `if` a variable is assigned exactly if it is at the end of each
/// branch that runs to its end. Both branches start from what the condition
/// assigns, and a missing branch assigns nothing.
pub proof fn if_assigns_what_both_branches_do(
    c: EnvView,
    s: Flow,
    stmt: Stmt,
    cond: Expr,
    then_branch: Vec<Stmt>,
    else_branch: Option<Vec<Stmt>>,
    ended: bool,
    after: Flow,
) -> (r: (Flow, bool, Flow, Flow, bool, Flow))
    requires
        stmt.kind == (StmtKind::If { cond, then_branch, else_branch }),
        stmt_checked(c, s, stmt) == Ended::Ok((ended, after)),
    ensures
        ({
            let (a0, a_ends, a, b0, b_ends, b) = r;
            &&& expr_checked(c, s.at_line(stmt.line), cond) matches Ok((_, s1)) && a0.assigned
                == s1.assigned && b0.assigned == s1.assigned
            &&& block_checked(c, a0, then_branch@) == Ended::Ok((a_ends, a))
            &&& match else_branch {
                Some(block) => block_checked(c, b0, block@) == Ended::Ok((b_ends, b)),
                None => !b_ends && b == b0,
            }
            &&& ended == (a_ends && b_ends)
            &&& forall|id: u32|
                !ended ==> #[trigger] after.assigned.contains(id) == ((a_ends || a.assigned.contains(
                    id,
                )) && (b_ends || b.assigned.contains(id)))
        }),
{
    reveal(Flow::with_assigned);
    reveal(Flow::with_typings);
    reveal(Flow::narrow);
    reveal(Flow::restore);
    let s = s.at_line(stmt.line);
    let s1 = expr_checked(c, s, cond)->Ok_0.1;
    let ns = narrowings(c, s1, cond);
    let inside = s1.with_typings(
        cast(c.site(), s1.typings, cond, then_branch@),
    );
    let a0 = inside.narrow(ns.0);
    let (a_ends, a) = block_checked(c, a0, then_branch@)->Ok_0;
    let (_, s2) = cast_block(c, s1, cond, then_branch@, ns.0)->Ok_0;
    let s3 = s2.with_assigned(s1.assigned);
    match else_branch {
        Some(block) => {
            let b0 = s3.narrow(ns.1);
            let (b_ends, b) = block_checked(c, b0, block@)->Ok_0;
            let s4 = b.restore(s3.narrowed, ns.1);
            assert(narrowed_block(c, s3, block@, ns.1) == Ended::Ok((b_ends, s4)));
            assert(s4.assigned == b.assigned);
            assert(s2.assigned == a.assigned);
            assert(after.assigned == merged(a.assigned, a_ends, b.assigned, b_ends));
            (a0, a_ends, a, b0, b_ends, b)
        },
        None => (a0, a_ends, a, s3, false, s3),
    }
}

/// A closure is not run where it is written: it assigns nothing there.
pub proof fn closure_assigns_nothing(c: EnvView, s: Flow, e: Expr)
    requires
        e is Closure,
        expr_checked(c, s, e) is Ok,
    ensures
        expr_checked(c, s, e) matches Ok((_, after)) ==> after.assigned == s.assigned,
{
    reveal(Flow::with_assigned);
}

/// A declaration with an initial value assigns the variable, which gets the
/// next number; one without assigns nothing.
pub proof fn declaration_assigns_with_a_value_only(
    c: EnvView,
    s: Flow,
    stmt: Stmt,
    ty: Option<Type>,
    name: String,
    init: Option<Expr>,
    is_const: bool,
    ended: bool,
    after: Flow,
)
    requires
        stmt.kind == (StmtKind::VarDecl { ty, name, init, is_const }),
        stmt_checked(c, s, stmt) == Ended::Ok((ended, after)),
    ensures
        !ended,
        match init {
            Some(e) => expr_checked(c, s.at_line(stmt.line), e) matches Ok((_, s1))
                && after.assigned == s1.assigned.insert(s1.next_id) && (s1.scopes.len() > 0 ==> (
            after.lookup(name@) matches Some((id, _)) && id == s1.next_id)),
            None => after.assigned == s.assigned && (s.scopes.len() > 0 ==> (after.lookup(
                name@,
            ) matches Some((id, _)) && id == s.next_id)),
        },
{
    reveal(var_declared);
    reveal(Flow::lookup);
    reveal(Flow::at_line);
    reveal(Flow::declare);
    reveal(Flow::tell);
    reveal(Flow::mark_const);
    reveal(Flow::assign);
    if let Ok((_, s1)) = opt_checked(c, s.at_line(stmt.line), init) {
        if s1.scopes.len() > 0 {
            let scope = after.scopes.last();
            let entry = scope.last();
            assert(entry.0 == name@ && entry.1.0 == s1.next_id);
            assert(scope == s1.scopes.last().push(entry));
            bound_to_push(s1.scopes.last(), name@, entry.1, name@);
        }
    }
}

/// An assignment to a variable assigns it, and nothing more than its value
/// does.
pub proof fn assignment_assigns_the_variable(
    c: EnvView,
    s: Flow,
    name: String,
    value: Box<Expr>,
    ty: TypeView,
    after: Flow,
    id: u32,
    declared: TypeView,
)
    requires
        expr_checked(c, s, Expr::Assign(LValue::Local(name), value)) == Typed::Ok((ty, after)),
        expr_checked(c, s, *value) matches Ok((_, s1)) && s1.lookup(name@) == Some((id, declared)),
    ensures
        after.assigned.contains(id),
        expr_checked(c, s, *value) matches Ok((_, s1)) && after.assigned == s1.assigned.insert(id),
{
    reveal(stored);
    reveal(Flow::assign);
    reveal(Flow::forget);
}

} // verus!
