//! The names that a closure literal takes from around it.

use crate::ast::{Arg, CatchClause, ClosureBody, Expr, LValue, MatchArm, Param, Stmt, StmtKind, SwitchCase};
use crate::names::NameSet;
use vstd::prelude::*;

verus! {

/// What an occurrence of a name is looked at for.
#[derive(Debug, Clone, Copy, PartialEq, Eq, Structural)]
pub enum Occurs {
    /// Read or written.
    Referenced,
    /// Written: assigned to, or counted up or down.
    Mutated,
    /// Referenced inside a closure literal.
    Captured,
}

pub open spec fn param_name_set(params: Seq<Param>) -> Set<Seq<char>> {
    params.map_values(|p: Param| p.name@).to_set()
}

/// The names that occur in an expression. Those that a nested closure
/// declares as its parameters are its own.
pub open spec fn in_expr(e: Expr, o: Occurs) -> Set<Seq<char>>
    decreases e,
{
    match e {
        Expr::Ident(name) => if o == Occurs::Referenced {
            set![name@]
        } else {
            Set::empty()
        },
        Expr::PostIncr(name) => if o != Occurs::Captured {
            set![name@]
        } else {
            Set::empty()
        },
        Expr::PostDecr(name) => if o != Occurs::Captured {
            set![name@]
        } else {
            Set::empty()
        },
        Expr::Assign(target, value) => in_lvalue(target, o).union(in_expr(*value, o)),
        Expr::Call(_, args) => in_args(args@, o),
        Expr::New(_, _, args) => in_args(args@, o),
        Expr::NewArray(_, dims) => in_dims(dims@, o),
        Expr::NewArrayInit(_, elements) => in_exprs(elements@, o),
        Expr::FieldAccess(target, _) => in_expr(*target, o),
        Expr::InstanceOf(target, _) => in_expr(*target, o),
        Expr::Cast(_, inner) => in_expr(*inner, o),
        Expr::MethodCall(target, _, args) => in_expr(*target, o).union(in_args(args@, o)),
        Expr::Index(target, index) => in_expr(*target, o).union(in_expr(*index, o)),
        Expr::Unary(_, inner) => in_expr(*inner, o),
        Expr::Binary(_, lhs, rhs) => in_expr(*lhs, o).union(in_expr(*rhs, o)),
        Expr::Match(subject, arms) => in_expr(*subject, o).union(in_arms(arms@, o)),
        Expr::Ternary(cond, then_e, else_e) => in_expr(*cond, o).union(in_expr(*then_e, o)).union(
            in_expr(*else_e, o),
        ),
        Expr::Coalesce(lhs, rhs) => in_expr(*lhs, o).union(in_expr(*rhs, o)),
        Expr::Elvis(lhs, rhs) => in_expr(*lhs, o).union(in_expr(*rhs, o)),
        Expr::Closure { params, body, .. } => match o {
            Occurs::Captured => in_body(body, Occurs::Referenced).union(
                in_body(body, Occurs::Captured),
            ),
            _ => in_body(body, o).difference(param_name_set(params@)),
        },
        _ => Set::empty(),
    }
}

pub open spec fn in_body(b: ClosureBody, o: Occurs) -> Set<Seq<char>>
    decreases b,
{
    match b {
        ClosureBody::Block(block) => in_block(block@, o),
        ClosureBody::Expr(e) => in_expr(*e, o),
    }
}

pub open spec fn in_lvalue(l: LValue, o: Occurs) -> Set<Seq<char>>
    decreases l,
{
    match l {
        LValue::Local(name) => if o != Occurs::Captured {
            set![name@]
        } else {
            Set::empty()
        },
        LValue::Field(target, _) => in_expr(*target, o),
        LValue::Index(target, index) => in_expr(*target, o).union(in_expr(*index, o)),
    }
}

pub open spec fn in_args(s: Seq<Arg>, o: Occurs) -> Set<Seq<char>>
    decreases s,
{
    if s.len() == 0 {
        Set::empty()
    } else {
        in_args(s.drop_last(), o).union(in_expr(s.last().value, o))
    }
}

pub open spec fn in_exprs(s: Seq<Expr>, o: Occurs) -> Set<Seq<char>>
    decreases s,
{
    if s.len() == 0 {
        Set::empty()
    } else {
        in_exprs(s.drop_last(), o).union(in_expr(s.last(), o))
    }
}

pub open spec fn in_opt(e: Option<Expr>, o: Occurs) -> Set<Seq<char>>
    decreases e,
{
    match e {
        Some(e) => in_expr(e, o),
        None => Set::empty(),
    }
}

pub open spec fn in_dims(s: Seq<Option<Expr>>, o: Occurs) -> Set<Seq<char>>
    decreases s,
{
    if s.len() == 0 {
        Set::empty()
    } else {
        in_dims(s.drop_last(), o).union(in_opt(s.last(), o))
    }
}

pub open spec fn in_arms(s: Seq<MatchArm>, o: Occurs) -> Set<Seq<char>>
    decreases s,
{
    if s.len() == 0 {
        Set::empty()
    } else {
        in_arms(s.drop_last(), o).union(in_opt(s.last().pattern, o)).union(
            in_expr(s.last().value, o),
        )
    }
}

pub open spec fn in_block(s: Seq<Stmt>, o: Occurs) -> Set<Seq<char>>
    decreases s,
{
    if s.len() == 0 {
        Set::empty()
    } else {
        in_block(s.drop_last(), o).union(in_stmt(s.last(), o))
    }
}

pub open spec fn in_opt_block(b: Option<Vec<Stmt>>, o: Occurs) -> Set<Seq<char>>
    decreases b,
{
    match b {
        Some(b) => in_block(b@, o),
        None => Set::empty(),
    }
}

pub open spec fn in_catches(s: Seq<CatchClause>, o: Occurs) -> Set<Seq<char>>
    decreases s,
{
    if s.len() == 0 {
        Set::empty()
    } else {
        in_catches(s.drop_last(), o).union(in_block(s.last().body@, o))
    }
}

pub open spec fn in_cases(s: Seq<SwitchCase>, o: Occurs) -> Set<Seq<char>>
    decreases s,
{
    if s.len() == 0 {
        Set::empty()
    } else {
        in_cases(s.drop_last(), o).union(in_opt(s.last().value, o)).union(
            in_block(s.last().body@, o),
        )
    }
}

pub open spec fn in_stmt(s: Stmt, o: Occurs) -> Set<Seq<char>>
    decreases s,
{
    match s.kind {
        StmtKind::Return(e) => in_opt(e, o),
        StmtKind::Throw(e) => in_expr(e, o),
        StmtKind::Expr(e) => in_expr(e, o),
        StmtKind::VarDecl { init, .. } => in_opt(init, o),
        StmtKind::If { cond, then_branch, else_branch } => in_expr(cond, o).union(
            in_block(then_branch@, o),
        ).union(in_opt_block(else_branch, o)),
        StmtKind::While { cond, body } => in_expr(cond, o).union(in_block(body@, o)),
        StmtKind::ForEach { iterable, body, .. } => in_expr(iterable, o).union(
            in_block(body@, o),
        ),
        StmtKind::For { init, cond, step, body } => in_block(init@, o).union(
            in_opt(cond, o),
        ).union(in_exprs(step@, o)).union(in_block(body@, o)),
        StmtKind::Break => Set::empty(),
        StmtKind::Continue => Set::empty(),
        StmtKind::Block(b) => in_block(b@, o),
        StmtKind::ThisCall(args) => in_args(args@, o),
        StmtKind::SuperCall(args) => in_args(args@, o),
        StmtKind::Try { body, catches, finally } => in_block(body@, o).union(
            in_catches(catches@, o),
        ).union(in_opt_block(finally, o)),
        StmtKind::Switch { subject, cases } => in_expr(subject, o).union(in_cases(cases@, o)),
    }
}

pub fn param_set(params: &Vec<Param>) -> (r: NameSet)
    ensures
        r@ == param_name_set(params@),
{
    let ghost names = params@.map_values(|p: Param| p.name@);
    let mut out = NameSet::new();
    let mut i: usize = 0;
    while i < params.len()
        invariant
            i <= params@.len(),
            names == params@.map_values(|p: Param| p.name@),
            forall|x: Seq<char>| out@.contains(x) == names.take(i as int).contains(x),
        decreases params@.len() - i,
    {
        out.insert(params[i].name.clone());
        let ghost a = names.take(i as int);
        let ghost b = names.take(i as int + 1);
        assert(b =~= a.push(names[i as int]));
        assert forall|x: Seq<char>| out@.contains(x) == b.contains(x) by {
            if a.contains(x) {
                let j = choose|j: int| 0 <= j < a.len() && a[j] == x;
                assert(b[j] == x);
            }
            if x == names[i as int] {
                assert(b[i as int] == x);
            }
        }
        i = i + 1;
    }
    assert(names.take(i as int) =~= names);
    assert(out@ =~= param_name_set(params@));
    out
}

pub fn collect_expr(e: &Expr, o: Occurs, names: &mut NameSet)
    ensures
        final(names)@ == old(names)@.union(in_expr(*e, o)),
    decreases e,
{
    match e {
        Expr::Ident(name) => {
            if o == Occurs::Referenced {
                names.insert(name.clone());
            }
        },
        Expr::PostIncr(name) | Expr::PostDecr(name) => {
            if o != Occurs::Captured {
                names.insert(name.clone());
            }
        },
        Expr::Assign(target, value) => {
            collect_lvalue(target, o, names);
            collect_expr(value, o, names);
        },
        Expr::Call(_, args) => collect_args(args, o, names),
        Expr::New(_, _, args) => collect_args(args, o, names),
        Expr::NewArray(_, dims) => collect_dims(dims, o, names),
        Expr::NewArrayInit(_, elements) => collect_exprs(elements, o, names),
        Expr::FieldAccess(target, _) => collect_expr(target, o, names),
        Expr::InstanceOf(target, _) => collect_expr(target, o, names),
        Expr::Cast(_, inner) => collect_expr(inner, o, names),
        Expr::MethodCall(target, _, args) => {
            collect_expr(target, o, names);
            collect_args(args, o, names);
        },
        Expr::Index(target, index) => {
            collect_expr(target, o, names);
            collect_expr(index, o, names);
        },
        Expr::Unary(_, inner) => collect_expr(inner, o, names),
        Expr::Binary(_, lhs, rhs) => {
            collect_expr(lhs, o, names);
            collect_expr(rhs, o, names);
        },
        Expr::Match(subject, arms) => {
            collect_expr(subject, o, names);
            collect_arms(arms, o, names);
        },
        Expr::Ternary(cond, then_e, else_e) => {
            collect_expr(cond, o, names);
            collect_expr(then_e, o, names);
            collect_expr(else_e, o, names);
        },
        Expr::Coalesce(lhs, rhs) | Expr::Elvis(lhs, rhs) => {
            collect_expr(lhs, o, names);
            collect_expr(rhs, o, names);
        },
        Expr::Closure { params, body, .. } => {
            match o {
                Occurs::Captured => {
                    collect_body(body, Occurs::Referenced, names);
                    collect_body(body, Occurs::Captured, names);
                },
                _ => {
                    let mut inner = NameSet::new();
                    collect_body(body, o, &mut inner);
                    let own = param_set(params);
                    let free = inner.difference(&own);
                    names.extend(&free);
                    assert(Set::<Seq<char>>::empty().union(in_body(*body, o)) =~= in_body(
                        *body,
                        o,
                    ));
                },
            }
        },
        _ => {},
    }
    assert(names@ =~= old(names)@.union(in_expr(*e, o)));
}

fn collect_body(b: &ClosureBody, o: Occurs, names: &mut NameSet)
    ensures
        final(names)@ == old(names)@.union(in_body(*b, o)),
    decreases b,
{
    match b {
        ClosureBody::Block(block) => collect_block(block, o, names),
        ClosureBody::Expr(e) => collect_expr(e, o, names),
    }
}

fn collect_lvalue(l: &LValue, o: Occurs, names: &mut NameSet)
    ensures
        final(names)@ == old(names)@.union(in_lvalue(*l, o)),
    decreases l,
{
    match l {
        LValue::Local(name) => {
            if o != Occurs::Captured {
                names.insert(name.clone());
            }
        },
        LValue::Field(target, _) => collect_expr(target, o, names),
        LValue::Index(target, index) => {
            collect_expr(target, o, names);
            collect_expr(index, o, names);
        },
    }
    assert(names@ =~= old(names)@.union(in_lvalue(*l, o)));
}

fn collect_opt(e: &Option<Expr>, o: Occurs, names: &mut NameSet)
    ensures
        final(names)@ == old(names)@.union(in_opt(*e, o)),
    decreases e,
{
    if let Some(x) = e {
        collect_expr(x, o, names);
    }
    assert(names@ =~= old(names)@.union(in_opt(*e, o)));
}

fn collect_opt_block(b: &Option<Vec<Stmt>>, o: Occurs, names: &mut NameSet)
    ensures
        final(names)@ == old(names)@.union(in_opt_block(*b, o)),
    decreases b,
{
    if let Some(x) = b {
        collect_block(x, o, names);
    }
    assert(names@ =~= old(names)@.union(in_opt_block(*b, o)));
}

fn collect_stmt(s: &Stmt, o: Occurs, names: &mut NameSet)
    ensures
        final(names)@ == old(names)@.union(in_stmt(*s, o)),
    decreases s,
{
    match &s.kind {
        StmtKind::Return(e) => collect_opt(e, o, names),
        StmtKind::Throw(e) => collect_expr(e, o, names),
        StmtKind::Expr(e) => collect_expr(e, o, names),
        StmtKind::VarDecl { init, .. } => collect_opt(init, o, names),
        StmtKind::If { cond, then_branch, else_branch } => {
            collect_expr(cond, o, names);
            collect_block(then_branch, o, names);
            collect_opt_block(else_branch, o, names);
        },
        StmtKind::While { cond, body } => {
            collect_expr(cond, o, names);
            collect_block(body, o, names);
        },
        StmtKind::ForEach { iterable, body, .. } => {
            collect_expr(iterable, o, names);
            collect_block(body, o, names);
        },
        StmtKind::For { init, cond, step, body } => {
            collect_block(init, o, names);
            collect_opt(cond, o, names);
            collect_exprs(step, o, names);
            collect_block(body, o, names);
        },
        StmtKind::Break => {},
        StmtKind::Continue => {},
        StmtKind::Block(b) => collect_block(b, o, names),
        StmtKind::ThisCall(args) => collect_args(args, o, names),
        StmtKind::SuperCall(args) => collect_args(args, o, names),
        StmtKind::Try { body, catches, finally } => {
            collect_block(body, o, names);
            collect_catches(catches, o, names);
            collect_opt_block(finally, o, names);
        },
        StmtKind::Switch { subject, cases } => {
            collect_expr(subject, o, names);
            collect_cases(cases, o, names);
        },
    }
    assert(names@ =~= old(names)@.union(in_stmt(*s, o)));
}

fn collect_args(v: &Vec<Arg>, o: Occurs, names: &mut NameSet)
    ensures
        final(names)@ == old(names)@.union(in_args(v@, o)),
    decreases v,
{
    let ghost base = names@;
    let mut i: usize = 0;
    assert(v@.take(0) =~= Seq::empty());
    assert(names@ =~= base.union(in_args(v@.take(0), o)));
    while i < v.len()
        invariant
            i <= v@.len(),
            names@ == base.union(in_args(v@.take(i as int), o)),
        decreases v@.len() - i,
    {
        assert(decreases_to!(v => v@[i as int]));
        assert(v@.take(i as int + 1).drop_last() =~= v@.take(i as int));
        assert(v@.take(i as int + 1).last() == v@[i as int]);
        collect_expr(&v[i].value, o, names);
        assert(names@ =~= base.union(in_args(v@.take(i as int + 1), o)));
        i = i + 1;
    }
    assert(v@.take(i as int) =~= v@);
}

fn collect_exprs(v: &Vec<Expr>, o: Occurs, names: &mut NameSet)
    ensures
        final(names)@ == old(names)@.union(in_exprs(v@, o)),
    decreases v,
{
    let ghost base = names@;
    let mut i: usize = 0;
    assert(v@.take(0) =~= Seq::empty());
    assert(names@ =~= base.union(in_exprs(v@.take(0), o)));
    while i < v.len()
        invariant
            i <= v@.len(),
            names@ == base.union(in_exprs(v@.take(i as int), o)),
        decreases v@.len() - i,
    {
        assert(decreases_to!(v => v@[i as int]));
        assert(v@.take(i as int + 1).drop_last() =~= v@.take(i as int));
        assert(v@.take(i as int + 1).last() == v@[i as int]);
        collect_expr(&v[i], o, names);
        assert(names@ =~= base.union(in_exprs(v@.take(i as int + 1), o)));
        i = i + 1;
    }
    assert(v@.take(i as int) =~= v@);
}

fn collect_dims(v: &Vec<Option<Expr>>, o: Occurs, names: &mut NameSet)
    ensures
        final(names)@ == old(names)@.union(in_dims(v@, o)),
    decreases v,
{
    let ghost base = names@;
    let mut i: usize = 0;
    assert(v@.take(0) =~= Seq::empty());
    assert(names@ =~= base.union(in_dims(v@.take(0), o)));
    while i < v.len()
        invariant
            i <= v@.len(),
            names@ == base.union(in_dims(v@.take(i as int), o)),
        decreases v@.len() - i,
    {
        assert(decreases_to!(v => v@[i as int]));
        assert(v@.take(i as int + 1).drop_last() =~= v@.take(i as int));
        assert(v@.take(i as int + 1).last() == v@[i as int]);
        collect_opt(&v[i], o, names);
        assert(names@ =~= base.union(in_dims(v@.take(i as int + 1), o)));
        i = i + 1;
    }
    assert(v@.take(i as int) =~= v@);
}

fn collect_arms(v: &Vec<MatchArm>, o: Occurs, names: &mut NameSet)
    ensures
        final(names)@ == old(names)@.union(in_arms(v@, o)),
    decreases v,
{
    let ghost base = names@;
    let mut i: usize = 0;
    assert(v@.take(0) =~= Seq::empty());
    assert(names@ =~= base.union(in_arms(v@.take(0), o)));
    while i < v.len()
        invariant
            i <= v@.len(),
            names@ == base.union(in_arms(v@.take(i as int), o)),
        decreases v@.len() - i,
    {
        assert(decreases_to!(v => v@[i as int]));
        assert(v@.take(i as int + 1).drop_last() =~= v@.take(i as int));
        assert(v@.take(i as int + 1).last() == v@[i as int]);
        collect_opt(&v[i].pattern, o, names);
        collect_expr(&v[i].value, o, names);
        assert(names@ =~= base.union(in_arms(v@.take(i as int + 1), o)));
        i = i + 1;
    }
    assert(v@.take(i as int) =~= v@);
}

pub fn collect_block(v: &Vec<Stmt>, o: Occurs, names: &mut NameSet)
    ensures
        final(names)@ == old(names)@.union(in_block(v@, o)),
    decreases v,
{
    let ghost base = names@;
    let mut i: usize = 0;
    assert(v@.take(0) =~= Seq::empty());
    assert(names@ =~= base.union(in_block(v@.take(0), o)));
    while i < v.len()
        invariant
            i <= v@.len(),
            names@ == base.union(in_block(v@.take(i as int), o)),
        decreases v@.len() - i,
    {
        assert(decreases_to!(v => v@[i as int]));
        assert(v@.take(i as int + 1).drop_last() =~= v@.take(i as int));
        assert(v@.take(i as int + 1).last() == v@[i as int]);
        collect_stmt(&v[i], o, names);
        assert(names@ =~= base.union(in_block(v@.take(i as int + 1), o)));
        i = i + 1;
    }
    assert(v@.take(i as int) =~= v@);
}

fn collect_catches(v: &Vec<CatchClause>, o: Occurs, names: &mut NameSet)
    ensures
        final(names)@ == old(names)@.union(in_catches(v@, o)),
    decreases v,
{
    let ghost base = names@;
    let mut i: usize = 0;
    assert(v@.take(0) =~= Seq::empty());
    assert(names@ =~= base.union(in_catches(v@.take(0), o)));
    while i < v.len()
        invariant
            i <= v@.len(),
            names@ == base.union(in_catches(v@.take(i as int), o)),
        decreases v@.len() - i,
    {
        assert(decreases_to!(v => v@[i as int]));
        assert(v@.take(i as int + 1).drop_last() =~= v@.take(i as int));
        assert(v@.take(i as int + 1).last() == v@[i as int]);
        collect_block(&v[i].body, o, names);
        assert(names@ =~= base.union(in_catches(v@.take(i as int + 1), o)));
        i = i + 1;
    }
    assert(v@.take(i as int) =~= v@);
}

fn collect_cases(v: &Vec<SwitchCase>, o: Occurs, names: &mut NameSet)
    ensures
        final(names)@ == old(names)@.union(in_cases(v@, o)),
    decreases v,
{
    let ghost base = names@;
    let mut i: usize = 0;
    assert(v@.take(0) =~= Seq::empty());
    assert(names@ =~= base.union(in_cases(v@.take(0), o)));
    while i < v.len()
        invariant
            i <= v@.len(),
            names@ == base.union(in_cases(v@.take(i as int), o)),
        decreases v@.len() - i,
    {
        assert(decreases_to!(v => v@[i as int]));
        assert(v@.take(i as int + 1).drop_last() =~= v@.take(i as int));
        assert(v@.take(i as int + 1).last() == v@[i as int]);
        collect_opt(&v[i].value, o, names);
        collect_block(&v[i].body, o, names);
        assert(names@ =~= base.union(in_cases(v@.take(i as int + 1), o)));
        i = i + 1;
    }
    assert(v@.take(i as int) =~= v@);
}

/// Every name that a closure's body refers to.
pub fn referenced_names(body: &ClosureBody) -> (r: NameSet)
    ensures
        r@ == in_body(*body, Occurs::Referenced),
{
    let mut names = NameSet::new();
    collect_body(body, Occurs::Referenced, &mut names);
    assert(names@ =~= in_body(*body, Occurs::Referenced));
    names
}

/// The names that a closure shares with its surroundings and that one of the
/// two writes: those need a box.
pub open spec fn boxed_in_block(block: Seq<Stmt>) -> Set<Seq<char>> {
    in_block(block, Occurs::Captured).intersect(in_block(block, Occurs::Mutated))
}

pub fn boxed_captures_in_block(block: &Vec<Stmt>) -> (r: NameSet)
    ensures
        r@ == boxed_in_block(block@),
{
    let mut captured = NameSet::new();
    let mut mutated = NameSet::new();
    collect_block(block, Occurs::Captured, &mut captured);
    collect_block(block, Occurs::Mutated, &mut mutated);
    assert(captured@ =~= in_block(block@, Occurs::Captured));
    assert(mutated@ =~= in_block(block@, Occurs::Mutated));
    captured.intersection(&mutated)
}

/// The same for the body of a closure with closures inside it.
pub open spec fn boxed_in_body(body: ClosureBody) -> Set<Seq<char>> {
    in_body(body, Occurs::Captured).intersect(in_body(body, Occurs::Mutated))
}

pub fn boxed_captures(body: &ClosureBody) -> (r: NameSet)
    ensures
        r@ == boxed_in_body(*body),
{
    let mut captured = NameSet::new();
    let mut mutated = NameSet::new();
    collect_body(body, Occurs::Captured, &mut captured);
    collect_body(body, Occurs::Mutated, &mut mutated);
    assert(captured@ =~= in_body(*body, Occurs::Captured));
    assert(mutated@ =~= in_body(*body, Occurs::Mutated));
    captured.intersection(&mutated)
}

} // verus!
