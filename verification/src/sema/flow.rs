//! What is known of the variables of a method where its check has arrived.

use crate::ast::{clone_type, Type, TypeView};
use crate::names::{bound_to, IdMap, IdSet, NameMap};
use crate::probe::{Typings, TypingsView};
use crate::sema::error::{SemaWarning, WarningView};
use crate::sema::types::opt_type;
use crate::text::{owned, texts};
use vstd::prelude::*;

verus! {

/// A declared variable: a number that no other one has, and its type.
#[derive(Debug)]
pub struct VarEntry {
    pub id: u32,
    pub ty: Type,
}

impl View for VarEntry {
    type V = (u32, TypeView);

    open spec fn view(&self) -> (u32, TypeView) {
        (self.id, self.ty@)
    }
}

/// Variables with the types that a condition leaves them.
pub type Narrowing = Seq<(u32, TypeView)>;

pub open spec fn narrowing_view(v: Seq<(u32, Type)>) -> Narrowing {
    v.map_values(|e: (u32, Type)| (e.0, e.1@))
}

/// The state of a check. The numbers of variables wrap around.
pub struct MethodChecker {
    pub scopes: Vec<NameMap<VarEntry>>,
    /// Types that are narrower than the declared ones.
    pub narrowed: IdMap<Type>,
    pub next_id: u32,
    pub return_ty: Type,
    /// Inside a closure whose return type is inferred.
    pub skip_return_check: bool,
    /// What the enclosing `try` statements catch, outermost first.
    pub catch_stack: Vec<Vec<String>>,
    pub const_vars: IdSet,
    pub readonly_loop_vars: IdSet,
    /// The line of the statement that is being checked.
    pub current_line: u32,
    pub warnings: Vec<(u32, SemaWarning)>,
    /// The variables that are sure to have a value.
    pub assigned: IdSet,
    /// What is told of variables where a call is bound to an overload.
    pub typings: Typings,
}

pub struct Flow {
    pub scopes: Seq<Seq<(Seq<char>, (u32, TypeView))>>,
    pub narrowed: Map<u32, TypeView>,
    pub next_id: u32,
    pub return_ty: TypeView,
    pub skip_return_check: bool,
    pub catch_stack: Seq<Seq<Seq<char>>>,
    pub const_vars: Set<u32>,
    pub readonly_loop_vars: Set<u32>,
    pub line: u32,
    pub warnings: Seq<(u32, WarningView)>,
    pub assigned: Set<u32>,
    pub typings: TypingsView,
}

pub open spec fn scope_views(v: Seq<NameMap<VarEntry>>) -> Seq<Seq<(Seq<char>, (u32, TypeView))>> {
    v.map_values(|s: NameMap<VarEntry>| s@)
}

pub open spec fn catch_views(v: Seq<Vec<String>>) -> Seq<Seq<Seq<char>>> {
    v.map_values(|c: Vec<String>| texts(c@))
}

pub open spec fn warning_views(v: Seq<(u32, SemaWarning)>) -> Seq<(u32, WarningView)> {
    v.map_values(|w: (u32, SemaWarning)| (w.0, w.1@))
}

impl View for MethodChecker {
    type V = Flow;

    open spec fn view(&self) -> Flow {
        Flow {
            scopes: scope_views(self.scopes@),
            narrowed: self.narrowed@,
            next_id: self.next_id,
            return_ty: self.return_ty@,
            skip_return_check: self.skip_return_check,
            catch_stack: catch_views(self.catch_stack@),
            const_vars: self.const_vars@,
            readonly_loop_vars: self.readonly_loop_vars@,
            line: self.current_line,
            warnings: warning_views(self.warnings@),
            assigned: self.assigned@,
            typings: self.typings@,
        }
    }
}

/// The variable that a name means in the first `n` scopes.
pub open spec fn in_scopes(
    scopes: Seq<Seq<(Seq<char>, (u32, TypeView))>>,
    name: Seq<char>,
    n: int,
) -> Option<(u32, TypeView)>
    decreases n,
{
    if n <= 0 {
        None
    } else {
        match bound_to(scopes[n - 1], name) {
            Some(e) => Some(e),
            None => in_scopes(scopes, name, n - 1),
        }
    }
}

/// `m` with the types of a narrowing from the `i`-th on.
pub open spec fn overlaid(m: Map<u32, TypeView>, ns: Narrowing, i: int) -> Map<u32, TypeView>
    decreases ns.len() - i,
{
    if i < 0 || i >= ns.len() {
        m
    } else {
        overlaid(m.insert(ns[i].0, ns[i].1), ns, i + 1)
    }
}

/// `m` with what `prior` says of the variables of a narrowing, from the `i`-th
/// on.
pub open spec fn put_back(
    m: Map<u32, TypeView>,
    prior: Map<u32, TypeView>,
    ns: Narrowing,
    i: int,
) -> Map<u32, TypeView>
    decreases ns.len() - i,
{
    if i < 0 || i >= ns.len() {
        m
    } else {
        let id = ns[i].0;
        let next = if prior.contains_key(id) {
            m.insert(id, prior[id])
        } else {
            m.remove(id)
        };
        put_back(next, prior, ns, i + 1)
    }
}

/// Whether two states of knowledge say the same of a variable.
pub open spec fn same_known(a: Map<u32, TypeView>, b: Map<u32, TypeView>, id: u32) -> bool {
    a.contains_key(id) == b.contains_key(id) && (a.contains_key(id) ==> a[id] == b[id])
}

/// Whether a narrowing is about a variable.
pub open spec fn narrows(ns: Narrowing, id: u32) -> bool {
    exists|k: int| 0 <= k < ns.len() && (#[trigger] ns[k]).0 == id
}

proof fn put_back_from(
    m: Map<u32, TypeView>,
    prior: Map<u32, TypeView>,
    ns: Narrowing,
    i: int,
    id: u32,
)
    requires
        0 <= i <= ns.len(),
    ensures
        (exists|k: int| i <= k < ns.len() && (#[trigger] ns[k]).0 == id) ==> same_known(
            put_back(m, prior, ns, i),
            prior,
            id,
        ),
        (forall|k: int| i <= k < ns.len() ==> (#[trigger] ns[k]).0 != id) ==> same_known(
            put_back(m, prior, ns, i),
            m,
            id,
        ),
    decreases ns.len() - i,
{
    if i < ns.len() {
        let x = ns[i].0;
        let next = if prior.contains_key(x) {
            m.insert(x, prior[x])
        } else {
            m.remove(x)
        };
        put_back_from(next, prior, ns, i + 1, id);
    }
}

/// What is put back of a variable that was narrowed is what was known of it
/// before; nothing is changed of the others.
pub proof fn narrowing_is_undone(
    m: Map<u32, TypeView>,
    prior: Map<u32, TypeView>,
    ns: Narrowing,
    id: u32,
)
    ensures
        narrows(ns, id) ==> same_known(put_back(m, prior, ns, 0), prior, id),
        !narrows(ns, id) ==> same_known(put_back(m, prior, ns, 0), m, id),
{
    put_back_from(m, prior, ns, 0, id);
}

/// What a narrowing is about is known of `b` as it was of `a`.
pub open spec fn known_again(a: Flow, b: Flow, ns: Narrowing) -> bool {
    forall|id: u32| #[trigger] narrows(ns, id) ==> same_known(b.narrowed, a.narrowed, id)
}

impl Flow {
    #[verifier::opaque]
    pub open spec fn push_scope(self) -> Flow {
        Flow { scopes: self.scopes.push(Seq::empty()), ..self }
    }

    #[verifier::opaque]
    pub open spec fn pop_scope(self) -> Flow {
        if self.scopes.len() == 0 {
            self
        } else {
            Flow { scopes: self.scopes.drop_last(), ..self }
        }
    }

    /// A variable is declared in the innermost scope, under the next number.
    #[verifier::opaque]
    pub open spec fn declare(self, name: Seq<char>, ty: TypeView) -> Flow {
        let scopes = if self.scopes.len() == 0 {
            self.scopes
        } else {
            self.scopes.drop_last().push(self.scopes.last().push((name, (self.next_id, ty))))
        };
        Flow { scopes, next_id: self.next_id.wrapping_add(1), ..self }
    }

    /// The variable that a name means, by its number, and its declared type.
    #[verifier::opaque]
    pub open spec fn lookup(self, name: Seq<char>) -> Option<(u32, TypeView)> {
        in_scopes(self.scopes, name, self.scopes.len() as int)
    }

    /// The type that a variable is known to have.
    pub open spec fn known_type(self, id: u32, declared: TypeView) -> TypeView {
        if self.narrowed.contains_key(id) {
            self.narrowed[id]
        } else {
            declared
        }
    }

    #[verifier::opaque]
    pub open spec fn mark_const(self, id: u32, is_const: bool) -> Flow {
        if is_const {
            Flow { const_vars: self.const_vars.insert(id), ..self }
        } else {
            self
        }
    }

    #[verifier::opaque]
    pub open spec fn mark_loop_var(self, id: u32, readonly: bool) -> Flow {
        if readonly {
            Flow { readonly_loop_vars: self.readonly_loop_vars.insert(id), ..self }
        } else {
            self
        }
    }

    #[verifier::opaque]
    pub open spec fn assign(self, id: u32) -> Flow {
        Flow { assigned: self.assigned.insert(id), ..self }
    }

    #[verifier::opaque]
    pub open spec fn with_assigned(self, assigned: Set<u32>) -> Flow {
        Flow { assigned, ..self }
    }

    /// A variable comes into sight, with its type where that can be told.
    #[verifier::opaque]
    pub open spec fn tell(self, name: Seq<char>, ty: Option<TypeView>) -> Flow {
        Flow { typings: self.typings.push((name, ty)), ..self }
    }

    #[verifier::opaque]
    pub open spec fn with_typings(self, typings: TypingsView) -> Flow {
        Flow { typings, ..self }
    }

    #[verifier::opaque]
    pub open spec fn forget(self, id: u32) -> Flow {
        Flow { narrowed: self.narrowed.remove(id), ..self }
    }

    #[verifier::opaque]
    pub open spec fn narrow(self, ns: Narrowing) -> Flow {
        Flow { narrowed: overlaid(self.narrowed, ns, 0), ..self }
    }

    /// What was known before a narrowing is known again.
    #[verifier::opaque]
    pub open spec fn restore(self, prior: Map<u32, TypeView>, ns: Narrowing) -> Flow {
        Flow { narrowed: put_back(self.narrowed, prior, ns, 0), ..self }
    }

    #[verifier::opaque]
    pub open spec fn at_line(self, line: u32) -> Flow {
        Flow { line, ..self }
    }

    #[verifier::opaque]
    pub open spec fn warn(self, line: u32, w: WarningView) -> Flow {
        Flow { warnings: self.warnings.push((line, w)), ..self }
    }

    #[verifier::opaque]
    pub open spec fn push_catches(self, names: Seq<Seq<char>>) -> Flow {
        Flow { catch_stack: self.catch_stack.push(names), ..self }
    }

    #[verifier::opaque]
    pub open spec fn pop_catches(self) -> Flow {
        if self.catch_stack.len() == 0 {
            self
        } else {
            Flow { catch_stack: self.catch_stack.drop_last(), ..self }
        }
    }

    #[verifier::opaque]
    pub open spec fn returning(self, ty: TypeView, skip: bool) -> Flow {
        Flow { return_ty: ty, skip_return_check: skip, ..self }
    }
}

/// The state at the start of a method, before its parameters are declared.
pub open spec fn flow_start(return_ty: TypeView, line: u32) -> Flow {
    Flow {
        scopes: Seq::empty(),
        narrowed: Map::empty(),
        next_id: 0,
        return_ty,
        skip_return_check: false,
        catch_stack: Seq::empty(),
        const_vars: Set::empty(),
        readonly_loop_vars: Set::empty(),
        line,
        warnings: Seq::empty(),
        assigned: Set::empty(),
        typings: Seq::empty(),
    }
}

/// Whether a piece of code has left what it must: nothing assigned is
/// unassigned, no warning is lost, outer scopes are untouched, and what is
/// caught and returned around it is what it was.
#[verifier::opaque]
pub open spec fn carries(a: Flow, b: Flow) -> bool {
    &&& a.assigned.subset_of(b.assigned)
    &&& a.const_vars.subset_of(b.const_vars)
    &&& a.readonly_loop_vars.subset_of(b.readonly_loop_vars)
    &&& a.warnings.is_prefix_of(b.warnings)
    &&& a.scopes.len() == b.scopes.len()
    &&& forall|i: int| 0 <= i < a.scopes.len() - 1 ==> #[trigger] a.scopes[i] == b.scopes[i]
    &&& a.catch_stack == b.catch_stack
    &&& a.return_ty == b.return_ty
    &&& a.skip_return_check == b.skip_return_check
}

/// Whether it has declared nothing, either, that what follows can see.
#[verifier::opaque]
pub open spec fn settles(a: Flow, b: Flow) -> bool {
    carries(a, b) && a.scopes == b.scopes && a.typings == b.typings
}

/// Code that does nothing settles, and so does code after code.
pub broadcast proof fn settles_self(a: Flow)
    ensures
        #[trigger] settles(a, a),
{
    reveal(settles);
    reveal(carries);
}

pub broadcast proof fn settles_trans(a: Flow, b: Flow, c: Flow)
    requires
        #[trigger] settles(a, b),
        #[trigger] settles(b, c),
    ensures
        settles(a, c),
{
    reveal(settles);
    reveal(carries);
}

pub broadcast proof fn settles_carries(a: Flow, b: Flow)
    requires
        #[trigger] settles(a, b),
    ensures
        carries(a, b),
        a.assigned.subset_of(b.assigned),
        a.return_ty == b.return_ty,
        a.skip_return_check == b.skip_return_check,
        a.typings == b.typings,
{
    reveal(settles);
    reveal(carries);
}

pub broadcast proof fn carries_self(a: Flow)
    ensures
        #[trigger] carries(a, a),
{
    reveal(carries);
}

pub broadcast proof fn carries_trans(a: Flow, b: Flow, c: Flow)
    requires
        #[trigger] carries(a, b),
        #[trigger] carries(b, c),
    ensures
        carries(a, c),
{
    reveal(carries);
}

pub broadcast proof fn narrow_settles(a: Flow, ns: Narrowing)
    ensures
        settles(a, #[trigger] a.narrow(ns)),
{
    reveal(settles);
    reveal(carries);
    reveal(Flow::narrow);
}

pub broadcast proof fn restore_settles(a: Flow, prior: Map<u32, TypeView>, ns: Narrowing)
    ensures
        settles(a, #[trigger] a.restore(prior, ns)),
{
    reveal(settles);
    reveal(carries);
    reveal(Flow::restore);
}

pub broadcast proof fn forget_settles(a: Flow, id: u32)
    ensures
        settles(a, #[trigger] a.forget(id)),
{
    reveal(settles);
    reveal(carries);
    reveal(Flow::forget);
}

pub broadcast proof fn at_line_settles(a: Flow, line: u32)
    ensures
        settles(a, #[trigger] a.at_line(line)),
{
    reveal(settles);
    reveal(carries);
    reveal(Flow::at_line);
}

pub broadcast proof fn warn_settles(a: Flow, line: u32, w: WarningView)
    ensures
        settles(a, #[trigger] a.warn(line, w)),
{
    reveal(settles);
    reveal(carries);
    reveal(Flow::warn);
}

pub broadcast proof fn assign_settles(a: Flow, id: u32)
    ensures
        settles(a, #[trigger] a.assign(id)),
{
    reveal(settles);
    reveal(carries);
    reveal(Flow::assign);
}

pub broadcast proof fn mark_const_settles(a: Flow, id: u32, is_const: bool)
    ensures
        settles(a, #[trigger] a.mark_const(id, is_const)),
{
    reveal(settles);
    reveal(carries);
    reveal(Flow::mark_const);
}

pub broadcast proof fn mark_loop_var_settles(a: Flow, id: u32, readonly: bool)
    ensures
        settles(a, #[trigger] a.mark_loop_var(id, readonly)),
{
    reveal(settles);
    reveal(carries);
    reveal(Flow::mark_loop_var);
}

pub broadcast proof fn declare_carries(a: Flow, name: Seq<char>, ty: TypeView)
    ensures
        carries(a, #[trigger] a.declare(name, ty)),
{
    reveal(carries);
    reveal(Flow::declare);
}

/// What is declared in a scope is gone after it.
pub broadcast proof fn scope_settles(a: Flow, b: Flow)
    requires
        #[trigger] carries(a.push_scope(), b),
    ensures
        settles(a, #[trigger] b.pop_scope().with_typings(a.typings)),
{
    reveal(settles);
    reveal(carries);
    reveal(Flow::push_scope);
    reveal(Flow::pop_scope);
    reveal(Flow::with_typings);
    let c = b.pop_scope().with_typings(a.typings);
    assert forall|i: int| 0 <= i < a.scopes.len() implies a.scopes[i] == c.scopes[i] by {
        assert(a.push_scope().scopes[i] == b.scopes[i]);
    }
    assert(a.scopes =~= c.scopes);
}

pub broadcast proof fn tell_carries(a: Flow, name: Seq<char>, ty: Option<TypeView>)
    ensures
        carries(a, #[trigger] a.tell(name, ty)),
        a.tell(name, ty).typings == a.typings.push((name, ty)),
{
    reveal(carries);
    reveal(Flow::tell);
}

pub broadcast proof fn declare_tells_nothing(a: Flow, name: Seq<char>, ty: TypeView)
    ensures
        #[trigger] a.declare(name, ty).typings == a.typings,
        a.push_scope().typings == a.typings,
{
    reveal(Flow::declare);
    reveal(Flow::push_scope);
}

/// What is told of variables in a branch alone is forgotten after it.
pub broadcast proof fn typings_settle(a: Flow, k: TypingsView, b: Flow)
    requires
        #[trigger] settles(a.with_typings(k), b),
    ensures
        settles(a, #[trigger] b.with_typings(a.typings)),
{
    reveal(settles);
    reveal(carries);
    reveal(Flow::with_typings);
}

/// What is assigned in a part that may not run is forgotten after it.
pub broadcast proof fn with_assigned_settles(a: Flow, b: Flow, assigned: Set<u32>)
    requires
        #[trigger] settles(a, b),
        a.assigned.subset_of(assigned),
    ensures
        settles(a, #[trigger] b.with_assigned(assigned)),
{
    reveal(settles);
    reveal(carries);
    reveal(Flow::with_assigned);
}

pub broadcast proof fn catches_settle(a: Flow, names: Seq<Seq<char>>, b: Flow)
    requires
        #[trigger] settles(a.push_catches(names), b),
    ensures
        settles(a, #[trigger] b.pop_catches()),
{
    reveal(settles);
    reveal(carries);
    reveal(Flow::push_catches);
    reveal(Flow::pop_catches);
    assert(b.pop_catches().catch_stack =~= a.catch_stack);
}

/// A closure has a scope and a return type of its own.
pub proof fn closure_settles(a: Flow, b: Flow, ty: TypeView, skip: bool, d: Flow)
    requires
        carries(a.push_scope(), b),
        carries(b.returning(ty, skip), d),
    ensures
        settles(
            a,
            d.returning(a.return_ty, a.skip_return_check).pop_scope().with_typings(
                a.typings,
            ).with_assigned(a.assigned),
        ),
{
    reveal(settles);
    reveal(carries);
    reveal(Flow::push_scope);
    reveal(Flow::pop_scope);
    reveal(Flow::returning);
    reveal(Flow::with_assigned);
    reveal(Flow::with_typings);
    let r = d.returning(a.return_ty, a.skip_return_check).pop_scope().with_typings(
        a.typings,
    ).with_assigned(a.assigned);
    assert forall|i: int| 0 <= i < a.scopes.len() implies a.scopes[i] == r.scopes[i] by {
        assert(a.push_scope().scopes[i] == b.scopes[i]);
        assert(b.returning(ty, skip).scopes[i] == d.scopes[i]);
    }
    assert(a.scopes =~= r.scopes);
}

pub broadcast group group_flow {
    settles_self,
    settles_trans,
    settles_carries,
    carries_self,
    carries_trans,
    narrow_settles,
    restore_settles,
    forget_settles,
    at_line_settles,
    warn_settles,
    assign_settles,
    mark_const_settles,
    mark_loop_var_settles,
    declare_carries,
    declare_tells_nothing,
    tell_carries,
    scope_settles,
    typings_settle,
    with_assigned_settles,
    catches_settle,
}

pub open spec fn var_view(o: Option<(u32, Type)>) -> Option<(u32, TypeView)> {
    match o {
        Some((id, ty)) => Some((id, ty@)),
        None => None,
    }
}

impl MethodChecker {
    pub fn new(return_ty: Type, line: u32) -> (r: MethodChecker)
        ensures
            r@ == flow_start(return_ty@, line),
    {
        let r = MethodChecker {
            scopes: Vec::new(),
            narrowed: IdMap::new(),
            next_id: 0,
            return_ty,
            skip_return_check: false,
            catch_stack: Vec::new(),
            const_vars: IdSet::new(),
            readonly_loop_vars: IdSet::new(),
            current_line: line,
            warnings: Vec::new(),
            assigned: IdSet::new(),
            typings: Typings::new(),
        };
        assert(r@.scopes =~= Seq::empty());
        assert(r@.catch_stack =~= Seq::empty());
        assert(r@.warnings =~= Seq::empty());
        r
    }

    pub fn push_scope(&mut self)
        ensures
            final(self)@ == old(self)@.push_scope(),
    {
        reveal(Flow::push_scope);
        let ghost before = self@.scopes;
        let scope: NameMap<VarEntry> = NameMap::new();
        self.scopes.push(scope);
        assert(self@.scopes =~= before.push(Seq::empty()));
    }

    pub fn pop_scope(&mut self)
        ensures
            final(self)@ == old(self)@.pop_scope(),
    {
        reveal(Flow::pop_scope);
        let ghost before = self@.scopes;
        if self.scopes.len() > 0 {
            let _ = self.scopes.pop();
            assert(self@.scopes =~= before.drop_last());
        }
    }

    pub fn declare(&mut self, name: &str, ty: Type) -> (r: u32)
        ensures
            final(self)@ == old(self)@.declare(name@, ty@),
            r == old(self)@.next_id,
    {
        reveal(Flow::declare);
        let ghost before = self@.scopes;
        let id: u32 = self.next_id;
        self.next_id = id.wrapping_add(1);
        match self.scopes.pop() {
            Some(mut scope) => {
                scope.insert(owned(name), VarEntry { id, ty });
                self.scopes.push(scope);
                assert(self@.scopes =~= before.drop_last().push(
                    before.last().push((name@, (id, ty@))),
                ));
            },
            None => {
                assert(self@.scopes =~= before);
            },
        }
        id
    }

    pub fn resolve(&self, name: &str) -> (r: Option<(u32, Type)>)
        ensures
            var_view(r) == self@.lookup(name@),
    {
        reveal(Flow::lookup);
        let ghost scopes = self@.scopes;
        let mut n: usize = self.scopes.len();
        while n > 0
            invariant
                n <= self.scopes@.len(),
                scopes == self@.scopes,
                self@.lookup(name@) == in_scopes(scopes, name@, n as int),
            decreases n,
        {
            n = n - 1;
            assert(scopes[n as int] == self.scopes@[n as int]@);
            if let Some(e) = self.scopes[n].get(name) {
                return Some((e.id, clone_type(&e.ty)));
            }
        }
        None
    }

    pub fn tell(&mut self, name: &str, ty: Option<Type>)
        ensures
            final(self)@ == old(self)@.tell(name@, opt_type(ty)),
    {
        reveal(Flow::tell);
        self.typings.tell(name, ty);
    }

    pub fn set_typings(&mut self, typings: Typings)
        ensures
            final(self)@ == old(self)@.with_typings(typings@),
    {
        reveal(Flow::with_typings);
        self.typings = typings;
    }

    pub fn known_ty(&self, id: u32, declared: Type) -> (r: Type)
        ensures
            r@ == self@.known_type(id, declared@),
    {
        match self.narrowed.get(id) {
            Some(t) => clone_type(t),
            None => declared,
        }
    }

    pub fn mark_const(&mut self, id: u32, is_const: bool)
        ensures
            final(self)@ == old(self)@.mark_const(id, is_const),
    {
        reveal(Flow::mark_const);
        if is_const {
            self.const_vars.insert(id);
        }
    }

    pub fn mark_loop_var(&mut self, id: u32, readonly: bool)
        ensures
            final(self)@ == old(self)@.mark_loop_var(id, readonly),
    {
        reveal(Flow::mark_loop_var);
        if readonly {
            self.readonly_loop_vars.insert(id);
        }
    }

    pub fn assign(&mut self, id: u32)
        ensures
            final(self)@ == old(self)@.assign(id),
    {
        reveal(Flow::assign);
        self.assigned.insert(id);
    }

    pub fn set_assigned(&mut self, assigned: IdSet)
        ensures
            final(self)@ == old(self)@.with_assigned(assigned@),
    {
        reveal(Flow::with_assigned);
        self.assigned = assigned;
    }

    pub fn forget(&mut self, id: u32)
        ensures
            final(self)@ == old(self)@.forget(id),
    {
        reveal(Flow::forget);
        self.narrowed.remove(id);
    }

    /// Narrows; gives what was known of the variables before.
    pub fn narrow(&mut self, ns: &Vec<(u32, Type)>) -> (r: Vec<(u32, Option<Type>)>)
        ensures
            final(self)@ == old(self)@.narrow(narrowing_view(ns@)),
            saved(r@, narrowing_view(ns@), old(self)@.narrowed),
    {
        reveal(Flow::narrow);
        let ghost view = narrowing_view(ns@);
        let mut out: Vec<(u32, Option<Type>)> = Vec::new();
        let mut i: usize = 0;
        while i < ns.len()
            invariant
                i <= ns@.len(),
                view == narrowing_view(ns@),
                out@.len() == i,
                forall|j: int| 0 <= j < i ==> saved_one(#[trigger] out@[j], view[j].0, self@.narrowed),
            decreases ns@.len() - i,
        {
            let id: u32 = ns[i].0;
            let prior: Option<Type> = match self.narrowed.get(id) {
                Some(t) => Some(clone_type(t)),
                None => None,
            };
            assert(view[i as int].0 == id);
            out.push((id, prior));
            i = i + 1;
        }
        let ghost whole = overlaid(self@.narrowed, view, 0);
        let ghost base = self@;
        let mut k: usize = 0;
        while k < ns.len()
            invariant
                k <= ns@.len(),
                view == narrowing_view(ns@),
                whole == overlaid(self@.narrowed, view, k as int),
                self@ == (Flow { narrowed: self@.narrowed, ..base }),
            decreases ns@.len() - k,
        {
            assert(view[k as int] == (ns@[k as int].0, ns@[k as int].1@));
            self.narrowed.insert(ns[k].0, clone_type(&ns[k].1));
            k = k + 1;
        }
        out
    }

    pub(crate) fn restore(
        &mut self,
        prior: Vec<(u32, Option<Type>)>,
        Ghost(known): Ghost<Map<u32, TypeView>>,
        Ghost(ns): Ghost<Narrowing>,
    )
        requires
            saved(prior@, ns, known),
        ensures
            final(self)@ == old(self)@.restore(known, ns),
            final(self)@.line == old(self)@.line,
            forall|id: u32| #[trigger]
                narrows(ns, id) ==> same_known(final(self)@.narrowed, known, id),
    {
        reveal(Flow::restore);
        proof {
            assert forall|id: u32| #[trigger] narrows(ns, id) implies same_known(
                put_back(self@.narrowed, known, ns, 0),
                known,
                id,
            ) by {
                narrowing_is_undone(self@.narrowed, known, ns, id);
            }
        }
        let ghost whole = put_back(self@.narrowed, known, ns, 0);
        let ghost base = self@;
        let mut i: usize = 0;
        while i < prior.len()
            invariant
                i <= prior@.len(),
                saved(prior@, ns, known),
                whole == put_back(self@.narrowed, known, ns, i as int),
                self@ == (Flow { narrowed: self@.narrowed, ..base }),
            decreases prior@.len() - i,
        {
            assert(saved_one(prior@[i as int], ns[i as int].0, known));
            match &prior[i].1 {
                Some(t) => {
                    self.narrowed.insert(prior[i].0, clone_type(t));
                },
                None => {
                    self.narrowed.remove(prior[i].0);
                },
            }
            i = i + 1;
        }
    }

    /// A narrowing that stays.
    pub fn keep(&mut self, ns: &Vec<(u32, Type)>)
        ensures
            final(self)@ == old(self)@.narrow(narrowing_view(ns@)),
    {
        let _ = self.narrow(ns);
    }

    pub fn set_line(&mut self, line: u32)
        ensures
            final(self)@ == old(self)@.at_line(line),
    {
        reveal(Flow::at_line);
        self.current_line = line;
    }

    pub fn warn(&mut self, line: u32, w: SemaWarning)
        ensures
            final(self)@ == old(self)@.warn(line, w@),
    {
        reveal(Flow::warn);
        let ghost before = self@.warnings;
        self.warnings.push((line, w));
        assert(self@.warnings =~= before.push((line, w@)));
    }

    pub fn push_catches(&mut self, names: Vec<String>)
        ensures
            final(self)@ == old(self)@.push_catches(texts(names@)),
    {
        reveal(Flow::push_catches);
        let ghost before = self@.catch_stack;
        self.catch_stack.push(names);
        assert(self@.catch_stack =~= before.push(texts(names@)));
    }

    pub fn pop_catches(&mut self)
        ensures
            final(self)@ == old(self)@.pop_catches(),
    {
        reveal(Flow::pop_catches);
        let ghost before = self@.catch_stack;
        if self.catch_stack.len() > 0 {
            let _ = self.catch_stack.pop();
            assert(self@.catch_stack =~= before.drop_last());
        }
    }

    pub fn set_return(&mut self, ty: Type, skip: bool)
        ensures
            final(self)@ == old(self)@.returning(ty@, skip),
    {
        reveal(Flow::returning);
        self.return_ty = ty;
        self.skip_return_check = skip;
    }
}

/// Whether `e` is what a map says of a variable.
pub open spec fn saved_one(e: (u32, Option<Type>), id: u32, m: Map<u32, TypeView>) -> bool {
    e.0 == id && match e.1 {
        Some(t) => m.contains_key(id) && m[id] == t@,
        None => !m.contains_key(id),
    }
}

/// Whether `v` is what a map says of the variables of a narrowing.
pub open spec fn saved(v: Seq<(u32, Option<Type>)>, ns: Narrowing, m: Map<u32, TypeView>) -> bool {
    v.len() == ns.len() && forall|j: int|
        0 <= j < v.len() ==> saved_one(#[trigger] v[j], ns[j].0, m)
}

} // verus!
