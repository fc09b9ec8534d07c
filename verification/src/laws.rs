//! Laws of the class table and of names.

use crate::ast::{SourceFile, TypeView, UseDecl, Visibility};
use crate::class_table::{
    accessible, among_ancestors, called_method, choice, chosen, closure_from, field_at, field_found,
    field_within, interfaces_from, method_found, method_within, overload_found, overload_score,
    overload_within, params_at, parent_of, subclass, unseen, unseen_shrinks, wanted_at,
    wanted_positions, wants, Classes, FieldInfoView, MethodInfoView, Wanted,
};
use crate::names::bound_to;
use crate::resolve::{
    full_name, import_name, imports_of, neighbours, prelude_bindings, resolved_name, simple_name,
    Prelude,
};
use crate::text::texts;
use vstd::prelude::*;

verus! {

/// Among more values than a list has, all taken from it, two are the same.
pub proof fn pigeonhole<A>(ws: Seq<A>, pool: Seq<A>)
    requires
        ws.len() > pool.len(),
        forall|i: int| 0 <= i < ws.len() ==> pool.contains(#[trigger] ws[i]),
    ensures
        exists|i: int, j: int| 0 <= i < j < ws.len() && #[trigger] ws[i] == #[trigger] ws[j],
{
    if forall|i: int, j: int|
        0 <= i < j < ws.len() ==> #[trigger] ws[i] != #[trigger] ws[j] {
        assert(ws.no_duplicates());
        ws.unique_seq_to_set();
        pool.lemma_cardinality_of_set();
        assert(ws.to_set().subset_of(pool.to_set())) by {
            assert forall|x: A| ws.to_set().contains(x) implies pool.to_set().contains(x) by {
                let i = choose|i: int| 0 <= i < ws.len() && ws[i] == x;
                assert(pool.contains(ws[i]));
            }
        }
        vstd::set_lib::lemma_len_subset(ws.to_set(), pool.to_set());
    }
}

/// The `n`-th ancestor of a class.
pub open spec fn ancestor(t: Classes, c: Seq<char>, n: nat) -> Option<Seq<char>>
    decreases n,
{
    if n == 0 {
        Some(c)
    } else {
        match parent_of(t, c) {
            Some(p) => ancestor(t, p, (n - 1) as nat),
            None => None,
        }
    }
}

proof fn ancestor_adds(t: Classes, c: Seq<char>, m: nat, n: nat)
    requires
        ancestor(t, c, m) is Some,
    ensures
        ancestor(t, c, m + n) == ancestor(t, ancestor(t, c, m)->0, n),
    decreases m,
{
    if m > 0 {
        ancestor_adds(t, parent_of(t, c)->0, (m - 1) as nat, n);
    }
}

proof fn ancestor_prefix(t: Classes, c: Seq<char>, m: nat, n: nat)
    requires
        m <= n,
        ancestor(t, c, n) is Some,
    ensures
        ancestor(t, c, m) is Some,
    decreases m,
{
    if m > 0 {
        ancestor_prefix(t, parent_of(t, c)->0, (m - 1) as nat, (n - 1) as nat);
    }
}

proof fn ancestor_among(t: Classes, c: Seq<char>, sup: Seq<char>, m: nat, n: nat)
    requires
        ancestor(t, c, m) == Some(sup),
        m <= n,
    ensures
        among_ancestors(t, c, sup, n),
    decreases m,
{
    if m > 0 {
        ancestor_among(t, parent_of(t, c)->0, sup, (m - 1) as nat, (n - 1) as nat);
    }
}

proof fn among_ancestor(t: Classes, c: Seq<char>, sup: Seq<char>, n: nat) -> (m: nat)
    requires
        among_ancestors(t, c, sup, n),
    ensures
        m <= n,
        ancestor(t, c, m) == Some(sup),
    decreases n,
{
    if c == sup {
        0
    } else {
        let m = among_ancestor(t, parent_of(t, c)->0, sup, (n - 1) as nat);
        m + 1
    }
}

/// The names that a table binds.
pub open spec fn bound_names<V>(t: Seq<(Seq<char>, V)>) -> Seq<Seq<char>> {
    t.map_values(|e: (Seq<char>, V)| e.0)
}

proof fn bound_is_listed<V>(t: Seq<(Seq<char>, V)>, c: Seq<char>)
    requires
        bound_to(t, c) is Some,
    ensures
        bound_names(t).contains(c),
    decreases t.len(),
{
    if t.last().0 == c {
        assert(bound_names(t)[t.len() - 1] == c);
    } else {
        bound_is_listed(t.drop_last(), c);
        let i = choose|i: int|
            0 <= i < t.len() - 1 && bound_names(t.drop_last())[i] == c;
        assert(bound_names(t)[i] == c);
    }
}

/// A class that is reached in more steps than the table has entries is
/// reached in fewer.
proof fn ancestor_shortens(t: Classes, c: Seq<char>, sup: Seq<char>, n: nat) -> (m: nat)
    requires
        ancestor(t, c, n) == Some(sup),
        n > t.len(),
    ensures
        m < n,
        ancestor(t, c, m) == Some(sup),
{
    let ws = Seq::new(n, |i: int| ancestor(t, c, i as nat)->0);
    let pool = bound_names(t);
    assert forall|i: int| 0 <= i < ws.len() implies pool.contains(#[trigger] ws[i]) by {
        ancestor_prefix(t, c, i as nat, n);
        ancestor_prefix(t, c, (i + 1) as nat, n);
        ancestor_adds(t, c, i as nat, 1);
        bound_is_listed(t, ws[i]);
    }
    pigeonhole(ws, pool);
    let (i, j) = choose|i: int, j: int|
        0 <= i < j < ws.len() && #[trigger] ws[i] == #[trigger] ws[j];
    ancestor_prefix(t, c, i as nat, n);
    ancestor_prefix(t, c, j as nat, n);
    ancestor_adds(t, c, j as nat, (n - j) as nat);
    ancestor_adds(t, c, i as nat, (n - j) as nat);
    (i + n - j) as nat
}

/// However long the way up, an ancestor counts as one.
pub proof fn every_ancestor_counts(t: Classes, c: Seq<char>, sup: Seq<char>, n: nat)
    requires
        ancestor(t, c, n) == Some(sup),
    ensures
        subclass(t, c, sup),
    decreases n,
{
    if n <= t.len() {
        ancestor_among(t, c, sup, n, t.len());
    } else {
        let m = ancestor_shortens(t, c, sup, n);
        every_ancestor_counts(t, c, sup, m);
    }
}

/// An ancestor that the table knows is reached in fewer steps than the table
/// has entries.
pub proof fn bound_ancestor_is_near(t: Classes, c: Seq<char>, sup: Seq<char>) -> (m: nat)
    requires
        subclass(t, c, sup),
        bound_to(t, sup) is Some,
    ensures
        m < t.len(),
        ancestor(t, c, m) == Some(sup),
{
    let n = among_ancestor(t, c, sup, t.len());
    if n < t.len() {
        n
    } else {
        let ws = Seq::new(n + 1, |i: int| ancestor(t, c, i as nat)->0);
        let pool = bound_names(t);
        assert forall|i: int| 0 <= i < ws.len() implies pool.contains(#[trigger] ws[i]) by {
            ancestor_prefix(t, c, i as nat, n);
            if i < n {
                ancestor_prefix(t, c, (i + 1) as nat, n);
                ancestor_adds(t, c, i as nat, 1);
            }
            bound_is_listed(t, ws[i]);
        }
        pigeonhole(ws, pool);
        let (i, j) = choose|i: int, j: int|
            0 <= i < j < ws.len() && #[trigger] ws[i] == #[trigger] ws[j];
        ancestor_prefix(t, c, i as nat, n);
        ancestor_prefix(t, c, j as nat, n);
        ancestor_adds(t, c, j as nat, (n - j) as nat);
        ancestor_adds(t, c, i as nat, (n - j) as nat);
        (i + n - j) as nat
    }
}

/// A class is a subclass of itself.
pub proof fn subclass_reflexive(t: Classes, c: Seq<char>)
    ensures
        subclass(t, c, c),
{
}

/// A class is a subclass of the one it extends.
pub proof fn subclass_of_parent(t: Classes, c: Seq<char>)
    requires
        parent_of(t, c) is Some,
    ensures
        subclass(t, c, parent_of(t, c)->0),
{
    assert(ancestor(t, parent_of(t, c)->0, 0) == parent_of(t, c));
    assert(ancestor(t, c, 1) == ancestor(t, parent_of(t, c)->0, 0));
    every_ancestor_counts(t, c, parent_of(t, c)->0, 1);
}

/// A subclass of a subclass is a subclass.
pub proof fn subclass_transitive(t: Classes, a: Seq<char>, b: Seq<char>, c: Seq<char>)
    requires
        subclass(t, a, b),
        subclass(t, b, c),
    ensures
        subclass(t, a, c),
{
    let m = among_ancestor(t, a, b, t.len());
    let n = among_ancestor(t, b, c, t.len());
    ancestor_adds(t, a, m, n);
    every_ancestor_counts(t, a, c, m + n);
}

/// A class can use all members that it declares itself.
pub proof fn own_members_accessible(t: Classes, v: Visibility, c: Seq<char>)
    ensures
        accessible(t, v, c, c),
{
}

/// A private member is its class's own; a public one is everyone's.
pub proof fn visibility_extremes(t: Classes, declaring: Seq<char>, accessor: Seq<char>)
    ensures
        accessible(t, Visibility::Public, declaring, accessor),
        accessible(t, Visibility::Private, declaring, accessor) == (declaring == accessor),
{
}

/// What a class can use of another one's protected members, its subclasses
/// can use too.
pub proof fn protected_is_inherited(
    t: Classes,
    declaring: Seq<char>,
    accessor: Seq<char>,
    sub: Seq<char>,
)
    requires
        accessible(t, Visibility::Protected, declaring, accessor),
        subclass(t, sub, accessor),
    ensures
        accessible(t, Visibility::Protected, declaring, sub),
{
    subclass_transitive(t, sub, accessor, declaring);
}

proof fn wanted_at_is(ms: Seq<MethodInfoView>, w: Wanted, i: int)
    requires
        0 <= i <= ms.len(),
    ensures
        i <= wanted_at(ms, w, i) <= ms.len(),
        wanted_at(ms, w, i) < ms.len() ==> wants(w, ms[wanted_at(ms, w, i)]),
        forall|j: int| i <= j < wanted_at(ms, w, i) ==> !wants(w, #[trigger] ms[j]),
    decreases ms.len() - i,
{
    if i < ms.len() && !wants(w, ms[i]) {
        wanted_at_is(ms, w, i + 1);
    }
}

/// A method that a class declares hides those that it inherits.
pub proof fn own_method_found(t: Classes, c: Seq<char>, w: Wanted, k: int)
    requires
        bound_to(t, c) is Some,
        0 <= k < bound_to(t, c)->0.methods.len(),
        wants(w, bound_to(t, c)->0.methods[k]),
    ensures
        method_found(t, c, w) matches Some((owner, m)) && owner == c && wants(w, m),
{
    let ms = bound_to(t, c)->0.methods;
    wanted_at_is(ms, w, 0);
    bound_is_listed(t, c);
}

/// A method that is found is one that was wanted, of the class or of one
/// above it.
pub proof fn found_method_is_wanted(t: Classes, c: Seq<char>, w: Wanted)
    requires
        method_found(t, c, w) is Some,
    ensures
        method_found(t, c, w) matches Some((owner, m)) ==> wants(w, m) && subclass(t, c, owner),
{
    let n = found_within(t, c, w, t.len());
    if let Some((owner, _)) = method_found(t, c, w) {
        every_ancestor_counts(t, c, owner, n);
    }
}

proof fn found_within(t: Classes, c: Seq<char>, w: Wanted, n: nat) -> (m: nat)
    requires
        method_within(t, c, w, n) is Some,
    ensures
        method_within(t, c, w, n) matches Some((owner, found)) ==> wants(w, found) && ancestor(
            t,
            c,
            m,
        ) == Some(owner),
    decreases n,
{
    let info = bound_to(t, c)->0;
    wanted_at_is(info.methods, w, 0);
    if wanted_at(info.methods, w, 0) < info.methods.len() {
        0
    } else {
        let m = found_within(t, info.extends->0, w, (n - 1) as nat);
        m + 1
    }
}

/// Whether a class declares a field of this name.
pub open spec fn declares_field(t: Classes, c: Seq<char>, name: Seq<char>) -> bool {
    bound_to(t, c) matches Some(info) && exists|k: int|
        0 <= k < info.fields.len() && (#[trigger] info.fields[k]).name == name
}

/// Whether `f` is the first field of this name that a class declares.
pub open spec fn first_field(t: Classes, c: Seq<char>, name: Seq<char>, f: FieldInfoView) -> bool {
    bound_to(t, c) matches Some(info) && exists|k: int|
        0 <= k < info.fields.len() && #[trigger] info.fields[k] == f && f.name == name && forall|
            j: int,
        |
            0 <= j < k ==> (#[trigger] info.fields[j]).name != name
}

proof fn field_at_is(fs: Seq<FieldInfoView>, name: Seq<char>, i: int)
    requires
        0 <= i <= fs.len(),
    ensures
        i <= field_at(fs, name, i) <= fs.len(),
        field_at(fs, name, i) < fs.len() ==> fs[field_at(fs, name, i)].name == name,
        forall|j: int| i <= j < field_at(fs, name, i) ==> (#[trigger] fs[j]).name != name,
    decreases fs.len() - i,
{
    if i < fs.len() && fs[i].name != name {
        field_at_is(fs, name, i + 1);
    }
}

proof fn field_within_is_nearest(t: Classes, c: Seq<char>, name: Seq<char>, n: nat) -> (m: nat)
    requires
        field_within(t, c, name, n) is Some,
    ensures
        field_within(t, c, name, n) matches Some((owner, f)) ==> ancestor(t, c, m) == Some(owner)
            && first_field(t, owner, name, f),
        forall|j: nat|
            j < m ==> !declares_field(t, (#[trigger] ancestor(t, c, j))->0, name),
    decreases n,
{
    let info = bound_to(t, c)->0;
    field_at_is(info.fields, name, 0);
    let k = field_at(info.fields, name, 0);
    if k < info.fields.len() {
        assert(info.fields[k].name == name);
        0
    } else {
        let p = info.extends->0;
        let m = field_within_is_nearest(t, p, name, (n - 1) as nat);
        assert forall|j: nat| j < m + 1 implies !declares_field(
            t,
            (#[trigger] ancestor(t, c, j))->0,
            name,
        ) by {
            if j > 0 {
                assert(ancestor(t, c, j) == ancestor(t, p, (j - 1) as nat));
            }
        }
        m + 1
    }
}

/// A field that is found is the first of its name in the nearest class, from
/// `c` upwards, that declares one.
pub proof fn found_field_is_nearest(t: Classes, c: Seq<char>, name: Seq<char>) -> (m: nat)
    requires
        field_found(t, c, name) is Some,
    ensures
        field_found(t, c, name) matches Some((owner, f)) ==> ancestor(t, c, m) == Some(owner)
            && first_field(t, owner, name, f),
        forall|j: nat|
            j < m ==> !declares_field(t, (#[trigger] ancestor(t, c, j))->0, name),
{
    field_within_is_nearest(t, c, name, t.len())
}

proof fn field_within_misses(t: Classes, c: Seq<char>, name: Seq<char>, n: nat, m: nat)
    requires
        field_within(t, c, name, n) is None,
        m < n,
        ancestor(t, c, m) is Some,
    ensures
        !declares_field(t, ancestor(t, c, m)->0, name),
    decreases m,
{
    if let Some(info) = bound_to(t, c) {
        field_at_is(info.fields, name, 0);
    }
    if m > 0 {
        field_within_misses(t, parent_of(t, c)->0, name, (n - 1) as nat, (m - 1) as nat);
    }
}

/// No field is found exactly where neither the class nor any above it declares
/// one of that name.
pub proof fn missing_field_is_nowhere(t: Classes, c: Seq<char>, name: Seq<char>)
    ensures
        field_found(t, c, name) is None <==> forall|n: nat|
            (#[trigger] ancestor(t, c, n)) is Some ==> !declares_field(
                t,
                ancestor(t, c, n)->0,
                name,
            ),
{
    if field_found(t, c, name) is None {
        assert forall|n: nat| (#[trigger] ancestor(t, c, n)) is Some implies !declares_field(
            t,
            ancestor(t, c, n)->0,
            name,
        ) by {
            let sup = ancestor(t, c, n)->0;
            if bound_to(t, sup) is Some {
                every_ancestor_counts(t, c, sup, n);
                let m = bound_ancestor_is_near(t, c, sup);
                field_within_misses(t, c, name, t.len(), m);
            }
        }
    } else {
        let m = found_field_is_nearest(t, c, name);
        let (owner, f) = field_found(t, c, name)->0;
        assert(ancestor(t, c, m) == Some(owner));
        assert(first_field(t, owner, name, f));
        assert(declares_field(t, owner, name)) by {
            let info = bound_to(t, owner)->0;
            let k = choose|k: int|
                0 <= k < info.fields.len() && #[trigger] info.fields[k] == f && f.name == name;
            assert(info.fields[k].name == name);
        }
    }
}

proof fn wanted_positions_are(ms: Seq<MethodInfoView>, w: Wanted, n: int)
    requires
        0 <= n <= ms.len(),
    ensures
        forall|j: int|
            0 <= j < wanted_positions(ms, w, n).len() ==> {
                let i = #[trigger] wanted_positions(ms, w, n)[j];
                0 <= i < n && wants(w, ms[i])
            },
        forall|i: int|
            0 <= i < n && wants(w, #[trigger] ms[i]) ==> wanted_positions(ms, w, n).len() > 0,
    decreases n,
{
    if n > 0 {
        wanted_positions_are(ms, w, n - 1);
        let front = wanted_positions(ms, w, n - 1);
        assert forall|j: int| 0 <= j < wanted_positions(ms, w, n).len() implies {
            let i = #[trigger] wanted_positions(ms, w, n)[j];
            0 <= i < n && wants(w, ms[i])
        } by {
            if j < front.len() {
                assert(wanted_positions(ms, w, n)[j] == front[j]);
            }
        }
    }
}

/// Some overload is always the one that a call means.
pub proof fn choice_is_made(t: Classes, candidates: Seq<Seq<TypeView>>, args: Seq<Option<TypeView>>)
    requires
        candidates.len() > 0,
    ensures
        chosen(t, candidates, args, choice(t, candidates, args)),
{
    if candidates.len() > 1 && exists|j: int|
        #![trigger candidates[j]]
        0 <= j < candidates.len() && overload_score(t, candidates[j], args) is Some {
        let k = best_up_to(t, candidates, args, candidates.len() as int);
        assert(chosen(t, candidates, args, k));
    } else {
        assert(chosen(t, candidates, args, 0));
    }
}

proof fn best_up_to(
    t: Classes,
    candidates: Seq<Seq<TypeView>>,
    args: Seq<Option<TypeView>>,
    n: int,
) -> (k: int)
    requires
        0 < n <= candidates.len(),
        exists|j: int|
            #![trigger candidates[j]]
            0 <= j < n && overload_score(t, candidates[j], args) is Some,
    ensures
        0 <= k < n,
        overload_score(t, candidates[k], args) is Some,
        forall|j: int|
            #![trigger candidates[j]]
            0 <= j < n && overload_score(t, candidates[j], args) is Some ==> {
                let (a, b) = (
                    overload_score(t, candidates[k], args)->0,
                    overload_score(t, candidates[j], args)->0,
                );
                a <= b && (j < k ==> a < b)
            },
    decreases n,
{
    let last = overload_score(t, candidates[n - 1], args);
    if exists|j: int|
        #![trigger candidates[j]]
        0 <= j < n - 1 && overload_score(t, candidates[j], args) is Some {
        let k = best_up_to(t, candidates, args, n - 1);
        if last is Some && last->0 < overload_score(t, candidates[k], args)->0 {
            n - 1
        } else {
            k
        }
    } else {
        n - 1
    }
}

/// A call is bound to a method of the class by whose method the number of its
/// arguments alone would bind it, and to that very method where the class has
/// only one that takes as many.
pub proof fn overloads_are_of_one_class(
    t: Classes,
    c: Seq<char>,
    name: Seq<char>,
    argc: nat,
    args: Seq<Option<TypeView>>,
)
    ensures
        overload_found(t, c, name, argc, args) is Some <==> called_method(t, c, name, argc) is Some,
        overload_found(t, c, name, argc, args) matches Some((owner, m)) ==> {
            let w = Wanted::Call { name, argc };
            let ms = bound_to(t, owner)->0.methods;
            &&& wants(w, m)
            &&& called_method(t, c, name, argc) matches Some((other, first)) && other == owner && (
            wanted_positions(ms, w, ms.len() as int).len() == 1 ==> m == first)
        },
{
    overload_within_one_class(t, c, Wanted::Call { name, argc }, args, t.len());
}

proof fn overload_within_one_class(
    t: Classes,
    c: Seq<char>,
    w: Wanted,
    args: Seq<Option<TypeView>>,
    n: nat,
)
    ensures
        overload_within(t, c, w, args, n) is Some <==> method_within(t, c, w, n) is Some,
        overload_within(t, c, w, args, n) matches Some((owner, m)) ==> {
            let ms = bound_to(t, owner)->0.methods;
            &&& wants(w, m)
            &&& method_within(t, c, w, n) matches Some((other, first)) && other == owner && (
            wanted_positions(ms, w, ms.len() as int).len() == 1 ==> m == first)
        },
    decreases n,
{
    if n > 0 {
        if let Some(info) = bound_to(t, c) {
            let ms = info.methods;
            let at = wanted_positions(ms, w, ms.len() as int);
            wanted_positions_are(ms, w, ms.len() as int);
            wanted_at_is(ms, w, 0);
            if at.len() > 0 {
                let k = choice(t, params_at(ms, at), args);
                choice_is_made(t, params_at(ms, at), args);
                assert(0 <= at[k] < ms.len() && wants(w, ms[at[k]]));
                if at.len() == 1 {
                    lone_position(ms, w, ms.len() as int, wanted_at(ms, w, 0));
                }
            } else if let Some(p) = info.extends {
                overload_within_one_class(t, p, w, args, (n - 1) as nat);
            }
        }
    }
}

proof fn lone_position(ms: Seq<MethodInfoView>, w: Wanted, n: int, i: int)
    requires
        0 <= i < n <= ms.len(),
        wants(w, ms[i]),
        wanted_positions(ms, w, n).len() <= 1,
    ensures
        wanted_positions(ms, w, n) == seq![i],
    decreases n,
{
    if i < n - 1 {
        lone_position(ms, w, n - 1, i);
    } else {
        wanted_positions_are(ms, w, n - 1);
        assert(wanted_positions(ms, w, n - 1) =~= Seq::empty());
    }
}

/// What was noted stays noted; what is on the stack gets noted; nothing is
/// noted twice; and what a noted interface extends is noted too.
proof fn closure_holds(t: Classes, stack: Seq<Seq<char>>, seen: Set<Seq<char>>, out: Seq<Seq<char>>)
    requires
        out.no_duplicates(),
        forall|x: Seq<char>| seen.contains(x) == out.contains(x),
        forall|x: Seq<char>, y: Seq<char>|
            out.contains(x) && extends_directly(t, x, y) ==> out.contains(y) || stack.contains(y),
    ensures
        closure_from(t, stack, seen, out).no_duplicates(),
        forall|x: Seq<char>| out.contains(x) ==> closure_from(t, stack, seen, out).contains(x),
        forall|x: Seq<char>| stack.contains(x) ==> closure_from(t, stack, seen, out).contains(x),
        forall|x: Seq<char>, y: Seq<char>|
            closure_from(t, stack, seen, out).contains(x) && extends_directly(t, x, y)
                ==> closure_from(t, stack, seen, out).contains(y),
    decreases unseen(t, seen), stack.len(),
{
    if stack.len() > 0 {
        let x = stack.last();
        let rest = stack.drop_last();
        assert forall|z: Seq<char>| stack.contains(z) implies z == x || rest.contains(z) by {
            let i = choose|i: int| 0 <= i < stack.len() && stack[i] == z;
            if i < rest.len() {
                assert(rest[i] == z);
            }
        }
        if seen.contains(x) {
            assert(out.contains(x));
            closure_holds(t, rest, seen, out);
        } else {
            unseen_shrinks(t, seen, x);
            let more = match bound_to(t, x) {
                Some(info) => rest + info.implements,
                None => rest,
            };
            let noted = out.push(x);
            assert(!out.contains(x));
            assert(noted.no_duplicates());
            assert forall|z: Seq<char>| noted.contains(z) == (z == x || out.contains(z)) by {
                if out.contains(z) {
                    let i = choose|i: int| 0 <= i < out.len() && out[i] == z;
                    assert(noted[i] == z);
                }
                if z == x {
                    assert(noted[out.len() as int] == x);
                }
                if noted.contains(z) && z != x {
                    let i = choose|i: int| 0 <= i < noted.len() && noted[i] == z;
                    assert(out[i] == z);
                }
            }
            assert forall|z: Seq<char>| rest.contains(z) implies more.contains(z) by {
                let i = choose|i: int| 0 <= i < rest.len() && rest[i] == z;
                assert(more[i] == z);
            }
            assert forall|a: Seq<char>, b: Seq<char>|
                noted.contains(a) && extends_directly(t, a, b) implies noted.contains(b)
                || more.contains(b) by {
                if a == x {
                    let ifaces = bound_to(t, x)->0.implements;
                    let i = choose|i: int| 0 <= i < ifaces.len() && ifaces[i] == b;
                    assert(more[rest.len() + i] == b);
                } else {
                    assert(out.contains(a));
                    assert(out.contains(b) || stack.contains(b));
                }
            }
            closure_holds(t, more, seen.insert(x), noted);
            assert(closure_from(t, stack, seen, out) == closure_from(
                t,
                more,
                seen.insert(x),
                noted,
            ));
        }
    }
}

/// Whether an interface names another one among those that it extends.
pub open spec fn extends_directly(t: Classes, x: Seq<char>, y: Seq<char>) -> bool {
    match bound_to(t, x) {
        Some(info) => info.implements.contains(y),
        None => false,
    }
}

/// The closure of some interfaces holds each of them, and all that those in it
/// extend, once.
pub proof fn interface_closure_closed(t: Classes, direct: Seq<Seq<char>>)
    ensures
        interfaces_from(t, direct).no_duplicates(),
        forall|x: Seq<char>| direct.contains(x) ==> interfaces_from(t, direct).contains(x),
        forall|x: Seq<char>, y: Seq<char>|
            interfaces_from(t, direct).contains(x) && extends_directly(t, x, y)
                ==> interfaces_from(t, direct).contains(y),
{
    closure_holds(t, direct, Set::empty(), Seq::empty());
}

proof fn bound_in_tail<V>(a: Seq<(Seq<char>, V)>, b: Seq<(Seq<char>, V)>, k: Seq<char>)
    ensures
        bound_to(a + b, k) == (match bound_to(b, k) {
            Some(v) => Some(v),
            None => bound_to(a, k),
        }),
    decreases b.len(),
{
    if b.len() == 0 {
        assert(a + b =~= a);
    } else {
        assert((a + b).drop_last() =~= a + b.drop_last());
        bound_in_tail(a, b.drop_last(), k);
    }
}

/// An import gives its name to the class that it names, unless a later import
/// of the same file gives it to another.
pub proof fn import_binds(f: SourceFile, files: Seq<SourceFile>, prelude: Prelude, i: int)
    requires
        0 <= i < f.uses@.len(),
        forall|j: int|
            i < j < f.uses@.len() && import_name(#[trigger] f.uses@[j]) == import_name(f.uses@[i])
                ==> f.uses@[j].path@ == f.uses@[i].path@,
    ensures
        resolved_name(import_name(f.uses@[i]), imports_of(f, files, prelude)) == f.uses@[i].path@,
{
    let us = f.uses@.map_values(|u: UseDecl| (import_name(u), u.path@));
    let before = prelude_bindings(prelude) + neighbours(
        files,
        texts(f.namespace@),
        files.len() as int,
    ) + seq![(simple_name(f), full_name(f))];
    assert(imports_of(f, files, prelude) =~= before + us);
    bound_in_tail(before, us, import_name(f.uses@[i]));
    last_use_binds(f, us.len() as int, i);
    assert(us.take(us.len() as int) =~= us);
}

proof fn last_use_binds(f: SourceFile, n: int, i: int)
    requires
        0 <= i < n <= f.uses@.len(),
        forall|j: int|
            i < j < f.uses@.len() && import_name(#[trigger] f.uses@[j]) == import_name(f.uses@[i])
                ==> f.uses@[j].path@ == f.uses@[i].path@,
    ensures
        bound_to(
            f.uses@.map_values(|u: UseDecl| (import_name(u), u.path@)).take(n),
            import_name(f.uses@[i]),
        ) == Some(f.uses@[i].path@),
    decreases n,
{
    let us = f.uses@.map_values(|u: UseDecl| (import_name(u), u.path@));
    assert(us.take(n).last() == us[n - 1]);
    assert(us.take(n).drop_last() =~= us.take(n - 1));
    assert(us[n - 1] == (import_name(f.uses@[n - 1]), f.uses@[n - 1].path@));
    if n - 1 > i {
        last_use_binds(f, n - 1, i);
    }
}

/// Inside its own file a class is called by its simple name, unless an import
/// takes the name.
pub proof fn own_name_binds(f: SourceFile, files: Seq<SourceFile>, prelude: Prelude)
    requires
        forall|j: int|
            0 <= j < f.uses@.len() ==> import_name(#[trigger] f.uses@[j]) != simple_name(f),
    ensures
        resolved_name(simple_name(f), imports_of(f, files, prelude)) == full_name(f),
{
    let us = f.uses@.map_values(|u: UseDecl| (import_name(u), u.path@));
    let before = prelude_bindings(prelude) + neighbours(
        files,
        texts(f.namespace@),
        files.len() as int,
    );
    let own = seq![(simple_name(f), full_name(f))];
    assert(imports_of(f, files, prelude) =~= (before + own) + us);
    bound_in_tail(before + own, us, simple_name(f));
    if bound_to(us, simple_name(f)) is Some {
        bound_is_listed(us, simple_name(f));
        let i = choose|i: int| 0 <= i < us.len() && bound_names(us)[i] == simple_name(f);
        assert(bound_names(us)[i] == import_name(f.uses@[i]));
    }
    bound_in_tail(before, own, simple_name(f));
    assert(own.drop_last() =~= Seq::empty());
    assert(own.last() == (simple_name(f), full_name(f)));
}

} // verus!
