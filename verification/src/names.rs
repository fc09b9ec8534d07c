//! Tables and sets of names and of numbers.

use crate::text::{str_eq, texts};
use vstd::prelude::*;

verus! {

/// What `k` is bound to in a list of bindings, of which later ones win.
pub open spec fn bound_to<V>(s: Seq<(Seq<char>, V)>, k: Seq<char>) -> Option<V>
    decreases s.len(),
{
    if s.len() == 0 {
        None
    } else if s.last().0 == k {
        Some(s.last().1)
    } else {
        bound_to(s.drop_last(), k)
    }
}

/// A binding put last is the one that is found; it leaves the others alone.
pub proof fn bound_to_push<V>(s: Seq<(Seq<char>, V)>, k: Seq<char>, v: V, other: Seq<char>)
    ensures
        bound_to(s.push((k, v)), k) == Some(v),
        other != k ==> bound_to(s.push((k, v)), other) == bound_to(s, other),
{
    assert(s.push((k, v)).drop_last() =~= s);
}

/// Names bound to values, in the order in which they were bound.
#[derive(Debug)]
pub struct NameMap<T> {
    entries: Vec<(String, T)>,
}

impl<T: View> View for NameMap<T> {
    type V = Seq<(Seq<char>, T::V)>;

    closed spec fn view(&self) -> Seq<(Seq<char>, T::V)> {
        self.entries@.map_values(|e: (String, T)| (e.0@, e.1@))
    }
}

impl<T: View> NameMap<T> {
    pub fn new() -> (r: Self)
        ensures
            r@ == Seq::<(Seq<char>, T::V)>::empty(),
    {
        let r = NameMap { entries: Vec::new() };
        assert(r@ =~= Seq::<(Seq<char>, T::V)>::empty());
        r
    }

    pub fn insert(&mut self, name: String, value: T)
        ensures
            final(self)@ == old(self)@.push((name@, value@)),
    {
        let ghost before = self@;
        self.entries.push((name, value));
        assert(self@ =~= before.push((name@, value@)));
    }

    pub fn get(&self, name: &str) -> (r: Option<&T>)
        ensures
            match r {
                Some(v) => bound_to(self@, name@) == Some(v@),
                None => bound_to(self@, name@) is None,
            },
    {
        let mut i: usize = self.entries.len();
        assert(self@.take(i as int) =~= self@);
        while i > 0
            invariant
                i <= self.entries@.len(),
                self@.len() == self.entries@.len(),
                bound_to(self@, name@) == bound_to(self@.take(i as int), name@),
            decreases i,
        {
            i = i - 1;
            let ghost s = self@.take(i as int + 1);
            assert(s.drop_last() =~= self@.take(i as int));
            assert(s.last() == (self.entries@[i as int].0@, self.entries@[i as int].1@));
            if str_eq(self.entries[i].0.as_str(), name) {
                return Some(&self.entries[i].1);
            }
        }
        None
    }

    pub fn len(&self) -> (r: usize)
        ensures
            r == self@.len(),
    {
        self.entries.len()
    }
}

/// Whether `a` comes before `b`, compared character by character.
pub open spec fn lex_lt(a: Seq<char>, b: Seq<char>) -> bool
    decreases a.len(),
{
    if b.len() == 0 {
        false
    } else if a.len() == 0 {
        true
    } else if a[0] == b[0] {
        lex_lt(a.drop_first(), b.drop_first())
    } else {
        (a[0] as int) < (b[0] as int)
    }
}

proof fn lex_lt_irreflexive(a: Seq<char>)
    ensures
        !lex_lt(a, a),
    decreases a.len(),
{
    if a.len() > 0 {
        lex_lt_irreflexive(a.drop_first());
    }
}

proof fn lex_lt_transitive(a: Seq<char>, b: Seq<char>, c: Seq<char>)
    requires
        lex_lt(a, b),
        lex_lt(b, c),
    ensures
        lex_lt(a, c),
    decreases a.len(),
{
    if a.len() > 0 && a[0] == b[0] && b[0] == c[0] {
        lex_lt_transitive(a.drop_first(), b.drop_first(), c.drop_first());
    }
}

proof fn lex_lt_total(a: Seq<char>, b: Seq<char>)
    ensures
        a == b || lex_lt(a, b) || lex_lt(b, a),
    decreases a.len(),
{
    if a.len() == 0 && b.len() == 0 {
        assert(a =~= b);
    } else if a.len() > 0 && b.len() > 0 && a[0] == b[0] {
        lex_lt_total(a.drop_first(), b.drop_first());
        if a.drop_first() == b.drop_first() {
            assert(a =~= seq![a[0]] + a.drop_first());
            assert(b =~= seq![b[0]] + b.drop_first());
        }
    }
}

fn str_lt(a: &str, b: &str) -> (r: bool)
    ensures
        r == lex_lt(a@, b@),
{
    let n: usize = a.unicode_len();
    let m: usize = b.unicode_len();
    let mut i: usize = 0;
    assert(a@.skip(0) =~= a@);
    assert(b@.skip(0) =~= b@);
    while i < n && i < m
        invariant
            n == a@.len(),
            m == b@.len(),
            i <= n,
            i <= m,
            lex_lt(a@, b@) == lex_lt(a@.skip(i as int), b@.skip(i as int)),
        decreases n - i,
    {
        let x = a.get_char(i);
        let y = b.get_char(i);
        assert(a@.skip(i as int).drop_first() =~= a@.skip(i as int + 1));
        assert(b@.skip(i as int).drop_first() =~= b@.skip(i as int + 1));
        if x != y {
            return (x as u32) < (y as u32);
        }
        i = i + 1;
    }
    i < m
}

/// Strictly ascending, hence without repetition.
pub open spec fn ascends(q: Seq<Seq<char>>) -> bool {
    forall|i: int, j: int| 0 <= i < j < q.len() ==> lex_lt(#[trigger] q[i], #[trigger] q[j])
}

/// The elements of a finite set of names in ascending order.
pub open spec fn ascending(s: Set<Seq<char>>) -> Seq<Seq<char>> {
    choose|q: Seq<Seq<char>>| ascends(q) && q.to_set() == s
}

/// There is only one ascending list of given names.
pub proof fn ascending_unique(p: Seq<Seq<char>>, q: Seq<Seq<char>>)
    requires
        ascends(p),
        ascends(q),
        p.to_set() == q.to_set(),
    ensures
        p == q,
    decreases p.len(),
{
    if p.len() == 0 {
        if q.len() > 0 {
            assert(q.to_set().contains(q[0]));
            assert(p.to_set().contains(q[0]));
        }
        assert(p =~= q);
    } else {
        assert(p.to_set().contains(p.last()));
        assert(q.to_set().contains(p.last()));
        let k = choose|k: int| 0 <= k < q.len() && q[k] == p.last();
        assert(q.to_set().contains(q.last()));
        assert(p.to_set().contains(q.last()));
        let l = choose|l: int| 0 <= l < p.len() && p[l] == q.last();
        if k < q.len() - 1 {
            assert(lex_lt(q[k], q[q.len() - 1]));
            if l < p.len() - 1 {
                assert(lex_lt(p[l], p[p.len() - 1]));
                lex_lt_transitive(p.last(), q.last(), p.last());
            }
            lex_lt_irreflexive(p.last());
        }
        assert(p.last() == q.last());
        let a = p.drop_last();
        let b = q.drop_last();
        assert forall|x: Seq<char>| a.to_set().contains(x) == b.to_set().contains(x) by {
            lex_lt_irreflexive(x);
            if a.to_set().contains(x) {
                let i = choose|i: int| 0 <= i < a.len() && a[i] == x;
                assert(p[i] == x && lex_lt(p[i], p[p.len() - 1]));
                assert(p.to_set().contains(x));
                assert(q.to_set().contains(x));
                let j = choose|j: int| 0 <= j < q.len() && q[j] == x;
                assert(b[j] == x);
            }
            if b.to_set().contains(x) {
                let i = choose|i: int| 0 <= i < b.len() && b[i] == x;
                assert(q[i] == x && lex_lt(q[i], q[q.len() - 1]));
                assert(q.to_set().contains(x));
                assert(p.to_set().contains(x));
                let j = choose|j: int| 0 <= j < p.len() && p[j] == x;
                assert(a[j] == x);
            }
        }
        assert(a.to_set() =~= b.to_set());
        assert(ascends(a)) by {
            assert forall|i: int, j: int| 0 <= i < j < a.len() implies lex_lt(
                #[trigger] a[i],
                #[trigger] a[j],
            ) by {
                assert(lex_lt(p[i], p[j]));
            }
        }
        assert(ascends(b)) by {
            assert forall|i: int, j: int| 0 <= i < j < b.len() implies lex_lt(
                #[trigger] b[i],
                #[trigger] b[j],
            ) by {
                assert(lex_lt(q[i], q[j]));
            }
        }
        ascending_unique(a, b);
        assert(p =~= a.push(p.last()));
        assert(q =~= b.push(q.last()));
    }
}

/// A finite set of names.
#[derive(Debug)]
pub struct NameSet {
    items: Vec<String>,
}

impl View for NameSet {
    type V = Set<Seq<char>>;

    closed spec fn view(&self) -> Set<Seq<char>> {
        texts(self.items@).to_set()
    }
}

impl NameSet {
    pub fn new() -> (r: Self)
        ensures
            r@ == Set::<Seq<char>>::empty(),
    {
        let r = NameSet { items: Vec::new() };
        assert(r@ =~= Set::<Seq<char>>::empty());
        r
    }

    pub fn contains(&self, name: &str) -> (r: bool)
        ensures
            r == self@.contains(name@),
    {
        let mut i: usize = 0;
        while i < self.items.len()
            invariant
                i <= self.items@.len(),
                forall|j: int| 0 <= j < i ==> texts(self.items@)[j] != name@,
            decreases self.items@.len() - i,
        {
            if str_eq(self.items[i].as_str(), name) {
                assert(texts(self.items@)[i as int] == name@);
                return true;
            }
            i = i + 1;
        }
        false
    }

    pub fn insert(&mut self, name: String)
        ensures
            final(self)@ == old(self)@.insert(name@),
    {
        let ghost before = self@;
        let ghost b = texts(self.items@);
        if !self.contains(name.as_str()) {
            self.items.push(name);
            let ghost a = texts(self.items@);
            assert(a =~= b.push(name@));
            assert forall|x: Seq<char>| a.to_set().contains(x) == before.insert(name@).contains(
                x,
            ) by {
                if b.contains(x) {
                    let i = choose|i: int| 0 <= i < b.len() && b[i] == x;
                    assert(a[i] == x);
                }
                if x == name@ {
                    assert(a[b.len() as int] == x);
                }
            }
        }
        assert(self@ =~= before.insert(name@));
    }

    /// Adds all names of `other`.
    pub fn extend(&mut self, other: &NameSet)
        ensures
            final(self)@ == old(self)@.union(other@),
    {
        let ghost before = self@;
        let ghost o = texts(other.items@);
        let mut i: usize = 0;
        assert(o.take(0).to_set() =~= Set::<Seq<char>>::empty());
        assert(self@ =~= before.union(o.take(0).to_set()));
        while i < other.items.len()
            invariant
                i <= other.items@.len(),
                o == texts(other.items@),
                self@ == before.union(o.take(i as int).to_set()),
            decreases other.items@.len() - i,
        {
            self.insert(other.items[i].clone());
            let ghost a = o.take(i as int);
            let ghost b = o.take(i as int + 1);
            assert(b =~= a.push(o[i as int]));
            assert forall|x: Seq<char>| b.to_set().contains(x) == a.to_set().insert(
                o[i as int],
            ).contains(x) by {
                if a.contains(x) {
                    let j = choose|j: int| 0 <= j < a.len() && a[j] == x;
                    assert(b[j] == x);
                }
                if x == o[i as int] {
                    assert(b[i as int] == x);
                }
            }
            assert(self@ =~= before.union(b.to_set()));
            i = i + 1;
        }
        assert(o.take(i as int) =~= o);
    }

    /// The names of this set that `keep` holds, or those that it does not.
    fn select(&self, other: &NameSet, inside: bool) -> (r: NameSet)
        ensures
            r@ == (if inside {
                self@.intersect(other@)
            } else {
                self@.difference(other@)
            }),
    {
        let ghost s = texts(self.items@);
        let mut out = NameSet::new();
        let mut i: usize = 0;
        while i < self.items.len()
            invariant
                i <= self.items@.len(),
                s == texts(self.items@),
                forall|x: Seq<char>|
                    out@.contains(x) == (s.take(i as int).contains(x) && other@.contains(x)
                        == inside),
            decreases self.items@.len() - i,
        {
            let keep: bool = other.contains(self.items[i].as_str());
            let ghost before = out@;
            if keep == inside {
                out.insert(self.items[i].clone());
            }
            let ghost a = s.take(i as int);
            let ghost b = s.take(i as int + 1);
            assert(b =~= a.push(s[i as int]));
            assert forall|x: Seq<char>|
                out@.contains(x) == (b.contains(x) && other@.contains(x) == inside) by {
                if a.contains(x) {
                    let j = choose|j: int| 0 <= j < a.len() && a[j] == x;
                    assert(b[j] == x);
                }
                if x == s[i as int] {
                    assert(b[i as int] == x);
                }
            }
            i = i + 1;
        }
        assert(s.take(i as int) =~= s);
        proof {
            if inside {
                assert(out@ =~= self@.intersect(other@));
            } else {
                assert(out@ =~= self@.difference(other@));
            }
        }
        out
    }

    pub fn intersection(&self, other: &NameSet) -> (r: NameSet)
        ensures
            r@ == self@.intersect(other@),
    {
        self.select(other, true)
    }

    pub fn difference(&self, other: &NameSet) -> (r: NameSet)
        ensures
            r@ == self@.difference(other@),
    {
        self.select(other, false)
    }

    /// The names in ascending order.
    pub fn sorted(&self) -> (r: Vec<String>)
        ensures
            ascends(texts(r@)),
            texts(r@) == ascending(self@),
            texts(r@).to_set() == self@,
    {
        let ghost s = texts(self.items@);
        let mut out: Vec<String> = Vec::new();
        let mut i: usize = 0;
        assert(texts(out@) =~= Seq::<Seq<char>>::empty());
        while i < self.items.len()
            invariant
                i <= self.items@.len(),
                s == texts(self.items@),
                ascends(texts(out@)),
                forall|x: Seq<char>| texts(out@).contains(x) == s.take(i as int).contains(x),
            decreases self.items@.len() - i,
        {
            insert_sorted(&mut out, self.items[i].clone());
            let ghost a = s.take(i as int);
            let ghost b = s.take(i as int + 1);
            assert(b =~= a.push(s[i as int]));
            assert forall|x: Seq<char>| texts(out@).contains(x) == b.contains(x) by {
                if a.contains(x) {
                    let j = choose|j: int| 0 <= j < a.len() && a[j] == x;
                    assert(b[j] == x);
                }
                if x == s[i as int] {
                    assert(b[i as int] == x);
                }
            }
            i = i + 1;
        }
        assert(s.take(i as int) =~= s);
        assert(texts(out@).to_set() =~= self@);
        proof {
            let q = ascending(self@);
            assert(ascends(q) && q.to_set() == self@);
            ascending_unique(texts(out@), q);
        }
        out
    }
}

/// Puts `name` into an ascending list, unless it is there.
fn insert_sorted(v: &mut Vec<String>, name: String)
    requires
        ascends(texts(old(v)@)),
    ensures
        ascends(texts(final(v)@)),
        forall|x: Seq<char>|
            texts(final(v)@).contains(x) == (x == name@ || texts(old(v)@).contains(x)),
{
    let ghost q = texts(v@);
    let mut i: usize = 0;
    while i < v.len() && str_lt(v[i].as_str(), name.as_str())
        invariant
            *v == *old(v),
            q == texts(v@),
            i <= v@.len(),
            forall|j: int| 0 <= j < i ==> lex_lt(#[trigger] q[j], name@),
        decreases v@.len() - i,
    {
        i = i + 1;
    }
    if i < v.len() && str_eq(v[i].as_str(), name.as_str()) {
        assert(q[i as int] == name@);
        return ;
    }
    proof {
        assert forall|j: int| i <= j < q.len() implies lex_lt(name@, #[trigger] q[j]) by {
            lex_lt_total(name@, q[i as int]);
            if j > i {
                assert(lex_lt(q[i as int], q[j]));
                lex_lt_transitive(name@, q[i as int], q[j]);
            }
        }
    }
    v.insert(i, name);
    let ghost p = texts(v@);
    assert(p =~= q.insert(i as int, name@));
    assert forall|a: int, b: int| 0 <= a < b < p.len() implies lex_lt(
        #[trigger] p[a],
        #[trigger] p[b],
    ) by {
        let c = if a < i {
            a
        } else {
            a - 1
        };
        let d = if b < i {
            b
        } else {
            b - 1
        };
        if a != i {
            assert(p[a] == q[c]);
        }
        if b != i {
            assert(p[b] == q[d]);
        }
        if a != i && b != i {
            assert(lex_lt(q[c], q[d]));
        }
    }
    assert forall|x: Seq<char>| p.contains(x) == (x == name@ || q.contains(x)) by {
        if q.contains(x) {
            let j = choose|j: int| 0 <= j < q.len() && q[j] == x;
            assert(p[if j < i { j } else { j + 1 }] == x);
        }
        if x == name@ {
            assert(p[i as int] == x);
        }
        if p.contains(x) && x != name@ {
            let j = choose|j: int| 0 <= j < p.len() && p[j] == x;
            assert(q[if j < i { j } else { j - 1 }] == x);
        }
    }
}

/// A finite set of numbers.
#[derive(Debug)]
pub struct IdSet {
    items: Vec<u32>,
}

impl View for IdSet {
    type V = Set<u32>;

    closed spec fn view(&self) -> Set<u32> {
        self.items@.to_set()
    }
}

impl IdSet {
    pub fn new() -> (r: Self)
        ensures
            r@ == Set::<u32>::empty(),
    {
        let r = IdSet { items: Vec::new() };
        assert(r@ =~= Set::<u32>::empty());
        r
    }

    pub fn contains(&self, id: u32) -> (r: bool)
        ensures
            r == self@.contains(id),
    {
        let mut i: usize = 0;
        while i < self.items.len()
            invariant
                i <= self.items@.len(),
                forall|j: int| 0 <= j < i ==> self.items@[j] != id,
            decreases self.items@.len() - i,
        {
            if self.items[i] == id {
                return true;
            }
            i = i + 1;
        }
        false
    }

    pub fn insert(&mut self, id: u32)
        ensures
            final(self)@ == old(self)@.insert(id),
    {
        let ghost before = self@;
        let ghost b = self.items@;
        if !self.contains(id) {
            self.items.push(id);
            let ghost a = self.items@;
            assert forall|x: u32| a.to_set().contains(x) == before.insert(id).contains(x) by {
                if b.contains(x) {
                    let i = choose|i: int| 0 <= i < b.len() && b[i] == x;
                    assert(a[i] == x);
                }
                if x == id {
                    assert(a[b.len() as int] == x);
                }
            }
        }
        assert(self@ =~= before.insert(id));
    }

    pub fn copy(&self) -> (r: IdSet)
        ensures
            r@ == self@,
    {
        let mut out: Vec<u32> = Vec::new();
        let mut i: usize = 0;
        while i < self.items.len()
            invariant
                i <= self.items@.len(),
                out@ =~= self.items@.take(i as int),
            decreases self.items@.len() - i,
        {
            out.push(self.items[i]);
            i = i + 1;
        }
        assert(out@ =~= self.items@);
        IdSet { items: out }
    }

    pub fn union(&self, other: &IdSet) -> (r: IdSet)
        ensures
            r@ == self@.union(other@),
    {
        let mut out = self.copy();
        let ghost s = other.items@;
        let mut i: usize = 0;
        while i < other.items.len()
            invariant
                i <= other.items@.len(),
                s == other.items@,
                forall|x: u32|
                    out@.contains(x) == (self@.contains(x) || s.take(i as int).contains(x)),
            decreases other.items@.len() - i,
        {
            out.insert(other.items[i]);
            let ghost a = s.take(i as int);
            let ghost b = s.take(i as int + 1);
            assert(b =~= a.push(s[i as int]));
            assert forall|x: u32| out@.contains(x) == (self@.contains(x) || b.contains(x)) by {
                if a.contains(x) {
                    let j = choose|j: int| 0 <= j < a.len() && a[j] == x;
                    assert(b[j] == x);
                }
                if x == s[i as int] {
                    assert(b[i as int] == x);
                }
            }
            i = i + 1;
        }
        assert(s.take(i as int) =~= s);
        assert(out@ =~= self@.union(other@));
        out
    }

    pub fn intersection(&self, other: &IdSet) -> (r: IdSet)
        ensures
            r@ == self@.intersect(other@),
    {
        let mut out = IdSet::new();
        let ghost s = self.items@;
        let mut i: usize = 0;
        while i < self.items.len()
            invariant
                i <= self.items@.len(),
                s == self.items@,
                forall|x: u32|
                    out@.contains(x) == (s.take(i as int).contains(x) && other@.contains(x)),
            decreases self.items@.len() - i,
        {
            if other.contains(self.items[i]) {
                out.insert(self.items[i]);
            }
            let ghost a = s.take(i as int);
            let ghost b = s.take(i as int + 1);
            assert(b =~= a.push(s[i as int]));
            assert forall|x: u32| out@.contains(x) == (b.contains(x) && other@.contains(x)) by {
                if a.contains(x) {
                    let j = choose|j: int| 0 <= j < a.len() && a[j] == x;
                    assert(b[j] == x);
                }
                if x == s[i as int] {
                    assert(b[i as int] == x);
                }
            }
            i = i + 1;
        }
        assert(s.take(i as int) =~= s);
        assert(out@ =~= self@.intersect(other@));
        out
    }
}

/// The map that a history of bindings and removals leaves.
pub open spec fn map_of<V>(s: Seq<(u32, Option<V>)>) -> Map<u32, V>
    decreases s.len(),
{
    if s.len() == 0 {
        Map::empty()
    } else {
        match s.last().1 {
            Some(v) => map_of(s.drop_last()).insert(s.last().0, v),
            None => map_of(s.drop_last()).remove(s.last().0),
        }
    }
}

/// Numbers bound to values.
#[derive(Debug)]
pub struct IdMap<T> {
    history: Vec<(u32, Option<T>)>,
}

pub open spec fn opt_view<T: View>(o: Option<T>) -> Option<T::V> {
    match o {
        Some(v) => Some(v@),
        None => None,
    }
}

impl<T: View> View for IdMap<T> {
    type V = Map<u32, T::V>;

    closed spec fn view(&self) -> Map<u32, T::V> {
        map_of(self.steps())
    }
}

impl<T: View> IdMap<T> {
    closed spec fn steps(&self) -> Seq<(u32, Option<T::V>)> {
        self.history@.map_values(|e: (u32, Option<T>)| (e.0, opt_view(e.1)))
    }

    pub fn new() -> (r: Self)
        ensures
            r@ == Map::<u32, T::V>::empty(),
    {
        IdMap { history: Vec::new() }
    }

    pub fn insert(&mut self, id: u32, value: T)
        ensures
            final(self)@ == old(self)@.insert(id, value@),
    {
        let ghost before = self.steps();
        self.history.push((id, Some(value)));
        assert(self.steps() =~= before.push((id, Some(value@))));
        assert(self.steps().drop_last() =~= before);
    }

    pub fn remove(&mut self, id: u32)
        ensures
            final(self)@ == old(self)@.remove(id),
    {
        let ghost before = self.steps();
        self.history.push((id, None));
        assert(self.steps() =~= before.push((id, None)));
        assert(self.steps().drop_last() =~= before);
    }

    pub fn get(&self, id: u32) -> (r: Option<&T>)
        ensures
            match r {
                Some(v) => self@.contains_key(id) && v@ == self@[id],
                None => !self@.contains_key(id),
            },
    {
        let ghost s = self.steps();
        let mut i: usize = self.history.len();
        assert(s.take(i as int) =~= s);
        while i > 0
            invariant
                i <= self.history@.len(),
                s == self.steps(),
                self@.contains_key(id) == map_of(s.take(i as int)).contains_key(id),
                self@.contains_key(id) ==> self@[id] == map_of(s.take(i as int))[id],
            decreases i,
        {
            i = i - 1;
            let ghost t = s.take(i as int + 1);
            assert(t.drop_last() =~= s.take(i as int));
            assert(t.last() == s[i as int]);
            if self.history[i].0 == id {
                match &self.history[i].1 {
                    Some(v) => {
                        return Some(v);
                    },
                    None => {
                        return None;
                    },
                }
            }
        }
        None
    }
}

} // verus!
