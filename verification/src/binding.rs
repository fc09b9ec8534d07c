//! Which argument of a call is for which parameter.

use crate::ast::Arg;
use crate::text::{str_eq, texts};
use vstd::prelude::*;

verus! {

/// The first position from `i` on of a name in a list, or its length.
pub open spec fn name_at(names: Seq<Seq<char>>, name: Seq<char>, i: int) -> int
    decreases names.len() - i,
{
    if i >= names.len() {
        names.len() as int
    } else if names[i] == name {
        i
    } else {
        name_at(names, name, i + 1)
    }
}

pub fn name_position(names: &Vec<String>, name: &str) -> (r: usize)
    ensures
        r == name_at(texts(names@), name@, 0),
        r <= names@.len(),
{
    let ghost ns = texts(names@);
    let mut i: usize = 0;
    while i < names.len()
        invariant
            i <= names@.len(),
            ns == texts(names@),
            name_at(ns, name@, 0) == name_at(ns, name@, i as int),
        decreases names@.len() - i,
    {
        assert(ns[i as int] == names@[i as int]@);
        if str_eq(names[i].as_str(), name) {
            return i;
        }
        i = i + 1;
    }
    i
}

/// The parameter that the `j`-th argument is for; none where it is past the
/// last, or its name is not that of a parameter.
pub open spec fn target_of(names: Seq<Seq<char>>, args: Seq<Arg>, j: int) -> int {
    match args[j].name {
        None => j,
        Some(name) => name_at(names, name@, 0),
    }
}

/// The last of the first `n` arguments that is for parameter `p`.
pub open spec fn binder(names: Seq<Seq<char>>, args: Seq<Arg>, p: int, n: int) -> Option<int>
    decreases n,
{
    if n <= 0 {
        None
    } else if target_of(names, args, n - 1) == p {
        Some(n - 1)
    } else {
        binder(names, args, p, n - 1)
    }
}

pub(crate) fn find_binder(names: &Vec<String>, args: &Vec<Arg>, p: usize, n: usize) -> (r: Option<usize>)
    requires
        n <= args@.len(),
    ensures
        match r {
            Some(j) => binder(texts(names@), args@, p as int, n as int) == Some(j as int) && j < n,
            None => binder(texts(names@), args@, p as int, n as int) is None,
        },
{
    let ghost ns = texts(names@);
    let mut k: usize = n;
    while k > 0
        invariant
            k <= n <= args@.len(),
            ns == texts(names@),
            binder(ns, args@, p as int, n as int) == binder(ns, args@, p as int, k as int),
        decreases k,
    {
        k = k - 1;
        let target: usize = match &args[k].name {
            None => k,
            Some(name) => name_position(names, name.as_str()),
        };
        if target == p {
            return Some(k);
        }
    }
    None
}

} // verus!
