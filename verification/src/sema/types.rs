//! Union flattening, assignability, numeric widening and rendering of types.

use crate::ast::{clone_type, same_type, type_views, Type, TypeView};
use crate::text::{cat2, cat4, cat5, join, join_text, owned, quoted, quoted_text, str_eq, texts};
use vstd::prelude::*;

verus! {

/// The members of a union; another type is its own only member.
pub open spec fn members_of(t: TypeView) -> Seq<TypeView> {
    match t {
        TypeView::Union(m) => m,
        _ => seq![t],
    }
}

pub open spec fn ref_views(v: Seq<&Type>) -> Seq<TypeView> {
    v.map_values(|t: &Type| t@)
}

pub fn members(ty: &Type) -> (r: Vec<&Type>)
    ensures
        ref_views(r@) == members_of(ty@),
{
    match ty {
        Type::Union(members) => {
            let mut out: Vec<&Type> = Vec::new();
            let mut i: usize = 0;
            while i < members.len()
                invariant
                    i <= members@.len(),
                    out@.len() == i,
                    forall|j: int| 0 <= j < i ==> (#[trigger] out@[j])@ == members@[j]@,
                decreases members@.len() - i,
            {
                out.push(&members[i]);
                i = i + 1;
            }
            assert(ref_views(out@) =~= type_views(members@));
            out
        },
        other => {
            let mut out: Vec<&Type> = Vec::new();
            out.push(other);
            assert(ref_views(out@) =~= seq![ty@]);
            out
        },
    }
}

/// Whether `t` accepts `null`: it is a union with a `null` member.
pub open spec fn nullable(t: TypeView) -> bool {
    members_of(t).contains(TypeView::NullT)
}

fn has_null(v: &Vec<&Type>) -> (r: bool)
    ensures
        r == ref_views(v@).contains(TypeView::NullT),
{
    let mut i: usize = 0;
    while i < v.len()
        invariant
            i <= v@.len(),
            forall|j: int| 0 <= j < i ==> ref_views(v@)[j] != TypeView::NullT,
        decreases v@.len() - i,
    {
        if matches!(v[i], Type::NullT) {
            assert(ref_views(v@)[i as int] == TypeView::NullT);
            return true;
        }
        i = i + 1;
    }
    false
}

pub fn is_nullable(ty: &Type) -> (r: bool)
    ensures
        r == nullable(ty@),
{
    has_null(&members(ty))
}

pub open spec fn numeric(t: TypeView) -> bool {
    t is Int || t is Float || t is Byte
}

pub fn is_numeric(ty: &Type) -> (r: bool)
    ensures
        r == numeric(ty@),
{
    matches!(ty, Type::Int | Type::Float | Type::Byte)
}

/// The members of a union other than `null`.
pub open spec fn non_null(m: Seq<TypeView>) -> Seq<TypeView>
    decreases m.len(),
{
    if m.len() == 0 {
        Seq::empty()
    } else if m.last() is NullT {
        non_null(m.drop_last())
    } else {
        non_null(m.drop_last()).push(m.last())
    }
}

/// A union without its `null` member; another type as it is.
pub open spec fn without_null(t: TypeView) -> TypeView {
    match t {
        TypeView::Union(m) => {
            let rest = non_null(m);
            if rest.len() == 0 {
                TypeView::NullT
            } else if rest.len() == 1 {
                rest[0]
            } else {
                TypeView::Union(rest)
            }
        },
        _ => t,
    }
}

pub fn strip_null(ty: &Type) -> (r: Type)
    ensures
        r@ == without_null(ty@),
{
    match ty {
        Type::Union(members) => {
            let mut rest: Vec<Type> = Vec::new();
            let mut i: usize = 0;
            let ghost m = type_views(members@);
            assert(type_views(rest@) =~= Seq::<TypeView>::empty());
            while i < members.len()
                invariant
                    i <= members@.len(),
                    m == type_views(members@),
                    type_views(rest@) == non_null(m.take(i as int)),
                decreases members@.len() - i,
            {
                let ghost before = type_views(rest@);
                assert(m.take(i as int + 1).drop_last() =~= m.take(i as int));
                if !matches!(members[i], Type::NullT) {
                    rest.push(clone_type(&members[i]));
                    assert(type_views(rest@) =~= before.push(m[i as int]));
                }
                i = i + 1;
            }
            assert(m.take(i as int) =~= m);
            if rest.len() == 0 {
                Type::NullT
            } else if rest.len() == 1 {
                clone_type(&rest[0])
            } else {
                Type::Union(rest)
            }
        },
        other => clone_type(other),
    }
}

/// Whether `s` is how `display` renders a primitive type.
pub open spec fn primitive_name(s: Seq<char>) -> bool {
    s == "int"@ || s == "float"@ || s == "bool"@ || s == "byte"@ || s == "string"@ || s == "void"@
        || s == "null"@
}

pub fn is_primitive_display(s: &str) -> (r: bool)
    ensures
        r == primitive_name(s@),
{
    str_eq(s, "int") || str_eq(s, "float") || str_eq(s, "bool") || str_eq(s, "byte") || str_eq(
        s,
        "string",
    ) || str_eq(s, "void") || str_eq(s, "null")
}

/// The place of a numeric type in the widening order `byte`, `int`, `float`.
pub open spec fn rank(t: TypeView) -> Option<u8> {
    match t {
        TypeView::Byte => Some(0),
        TypeView::Int => Some(1),
        TypeView::Float => Some(2),
        _ => None,
    }
}

pub fn numeric_rank(ty: &Type) -> (r: Option<u8>)
    ensures
        r == rank(ty@),
{
    match ty {
        Type::Byte => Some(0),
        Type::Int => Some(1),
        Type::Float => Some(2),
        _ => None,
    }
}

/// The wider of two numeric types.
pub open spec fn widened(a: TypeView, b: TypeView) -> Option<TypeView> {
    match (rank(a), rank(b)) {
        (Some(ra), Some(rb)) => Some(
            if ra >= rb {
                a
            } else {
                b
            },
        ),
        _ => None,
    }
}

pub open spec fn opt_type(o: Option<Type>) -> Option<TypeView> {
    match o {
        Some(t) => Some(t@),
        None => None,
    }
}

pub fn widen_numeric(a: &Type, b: &Type) -> (r: Option<Type>)
    ensures
        opt_type(r) == widened(a@, b@),
{
    match (numeric_rank(a), numeric_rank(b)) {
        (Some(ra), Some(rb)) => {
            if ra >= rb {
                Some(clone_type(a))
            } else {
                Some(clone_type(b))
            }
        },
        _ => None,
    }
}

/// Whether a value of the single type `from` can flow into `to`: the same
/// type, or a numeric type that is no narrower.
pub open spec fn flows(from: TypeView, to: TypeView) -> bool {
    from == to || (rank(from) matches Some(rf) && rank(to) matches Some(rt) && rf <= rt)
}

fn atom_assignable(from: &Type, to: &Type) -> (r: bool)
    ensures
        r == flows(from@, to@),
{
    if same_type(from, to) {
        return true;
    }
    match (numeric_rank(from), numeric_rank(to)) {
        (Some(rf), Some(rt)) => rf <= rt,
        _ => false,
    }
}

/// Whether one member of `targets` accepts `vm`.
pub open spec fn accepted(vm: TypeView, targets: Seq<TypeView>) -> bool {
    if vm is NullT {
        targets.contains(TypeView::NullT)
    } else {
        exists|j: int| 0 <= j < targets.len() && flows(vm, #[trigger] targets[j])
    }
}

/// Whether a value of type `value` can be stored in a location of type
/// `target`: every member of the one flows into a member of the other.
pub open spec fn assignable(value: TypeView, target: TypeView) -> bool {
    if value is NullT {
        nullable(target)
    } else {
        forall|i: int|
            0 <= i < members_of(value).len() ==> accepted(
                #[trigger] members_of(value)[i],
                members_of(target),
            )
    }
}

fn accepts(vm: &Type, targets: &Vec<&Type>) -> (r: bool)
    ensures
        r == accepted(vm@, ref_views(targets@)),
{
    if matches!(vm, Type::NullT) {
        return has_null(targets);
    }
    let ghost ts = ref_views(targets@);
    let mut i: usize = 0;
    while i < targets.len()
        invariant
            i <= targets@.len(),
            ts == ref_views(targets@),
            forall|j: int| 0 <= j < i ==> !flows(vm@, #[trigger] ts[j]),
        decreases targets@.len() - i,
    {
        if atom_assignable(vm, targets[i]) {
            assert(flows(vm@, ts[i as int]));
            return true;
        }
        i = i + 1;
    }
    false
}

pub fn is_assignable(value_ty: &Type, target_ty: &Type) -> (r: bool)
    ensures
        r == assignable(value_ty@, target_ty@),
{
    if matches!(value_ty, Type::NullT) {
        return is_nullable(target_ty);
    }
    let targets = members(target_ty);
    let values = members(value_ty);
    let ghost vs = members_of(value_ty@);
    let mut i: usize = 0;
    while i < values.len()
        invariant
            i <= values@.len(),
            vs == ref_views(values@),
            vs == members_of(value_ty@),
            !(value_ty@ is NullT),
            ref_views(targets@) == members_of(target_ty@),
            forall|j: int| 0 <= j < i ==> accepted(#[trigger] vs[j], members_of(target_ty@)),
        decreases values@.len() - i,
    {
        if !accepts(values[i], &targets) {
            assert(!accepted(vs[i as int], members_of(target_ty@)));
            return false;
        }
        i = i + 1;
    }
    true
}

/// A type as it is written in messages and descriptors.
pub open spec fn display_text(t: TypeView) -> Seq<char>
    decreases t,
{
    match t {
        TypeView::Int => "int"@,
        TypeView::Float => "float"@,
        TypeView::Bool => "bool"@,
        TypeView::Byte => "byte"@,
        TypeView::StringT => "string"@,
        TypeView::Void => "void"@,
        TypeView::NullT => "null"@,
        TypeView::Array(inner) => display_text(*inner) + "[]"@,
        TypeView::Named(name) => name,
        TypeView::Union(members) => join_text(display_texts(members), "|"@),
        TypeView::Generic(name, args) => name + "<"@ + join_text(display_texts(args), ", "@)
            + ">"@,
        TypeView::Function { params, return_type, throws } => "("@ + join_text(
            display_texts(params),
            ", "@,
        ) + ") => "@ + display_text(*return_type),
    }
}

pub open spec fn display_texts(s: Seq<TypeView>) -> Seq<Seq<char>>
    decreases s,
{
    Seq::new(
        s.len(),
        |i: int|
            if 0 <= i < s.len() {
                display_text(s[i])
            } else {
                Seq::empty()
            },
    )
}

pub fn display(ty: &Type) -> (r: String)
    ensures
        r@ == display_text(ty@),
    decreases ty,
{
    match ty {
        Type::Int => owned("int"),
        Type::Float => owned("float"),
        Type::Bool => owned("bool"),
        Type::Byte => owned("byte"),
        Type::StringT => owned("string"),
        Type::Void => owned("void"),
        Type::NullT => owned("null"),
        Type::Array(inner) => cat2(display(inner).as_str(), "[]"),
        Type::Named(name) => name.clone(),
        Type::Union(members) => join(&display_all(members), "|"),
        Type::Generic(name, args) => cat4(
            name.as_str(),
            "<",
            join(&display_all(args), ", ").as_str(),
            ">",
        ),
        Type::Function { params, return_type, throws } => cat4(
            "(",
            join(&display_all(params), ", ").as_str(),
            ") => ",
            display(return_type).as_str(),
        ),
    }
}

pub fn display_all(v: &Vec<Type>) -> (r: Vec<String>)
    ensures
        texts(r@) == display_texts(type_views(v@)),
    decreases v,
{
    let mut out: Vec<String> = Vec::new();
    let mut i: usize = 0;
    while i < v.len()
        invariant
            i <= v@.len(),
            out@.len() == i,
            forall|j: int| 0 <= j < i ==> (#[trigger] out@[j])@ == display_text(v@[j]@),
        decreases v@.len() - i,
    {
        assert(decreases_to!(v => v@[i as int]));
        out.push(display(&v[i]));
        i = i + 1;
    }
    assert(texts(out@) =~= display_texts(type_views(v@)));
    out
}

/// A type in the notation of its Rust value.
pub open spec fn debug_text(t: TypeView) -> Seq<char>
    decreases t,
{
    match t {
        TypeView::Int => "Int"@,
        TypeView::Float => "Float"@,
        TypeView::Bool => "Bool"@,
        TypeView::Byte => "Byte"@,
        TypeView::StringT => "StringT"@,
        TypeView::Void => "Void"@,
        TypeView::NullT => "NullT"@,
        TypeView::Array(inner) => "Array("@ + debug_text(*inner) + ")"@,
        TypeView::Named(name) => "Named("@ + quoted_text(name) + ")"@,
        TypeView::Union(members) => "Union(["@ + join_text(debug_texts(members), ", "@) + "])"@,
        TypeView::Generic(name, args) => "Generic("@ + quoted_text(name) + ", ["@ + join_text(
            debug_texts(args),
            ", "@,
        ) + "])"@,
        TypeView::Function { params, return_type, throws } => "Function { params: ["@ + join_text(
            debug_texts(params),
            ", "@,
        ) + "], return_type: "@ + debug_text(*return_type) + ", throws: ["@ + join_text(
            quoted_texts(throws),
            ", "@,
        ) + "] }"@,
    }
}

pub open spec fn debug_texts(s: Seq<TypeView>) -> Seq<Seq<char>>
    decreases s,
{
    Seq::new(
        s.len(),
        |i: int|
            if 0 <= i < s.len() {
                debug_text(s[i])
            } else {
                Seq::empty()
            },
    )
}

pub open spec fn quoted_texts(s: Seq<Seq<char>>) -> Seq<Seq<char>> {
    s.map_values(|t: Seq<char>| quoted_text(t))
}

pub fn debug(ty: &Type) -> (r: String)
    ensures
        r@ == debug_text(ty@),
    decreases ty,
{
    match ty {
        Type::Int => owned("Int"),
        Type::Float => owned("Float"),
        Type::Bool => owned("Bool"),
        Type::Byte => owned("Byte"),
        Type::StringT => owned("StringT"),
        Type::Void => owned("Void"),
        Type::NullT => owned("NullT"),
        Type::Array(inner) => cat2(cat2("Array(", debug(inner).as_str()).as_str(), ")"),
        Type::Named(name) => cat2(cat2("Named(", quoted(name.as_str()).as_str()).as_str(), ")"),
        Type::Union(members) => cat2(
            cat2("Union([", join(&debug_all(members), ", ").as_str()).as_str(),
            "])",
        ),
        Type::Generic(name, args) => cat5(
            "Generic(",
            quoted(name.as_str()).as_str(),
            ", [",
            join(&debug_all(args), ", ").as_str(),
            "])",
        ),
        Type::Function { params, return_type, throws } => {
            let head = cat4(
                "Function { params: [",
                join(&debug_all(params), ", ").as_str(),
                "], return_type: ",
                debug(return_type).as_str(),
            );
            cat4(
                head.as_str(),
                ", throws: [",
                join(&quote_all(throws), ", ").as_str(),
                "] }",
            )
        },
    }
}

pub fn debug_all(v: &Vec<Type>) -> (r: Vec<String>)
    ensures
        texts(r@) == debug_texts(type_views(v@)),
    decreases v,
{
    let mut out: Vec<String> = Vec::new();
    let mut i: usize = 0;
    while i < v.len()
        invariant
            i <= v@.len(),
            out@.len() == i,
            forall|j: int| 0 <= j < i ==> (#[trigger] out@[j])@ == debug_text(v@[j]@),
        decreases v@.len() - i,
    {
        assert(decreases_to!(v => v@[i as int]));
        out.push(debug(&v[i]));
        i = i + 1;
    }
    assert(texts(out@) =~= debug_texts(type_views(v@)));
    out
}

fn quote_all(v: &Vec<String>) -> (r: Vec<String>)
    ensures
        texts(r@) == quoted_texts(texts(v@)),
{
    let mut out: Vec<String> = Vec::new();
    let mut i: usize = 0;
    while i < v.len()
        invariant
            i <= v@.len(),
            out@.len() == i,
            forall|j: int| 0 <= j < i ==> (#[trigger] out@[j])@ == quoted_text(v@[j]@),
        decreases v@.len() - i,
    {
        out.push(quoted(v[i].as_str()));
        i = i + 1;
    }
    assert(texts(out@) =~= quoted_texts(texts(v@)));
    out
}

/// A value can be stored in a location of its own type.
pub proof fn assignable_reflexive(t: TypeView)
    ensures
        assignable(t, t),
{
    let m = members_of(t);
    if t is NullT {
        assert(m[0] == TypeView::NullT);
    } else {
        assert forall|i: int| 0 <= i < m.len() implies accepted(#[trigger] m[i], m) by {
            if m[i] is NullT {
                assert(m.contains(m[i]));
            } else {
                assert(flows(m[i], m[i]));
            }
        }
    }
}

/// What can be stored in `b` can be stored wherever `b` can.
pub proof fn assignable_transitive(a: TypeView, b: TypeView, c: TypeView)
    requires
        assignable(a, b),
        assignable(b, c),
    ensures
        assignable(a, c),
{
    let ma = members_of(a);
    let mb = members_of(b);
    let mc = members_of(c);
    if b is NullT {
        assert(mb[0] == TypeView::NullT);
        if !(a is NullT) {
            assert forall|i: int| 0 <= i < ma.len() implies accepted(#[trigger] ma[i], mc) by {
                assert(accepted(ma[i], mb));
            }
        }
    } else if a is NullT {
        let j = choose|j: int| 0 <= j < mb.len() && mb[j] == TypeView::NullT;
        assert(accepted(mb[j], mc));
    } else {
        assert forall|i: int| 0 <= i < ma.len() implies accepted(#[trigger] ma[i], mc) by {
            assert(accepted(ma[i], mb));
            if ma[i] is NullT {
                let j = choose|j: int| 0 <= j < mb.len() && mb[j] == TypeView::NullT;
                assert(accepted(mb[j], mc));
            } else {
                let j = choose|j: int| 0 <= j < mb.len() && flows(ma[i], #[trigger] mb[j]);
                assert(accepted(mb[j], mc));
                let k = choose|k: int| 0 <= k < mc.len() && flows(mb[j], #[trigger] mc[k]);
                assert(flows(ma[i], mc[k]));
            }
        }
    }
}

/// `null` can be stored exactly where the type includes it.
pub proof fn null_needs_nullable(t: TypeView)
    ensures
        assignable(TypeView::NullT, t) == nullable(t),
{
}

/// Two numeric types widen to the same type in either order, to which both
/// can be assigned.
pub proof fn widened_symmetric(a: TypeView, b: TypeView)
    ensures
        widened(a, b) == widened(b, a),
        widened(a, b) is Some == (numeric(a) && numeric(b)),
        widened(a, b) matches Some(w) ==> assignable(a, w) && assignable(b, w),
{
    if let Some(w) = widened(a, b) {
        assert(members_of(a)[0] == a && members_of(b)[0] == b && members_of(w)[0] == w);
        assert(flows(a, members_of(w)[0]) && flows(b, members_of(w)[0]));
    }
}

proof fn non_null_members(m: Seq<TypeView>)
    ensures
        !non_null(m).contains(TypeView::NullT),
        forall|i: int| 0 <= i < non_null(m).len() ==> m.contains(#[trigger] non_null(m)[i]),
    decreases m.len(),
{
    if m.len() > 0 {
        non_null_members(m.drop_last());
        let n = non_null(m);
        assert forall|i: int| 0 <= i < n.len() implies m.contains(#[trigger] n[i]) && !(
        n[i] is NullT) by {
            let front = non_null(m.drop_last());
            if i < front.len() {
                assert(front.contains(n[i]));
                assert(m.drop_last().contains(front[i]));
                let k = choose|k: int| 0 <= k < m.drop_last().len() && m.drop_last()[k] == n[i];
                assert(m[k] == n[i]);
            } else {
                assert(m[m.len() - 1] == n[i]);
            }
        }
    }
}

/// Stripping `null` gives a type whose values the type itself accepts; what
/// is left is not nullable, unless nothing but `null` or a nested union is.
pub proof fn strip_null_narrows(t: TypeView)
    requires
        forall|i: int| 0 <= i < members_of(t).len() ==> !(#[trigger] members_of(t)[i] is Union),
        exists|i: int| 0 <= i < members_of(t).len() && !(#[trigger] members_of(t)[i] is NullT),
    ensures
        !nullable(without_null(t)),
        assignable(without_null(t), t),
{
    let m = members_of(t);
    if t is Union {
        non_null_members(m);
        non_null_keeps(m);
        let r = non_null(m);
        let s = without_null(t);
        assert forall|i: int| 0 <= i < r.len() implies m.contains(#[trigger] r[i]) && !(
        r[i] is NullT) && !(r[i] is Union) by {
            assert(r.contains(r[i]));
            let k = choose|k: int| 0 <= k < m.len() && m[k] == r[i];
            assert(!(m[k] is Union));
        }
        if r.len() == 1 {
            assert(members_of(s)[0] == r[0]);
        }
        assert forall|i: int| 0 <= i < members_of(s).len() implies accepted(
            #[trigger] members_of(s)[i],
            m,
        ) by {
            let k = choose|k: int| 0 <= k < m.len() && m[k] == r[i];
            assert(flows(r[i], m[k]));
        }
        if nullable(s) {
            let i = choose|i: int| 0 <= i < members_of(s).len() && members_of(s)[i] is NullT;
            assert(r[i] is NullT);
        }
    } else {
        assert(m[0] == t);
        if nullable(t) {
            let i = choose|i: int| 0 <= i < m.len() && m[i] is NullT;
        }
        assignable_reflexive(t);
    }
}

proof fn non_null_keeps(m: Seq<TypeView>)
    ensures
        (exists|i: int| 0 <= i < m.len() && !(#[trigger] m[i] is NullT)) ==> non_null(m).len() > 0,
    decreases m.len(),
{
    if m.len() > 0 {
        non_null_keeps(m.drop_last());
        if exists|i: int| 0 <= i < m.len() && !(#[trigger] m[i] is NullT) {
            let i = choose|i: int| 0 <= i < m.len() && !(#[trigger] m[i] is NullT);
            if i < m.len() - 1 {
                assert(!(m.drop_last()[i] is NullT));
            }
        }
    }
}

} // verus!
