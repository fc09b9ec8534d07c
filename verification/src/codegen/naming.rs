//! What the indices of a module name in its constant pool.

use crate::bytecode::constant_pool::{
    class_name_of, entry_at, first_at, interned, type_desc_of, utf8_of, with_class, with_type_desc,
    with_utf8, EntryView,
};
use crate::bytecode::module::{FieldDescriptor, MethodView};
use crate::codegen::growth::{extended, extended_trans, interned_grows, pool_grows};
use vstd::prelude::*;

verus! {

/// Whether all entries of a pool have an index.
pub open spec fn addressable(cp: Seq<EntryView>) -> bool {
    cp.len() <= 0xffff
}

/// Whether the pool of a method gives its name and its descriptor.
pub open spec fn headed(
    cp: Seq<EntryView>,
    m: MethodView,
    name: Seq<char>,
    descriptor: Seq<char>,
) -> bool {
    addressable(cp) ==> utf8_of(cp, m.name_index) == Some(name) && type_desc_of(
        cp,
        m.descriptor_index,
    ) == Some(descriptor)
}

/// Whether the pool of a field gives its name and its type.
pub open spec fn typed(
    cp: Seq<EntryView>,
    f: FieldDescriptor,
    name: Seq<char>,
    descriptor: Seq<char>,
) -> bool {
    addressable(cp) ==> utf8_of(cp, f.name_index) == Some(name) && type_desc_of(cp, f.type_index)
        == Some(descriptor)
}

/// Whether an index is that of a class.
pub open spec fn names_class(cp: Seq<EntryView>, index: u16, name: Seq<char>) -> bool {
    addressable(cp) ==> class_name_of(cp, index) == Some(name)
}

proof fn first_at_finds(p: Seq<EntryView>, e: EntryView, i: int)
    requires
        0 <= i <= p.len(),
    ensures
        i <= first_at(p, e, i) <= p.len(),
        first_at(p, e, i) < p.len() ==> p[first_at(p, e, i)] == e,
    decreases p.len() - i,
{
    if i < p.len() && p[i] != e {
        first_at_finds(p, e, i + 1);
    }
}

/// An entry that was interned is read back at its index, as long as the pool
/// is addressable, and after it was extended too.
pub proof fn interned_is_read(p: Seq<EntryView>, e: EntryView, q: Seq<EntryView>)
    requires
        extended(interned(p, e).0, q),
    ensures
        addressable(q) ==> entry_at(q, interned(p, e).1) == Some(e),
{
    first_at_finds(p, e, 0);
    let p1 = interned(p, e).0;
    if addressable(q) {
        let k = interned(p, e).1 - 1;
        assert(p1[k] == e);
        assert(p1[k] == q.subrange(0, p1.len() as int)[k]);
    }
}

pub proof fn class_is_read(p: Seq<EntryView>, name: Seq<char>, q: Seq<EntryView>)
    requires
        extended(with_class(p, name).0, q),
    ensures
        names_class(q, with_class(p, name).1, name),
{
    let (p1, name_index) = with_utf8(p, name);
    interned_grows(p1, EntryView::Class { name_index });
    extended_trans(p1, with_class(p, name).0, q);
    interned_is_read(p, EntryView::Utf8(name), q);
    interned_is_read(p1, EntryView::Class { name_index }, q);
}

/// A name and a type descriptor, entered one after the other, are read back.
pub proof fn header_is_read(
    p: Seq<EntryView>,
    name: Seq<char>,
    descriptor: Seq<char>,
    q: Seq<EntryView>,
)
    requires
        extended(with_type_desc(with_utf8(p, name).0, descriptor).0, q),
    ensures
        ({
            let (p1, n) = with_utf8(p, name);
            let (p2, d) = with_type_desc(p1, descriptor);
            addressable(q) ==> utf8_of(q, n) == Some(name) && type_desc_of(q, d) == Some(
                descriptor,
            )
        }),
{
    let (p1, n) = with_utf8(p, name);
    let (p2, d) = with_type_desc(p1, descriptor);
    let (p3, desc_index) = with_utf8(p1, descriptor);
    pool_grows(p1, descriptor);
    interned_grows(p3, EntryView::TypeDesc { desc_index });
    extended_trans(p1, p2, q);
    extended_trans(p3, p2, q);
    interned_is_read(p, EntryView::Utf8(name), q);
    interned_is_read(p1, EntryView::Utf8(descriptor), q);
    interned_is_read(p3, EntryView::TypeDesc { desc_index }, q);
}

proof fn entry_stays(p: Seq<EntryView>, q: Seq<EntryView>, index: u16)
    requires
        extended(p, q),
        entry_at(p, index) is Some,
    ensures
        entry_at(q, index) == entry_at(p, index),
{
    assert(p[index - 1] == q.subrange(0, p.len() as int)[index - 1]);
}

/// What a method is called does not change while the pool grows.
pub proof fn headed_stays(
    p: Seq<EntryView>,
    q: Seq<EntryView>,
    m: MethodView,
    name: Seq<char>,
    descriptor: Seq<char>,
)
    requires
        headed(p, m, name, descriptor),
        extended(p, q),
    ensures
        headed(q, m, name, descriptor),
{
    if addressable(q) {
        entry_stays(p, q, m.name_index);
        entry_stays(p, q, m.descriptor_index);
        let desc_index = entry_at(p, m.descriptor_index)->0->desc_index;
        entry_stays(p, q, desc_index);
    }
}

} // verus!
