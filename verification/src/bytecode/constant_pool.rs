//! The constant pool: a list of entries, each present once, counted from one.

use crate::text::{owned, str_eq};
use vstd::prelude::*;

verus! {

/// One entry. A `Float` is held as its IEEE 754 bit pattern, by which floats
/// are told apart.
#[derive(Debug, Clone, PartialEq)]
pub enum ConstantPoolEntry {
    Int(i64),
    Float(u64),
    /// String literal or identifier.
    Utf8(String),
    /// Fully qualified class name (index of a `Utf8` entry).
    Class { name_index: u16 },
    FieldRef { class_index: u16, name_index: u16, type_index: u16 },
    MethodRef { class_index: u16, name_index: u16, descriptor_index: u16 },
    /// Type descriptor string (index of a `Utf8` entry).
    TypeDesc { desc_index: u16 },
}

/// An entry with its text as a sequence of characters.
pub enum EntryView {
    Int(i64),
    Float(u64),
    Utf8(Seq<char>),
    Class { name_index: u16 },
    FieldRef { class_index: u16, name_index: u16, type_index: u16 },
    MethodRef { class_index: u16, name_index: u16, descriptor_index: u16 },
    TypeDesc { desc_index: u16 },
}

impl View for ConstantPoolEntry {
    type V = EntryView;

    open spec fn view(&self) -> EntryView {
        match *self {
            ConstantPoolEntry::Int(v) => EntryView::Int(v),
            ConstantPoolEntry::Float(v) => EntryView::Float(v),
            ConstantPoolEntry::Utf8(s) => EntryView::Utf8(s@),
            ConstantPoolEntry::Class { name_index } => EntryView::Class { name_index },
            ConstantPoolEntry::FieldRef { class_index, name_index, type_index } =>
                EntryView::FieldRef { class_index, name_index, type_index },
            ConstantPoolEntry::MethodRef { class_index, name_index, descriptor_index } =>
                EntryView::MethodRef { class_index, name_index, descriptor_index },
            ConstantPoolEntry::TypeDesc { desc_index } => EntryView::TypeDesc { desc_index },
        }
    }
}

impl EntryView {
    /// The byte that announces an entry of this kind.
    pub open spec fn tag(self) -> u8 {
        match self {
            EntryView::Int(_) => 1,
            EntryView::Float(_) => 2,
            EntryView::Utf8(_) => 3,
            EntryView::Class { .. } => 4,
            EntryView::FieldRef { .. } => 5,
            EntryView::MethodRef { .. } => 6,
            EntryView::TypeDesc { .. } => 7,
        }
    }
}

impl ConstantPoolEntry {
    pub fn tag(&self) -> (r: u8)
        ensures
            r == self@.tag(),
    {
        match self {
            ConstantPoolEntry::Int(_) => 1,
            ConstantPoolEntry::Float(_) => 2,
            ConstantPoolEntry::Utf8(_) => 3,
            ConstantPoolEntry::Class { .. } => 4,
            ConstantPoolEntry::FieldRef { .. } => 5,
            ConstantPoolEntry::MethodRef { .. } => 6,
            ConstantPoolEntry::TypeDesc { .. } => 7,
        }
    }

    /// Whether two entries are the same constant.
    pub fn same(&self, other: &ConstantPoolEntry) -> (r: bool)
        ensures
            r == (self@ == other@),
    {
        match (self, other) {
            (ConstantPoolEntry::Int(a), ConstantPoolEntry::Int(b)) => *a == *b,
            (ConstantPoolEntry::Float(a), ConstantPoolEntry::Float(b)) => *a == *b,
            (ConstantPoolEntry::Utf8(a), ConstantPoolEntry::Utf8(b)) => str_eq(
                a.as_str(),
                b.as_str(),
            ),
            (
                ConstantPoolEntry::Class { name_index: a },
                ConstantPoolEntry::Class { name_index: b },
            ) => *a == *b,
            (
                ConstantPoolEntry::FieldRef { class_index: a, name_index: b, type_index: c },
                ConstantPoolEntry::FieldRef { class_index: x, name_index: y, type_index: z },
            ) => *a == *x && *b == *y && *c == *z,
            (
                ConstantPoolEntry::MethodRef { class_index: a, name_index: b, descriptor_index: c },
                ConstantPoolEntry::MethodRef { class_index: x, name_index: y, descriptor_index: z },
            ) => *a == *x && *b == *y && *c == *z,
            (
                ConstantPoolEntry::TypeDesc { desc_index: a },
                ConstantPoolEntry::TypeDesc { desc_index: b },
            ) => *a == *b,
            _ => false,
        }
    }
}

/// The least position from `i` on at which `p` holds `e`, or its length.
pub open spec fn first_at(p: Seq<EntryView>, e: EntryView, i: int) -> int
    decreases p.len() - i,
{
    if i >= p.len() {
        p.len() as int
    } else if p[i] == e {
        i
    } else {
        first_at(p, e, i + 1)
    }
}

/// The pool `p` after `e` was interned, and the index of `e` in it: that of
/// an equal entry if there is one, else that of the entry put at the end.
pub open spec fn interned(p: Seq<EntryView>, e: EntryView) -> (Seq<EntryView>, u16) {
    let k = first_at(p, e, 0);
    if k < p.len() {
        (p, (k + 1) as u16)
    } else {
        (p.push(e), (p.len() + 1) as u16)
    }
}

pub open spec fn with_utf8(p: Seq<EntryView>, s: Seq<char>) -> (Seq<EntryView>, u16) {
    interned(p, EntryView::Utf8(s))
}

pub open spec fn with_class(p: Seq<EntryView>, name: Seq<char>) -> (Seq<EntryView>, u16) {
    let (p, name_index) = with_utf8(p, name);
    interned(p, EntryView::Class { name_index })
}

pub open spec fn with_type_desc(p: Seq<EntryView>, desc: Seq<char>) -> (Seq<EntryView>, u16) {
    let (p, desc_index) = with_utf8(p, desc);
    interned(p, EntryView::TypeDesc { desc_index })
}

pub open spec fn with_field_ref(
    p: Seq<EntryView>,
    class_index: u16,
    name_index: u16,
    type_index: u16,
) -> (Seq<EntryView>, u16) {
    interned(p, EntryView::FieldRef { class_index, name_index, type_index })
}

pub open spec fn with_method_ref(
    p: Seq<EntryView>,
    class_index: u16,
    name_index: u16,
    descriptor_index: u16,
) -> (Seq<EntryView>, u16) {
    interned(p, EntryView::MethodRef { class_index, name_index, descriptor_index })
}

/// The entry of index `index`; index 0 names none.
pub open spec fn entry_at(p: Seq<EntryView>, index: u16) -> Option<EntryView> {
    if 0 < index <= p.len() {
        Some(p[index - 1])
    } else {
        None
    }
}

pub open spec fn utf8_of(p: Seq<EntryView>, index: u16) -> Option<Seq<char>> {
    match entry_at(p, index) {
        Some(EntryView::Utf8(s)) => Some(s),
        _ => None,
    }
}

pub open spec fn class_name_of(p: Seq<EntryView>, index: u16) -> Option<Seq<char>> {
    match entry_at(p, index) {
        Some(EntryView::Class { name_index }) => utf8_of(p, name_index),
        _ => None,
    }
}

pub open spec fn type_desc_of(p: Seq<EntryView>, index: u16) -> Option<Seq<char>> {
    match entry_at(p, index) {
        Some(EntryView::TypeDesc { desc_index }) => utf8_of(p, desc_index),
        _ => None,
    }
}

/// The entries of a list, with their texts as sequences of characters.
pub open spec fn entry_views(v: Seq<ConstantPoolEntry>) -> Seq<EntryView> {
    v.map_values(|e: ConstantPoolEntry| e@)
}

/// The text of an optional string.
pub open spec fn opt_text(o: Option<&str>) -> Option<Seq<char>> {
    match o {
        Some(s) => Some(s@),
        None => None,
    }
}

/// 1-indexed constant pool: index 0 is reserved.
#[derive(Debug, Clone)]
pub struct ConstantPool {
    entries: Vec<ConstantPoolEntry>,
}

impl View for ConstantPool {
    type V = Seq<EntryView>;

    closed spec fn view(&self) -> Seq<EntryView> {
        entry_views(self.entries@)
    }
}

impl Default for ConstantPool {
    fn default() -> (r: Self)
        ensures
            r@ == Seq::<EntryView>::empty(),
    {
        ConstantPool::new()
    }
}

impl ConstantPool {
    pub fn new() -> (r: Self)
        ensures
            r@ == Seq::<EntryView>::empty(),
    {
        let r = ConstantPool { entries: Vec::new() };
        assert(r@ =~= Seq::<EntryView>::empty());
        r
    }

    pub fn entries(&self) -> (r: &[ConstantPoolEntry])
        ensures
            entry_views(r@) == self@,
    {
        self.entries.as_slice()
    }

    pub fn get(&self, index: u16) -> (r: Option<&ConstantPoolEntry>)
        ensures
            match r {
                Some(e) => entry_at(self@, index) == Some(e@),
                None => entry_at(self@, index) is None,
            },
    {
        if index == 0 {
            return None;
        }
        let i: usize = index as usize - 1;
        if i < self.entries.len() {
            Some(&self.entries[i])
        } else {
            None
        }
    }

    fn intern(&mut self, entry: ConstantPoolEntry) -> (r: u16)
        ensures
            (final(self)@, r) == interned(old(self)@, entry@),
    {
        let ghost p = self@;
        let mut i: usize = 0;
        while i < self.entries.len()
            invariant
                *self == *old(self),
                p == self@,
                i <= self.entries@.len(),
                first_at(p, entry@, 0) == first_at(p, entry@, i as int),
            decreases self.entries@.len() - i,
        {
            assert(p[i as int] == self.entries@[i as int]@);
            if self.entries[i].same(&entry) {
                return (i + 1) as u16;
            }
            i = i + 1;
        }
        self.entries.push(entry);
        assert(self@ =~= p.push(entry@));
        self.entries.len() as u16
    }

    pub fn add_int(&mut self, value: i64) -> (r: u16)
        ensures
            (final(self)@, r) == interned(old(self)@, EntryView::Int(value)),
    {
        self.intern(ConstantPoolEntry::Int(value))
    }

    /// Interns the float with the bit pattern `bits`.
    pub fn add_float(&mut self, bits: u64) -> (r: u16)
        ensures
            (final(self)@, r) == interned(old(self)@, EntryView::Float(bits)),
    {
        self.intern(ConstantPoolEntry::Float(bits))
    }

    pub fn add_utf8(&mut self, value: &str) -> (r: u16)
        ensures
            (final(self)@, r) == with_utf8(old(self)@, value@),
    {
        self.intern(ConstantPoolEntry::Utf8(owned(value)))
    }

    pub fn add_class(&mut self, fully_qualified_name: &str) -> (r: u16)
        ensures
            (final(self)@, r) == with_class(old(self)@, fully_qualified_name@),
    {
        let name_index: u16 = self.add_utf8(fully_qualified_name);
        self.intern(ConstantPoolEntry::Class { name_index })
    }

    pub fn add_field_ref(&mut self, class_index: u16, name_index: u16, type_index: u16) -> (r: u16)
        ensures
            (final(self)@, r) == with_field_ref(old(self)@, class_index, name_index, type_index),
    {
        self.intern(ConstantPoolEntry::FieldRef { class_index, name_index, type_index })
    }

    pub fn add_method_ref(
        &mut self,
        class_index: u16,
        name_index: u16,
        descriptor_index: u16,
    ) -> (r: u16)
        ensures
            (final(self)@, r) == with_method_ref(
                old(self)@,
                class_index,
                name_index,
                descriptor_index,
            ),
    {
        self.intern(ConstantPoolEntry::MethodRef { class_index, name_index, descriptor_index })
    }

    pub fn add_type_desc(&mut self, descriptor: &str) -> (r: u16)
        ensures
            (final(self)@, r) == with_type_desc(old(self)@, descriptor@),
    {
        let desc_index: u16 = self.add_utf8(descriptor);
        self.intern(ConstantPoolEntry::TypeDesc { desc_index })
    }

    /// The string of the `Utf8` entry at `index`.
    pub fn utf8_at(&self, index: u16) -> (r: Option<&str>)
        ensures
            opt_text(r) == utf8_of(self@, index),
    {
        match self.get(index) {
            Some(ConstantPoolEntry::Utf8(s)) => Some(s.as_str()),
            _ => None,
        }
    }

    pub fn class_name_at(&self, index: u16) -> (r: Option<&str>)
        ensures
            opt_text(r) == class_name_of(self@, index),
    {
        match self.get(index) {
            Some(ConstantPoolEntry::Class { name_index }) => self.utf8_at(*name_index),
            _ => None,
        }
    }

    pub fn type_desc_at(&self, index: u16) -> (r: Option<&str>)
        ensures
            opt_text(r) == type_desc_of(self@, index),
    {
        match self.get(index) {
            Some(ConstantPoolEntry::TypeDesc { desc_index }) => self.utf8_at(*desc_index),
            _ => None,
        }
    }
}

} // verus!
