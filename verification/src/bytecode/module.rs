//! One compiled class and its byte encoding.

use crate::bytecode::constant_pool::{
    class_name_of, entry_views, interned, opt_text, type_desc_of, utf8_of, with_class,
    with_type_desc, ConstantPool, ConstantPoolEntry, EntryView,
};
use crate::bytecode::error::{BytecodeError, BytecodeErrorView};
use crate::bytecode::method_flags;
use crate::bytecode::reader::{
    be16, be32, be64, get_bytes, get_u16, get_u32, get_u64, get_u8, put_bytes, put_u16, put_u32,
    put_u64, Reader,
};
use crate::text::{owned, str_eq};
use sha2::{Digest, Sha256};
use vstd::array::array_as_slice;
use vstd::prelude::*;
use vstd::slice::slice_subrange;
use vstd::utf8::{decode_utf8, encode_utf8, valid_utf8};

verus! {

pub const MAGIC: u32 = 0x4E4C_4D00;

pub const VERSION: u16 = 2;

#[derive(Debug, Clone, Copy, PartialEq, Eq)]
pub struct FieldDescriptor {
    pub flags: u16,
    pub name_index: u16,
    pub type_index: u16,
}

#[derive(Debug, Clone, Copy, PartialEq, Eq)]
pub struct ExceptionTableEntry {
    pub start_pc: u16,
    pub end_pc: u16,
    pub handler_pc: u16,
    /// Constant pool `Class` index of the caught type, or `0` for catch-all.
    pub catch_type: u16,
}

#[derive(Debug, Clone, Copy, PartialEq, Eq)]
pub struct LineTableEntry {
    pub start_pc: u16,
    pub line: u32,
}

#[derive(Debug, Clone, PartialEq, Eq)]
pub struct MethodDescriptor {
    pub flags: u16,
    pub name_index: u16,
    pub descriptor_index: u16,
    pub throws_types: Vec<u16>,
    pub max_locals: u16,
    pub max_stack: u16,
    pub code: Vec<u8>,
    pub exception_table: Vec<ExceptionTableEntry>,
    pub line_table: Vec<LineTableEntry>,
}

/// A method descriptor with its lists as sequences.
pub struct MethodView {
    pub flags: u16,
    pub name_index: u16,
    pub descriptor_index: u16,
    pub throws_types: Seq<u16>,
    pub max_locals: u16,
    pub max_stack: u16,
    pub code: Seq<u8>,
    pub exception_table: Seq<ExceptionTableEntry>,
    pub line_table: Seq<LineTableEntry>,
}

impl View for MethodDescriptor {
    type V = MethodView;

    open spec fn view(&self) -> MethodView {
        MethodView {
            flags: self.flags,
            name_index: self.name_index,
            descriptor_index: self.descriptor_index,
            throws_types: self.throws_types@,
            max_locals: self.max_locals,
            max_stack: self.max_stack,
            code: self.code@,
            exception_table: self.exception_table@,
            line_table: self.line_table@,
        }
    }
}

impl MethodDescriptor {
    pub fn is_static(&self) -> (r: bool)
        ensures
            r == (self.flags & method_flags::STATIC != 0),
    {
        self.flags & method_flags::STATIC != 0
    }
}

/// Algorithm of the integrity trailer.
#[derive(Debug, Clone, Copy, PartialEq, Eq)]
pub enum HashAlgo {
    NoHash,
    Sha256,
}

#[derive(Debug, Clone)]
pub struct Module {
    pub version: u16,
    pub constant_pool: ConstantPool,
    pub this_class: u16,
    pub class_flags: u16,
    pub super_class: u16,
    pub interfaces: Vec<u16>,
    pub fields: Vec<FieldDescriptor>,
    pub methods: Vec<MethodDescriptor>,
    pub hash_algo: HashAlgo,
}

/// A module with its lists as sequences.
pub struct ModuleView {
    pub version: u16,
    pub constant_pool: Seq<EntryView>,
    pub this_class: u16,
    pub class_flags: u16,
    pub super_class: u16,
    pub interfaces: Seq<u16>,
    pub fields: Seq<FieldDescriptor>,
    pub methods: Seq<MethodView>,
    pub hash_algo: HashAlgo,
}

pub open spec fn method_views(v: Seq<MethodDescriptor>) -> Seq<MethodView> {
    v.map_values(|m: MethodDescriptor| m@)
}

impl View for Module {
    type V = ModuleView;

    open spec fn view(&self) -> ModuleView {
        ModuleView {
            version: self.version,
            constant_pool: self.constant_pool@,
            this_class: self.this_class,
            class_flags: self.class_flags,
            super_class: self.super_class,
            interfaces: self.interfaces@,
            fields: self.fields@,
            methods: method_views(self.methods@),
            hash_algo: self.hash_algo,
        }
    }
}

/// The SHA-256 digest of `data`.
pub uninterp spec fn sha256_of(data: Seq<u8>) -> [u8; 32];

/// `sha2`'s `Sha256::digest`: the 32 bytes of the digest, which the data alone
/// determines.
#[verifier::external_body]
fn sha256(data: &[u8]) -> (r: [u8; 32])
    ensures
        r == sha256_of(data@),
{
    Sha256::digest(data).into()
}

/// std's `str::from_utf8`: a string exactly where the bytes are UTF-8, and
/// then the one that they encode.
#[verifier::external_body]
fn utf8_string(bytes: &[u8]) -> (r: Option<String>)
    ensures
        r is Some == valid_utf8(bytes@),
        r matches Some(s) ==> s@ == decode_utf8(bytes@),
{
    match std::str::from_utf8(bytes) {
        Ok(s) => Some(s.to_string()),
        Err(_) => None,
    }
}

/// `s` followed by the encodings of all of `xs`, where `put` appends one.
pub open spec fn put_all<T>(
    s: Seq<u8>,
    xs: Seq<T>,
    put: spec_fn(Seq<u8>, T) -> Seq<u8>,
) -> Seq<u8>
    decreases xs.len(),
{
    if xs.len() == 0 {
        s
    } else {
        put(put_all(s, xs.drop_last(), put), xs.last())
    }
}

/// `s` followed by a 16-bit count and the encodings of all of `xs`.
pub open spec fn put_list<T>(
    s: Seq<u8>,
    xs: Seq<T>,
    put: spec_fn(Seq<u8>, T) -> Seq<u8>,
) -> Seq<u8> {
    put_all(s + be16(xs.len() as u16), xs, put)
}

pub open spec fn index_format() -> spec_fn(Seq<u8>, u16) -> Seq<u8> {
    |s: Seq<u8>, x: u16| s + be16(x)
}

pub open spec fn field_format() -> spec_fn(Seq<u8>, FieldDescriptor) -> Seq<u8> {
    |s: Seq<u8>, f: FieldDescriptor|
        s + be16(f.flags) + be16(f.name_index) + be16(f.type_index)
}

pub open spec fn exception_format() -> spec_fn(Seq<u8>, ExceptionTableEntry) -> Seq<u8> {
    |s: Seq<u8>, e: ExceptionTableEntry|
        s + be16(e.start_pc) + be16(e.end_pc) + be16(e.handler_pc) + be16(e.catch_type)
}

pub open spec fn line_format() -> spec_fn(Seq<u8>, LineTableEntry) -> Seq<u8> {
    |s: Seq<u8>, l: LineTableEntry| s + be16(l.start_pc) + be32(l.line)
}

pub open spec fn entry_format() -> spec_fn(Seq<u8>, EntryView) -> Seq<u8> {
    |s: Seq<u8>, e: EntryView| put_entry(s, e)
}

pub open spec fn method_format() -> spec_fn(Seq<u8>, MethodView) -> Seq<u8> {
    |s: Seq<u8>, m: MethodView| put_method(s, m)
}

/// `s` followed by one constant: its tag and its payload.
pub open spec fn put_entry(s: Seq<u8>, e: EntryView) -> Seq<u8> {
    let s = s + seq![e.tag()];
    match e {
        EntryView::Int(v) => s + be64(v as u64),
        EntryView::Float(v) => s + be64(v),
        EntryView::Utf8(t) => s + be16(encode_utf8(t).len() as u16) + encode_utf8(t),
        EntryView::Class { name_index } => s + be16(name_index),
        EntryView::FieldRef { class_index, name_index, type_index } => s + be16(class_index) + be16(
            name_index,
        ) + be16(type_index),
        EntryView::MethodRef { class_index, name_index, descriptor_index } => s + be16(class_index)
            + be16(name_index) + be16(descriptor_index),
        EntryView::TypeDesc { desc_index } => s + be16(desc_index),
    }
}

pub open spec fn put_method(s: Seq<u8>, m: MethodView) -> Seq<u8> {
    let s = s + be16(m.flags) + be16(m.name_index) + be16(m.descriptor_index);
    let s = put_list(s, m.throws_types, index_format());
    let s = s + be16(m.max_locals) + be16(m.max_stack) + be32(m.code.len() as u32) + m.code;
    let s = put_list(s, m.exception_table, exception_format());
    put_list(s, m.line_table, line_format())
}

/// Everything of a module's encoding before the integrity trailer.
pub open spec fn encoded_body(m: ModuleView) -> Seq<u8> {
    let s = Seq::<u8>::empty() + be32(MAGIC) + be16(m.version) + be16(
        ((m.constant_pool.len() as u16) + 1) as u16,
    );
    let s = put_all(s, m.constant_pool, entry_format());
    let s = s + be16(m.this_class) + be16(m.class_flags) + be16(m.super_class);
    let s = put_list(s, m.interfaces, index_format());
    let s = put_list(s, m.fields, field_format());
    put_list(s, m.methods, method_format())
}

/// A body, a byte for the hash algorithm, and the digest where there is one.
pub open spec fn sealed(body: Seq<u8>, algo: HashAlgo, digest: Seq<u8>) -> Seq<u8> {
    match algo {
        HashAlgo::NoHash => body + seq![0u8],
        HashAlgo::Sha256 => body + seq![1u8] + digest,
    }
}

/// The encoding of a module: its body, sealed with the body's digest.
pub open spec fn encoded(m: ModuleView) -> Seq<u8> {
    let s = encoded_body(m);
    sealed(s, m.hash_algo, sha256_of(s)@)
}

proof fn put_all_step<T>(
    s: Seq<u8>,
    xs: Seq<T>,
    i: int,
    put: spec_fn(Seq<u8>, T) -> Seq<u8>,
)
    requires
        0 <= i < xs.len(),
    ensures
        put_all(s, xs.take(i + 1), put) == put(put_all(s, xs.take(i), put), xs[i]),
{
    assert(xs.take(i + 1).drop_last() =~= xs.take(i));
}

fn write_indices(buf: &mut Vec<u8>, xs: &Vec<u16>)
    ensures
        final(buf)@ == put_list(old(buf)@, xs@, index_format()),
{
    put_u16(buf, xs.len() as u16);
    let ghost s = buf@;
    let mut i: usize = 0;
    while i < xs.len()
        invariant
            i <= xs@.len(),
            buf@ == put_all(s, xs@.take(i as int), index_format()),
        decreases xs@.len() - i,
    {
        proof {
            put_all_step(s, xs@, i as int, index_format());
        }
        put_u16(buf, xs[i]);
        i = i + 1;
    }
    assert(xs@.take(i as int) =~= xs@);
}

fn write_fields(buf: &mut Vec<u8>, xs: &Vec<FieldDescriptor>)
    ensures
        final(buf)@ == put_list(old(buf)@, xs@, field_format()),
{
    put_u16(buf, xs.len() as u16);
    let ghost s = buf@;
    let mut i: usize = 0;
    while i < xs.len()
        invariant
            i <= xs@.len(),
            buf@ == put_all(s, xs@.take(i as int), field_format()),
        decreases xs@.len() - i,
    {
        proof {
            put_all_step(s, xs@, i as int, field_format());
        }
        put_u16(buf, xs[i].flags);
        put_u16(buf, xs[i].name_index);
        put_u16(buf, xs[i].type_index);
        i = i + 1;
    }
    assert(xs@.take(i as int) =~= xs@);
}

fn write_exceptions(buf: &mut Vec<u8>, xs: &Vec<ExceptionTableEntry>)
    ensures
        final(buf)@ == put_list(old(buf)@, xs@, exception_format()),
{
    put_u16(buf, xs.len() as u16);
    let ghost s = buf@;
    let mut i: usize = 0;
    while i < xs.len()
        invariant
            i <= xs@.len(),
            buf@ == put_all(s, xs@.take(i as int), exception_format()),
        decreases xs@.len() - i,
    {
        proof {
            put_all_step(s, xs@, i as int, exception_format());
        }
        put_u16(buf, xs[i].start_pc);
        put_u16(buf, xs[i].end_pc);
        put_u16(buf, xs[i].handler_pc);
        put_u16(buf, xs[i].catch_type);
        i = i + 1;
    }
    assert(xs@.take(i as int) =~= xs@);
}

fn write_lines(buf: &mut Vec<u8>, xs: &Vec<LineTableEntry>)
    ensures
        final(buf)@ == put_list(old(buf)@, xs@, line_format()),
{
    put_u16(buf, xs.len() as u16);
    let ghost s = buf@;
    let mut i: usize = 0;
    while i < xs.len()
        invariant
            i <= xs@.len(),
            buf@ == put_all(s, xs@.take(i as int), line_format()),
        decreases xs@.len() - i,
    {
        proof {
            put_all_step(s, xs@, i as int, line_format());
        }
        put_u16(buf, xs[i].start_pc);
        put_u32(buf, xs[i].line);
        i = i + 1;
    }
    assert(xs@.take(i as int) =~= xs@);
}

pub fn write_cp_entry(buf: &mut Vec<u8>, entry: &ConstantPoolEntry)
    ensures
        final(buf)@ == put_entry(old(buf)@, entry@),
{
    buf.push(entry.tag());
    assert(buf@ =~= old(buf)@ + seq![entry@.tag()]);
    match entry {
        ConstantPoolEntry::Int(v) => put_u64(buf, #[verifier::truncate] (*v as u64)),
        ConstantPoolEntry::Float(v) => put_u64(buf, *v),
        ConstantPoolEntry::Utf8(t) => {
            let bytes = t.as_str().as_bytes();
            put_u16(buf, #[verifier::truncate] (bytes.len() as u16));
            put_bytes(buf, bytes);
        },
        ConstantPoolEntry::Class { name_index } => put_u16(buf, *name_index),
        ConstantPoolEntry::FieldRef { class_index, name_index, type_index } => {
            put_u16(buf, *class_index);
            put_u16(buf, *name_index);
            put_u16(buf, *type_index);
        },
        ConstantPoolEntry::MethodRef { class_index, name_index, descriptor_index } => {
            put_u16(buf, *class_index);
            put_u16(buf, *name_index);
            put_u16(buf, *descriptor_index);
        },
        ConstantPoolEntry::TypeDesc { desc_index } => put_u16(buf, *desc_index),
    }
}

fn write_pool(buf: &mut Vec<u8>, xs: &[ConstantPoolEntry])
    ensures
        final(buf)@ == put_all(old(buf)@, entry_views(xs@), entry_format()),
{
    let ghost s = buf@;
    let ghost es = entry_views(xs@);
    let mut i: usize = 0;
    while i < xs.len()
        invariant
            i <= xs@.len(),
            es == entry_views(xs@),
            buf@ == put_all(s, es.take(i as int), entry_format()),
        decreases xs@.len() - i,
    {
        proof {
            put_all_step(s, es, i as int, entry_format());
        }
        write_cp_entry(buf, &xs[i]);
        i = i + 1;
    }
    assert(es.take(i as int) =~= es);
}

fn write_method(buf: &mut Vec<u8>, m: &MethodDescriptor)
    ensures
        final(buf)@ == put_method(old(buf)@, m@),
{
    put_u16(buf, m.flags);
    put_u16(buf, m.name_index);
    put_u16(buf, m.descriptor_index);
    write_indices(buf, &m.throws_types);
    put_u16(buf, m.max_locals);
    put_u16(buf, m.max_stack);
    put_u32(buf, m.code.len() as u32);
    put_bytes(buf, m.code.as_slice());
    write_exceptions(buf, &m.exception_table);
    write_lines(buf, &m.line_table);
}

fn write_methods(buf: &mut Vec<u8>, xs: &Vec<MethodDescriptor>)
    ensures
        final(buf)@ == put_list(old(buf)@, method_views(xs@), method_format()),
{
    put_u16(buf, xs.len() as u16);
    let ghost s = buf@;
    let ghost ms = method_views(xs@);
    let mut i: usize = 0;
    while i < xs.len()
        invariant
            i <= xs@.len(),
            ms == method_views(xs@),
            buf@ == put_all(s, ms.take(i as int), method_format()),
        decreases xs@.len() - i,
    {
        proof {
            put_all_step(s, ms, i as int, method_format());
        }
        write_method(buf, &xs[i]);
        i = i + 1;
    }
    assert(ms.take(i as int) =~= ms);
}

/// `n` values read one after the other from `p` on by `get`.
pub open spec fn get_all<T>(
    b: Seq<u8>,
    p: int,
    n: nat,
    get: spec_fn(Seq<u8>, int) -> Result<(T, int), BytecodeErrorView>,
) -> Result<(Seq<T>, int), BytecodeErrorView>
    decreases n,
{
    if n == 0 {
        Ok((Seq::empty(), p))
    } else {
        match get_all(b, p, (n - 1) as nat, get) {
            Err(e) => Err(e),
            Ok((xs, q)) => match get(b, q) {
                Err(e) => Err(e),
                Ok((x, q)) => Ok((xs.push(x), q)),
            },
        }
    }
}

/// A 16-bit count and that many values.
pub open spec fn get_list<T>(
    b: Seq<u8>,
    p: int,
    get: spec_fn(Seq<u8>, int) -> Result<(T, int), BytecodeErrorView>,
) -> Result<(Seq<T>, int), BytecodeErrorView> {
    match get_u16(b, p) {
        Err(e) => Err(e),
        Ok((n, p)) => get_all(b, p, n as nat, get),
    }
}

pub open spec fn index_parser() -> spec_fn(Seq<u8>, int) -> Result<(u16, int), BytecodeErrorView> {
    |b: Seq<u8>, p: int| get_u16(b, p)
}

pub open spec fn field_parser() -> spec_fn(Seq<u8>, int) -> Result<
    (FieldDescriptor, int),
    BytecodeErrorView,
> {
    |b: Seq<u8>, p: int| get_field(b, p)
}

pub open spec fn exception_parser() -> spec_fn(Seq<u8>, int) -> Result<
    (ExceptionTableEntry, int),
    BytecodeErrorView,
> {
    |b: Seq<u8>, p: int| get_exception(b, p)
}

pub open spec fn line_parser() -> spec_fn(Seq<u8>, int) -> Result<
    (LineTableEntry, int),
    BytecodeErrorView,
> {
    |b: Seq<u8>, p: int| get_line(b, p)
}

pub open spec fn method_parser() -> spec_fn(Seq<u8>, int) -> Result<
    (MethodView, int),
    BytecodeErrorView,
> {
    |b: Seq<u8>, p: int| get_method(b, p)
}

pub open spec fn get_field(b: Seq<u8>, p: int) -> Result<
    (FieldDescriptor, int),
    BytecodeErrorView,
> {
    match get_u16(b, p) { Err(e) => Err(e), Ok((flags, p)) =>
    match get_u16(b, p) { Err(e) => Err(e), Ok((name_index, p)) =>
    match get_u16(b, p) { Err(e) => Err(e), Ok((type_index, p)) =>
        Ok((FieldDescriptor { flags, name_index, type_index }, p)),
    }}}
}

pub open spec fn get_exception(b: Seq<u8>, p: int) -> Result<
    (ExceptionTableEntry, int),
    BytecodeErrorView,
> {
    match get_u16(b, p) { Err(e) => Err(e), Ok((start_pc, p)) =>
    match get_u16(b, p) { Err(e) => Err(e), Ok((end_pc, p)) =>
    match get_u16(b, p) { Err(e) => Err(e), Ok((handler_pc, p)) =>
    match get_u16(b, p) { Err(e) => Err(e), Ok((catch_type, p)) =>
        Ok((ExceptionTableEntry { start_pc, end_pc, handler_pc, catch_type }, p)),
    }}}}
}

pub open spec fn get_line(b: Seq<u8>, p: int) -> Result<(LineTableEntry, int), BytecodeErrorView> {
    match get_u16(b, p) { Err(e) => Err(e), Ok((start_pc, p)) =>
    match get_u32(b, p) { Err(e) => Err(e), Ok((line, p)) =>
        Ok((LineTableEntry { start_pc, line }, p)),
    }}
}

pub open spec fn get_entry(b: Seq<u8>, p: int) -> Result<(EntryView, int), BytecodeErrorView> {
    match get_u8(b, p) { Err(e) => Err(e), Ok((tag, p)) =>
        if tag == 1 {
            match get_u64(b, p) { Err(e) => Err(e), Ok((v, p)) => Ok((EntryView::Int(v as i64), p)) }
        } else if tag == 2 {
            match get_u64(b, p) { Err(e) => Err(e), Ok((v, p)) => Ok((EntryView::Float(v), p)) }
        } else if tag == 3 {
            match get_u16(b, p) { Err(e) => Err(e), Ok((n, p)) =>
            match get_bytes(b, p, n as int) { Err(e) => Err(e), Ok((t, p)) =>
                if valid_utf8(t) {
                    Ok((EntryView::Utf8(decode_utf8(t)), p))
                } else {
                    Err(BytecodeErrorView::Malformed("invalid utf-8 in constant pool"@))
                },
            }}
        } else if tag == 4 {
            match get_u16(b, p) { Err(e) => Err(e), Ok((name_index, p)) =>
                Ok((EntryView::Class { name_index }, p)),
            }
        } else if tag == 5 {
            match get_u16(b, p) { Err(e) => Err(e), Ok((class_index, p)) =>
            match get_u16(b, p) { Err(e) => Err(e), Ok((name_index, p)) =>
            match get_u16(b, p) { Err(e) => Err(e), Ok((type_index, p)) =>
                Ok((EntryView::FieldRef { class_index, name_index, type_index }, p)),
            }}}
        } else if tag == 6 {
            match get_u16(b, p) { Err(e) => Err(e), Ok((class_index, p)) =>
            match get_u16(b, p) { Err(e) => Err(e), Ok((name_index, p)) =>
            match get_u16(b, p) { Err(e) => Err(e), Ok((descriptor_index, p)) =>
                Ok((EntryView::MethodRef { class_index, name_index, descriptor_index }, p)),
            }}}
        } else if tag == 7 {
            match get_u16(b, p) { Err(e) => Err(e), Ok((desc_index, p)) =>
                Ok((EntryView::TypeDesc { desc_index }, p)),
            }
        } else {
            Err(BytecodeErrorView::UnknownConstantTag(tag))
        },
    }
}

/// The pool `p` after the constant `e` was read: a class or type name must be
/// a string that is already there, and is interned anew.
pub open spec fn admitted(p: Seq<EntryView>, e: EntryView) -> Result<
    Seq<EntryView>,
    BytecodeErrorView,
> {
    match e {
        EntryView::Class { name_index } => match utf8_of(p, name_index) {
            None => Err(BytecodeErrorView::Malformed("class name_index"@)),
            Some(name) => Ok(with_class(p, name).0),
        },
        EntryView::TypeDesc { desc_index } => match utf8_of(p, desc_index) {
            None => Err(BytecodeErrorView::Malformed("type desc_index"@)),
            Some(desc) => Ok(with_type_desc(p, desc).0),
        },
        _ => Ok(interned(p, e).0),
    }
}

/// A pool of `n` constants read from `p` on.
pub open spec fn get_pool(b: Seq<u8>, p: int, n: nat) -> Result<
    (Seq<EntryView>, int),
    BytecodeErrorView,
>
    decreases n,
{
    if n == 0 {
        Ok((Seq::empty(), p))
    } else {
        match get_pool(b, p, (n - 1) as nat) { Err(e) => Err(e), Ok((pool, p)) =>
        match get_entry(b, p) { Err(e) => Err(e), Ok((entry, p)) =>
        match admitted(pool, entry) { Err(e) => Err(e), Ok(pool) =>
            Ok((pool, p)),
        }}}
    }
}

pub open spec fn get_method(b: Seq<u8>, p: int) -> Result<(MethodView, int), BytecodeErrorView> {
    match get_u16(b, p) { Err(e) => Err(e), Ok((flags, p)) =>
    match get_u16(b, p) { Err(e) => Err(e), Ok((name_index, p)) =>
    match get_u16(b, p) { Err(e) => Err(e), Ok((descriptor_index, p)) =>
    match get_list(b, p, index_parser()) { Err(e) => Err(e), Ok((throws_types, p)) =>
    match get_u16(b, p) { Err(e) => Err(e), Ok((max_locals, p)) =>
    match get_u16(b, p) { Err(e) => Err(e), Ok((max_stack, p)) =>
    match get_u32(b, p) { Err(e) => Err(e), Ok((code_length, p)) =>
    match get_bytes(b, p, code_length as int) { Err(e) => Err(e), Ok((code, p)) =>
    match get_list(b, p, exception_parser()) { Err(e) => Err(e), Ok((exception_table, p)) =>
    match get_list(b, p, line_parser()) { Err(e) => Err(e), Ok((line_table, p)) =>
        Ok((
            MethodView {
                flags,
                name_index,
                descriptor_index,
                throws_types,
                max_locals,
                max_stack,
                code,
                exception_table,
                line_table,
            },
            p,
        )),
    }}}}}}}}}}
}

/// The hash algorithm that the trailer at `p` names, if `digest`, which is that
/// of all bytes before it, is the stored one.
pub open spec fn trailer_with(b: Seq<u8>, p: int, digest: Seq<u8>) -> Result<
    HashAlgo,
    BytecodeErrorView,
> {
    match get_u8(b, p) {
        Err(e) => Err(e),
        Ok((algo, q)) => if algo == 0 {
            Ok(HashAlgo::NoHash)
        } else if algo == 1 {
            match get_bytes(b, q, 32) {
                Err(e) => Err(e),
                Ok((hash, _)) => if hash == digest {
                    Ok(HashAlgo::Sha256)
                } else {
                    Err(BytecodeErrorView::HashMismatch)
                },
            }
        } else {
            Err(BytecodeErrorView::UnknownHashAlgo(algo))
        },
    }
}

/// The hash algorithm that the trailer at `p` names, if the stored digest is
/// that of all bytes before it.
pub open spec fn get_trailer(b: Seq<u8>, p: int) -> Result<HashAlgo, BytecodeErrorView> {
    trailer_with(b, p, sha256_of(b.take(p))@)
}

/// The number of constants that the stored count stands for.
pub open spec fn pool_size(count: u16) -> nat {
    if count == 0 {
        0
    } else {
        (count - 1) as nat
    }
}

/// What the bytes of a module say up to the integrity trailer, as a module
/// without a hash, and the position of the trailer.
pub open spec fn decoded_body(b: Seq<u8>) -> Result<(ModuleView, int), BytecodeErrorView> {
    match get_u32(b, 0) { Err(e) => Err(e), Ok((magic, p)) =>
    if magic != MAGIC { Err(BytecodeErrorView::BadMagic(magic)) } else {
    match get_u16(b, p) { Err(e) => Err(e), Ok((version, p)) =>
    match get_u16(b, p) { Err(e) => Err(e), Ok((count, p)) =>
    match get_pool(b, p, pool_size(count)) { Err(e) => Err(e), Ok((constant_pool, p)) =>
    match get_u16(b, p) { Err(e) => Err(e), Ok((this_class, p)) =>
    match get_u16(b, p) { Err(e) => Err(e), Ok((class_flags, p)) =>
    match get_u16(b, p) { Err(e) => Err(e), Ok((super_class, p)) =>
    match get_list(b, p, index_parser()) { Err(e) => Err(e), Ok((interfaces, p)) =>
    match get_list(b, p, field_parser()) { Err(e) => Err(e), Ok((fields, p)) =>
    match get_list(b, p, method_parser()) { Err(e) => Err(e), Ok((methods, p)) =>
        Ok((
            ModuleView {
                version,
                constant_pool,
                this_class,
                class_flags,
                super_class,
                interfaces,
                fields,
                methods,
                hash_algo: HashAlgo::NoHash,
            },
            p,
        )),
    }}}}}}}}}}}
}

/// What the bytes of a module say.
pub open spec fn decoded(b: Seq<u8>) -> Result<ModuleView, BytecodeErrorView> {
    match decoded_body(b) { Err(e) => Err(e), Ok((m, p)) =>
    match get_trailer(b, p) { Err(e) => Err(e), Ok(hash_algo) =>
        Ok(ModuleView { hash_algo, ..m }),
    }}
}

/// An error met while reading a list is the error of the whole list.
proof fn get_all_error<T>(
    b: Seq<u8>,
    p: int,
    i: nat,
    n: nat,
    get: spec_fn(Seq<u8>, int) -> Result<(T, int), BytecodeErrorView>,
)
    requires
        i <= n,
        get_all(b, p, i, get) is Err,
    ensures
        get_all(b, p, n, get) == get_all(b, p, i, get),
    decreases n - i,
{
    if i < n {
        get_all_error(b, p, i, (n - 1) as nat, get);
    }
}

proof fn get_pool_error(b: Seq<u8>, p: int, i: nat, n: nat)
    requires
        i <= n,
        get_pool(b, p, i) is Err,
    ensures
        get_pool(b, p, n) == get_pool(b, p, i),
    decreases n - i,
{
    if i < n {
        get_pool_error(b, p, i, (n - 1) as nat);
    }
}

fn read_indices(r: &mut Reader) -> (res: Result<Vec<u16>, BytecodeError>)
    requires
        old(r).wf(),
    ensures
        final(r).wf(),
        final(r).data() == old(r).data(),
        match res {
            Ok(out) => get_list(old(r).data(), old(r).at(), index_parser()) == Ok::<
                (Seq<u16>, int),
                BytecodeErrorView,
            >((out@, final(r).at())),
            Err(e) => get_list(old(r).data(), old(r).at(), index_parser()) == Err::<
                (Seq<u16>, int),
                BytecodeErrorView,
            >(e@),
        },
{
    let ghost b = r.data();
    let n: u16 = r.read_u16()?;
    let ghost p = r.at();
    let mut out: Vec<u16> = Vec::new();
    let mut i: u16 = 0;
    proof {
        assert(out@ =~= Seq::<u16>::empty());
    }
    while i < n
        invariant
            i <= n,
            r.wf(),
            r.data() == b,
            get_u16(b, old(r).at()) == Ok::<(u16, int), BytecodeErrorView>((n, p)),
            b == old(r).data(),
            get_all(b, p, i as nat, index_parser()) == Ok::<(Seq<u16>, int), BytecodeErrorView>(
                (out@, r.at()),
            ),
        decreases n - i,
    {
        proof {
            if get_all(b, p, (i + 1) as nat, index_parser()) is Err {
                get_all_error(b, p, (i + 1) as nat, n as nat, index_parser());
            }
        }
        let ghost before = out@;
        let x: u16 = r.read_u16()?;
        out.push(x);
        proof {
            assert(out@ =~= before.push(x));
        }
        i = i + 1;
    }
    Ok(out)
}

fn read_fields(r: &mut Reader) -> (res: Result<Vec<FieldDescriptor>, BytecodeError>)
    requires
        old(r).wf(),
    ensures
        final(r).wf(),
        final(r).data() == old(r).data(),
        match res {
            Ok(out) => get_list(old(r).data(), old(r).at(), field_parser()) == Ok::<
                (Seq<FieldDescriptor>, int),
                BytecodeErrorView,
            >((out@, final(r).at())),
            Err(e) => get_list(old(r).data(), old(r).at(), field_parser()) == Err::<
                (Seq<FieldDescriptor>, int),
                BytecodeErrorView,
            >(e@),
        },
{
    let ghost b = r.data();
    let n: u16 = r.read_u16()?;
    let ghost p = r.at();
    let mut out: Vec<FieldDescriptor> = Vec::new();
    let mut i: u16 = 0;
    proof {
        assert(out@ =~= Seq::<FieldDescriptor>::empty());
    }
    while i < n
        invariant
            i <= n,
            r.wf(),
            r.data() == b,
            get_u16(b, old(r).at()) == Ok::<(u16, int), BytecodeErrorView>((n, p)),
            b == old(r).data(),
            get_all(b, p, i as nat, field_parser()) == Ok::<(Seq<FieldDescriptor>, int), BytecodeErrorView>(
                (out@, r.at()),
            ),
        decreases n - i,
    {
        proof {
            if get_all(b, p, (i + 1) as nat, field_parser()) is Err {
                get_all_error(b, p, (i + 1) as nat, n as nat, field_parser());
            }
        }
        let ghost before = out@;
        let flags: u16 = r.read_u16()?;
        let name_index: u16 = r.read_u16()?;
        let type_index: u16 = r.read_u16()?;
        let x = FieldDescriptor { flags, name_index, type_index };
        out.push(x);
        proof {
            assert(out@ =~= before.push(x));
        }
        i = i + 1;
    }
    Ok(out)
}

fn read_exceptions(r: &mut Reader) -> (res: Result<Vec<ExceptionTableEntry>, BytecodeError>)
    requires
        old(r).wf(),
    ensures
        final(r).wf(),
        final(r).data() == old(r).data(),
        match res {
            Ok(out) => get_list(old(r).data(), old(r).at(), exception_parser()) == Ok::<
                (Seq<ExceptionTableEntry>, int),
                BytecodeErrorView,
            >((out@, final(r).at())),
            Err(e) => get_list(old(r).data(), old(r).at(), exception_parser()) == Err::<
                (Seq<ExceptionTableEntry>, int),
                BytecodeErrorView,
            >(e@),
        },
{
    let ghost b = r.data();
    let n: u16 = r.read_u16()?;
    let ghost p = r.at();
    let mut out: Vec<ExceptionTableEntry> = Vec::new();
    let mut i: u16 = 0;
    proof {
        assert(out@ =~= Seq::<ExceptionTableEntry>::empty());
    }
    while i < n
        invariant
            i <= n,
            r.wf(),
            r.data() == b,
            get_u16(b, old(r).at()) == Ok::<(u16, int), BytecodeErrorView>((n, p)),
            b == old(r).data(),
            get_all(b, p, i as nat, exception_parser()) == Ok::<(Seq<ExceptionTableEntry>, int), BytecodeErrorView>(
                (out@, r.at()),
            ),
        decreases n - i,
    {
        proof {
            if get_all(b, p, (i + 1) as nat, exception_parser()) is Err {
                get_all_error(b, p, (i + 1) as nat, n as nat, exception_parser());
            }
        }
        let ghost before = out@;
        let start_pc: u16 = r.read_u16()?;
        let end_pc: u16 = r.read_u16()?;
        let handler_pc: u16 = r.read_u16()?;
        let catch_type: u16 = r.read_u16()?;
        let x = ExceptionTableEntry { start_pc, end_pc, handler_pc, catch_type };
        out.push(x);
        proof {
            assert(out@ =~= before.push(x));
        }
        i = i + 1;
    }
    Ok(out)
}

fn read_lines(r: &mut Reader) -> (res: Result<Vec<LineTableEntry>, BytecodeError>)
    requires
        old(r).wf(),
    ensures
        final(r).wf(),
        final(r).data() == old(r).data(),
        match res {
            Ok(out) => get_list(old(r).data(), old(r).at(), line_parser()) == Ok::<
                (Seq<LineTableEntry>, int),
                BytecodeErrorView,
            >((out@, final(r).at())),
            Err(e) => get_list(old(r).data(), old(r).at(), line_parser()) == Err::<
                (Seq<LineTableEntry>, int),
                BytecodeErrorView,
            >(e@),
        },
{
    let ghost b = r.data();
    let n: u16 = r.read_u16()?;
    let ghost p = r.at();
    let mut out: Vec<LineTableEntry> = Vec::new();
    let mut i: u16 = 0;
    proof {
        assert(out@ =~= Seq::<LineTableEntry>::empty());
    }
    while i < n
        invariant
            i <= n,
            r.wf(),
            r.data() == b,
            get_u16(b, old(r).at()) == Ok::<(u16, int), BytecodeErrorView>((n, p)),
            b == old(r).data(),
            get_all(b, p, i as nat, line_parser()) == Ok::<(Seq<LineTableEntry>, int), BytecodeErrorView>(
                (out@, r.at()),
            ),
        decreases n - i,
    {
        proof {
            if get_all(b, p, (i + 1) as nat, line_parser()) is Err {
                get_all_error(b, p, (i + 1) as nat, n as nat, line_parser());
            }
        }
        let ghost before = out@;
        let start_pc: u16 = r.read_u16()?;
        let line: u32 = r.read_u32()?;
        let x = LineTableEntry { start_pc, line };
        out.push(x);
        proof {
            assert(out@ =~= before.push(x));
        }
        i = i + 1;
    }
    Ok(out)
}

fn copy_bytes(s: &[u8]) -> (r: Vec<u8>)
    ensures
        r@ == s@,
{
    let mut out: Vec<u8> = Vec::new();
    put_bytes(&mut out, s);
    assert(out@ =~= s@);
    out
}

fn read_method(r: &mut Reader) -> (res: Result<MethodDescriptor, BytecodeError>)
    requires
        old(r).wf(),
    ensures
        final(r).wf(),
        final(r).data() == old(r).data(),
        match res {
            Ok(m) => get_method(old(r).data(), old(r).at()) == Ok::<
                (MethodView, int),
                BytecodeErrorView,
            >((m@, final(r).at())),
            Err(e) => get_method(old(r).data(), old(r).at()) == Err::<
                (MethodView, int),
                BytecodeErrorView,
            >(e@),
        },
{
    let flags: u16 = r.read_u16()?;
    let name_index: u16 = r.read_u16()?;
    let descriptor_index: u16 = r.read_u16()?;
    let throws_types = read_indices(r)?;
    let max_locals: u16 = r.read_u16()?;
    let max_stack: u16 = r.read_u16()?;
    let code_length: u32 = r.read_u32()?;
    let code = copy_bytes(r.read_bytes(code_length as usize)?);
    let exception_table = read_exceptions(r)?;
    let line_table = read_lines(r)?;
    Ok(
        MethodDescriptor {
            flags,
            name_index,
            descriptor_index,
            throws_types,
            max_locals,
            max_stack,
            code,
            exception_table,
            line_table,
        },
    )
}

fn read_methods(r: &mut Reader) -> (res: Result<Vec<MethodDescriptor>, BytecodeError>)
    requires
        old(r).wf(),
    ensures
        final(r).wf(),
        final(r).data() == old(r).data(),
        match res {
            Ok(out) => get_list(old(r).data(), old(r).at(), method_parser()) == Ok::<
                (Seq<MethodView>, int),
                BytecodeErrorView,
            >((method_views(out@), final(r).at())),
            Err(e) => get_list(old(r).data(), old(r).at(), method_parser()) == Err::<
                (Seq<MethodView>, int),
                BytecodeErrorView,
            >(e@),
        },
{
    let ghost b = r.data();
    let n: u16 = r.read_u16()?;
    let ghost p = r.at();
    let mut out: Vec<MethodDescriptor> = Vec::new();
    let mut i: u16 = 0;
    proof {
        assert(method_views(out@) =~= Seq::<MethodView>::empty());
    }
    while i < n
        invariant
            i <= n,
            r.wf(),
            r.data() == b,
            get_u16(b, old(r).at()) == Ok::<(u16, int), BytecodeErrorView>((n, p)),
            b == old(r).data(),
            get_all(b, p, i as nat, method_parser()) == Ok::<(Seq<MethodView>, int), BytecodeErrorView>(
                (method_views(out@), r.at()),
            ),
        decreases n - i,
    {
        proof {
            if get_all(b, p, (i + 1) as nat, method_parser()) is Err {
                get_all_error(b, p, (i + 1) as nat, n as nat, method_parser());
            }
        }
        let ghost before = method_views(out@);
        let x = read_method(r)?;
        out.push(x);
        proof {
            assert(method_views(out@) =~= before.push(x@));
        }
        i = i + 1;
    }
    Ok(out)
}

pub fn read_cp_entry(r: &mut Reader) -> (res: Result<ConstantPoolEntry, BytecodeError>)
    requires
        old(r).wf(),
    ensures
        final(r).wf(),
        final(r).data() == old(r).data(),
        match res {
            Ok(x) => get_entry(old(r).data(), old(r).at()) == Ok::<
                (EntryView, int),
                BytecodeErrorView,
            >((x@, final(r).at())),
            Err(e) => get_entry(old(r).data(), old(r).at()) == Err::<
                (EntryView, int),
                BytecodeErrorView,
            >(e@),
        },
{
    let tag: u8 = r.read_u8()?;
    if tag == 1 {
        let v: i64 = r.read_i64()?;
        Ok(ConstantPoolEntry::Int(v))
    } else if tag == 2 {
        let v: u64 = r.read_u64()?;
        Ok(ConstantPoolEntry::Float(v))
    } else if tag == 3 {
        let n: u16 = r.read_u16()?;
        let bytes = r.read_bytes(n as usize)?;
        match utf8_string(bytes) {
            Some(s) => Ok(ConstantPoolEntry::Utf8(s)),
            None => Err(BytecodeError::Malformed("invalid utf-8 in constant pool")),
        }
    } else if tag == 4 {
        let name_index: u16 = r.read_u16()?;
        Ok(ConstantPoolEntry::Class { name_index })
    } else if tag == 5 {
        let class_index: u16 = r.read_u16()?;
        let name_index: u16 = r.read_u16()?;
        let type_index: u16 = r.read_u16()?;
        Ok(ConstantPoolEntry::FieldRef { class_index, name_index, type_index })
    } else if tag == 6 {
        let class_index: u16 = r.read_u16()?;
        let name_index: u16 = r.read_u16()?;
        let descriptor_index: u16 = r.read_u16()?;
        Ok(ConstantPoolEntry::MethodRef { class_index, name_index, descriptor_index })
    } else if tag == 7 {
        let desc_index: u16 = r.read_u16()?;
        Ok(ConstantPoolEntry::TypeDesc { desc_index })
    } else {
        Err(BytecodeError::UnknownConstantTag(tag))
    }
}

fn admit_entry(pool: &mut ConstantPool, entry: ConstantPoolEntry) -> (res: Result<
    (),
    BytecodeError,
>)
    ensures
        match res {
            Ok(_) => admitted(old(pool)@, entry@) == Ok::<Seq<EntryView>, BytecodeErrorView>(
                final(pool)@,
            ),
            Err(e) => admitted(old(pool)@, entry@) == Err::<Seq<EntryView>, BytecodeErrorView>(e@),
        },
{
    match entry {
        ConstantPoolEntry::Int(v) => {
            pool.add_int(v);
        },
        ConstantPoolEntry::Float(v) => {
            pool.add_float(v);
        },
        ConstantPoolEntry::Utf8(s) => {
            pool.add_utf8(s.as_str());
        },
        ConstantPoolEntry::Class { name_index } => {
            let name = match pool.utf8_at(name_index) {
                Some(s) => owned(s),
                None => return Err(BytecodeError::Malformed("class name_index")),
            };
            pool.add_class(name.as_str());
        },
        ConstantPoolEntry::FieldRef { class_index, name_index, type_index } => {
            pool.add_field_ref(class_index, name_index, type_index);
        },
        ConstantPoolEntry::MethodRef { class_index, name_index, descriptor_index } => {
            pool.add_method_ref(class_index, name_index, descriptor_index);
        },
        ConstantPoolEntry::TypeDesc { desc_index } => {
            let desc = match pool.utf8_at(desc_index) {
                Some(s) => owned(s),
                None => return Err(BytecodeError::Malformed("type desc_index")),
            };
            pool.add_type_desc(desc.as_str());
        },
    }
    Ok(())
}

fn read_pool(r: &mut Reader, n: u16) -> (res: Result<ConstantPool, BytecodeError>)
    requires
        old(r).wf(),
    ensures
        final(r).wf(),
        final(r).data() == old(r).data(),
        match res {
            Ok(pool) => get_pool(old(r).data(), old(r).at(), n as nat) == Ok::<
                (Seq<EntryView>, int),
                BytecodeErrorView,
            >((pool@, final(r).at())),
            Err(e) => get_pool(old(r).data(), old(r).at(), n as nat) == Err::<
                (Seq<EntryView>, int),
                BytecodeErrorView,
            >(e@),
        },
{
    let ghost b = r.data();
    let ghost p = r.at();
    let mut pool = ConstantPool::new();
    let mut i: u16 = 0;
    while i < n
        invariant
            i <= n,
            r.wf(),
            r.data() == b,
            b == old(r).data(),
            p == old(r).at(),
            get_pool(b, p, i as nat) == Ok::<(Seq<EntryView>, int), BytecodeErrorView>(
                (pool@, r.at()),
            ),
        decreases n - i,
    {
        proof {
            if get_pool(b, p, (i + 1) as nat) is Err {
                get_pool_error(b, p, (i + 1) as nat, n as nat);
            }
        }
        let entry = read_cp_entry(r)?;
        admit_entry(&mut pool, entry)?;
        i = i + 1;
    }
    Ok(pool)
}

fn same_bytes(a: &[u8], b: &[u8]) -> (r: bool)
    ensures
        r == (a@ == b@),
{
    if a.len() != b.len() {
        return false;
    }
    let mut i: usize = 0;
    while i < a.len()
        invariant
            a@.len() == b@.len(),
            i <= a@.len(),
            forall|j: int| 0 <= j < i ==> a@[j] == b@[j],
        decreases a@.len() - i,
    {
        if a[i] != b[i] {
            return false;
        }
        i = i + 1;
    }
    assert(a@ =~= b@);
    true
}

/// Ends the body of a module, whose digest is given.
pub fn seal(body: Vec<u8>, algo: HashAlgo, digest: &[u8; 32]) -> (r: Vec<u8>)
    ensures
        r@ == sealed(body@, algo, digest@),
{
    let mut buf = body;
    match algo {
        HashAlgo::NoHash => {
            buf.push(0);
            assert(buf@ =~= body@ + seq![0u8]);
        },
        HashAlgo::Sha256 => {
            buf.push(1);
            assert(buf@ =~= body@ + seq![1u8]);
            put_bytes(&mut buf, array_as_slice(digest));
        },
    }
    buf
}

/// Reads the trailer at `at`, where `digest` is that of the bytes before it.
pub fn check_trailer(bytes: &[u8], at: usize, digest: &[u8; 32]) -> (res: Result<
    HashAlgo,
    BytecodeError,
>)
    requires
        at <= bytes@.len(),
    ensures
        match res {
            Ok(h) => trailer_with(bytes@, at as int, digest@) == Ok::<HashAlgo, BytecodeErrorView>(
                h,
            ),
            Err(e) => trailer_with(bytes@, at as int, digest@) == Err::<
                HashAlgo,
                BytecodeErrorView,
            >(e@),
        },
{
    if at == bytes.len() {
        return Err(BytecodeError::UnexpectedEof);
    }
    let algo: u8 = bytes[at];
    if algo == 0 {
        Ok(HashAlgo::NoHash)
    } else if algo == 1 {
        if bytes.len() - at - 1 < 32 {
            return Err(BytecodeError::UnexpectedEof);
        }
        let hash = slice_subrange(bytes, at + 1, at + 33);
        if same_bytes(hash, array_as_slice(digest)) {
            Ok(HashAlgo::Sha256)
        } else {
            Err(BytecodeError::HashMismatch)
        }
    } else {
        Err(BytecodeError::UnknownHashAlgo(algo))
    }
}

impl Module {
    pub fn this_class_name(&self) -> (r: Option<&str>)
        ensures
            opt_text(r) == class_name_of(self@.constant_pool, self.this_class),
    {
        self.constant_pool.class_name_at(self.this_class)
    }

    /// Whether the method at position `i` is called `name`.
    pub open spec fn method_named(&self, i: int, name: Seq<char>) -> bool {
        utf8_of(self@.constant_pool, self.methods@[i].name_index) == Some(name)
    }

    /// The first method called `name`.
    pub fn find_method(&self, name: &str) -> (r: Option<&MethodDescriptor>)
        ensures
            match r {
                Some(m) => exists|i: int|
                    0 <= i < self.methods@.len() && *m == self.methods@[i] && self.method_named(
                        i,
                        name@,
                    ) && (forall|j: int| 0 <= j < i ==> !self.method_named(j, name@)),
                None => forall|j: int|
                    0 <= j < self.methods@.len() ==> !self.method_named(j, name@),
            },
    {
        let mut i: usize = 0;
        while i < self.methods.len()
            invariant
                i <= self.methods@.len(),
                forall|j: int| 0 <= j < i ==> !self.method_named(j, name@),
            decreases self.methods@.len() - i,
        {
            if let Some(s) = self.constant_pool.utf8_at(self.methods[i].name_index) {
                if str_eq(s, name) {
                    assert(self.method_named(i as int, name@));
                    return Some(&self.methods[i]);
                }
            }
            assert(!self.method_named(i as int, name@));
            i = i + 1;
        }
        None
    }

    /// Whether the field at position `i` is called `name`.
    pub open spec fn field_named(&self, i: int, name: Seq<char>) -> bool {
        utf8_of(self@.constant_pool, self.fields@[i].name_index) == Some(name)
    }

    /// The first field called `name`.
    pub fn find_field(&self, name: &str) -> (r: Option<&FieldDescriptor>)
        ensures
            match r {
                Some(f) => exists|i: int|
                    0 <= i < self.fields@.len() && *f == self.fields@[i] && self.field_named(
                        i,
                        name@,
                    ) && (forall|j: int| 0 <= j < i ==> !self.field_named(j, name@)),
                None => forall|j: int|
                    0 <= j < self.fields@.len() ==> !self.field_named(j, name@),
            },
    {
        let mut i: usize = 0;
        while i < self.fields.len()
            invariant
                i <= self.fields@.len(),
                forall|j: int| 0 <= j < i ==> !self.field_named(j, name@),
            decreases self.fields@.len() - i,
        {
            if let Some(s) = self.constant_pool.utf8_at(self.fields[i].name_index) {
                if str_eq(s, name) {
                    assert(self.field_named(i as int, name@));
                    return Some(&self.fields[i]);
                }
            }
            assert(!self.field_named(i as int, name@));
            i = i + 1;
        }
        None
    }

    /// Whether the method at position `i` has this name and descriptor.
    pub open spec fn method_described(
        &self,
        i: int,
        name: Seq<char>,
        descriptor: Seq<char>,
    ) -> bool {
        self.method_named(i, name) && type_desc_of(
            self@.constant_pool,
            self.methods@[i].descriptor_index,
        ) == Some(descriptor)
    }

    /// Like `find_method`, but also matches the descriptor string, which tells
    /// overloads apart.
    pub fn find_method_by_descriptor(&self, name: &str, descriptor: &str) -> (r: Option<
        &MethodDescriptor,
    >)
        ensures
            match r {
                Some(m) => exists|i: int|
                    0 <= i < self.methods@.len() && *m == self.methods@[i] && self.method_described(
                        i,
                        name@,
                        descriptor@,
                    ) && (forall|j: int|
                        0 <= j < i ==> !self.method_described(j, name@, descriptor@)),
                None => forall|j: int|
                    0 <= j < self.methods@.len() ==> !self.method_described(
                        j,
                        name@,
                        descriptor@,
                    ),
            },
    {
        let mut i: usize = 0;
        while i < self.methods.len()
            invariant
                i <= self.methods@.len(),
                forall|j: int| 0 <= j < i ==> !self.method_described(j, name@, descriptor@),
            decreases self.methods@.len() - i,
        {
            if let Some(s) = self.constant_pool.utf8_at(self.methods[i].name_index) {
                if let Some(d) = self.constant_pool.type_desc_at(self.methods[i].descriptor_index) {
                    if str_eq(s, name) && str_eq(d, descriptor) {
                        assert(self.method_described(i as int, name@, descriptor@));
                        return Some(&self.methods[i]);
                    }
                }
            }
            assert(!self.method_described(i as int, name@, descriptor@));
            i = i + 1;
        }
        None
    }

    /// The module as bytes, up to the trailer. The pool's count is stored as
    /// its size plus one in 16 bits, which must not overflow.
    pub fn encode_body(&self) -> (r: Vec<u8>)
        requires
            (self@.constant_pool.len() as u16) < 0xffff,
        ensures
            r@ == encoded_body(self@),
    {
        let mut buf: Vec<u8> = Vec::new();
        put_u32(&mut buf, MAGIC);
        put_u16(&mut buf, self.version);
        let entries = self.constant_pool.entries();
        put_u16(&mut buf, entries.len() as u16 + 1);
        write_pool(&mut buf, entries);
        put_u16(&mut buf, self.this_class);
        put_u16(&mut buf, self.class_flags);
        put_u16(&mut buf, self.super_class);
        write_indices(&mut buf, &self.interfaces);
        write_fields(&mut buf, &self.fields);
        write_methods(&mut buf, &self.methods);
        buf
    }

    /// The module as bytes.
    pub fn encode(&self) -> (r: Vec<u8>)
        requires
            (self@.constant_pool.len() as u16) < 0xffff,
        ensures
            r@ == encoded(self@),
    {
        let body = self.encode_body();
        let digest = sha256(body.as_slice());
        seal(body, self.hash_algo, &digest)
    }

    /// The module that bytes begin with, as one without a hash, and where its
    /// trailer is.
    pub fn decode_body(bytes: &[u8]) -> (res: Result<(Self, usize), BytecodeError>)
        ensures
            match res {
                Ok((m, at)) => decoded_body(bytes@) == Ok::<(ModuleView, int), BytecodeErrorView>(
                    (m@, at as int),
                ) && at <= bytes@.len(),
                Err(e) => decoded_body(bytes@) == Err::<(ModuleView, int), BytecodeErrorView>(e@),
            },
    {
        let mut r = Reader::new(bytes);
        let magic: u32 = r.read_u32()?;
        if magic != MAGIC {
            return Err(BytecodeError::BadMagic(magic));
        }
        let version: u16 = r.read_u16()?;
        let count: u16 = r.read_u16()?;
        let constant_pool = read_pool(&mut r, count.saturating_sub(1))?;
        let this_class: u16 = r.read_u16()?;
        let class_flags: u16 = r.read_u16()?;
        let super_class: u16 = r.read_u16()?;
        let interfaces = read_indices(&mut r)?;
        let fields = read_fields(&mut r)?;
        let methods = read_methods(&mut r)?;
        let m = Module {
            version,
            constant_pool,
            this_class,
            class_flags,
            super_class,
            interfaces,
            fields,
            methods,
            hash_algo: HashAlgo::NoHash,
        };
        Ok((m, r.offset()))
    }

    pub fn decode(bytes: &[u8]) -> (res: Result<Self, BytecodeError>)
        ensures
            match res {
                Ok(m) => decoded(bytes@) == Ok::<ModuleView, BytecodeErrorView>(m@),
                Err(e) => decoded(bytes@) == Err::<ModuleView, BytecodeErrorView>(e@),
            },
    {
        let (body, at) = Module::decode_body(bytes)?;
        let digest = sha256(slice_subrange(bytes, 0, at));
        assert(bytes@.subrange(0, at as int) =~= bytes@.take(at as int));
        let mut m = body;
        m.hash_algo = check_trailer(bytes, at, &digest)?;
        Ok(m)
    }
}

} // verus!
