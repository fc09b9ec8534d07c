//! What holds of the module format as a whole.

use crate::bytecode::constant_pool::{
    class_name_of, entry_at, first_at, interned, type_desc_of, with_class, with_type_desc,
    with_utf8, EntryView,
};
use crate::bytecode::error::BytecodeErrorView;
use crate::bytecode::module::{
    decoded, decoded_body, encoded, encoded_body, entry_format, exception_format, exception_parser,
    field_format, field_parser, get_all, get_entry, get_exception, get_field, get_line, get_list,
    get_method, get_pool, get_trailer, index_format, index_parser,
    line_format, line_parser, method_format, method_parser, pool_size, put_all, put_entry, put_list,
    sha256_of, ExceptionTableEntry, FieldDescriptor, HashAlgo, LineTableEntry, MethodView,
    ModuleView, MAGIC,
};
use crate::bytecode::reader::{
    be16, be32, get_bytes, get_u16, get_u32, get_u64, get_u8, read_back_u16, read_back_u32, read_back_u64, starts, starts_split,
};
use vstd::prelude::*;
use vstd::utf8::{encode_utf8, encode_utf8_decode_utf8, encode_utf8_valid_utf8};

verus! {

/// Wherever `x` was written by `put`, reading there by `get` gives it back.
pub open spec fn reads_back<T>(
    x: T,
    put: spec_fn(Seq<u8>, T) -> Seq<u8>,
    get: spec_fn(Seq<u8>, int) -> Result<(T, int), BytecodeErrorView>,
) -> bool {
    forall|b: Seq<u8>, s: Seq<u8>| #[trigger]
        starts(b, put(s, x)) ==> starts(b, s) && get(b, s.len() as int) == Ok::<
            (T, int),
            BytecodeErrorView,
        >((x, put(s, x).len() as int))
}

proof fn all_read_back<T>(
    b: Seq<u8>,
    s: Seq<u8>,
    xs: Seq<T>,
    put: spec_fn(Seq<u8>, T) -> Seq<u8>,
    get: spec_fn(Seq<u8>, int) -> Result<(T, int), BytecodeErrorView>,
)
    requires
        forall|i: int| 0 <= i < xs.len() ==> reads_back(#[trigger] xs[i], put, get),
        starts(b, put_all(s, xs, put)),
    ensures
        starts(b, s),
        get_all(b, s.len() as int, xs.len(), get) == Ok::<(Seq<T>, int), BytecodeErrorView>(
            (xs, put_all(s, xs, put).len() as int),
        ),
    decreases xs.len(),
{
    if xs.len() == 0 {
        assert(xs =~= Seq::empty());
    } else {
        let front = xs.drop_last();
        assert(reads_back(xs[xs.len() - 1], put, get));
        assert(starts(b, put(put_all(s, front, put), xs.last())));
        assert forall|i: int| 0 <= i < front.len() implies reads_back(
            #[trigger] front[i],
            put,
            get,
        ) by {
            assert(reads_back(xs[i], put, get));
        }
        all_read_back(b, s, front, put, get);
        assert(front.push(xs.last()) =~= xs);
    }
}

/// A list of at most 65535 values whose items read back reads back.
pub proof fn list_reads_back<T>(
    b: Seq<u8>,
    s: Seq<u8>,
    xs: Seq<T>,
    put: spec_fn(Seq<u8>, T) -> Seq<u8>,
    get: spec_fn(Seq<u8>, int) -> Result<(T, int), BytecodeErrorView>,
)
    requires
        xs.len() <= 0xffff,
        forall|i: int| 0 <= i < xs.len() ==> reads_back(#[trigger] xs[i], put, get),
        starts(b, put_list(s, xs, put)),
    ensures
        starts(b, s),
        get_list(b, s.len() as int, get) == Ok::<(Seq<T>, int), BytecodeErrorView>(
            (xs, put_list(s, xs, put).len() as int),
        ),
{
    all_read_back(b, s + be16(xs.len() as u16), xs, put, get);
    read_back_u16(b, s, xs.len() as u16);
}

proof fn index_reads_back(x: u16)
    ensures
        reads_back(x, index_format(), index_parser()),
{
    let put = index_format();
    assert forall|b: Seq<u8>, s: Seq<u8>| #[trigger] starts(b, put(s, x)) implies starts(b, s)
        && index_parser()(b, s.len() as int) == Ok::<(u16, int), BytecodeErrorView>(
        (x, put(s, x).len() as int),
    ) by {
        read_back_u16(b, s, x);
    }
}

proof fn field_reads_back(f: FieldDescriptor)
    ensures
        reads_back(f, field_format(), field_parser()),
{
    let put = field_format();
    assert forall|b: Seq<u8>, s: Seq<u8>| #[trigger] starts(b, put(s, f)) implies starts(b, s)
        && field_parser()(b, s.len() as int) == Ok::<(FieldDescriptor, int), BytecodeErrorView>(
        (f, put(s, f).len() as int),
    ) by {
        let s1 = s + be16(f.flags);
        let s2 = s1 + be16(f.name_index);
        read_back_u16(b, s2, f.type_index);
        read_back_u16(b, s1, f.name_index);
        read_back_u16(b, s, f.flags);
    }
}

proof fn exception_reads_back(x: ExceptionTableEntry)
    ensures
        reads_back(x, exception_format(), exception_parser()),
{
    let put = exception_format();
    assert forall|b: Seq<u8>, s: Seq<u8>| #[trigger] starts(b, put(s, x)) implies starts(b, s)
        && exception_parser()(b, s.len() as int) == Ok::<
        (ExceptionTableEntry, int),
        BytecodeErrorView,
    >((x, put(s, x).len() as int)) by {
        let s1 = s + be16(x.start_pc);
        let s2 = s1 + be16(x.end_pc);
        let s3 = s2 + be16(x.handler_pc);
        read_back_u16(b, s3, x.catch_type);
        read_back_u16(b, s2, x.handler_pc);
        read_back_u16(b, s1, x.end_pc);
        read_back_u16(b, s, x.start_pc);
    }
}

proof fn line_reads_back(x: LineTableEntry)
    ensures
        reads_back(x, line_format(), line_parser()),
{
    let put = line_format();
    assert forall|b: Seq<u8>, s: Seq<u8>| #[trigger] starts(b, put(s, x)) implies starts(b, s)
        && line_parser()(b, s.len() as int) == Ok::<(LineTableEntry, int), BytecodeErrorView>(
        (x, put(s, x).len() as int),
    ) by {
        let s1 = s + be16(x.start_pc);
        read_back_u32(b, s1, x.line);
        read_back_u16(b, s, x.start_pc);
    }
}

/// Whether a string's bytes can be counted in 16 bits.
pub open spec fn entry_fits(e: EntryView) -> bool {
    e matches EntryView::Utf8(t) ==> encode_utf8(t).len() <= 0xffff
}

/// A constant read where it was written is the constant written.
pub proof fn entry_reads_back(b: Seq<u8>, s: Seq<u8>, e: EntryView)
    requires
        entry_fits(e),
        starts(b, put_entry(s, e)),
    ensures
        starts(b, s),
        get_entry(b, s.len() as int) == Ok::<(EntryView, int), BytecodeErrorView>(
            (e, put_entry(s, e).len() as int),
        ),
{
    let s0 = s + seq![e.tag()];
    match e {
        EntryView::Int(v) => {
            read_back_u64(b, s0, v as u64);
            assert((v as u64) as i64 == v) by (bit_vector);
        },
        EntryView::Float(v) => {
            read_back_u64(b, s0, v);
        },
        EntryView::Utf8(t) => {
            let x = encode_utf8(t);
            starts_split(b, s0 + be16(x.len() as u16), x);
            read_back_u16(b, s0, x.len() as u16);
            encode_utf8_valid_utf8(t);
            encode_utf8_decode_utf8(t);
        },
        EntryView::Class { name_index } => {
            read_back_u16(b, s0, name_index);
        },
        EntryView::FieldRef { class_index, name_index, type_index } => {
            let s1 = s0 + be16(class_index);
            read_back_u16(b, s1 + be16(name_index), type_index);
            read_back_u16(b, s1, name_index);
            read_back_u16(b, s0, class_index);
        },
        EntryView::MethodRef { class_index, name_index, descriptor_index } => {
            let s1 = s0 + be16(class_index);
            read_back_u16(b, s1 + be16(name_index), descriptor_index);
            read_back_u16(b, s1, name_index);
            read_back_u16(b, s0, class_index);
        },
        EntryView::TypeDesc { desc_index } => {
            read_back_u16(b, s0, desc_index);
        },
    }
    starts_split(b, s, seq![e.tag()]);
    assert(b[s.len() + 0int] == seq![e.tag()][0]);
}

/// A name index of entry `i` names a string that comes before it.
pub open spec fn names_earlier(p: Seq<EntryView>, i: int, index: u16) -> bool {
    0 < index <= i && p[index - 1] is Utf8
}

/// A pool that can be stored: no constant twice, few enough of them, strings
/// short enough, and class and type names before what names them.
pub open spec fn pool_wf(p: Seq<EntryView>) -> bool {
    &&& p.len() < 0xffff
    &&& forall|i: int, j: int| 0 <= i < j < p.len() ==> p[i] != p[j]
    &&& forall|i: int| 0 <= i < p.len() ==> entry_fits(#[trigger] p[i])
    &&& forall|i: int|
        #![trigger p[i]]
        0 <= i < p.len() ==> (p[i] matches EntryView::Class { name_index } ==> names_earlier(
            p,
            i,
            name_index,
        ))
    &&& forall|i: int|
        #![trigger p[i]]
        0 <= i < p.len() ==> (p[i] matches EntryView::TypeDesc { desc_index } ==> names_earlier(
            p,
            i,
            desc_index,
        ))
}

proof fn first_at_is(p: Seq<EntryView>, e: EntryView, i: int, k: int)
    requires
        0 <= i <= k <= p.len(),
        forall|j: int| i <= j < k ==> p[j] != e,
        k < p.len() ==> p[k] == e,
    ensures
        first_at(p, e, i) == k,
    decreases k - i,
{
    if i < k {
        first_at_is(p, e, i + 1, k);
    }
}

proof fn first_at_bounds(p: Seq<EntryView>, e: EntryView, i: int)
    requires
        0 <= i <= p.len(),
    ensures
        i <= first_at(p, e, i) <= p.len(),
        first_at(p, e, i) < p.len() ==> p[first_at(p, e, i)] == e,
        forall|j: int| i <= j < first_at(p, e, i) ==> p[j] != e,
    decreases p.len() - i,
{
    if i < p.len() && p[i] != e {
        first_at_bounds(p, e, i + 1);
    }
}

proof fn pool_reads_back(b: Seq<u8>, s: Seq<u8>, p: Seq<EntryView>)
    requires
        pool_wf(p),
        starts(b, put_all(s, p, entry_format())),
    ensures
        starts(b, s),
        get_pool(b, s.len() as int, p.len()) == Ok::<(Seq<EntryView>, int), BytecodeErrorView>(
            (p, put_all(s, p, entry_format()).len() as int),
        ),
    decreases p.len(),
{
    if p.len() == 0 {
        assert(p =~= Seq::empty());
    } else {
        let front = p.drop_last();
        let e = p.last();
        let n = front.len() as int;
        entry_reads_back(b, put_all(s, front, entry_format()), e);
        assert forall|i: int, j: int| 0 <= i < j < front.len() implies front[i] != front[j] by {
            assert(p[i] != p[j]);
        }
        assert forall|i: int| 0 <= i < front.len() implies entry_fits(#[trigger] front[i]) by {
            assert(entry_fits(p[i]));
        }
        assert forall|i: int| #![trigger front[i]] 0 <= i < front.len() implies (
        front[i] matches EntryView::Class { name_index } ==> names_earlier(front, i, name_index))
            && (front[i] matches EntryView::TypeDesc { desc_index } ==> names_earlier(
            front,
            i,
            desc_index,
        )) by {
            assert(p[i] == front[i]);
        }
        assert(pool_wf(front));
        pool_reads_back(b, s, front);
        assert forall|j: int| 0 <= j < n implies front[j] != e by {
            assert(p[j] != p[n]);
        }
        first_at_is(front, e, 0, n);
        assert(front.push(e) =~= p);
        match e {
            EntryView::Class { name_index } => {
                assert(names_earlier(p, n, name_index));
                let k = name_index - 1;
                assert(front[k] == p[k]);
                first_at_is(front, p[k], 0, k);
            },
            EntryView::TypeDesc { desc_index } => {
                assert(names_earlier(p, n, desc_index));
                let k = desc_index - 1;
                assert(front[k] == p[k]);
                first_at_is(front, p[k], 0, k);
            },
            _ => {},
        }
    }
}

/// The lists of a method can be counted in their fields.
pub open spec fn method_wf(m: MethodView) -> bool {
    &&& m.throws_types.len() <= 0xffff
    &&& m.code.len() <= 0xffff_ffff
    &&& m.exception_table.len() <= 0xffff
    &&& m.line_table.len() <= 0xffff
}

proof fn method_reads_back(m: MethodView)
    requires
        method_wf(m),
    ensures
        reads_back(m, method_format(), method_parser()),
{
    let put = method_format();
    assert forall|b: Seq<u8>, s: Seq<u8>| #[trigger] starts(b, put(s, m)) implies starts(b, s)
        && method_parser()(b, s.len() as int) == Ok::<(MethodView, int), BytecodeErrorView>(
        (m, put(s, m).len() as int),
    ) by {
        let s1 = s + be16(m.flags);
        let s2 = s1 + be16(m.name_index);
        let s3 = s2 + be16(m.descriptor_index);
        let s4 = put_list(s3, m.throws_types, index_format());
        let s5 = s4 + be16(m.max_locals);
        let s6 = s5 + be16(m.max_stack);
        let s7 = s6 + be32(m.code.len() as u32);
        let s8 = s7 + m.code;
        let s9 = put_list(s8, m.exception_table, exception_format());
        assert forall|i: int| 0 <= i < m.line_table.len() implies reads_back(
            #[trigger] m.line_table[i],
            line_format(),
            line_parser(),
        ) by {
            line_reads_back(m.line_table[i]);
        }
        list_reads_back(b, s9, m.line_table, line_format(), line_parser());
        assert forall|i: int| 0 <= i < m.exception_table.len() implies reads_back(
            #[trigger] m.exception_table[i],
            exception_format(),
            exception_parser(),
        ) by {
            exception_reads_back(m.exception_table[i]);
        }
        list_reads_back(b, s8, m.exception_table, exception_format(), exception_parser());
        starts_split(b, s7, m.code);
        read_back_u32(b, s6, m.code.len() as u32);
        read_back_u16(b, s5, m.max_stack);
        read_back_u16(b, s4, m.max_locals);
        assert forall|i: int| 0 <= i < m.throws_types.len() implies reads_back(
            #[trigger] m.throws_types[i],
            index_format(),
            index_parser(),
        ) by {
            index_reads_back(m.throws_types[i]);
        }
        list_reads_back(b, s3, m.throws_types, index_format(), index_parser());
        read_back_u16(b, s2, m.descriptor_index);
        read_back_u16(b, s1, m.name_index);
        read_back_u16(b, s, m.flags);
    }
}

/// A module that the format can hold.
pub open spec fn module_wf(m: ModuleView) -> bool {
    &&& pool_wf(m.constant_pool)
    &&& m.interfaces.len() <= 0xffff
    &&& m.fields.len() <= 0xffff
    &&& m.methods.len() <= 0xffff
    &&& forall|i: int| 0 <= i < m.methods.len() ==> method_wf(#[trigger] m.methods[i])
}

proof fn lists_read_back(b: Seq<u8>, s: Seq<u8>, m: ModuleView)
    requires
        module_wf(m),
        starts(
            b,
            put_list(
                put_list(put_list(s, m.interfaces, index_format()), m.fields, field_format()),
                m.methods,
                method_format(),
            ),
        ),
    ensures
        starts(b, s),
        ({
            let s1 = put_list(s, m.interfaces, index_format());
            let s2 = put_list(s1, m.fields, field_format());
            let s3 = put_list(s2, m.methods, method_format());
            &&& get_list(b, s.len() as int, index_parser()) == Ok::<
                (Seq<u16>, int),
                BytecodeErrorView,
            >((m.interfaces, s1.len() as int))
            &&& get_list(b, s1.len() as int, field_parser()) == Ok::<
                (Seq<FieldDescriptor>, int),
                BytecodeErrorView,
            >((m.fields, s2.len() as int))
            &&& get_list(b, s2.len() as int, method_parser()) == Ok::<
                (Seq<MethodView>, int),
                BytecodeErrorView,
            >((m.methods, s3.len() as int))
        }),
{
    let s1 = put_list(s, m.interfaces, index_format());
    let s2 = put_list(s1, m.fields, field_format());
    assert forall|i: int| 0 <= i < m.methods.len() implies reads_back(
        #[trigger] m.methods[i],
        method_format(),
        method_parser(),
    ) by {
        method_reads_back(m.methods[i]);
    }
    list_reads_back(b, s2, m.methods, method_format(), method_parser());
    assert forall|i: int| 0 <= i < m.fields.len() implies reads_back(
        #[trigger] m.fields[i],
        field_format(),
        field_parser(),
    ) by {
        field_reads_back(m.fields[i]);
    }
    list_reads_back(b, s1, m.fields, field_format(), field_parser());
    assert forall|i: int| 0 <= i < m.interfaces.len() implies reads_back(
        #[trigger] m.interfaces[i],
        index_format(),
        index_parser(),
    ) by {
        index_reads_back(m.interfaces[i]);
    }
    list_reads_back(b, s, m.interfaces, index_format(), index_parser());
}

/// What begins with the encoding of a module, up to the trailer, decodes to
/// it whatever follows.
pub proof fn body_reads_back(b: Seq<u8>, m: ModuleView)
    requires
        module_wf(m),
        starts(b, encoded_body(m)),
    ensures
        decoded_body(b) == Ok::<(ModuleView, int), BytecodeErrorView>(
            ((ModuleView { hash_algo: HashAlgo::NoHash, ..m }), encoded_body(m).len() as int),
        ),
{
    let count = ((m.constant_pool.len() as u16) + 1) as u16;
    let s0 = Seq::<u8>::empty();
    let s1 = s0 + be32(MAGIC);
    let s2 = s1 + be16(m.version);
    let s3 = s2 + be16(count);
    let s4 = put_all(s3, m.constant_pool, entry_format());
    let s5 = s4 + be16(m.this_class);
    let s6 = s5 + be16(m.class_flags);
    let s7 = s6 + be16(m.super_class);
    lists_read_back(b, s7, m);
    read_back_u16(b, s6, m.super_class);
    read_back_u16(b, s5, m.class_flags);
    read_back_u16(b, s4, m.this_class);
    pool_reads_back(b, s3, m.constant_pool);
    read_back_u16(b, s2, count);
    read_back_u16(b, s1, m.version);
    read_back_u32(b, s0, MAGIC);
    assert(s0.len() == 0);
    assert(pool_size(count) == m.constant_pool.len());
}

/// Decoding what was encoded gives the module back.
pub proof fn decode_encode(m: ModuleView)
    requires
        module_wf(m),
    ensures
        decoded(encoded(m)) == Ok::<ModuleView, BytecodeErrorView>(m),
{
    let b = encoded(m);
    let s = encoded_body(m);
    assert(b.take(b.len() as int) =~= b);
    match m.hash_algo {
        HashAlgo::NoHash => {
            starts_split(b, s, seq![0u8]);
            assert(b[s.len() + 0int] == seq![0u8][0]);
        },
        HashAlgo::Sha256 => {
            starts_split(b, s + seq![1u8], sha256_of(s)@);
            starts_split(b, s, seq![1u8]);
            assert(b[s.len() + 0int] == seq![1u8][0]);
        },
    }
    body_reads_back(b, m);
}

/// How what is read from `p` on in bytes that were cut off after the first `n`
/// compares with `all`, what is read there in all of them: it is the same, as
/// long as the cut is not reached, and otherwise the bytes end too early.
pub open spec fn same_until<T>(
    all: Result<(T, int), BytecodeErrorView>,
    cut: Result<(T, int), BytecodeErrorView>,
    p: int,
    n: int,
) -> bool {
    all matches Ok((x, q)) ==> p <= q && (p <= n ==> cut == (if q <= n {
        Ok::<(T, int), BytecodeErrorView>((x, q))
    } else {
        Err(BytecodeErrorView::UnexpectedEof)
    }))
}

/// Whether reading by `get` notices where the bytes are cut off.
pub open spec fn minds_the_end<T>(
    get: spec_fn(Seq<u8>, int) -> Result<(T, int), BytecodeErrorView>,
) -> bool {
    forall|b: Seq<u8>, p: int, n: int|
        #![trigger get(b.take(n), p)]
        0 <= p && 0 <= n <= b.len() ==> same_until(get(b, p), get(b.take(n), p), p, n)
}

proof fn numbers_mind_the_end(b: Seq<u8>, p: int, n: int)
    requires
        0 <= p,
        0 <= n <= b.len(),
    ensures
        same_until(get_u8(b, p), get_u8(b.take(n), p), p, n),
        same_until(get_u16(b, p), get_u16(b.take(n), p), p, n),
        same_until(get_u32(b, p), get_u32(b.take(n), p), p, n),
        same_until(get_u64(b, p), get_u64(b.take(n), p), p, n),
{
}

proof fn bytes_mind_the_end(b: Seq<u8>, p: int, k: int, n: int)
    requires
        0 <= p,
        0 <= k,
        0 <= n <= b.len(),
    ensures
        same_until(get_bytes(b, p, k), get_bytes(b.take(n), p, k), p, n),
{
    if p + k <= n {
        assert(b.take(n).subrange(p, p + k) =~= b.subrange(p, p + k));
    }
}

proof fn all_mind_the_end<T>(
    b: Seq<u8>,
    p: int,
    n: int,
    count: nat,
    get: spec_fn(Seq<u8>, int) -> Result<(T, int), BytecodeErrorView>,
)
    requires
        minds_the_end(get),
        0 <= p,
        0 <= n <= b.len(),
    ensures
        same_until(get_all(b, p, count, get), get_all(b.take(n), p, count, get), p, n),
    decreases count,
{
    if count > 0 {
        all_mind_the_end(b, p, n, (count - 1) as nat, get);
        if let Ok((_, q)) = get_all(b, p, (count - 1) as nat, get) {
            assert(same_until(get(b, q), get(b.take(n), q), q, n));
        }
    }
}

proof fn list_minds_the_end<T>(
    b: Seq<u8>,
    p: int,
    n: int,
    get: spec_fn(Seq<u8>, int) -> Result<(T, int), BytecodeErrorView>,
)
    requires
        minds_the_end(get),
        0 <= p,
        0 <= n <= b.len(),
    ensures
        same_until(get_list(b, p, get), get_list(b.take(n), p, get), p, n),
{
    numbers_mind_the_end(b, p, n);
    if let Ok((count, q)) = get_u16(b, p) {
        all_mind_the_end(b, q, n, count as nat, get);
    }
}

proof fn field_minds_the_end(b: Seq<u8>, p: int, n: int)
    requires
        0 <= p,
        0 <= n <= b.len(),
    ensures
        same_until(get_field(b, p), get_field(b.take(n), p), p, n),
{
    numbers_mind_the_end(b, p, n);
    if let Ok((_, p1)) = get_u16(b, p) {
        numbers_mind_the_end(b, p1, n);
        if let Ok((_, p2)) = get_u16(b, p1) {
            numbers_mind_the_end(b, p2, n);
        }
    }
}

proof fn exception_minds_the_end(b: Seq<u8>, p: int, n: int)
    requires
        0 <= p,
        0 <= n <= b.len(),
    ensures
        same_until(get_exception(b, p), get_exception(b.take(n), p), p, n),
{
    numbers_mind_the_end(b, p, n);
    if let Ok((_, p1)) = get_u16(b, p) {
        numbers_mind_the_end(b, p1, n);
        if let Ok((_, p2)) = get_u16(b, p1) {
            numbers_mind_the_end(b, p2, n);
            if let Ok((_, p3)) = get_u16(b, p2) {
                numbers_mind_the_end(b, p3, n);
            }
        }
    }
}

proof fn line_minds_the_end(b: Seq<u8>, p: int, n: int)
    requires
        0 <= p,
        0 <= n <= b.len(),
    ensures
        same_until(get_line(b, p), get_line(b.take(n), p), p, n),
{
    numbers_mind_the_end(b, p, n);
    if let Ok((_, p1)) = get_u16(b, p) {
        numbers_mind_the_end(b, p1, n);
    }
}

proof fn indices_mind_the_end()
    ensures
        minds_the_end(index_parser()),
{
    let get = index_parser();
    assert forall|b: Seq<u8>, p: int, n: int|
        #![trigger get(b.take(n), p)]
        0 <= p && 0 <= n <= b.len() implies same_until(get(b, p), get(b.take(n), p), p, n) by {
        numbers_mind_the_end(b, p, n);
    }
}

proof fn fields_mind_the_end()
    ensures
        minds_the_end(field_parser()),
{
    let get = field_parser();
    assert forall|b: Seq<u8>, p: int, n: int|
        #![trigger get(b.take(n), p)]
        0 <= p && 0 <= n <= b.len() implies same_until(get(b, p), get(b.take(n), p), p, n) by {
        field_minds_the_end(b, p, n);
    }
}

proof fn exceptions_mind_the_end()
    ensures
        minds_the_end(exception_parser()),
{
    let get = exception_parser();
    assert forall|b: Seq<u8>, p: int, n: int|
        #![trigger get(b.take(n), p)]
        0 <= p && 0 <= n <= b.len() implies same_until(get(b, p), get(b.take(n), p), p, n) by {
        exception_minds_the_end(b, p, n);
    }
}

proof fn lines_mind_the_end()
    ensures
        minds_the_end(line_parser()),
{
    let get = line_parser();
    assert forall|b: Seq<u8>, p: int, n: int|
        #![trigger get(b.take(n), p)]
        0 <= p && 0 <= n <= b.len() implies same_until(get(b, p), get(b.take(n), p), p, n) by {
        line_minds_the_end(b, p, n);
    }
}

proof fn method_minds_the_end(b: Seq<u8>, p: int, n: int)
    requires
        0 <= p,
        0 <= n <= b.len(),
    ensures
        same_until(get_method(b, p), get_method(b.take(n), p), p, n),
{
    indices_mind_the_end();
    exceptions_mind_the_end();
    lines_mind_the_end();
    numbers_mind_the_end(b, p, n);
    if let Ok((_, p1)) = get_u16(b, p) {
        numbers_mind_the_end(b, p1, n);
        if let Ok((_, p2)) = get_u16(b, p1) {
            numbers_mind_the_end(b, p2, n);
            if let Ok((_, p3)) = get_u16(b, p2) {
                list_minds_the_end(b, p3, n, index_parser());
                if let Ok((_, p4)) = get_list(b, p3, index_parser()) {
                    numbers_mind_the_end(b, p4, n);
                    if let Ok((_, p5)) = get_u16(b, p4) {
                        numbers_mind_the_end(b, p5, n);
                        if let Ok((_, p6)) = get_u16(b, p5) {
                            numbers_mind_the_end(b, p6, n);
                            if let Ok((length, p7)) = get_u32(b, p6) {
                                bytes_mind_the_end(b, p7, length as int, n);
                                if let Ok((_, p8)) = get_bytes(b, p7, length as int) {
                                    list_minds_the_end(b, p8, n, exception_parser());
                                    if let Ok((_, p9)) = get_list(b, p8, exception_parser()) {
                                        list_minds_the_end(b, p9, n, line_parser());
                                    }
                                }
                            }
                        }
                    }
                }
            }
        }
    }
}

proof fn methods_mind_the_end()
    ensures
        minds_the_end(method_parser()),
{
    let get = method_parser();
    assert forall|b: Seq<u8>, p: int, n: int|
        #![trigger get(b.take(n), p)]
        0 <= p && 0 <= n <= b.len() implies same_until(get(b, p), get(b.take(n), p), p, n) by {
        method_minds_the_end(b, p, n);
    }
}

proof fn entry_minds_the_end(b: Seq<u8>, p: int, n: int)
    requires
        0 <= p,
        0 <= n <= b.len(),
    ensures
        same_until(get_entry(b, p), get_entry(b.take(n), p), p, n),
{
    numbers_mind_the_end(b, p, n);
    if let Ok((_, p1)) = get_u8(b, p) {
        numbers_mind_the_end(b, p1, n);
        if let Ok((length, p2)) = get_u16(b, p1) {
            bytes_mind_the_end(b, p2, length as int, n);
            numbers_mind_the_end(b, p2, n);
            if let Ok((_, p3)) = get_u16(b, p2) {
                numbers_mind_the_end(b, p3, n);
            }
        }
    }
}

proof fn pool_minds_the_end(b: Seq<u8>, p: int, n: int, count: nat)
    requires
        0 <= p,
        0 <= n <= b.len(),
    ensures
        same_until(get_pool(b, p, count), get_pool(b.take(n), p, count), p, n),
    decreases count,
{
    if count > 0 {
        pool_minds_the_end(b, p, n, (count - 1) as nat);
        if let Ok((_, q)) = get_pool(b, p, (count - 1) as nat) {
            entry_minds_the_end(b, q, n);
        }
    }
}

proof fn body_minds_the_end(b: Seq<u8>, n: int)
    requires
        0 <= n <= b.len(),
    ensures
        same_until(decoded_body(b), decoded_body(b.take(n)), 0, n),
{
    indices_mind_the_end();
    fields_mind_the_end();
    methods_mind_the_end();
    numbers_mind_the_end(b, 0, n);
    if let Ok((_, p1)) = get_u32(b, 0) {
        numbers_mind_the_end(b, p1, n);
        if let Ok((_, p2)) = get_u16(b, p1) {
            numbers_mind_the_end(b, p2, n);
            if let Ok((count, p3)) = get_u16(b, p2) {
                pool_minds_the_end(b, p3, n, pool_size(count));
                if let Ok((_, p4)) = get_pool(b, p3, pool_size(count)) {
                    numbers_mind_the_end(b, p4, n);
                    if let Ok((_, p5)) = get_u16(b, p4) {
                        numbers_mind_the_end(b, p5, n);
                        if let Ok((_, p6)) = get_u16(b, p5) {
                            numbers_mind_the_end(b, p6, n);
                            if let Ok((_, p7)) = get_u16(b, p6) {
                                list_minds_the_end(b, p7, n, index_parser());
                                if let Ok((_, p8)) = get_list(b, p7, index_parser()) {
                                    list_minds_the_end(b, p8, n, field_parser());
                                    if let Ok((_, p9)) = get_list(b, p8, field_parser()) {
                                        list_minds_the_end(b, p9, n, method_parser());
                                    }
                                }
                            }
                        }
                    }
                }
            }
        }
    }
}

proof fn trailer_minds_the_end(b: Seq<u8>, p: int, n: int)
    requires
        0 <= p <= n < b.len(),
        b[p] == 0 && b.len() == p + 1 || b[p] == 1 && b.len() == p + 33,
    ensures
        get_trailer(b.take(n), p) == Err::<HashAlgo, BytecodeErrorView>(
            BytecodeErrorView::UnexpectedEof,
        ),
{
}

/// No proper prefix of a module's encoding is taken for a module: the bytes
/// end too early.
#[verifier::rlimit(40)]
pub proof fn truncated_module_is_refused(m: ModuleView, n: int)
    requires
        module_wf(m),
        0 <= n < encoded(m).len(),
    ensures
        decoded(encoded(m).take(n)) == Err::<ModuleView, BytecodeErrorView>(
            BytecodeErrorView::UnexpectedEof,
        ),
{
    let b = encoded(m);
    let s = encoded_body(m);
    assert(starts(b, s)) by {
        assert(b.take(s.len() as int) =~= s);
    }
    body_reads_back(b, m);
    body_minds_the_end(b, n);
    if s.len() <= n {
        trailer_minds_the_end(b, s.len() as int, n);
    }
}

/// A constant is written as its tag, one of seven, and then its payload.
pub proof fn entry_begins_with_its_tag(s: Seq<u8>, e: EntryView)
    ensures
        1 <= e.tag() <= 7,
        put_entry(s, e).len() > s.len(),
        put_entry(s, e)[s.len() as int] == e.tag(),
        put_entry(s, e).take(s.len() as int) == s,
{
    assert(put_entry(s, e).take(s.len() as int) =~= s);
}

/// Two modules with the same encoding are the same module.
pub proof fn encode_injective(m: ModuleView, n: ModuleView)
    requires
        module_wf(m),
        module_wf(n),
        encoded(m) == encoded(n),
    ensures
        m == n,
{
    decode_encode(m);
    decode_encode(n);
}

/// Where the bytes of a module say that they are hashed, they are accepted
/// only if the stored digest is that of everything before the trailer, and
/// refused with `HashMismatch` if it is another one.
pub proof fn digest_decides(b: Seq<u8>)
    requires
        decoded_body(b) matches Ok((m, p)) && p + 33 <= b.len() && b[p] == 1,
    ensures
        decoded_body(b) matches Ok((m, p)) ==> if b.subrange(p + 1, p + 33) == sha256_of(
            b.take(p),
        )@ {
            decoded(b) == Ok::<ModuleView, BytecodeErrorView>(
                (ModuleView { hash_algo: HashAlgo::Sha256, ..m }),
            )
        } else {
            decoded(b) == Err::<ModuleView, BytecodeErrorView>(BytecodeErrorView::HashMismatch)
        },
{
}

/// An interned constant is found at the index that was handed out.
pub proof fn interned_is_found(p: Seq<EntryView>, e: EntryView)
    requires
        p.len() < 0xffff,
    ensures
        ({
            let (q, index) = interned(p, e);
            entry_at(q, index) == Some(e)
        }),
{
    first_at_bounds(p, e, 0);
}

/// Interning keeps every index that was handed out before.
pub proof fn interned_keeps(p: Seq<EntryView>, e: EntryView, index: u16)
    requires
        entry_at(p, index) is Some,
    ensures
        entry_at(interned(p, e).0, index) == entry_at(p, index),
{
}

/// Interning a constant again changes nothing and gives the same index.
pub proof fn interned_twice(p: Seq<EntryView>, e: EntryView)
    requires
        p.len() < 0xffff,
    ensures
        interned(interned(p, e).0, e) == interned(p, e),
{
    first_at_bounds(p, e, 0);
    if first_at(p, e, 0) == p.len() {
        first_at_is(p.push(e), e, 0, p.len() as int);
    }
}

/// Two constants share an index only if they are the same.
pub proof fn interned_injective(p: Seq<EntryView>, d: EntryView, e: EntryView)
    requires
        p.len() < 0xfffe,
        interned(interned(p, d).0, e).1 == interned(p, d).1,
    ensures
        d == e,
{
    let (q, i) = interned(p, d);
    interned_is_found(p, d);
    interned_keeps(q, e, i);
    interned_is_found(q, e);
}

/// Whether `e` may be put into `p`: its strings fit and its name is there.
pub open spec fn entry_ok(p: Seq<EntryView>, e: EntryView) -> bool {
    &&& entry_fits(e)
    &&& e matches EntryView::Class { name_index } ==> names_earlier(p, p.len() as int, name_index)
    &&& e matches EntryView::TypeDesc { desc_index } ==> names_earlier(
        p,
        p.len() as int,
        desc_index,
    )
}

/// Interning keeps a pool storable.
pub proof fn interned_wf(p: Seq<EntryView>, e: EntryView)
    requires
        pool_wf(p),
        p.len() < 0xfffe,
        entry_ok(p, e),
    ensures
        pool_wf(interned(p, e).0),
{
    first_at_bounds(p, e, 0);
    let q = interned(p, e).0;
    if first_at(p, e, 0) == p.len() {
        assert forall|i: int| #![trigger q[i]] 0 <= i < q.len() implies (
        q[i] matches EntryView::Class { name_index } ==> names_earlier(q, i, name_index)) && (
        q[i] matches EntryView::TypeDesc { desc_index } ==> names_earlier(q, i, desc_index)) by {
            if i < p.len() {
                assert(q[i] == p[i]);
            }
        }
    }
}

/// A class added under a name is known by that name, and the pool stays
/// storable.
pub proof fn class_is_named(p: Seq<EntryView>, name: Seq<char>)
    requires
        pool_wf(p),
        p.len() < 0xfffd,
        encode_utf8(name).len() <= 0xffff,
    ensures
        ({
            let (q, index) = with_class(p, name);
            pool_wf(q) && class_name_of(q, index) == Some(name)
        }),
{
    let (p1, name_index) = with_utf8(p, name);
    interned_is_found(p, EntryView::Utf8(name));
    interned_wf(p, EntryView::Utf8(name));
    interned_is_found(p1, EntryView::Class { name_index });
    interned_wf(p1, EntryView::Class { name_index });
    interned_keeps(p1, EntryView::Class { name_index }, name_index);
}

/// A type descriptor added is read back, and the pool stays storable.
pub proof fn type_desc_is_read(p: Seq<EntryView>, desc: Seq<char>)
    requires
        pool_wf(p),
        p.len() < 0xfffd,
        encode_utf8(desc).len() <= 0xffff,
    ensures
        ({
            let (q, index) = with_type_desc(p, desc);
            pool_wf(q) && type_desc_of(q, index) == Some(desc)
        }),
{
    let (p1, desc_index) = with_utf8(p, desc);
    interned_is_found(p, EntryView::Utf8(desc));
    interned_wf(p, EntryView::Utf8(desc));
    interned_is_found(p1, EntryView::TypeDesc { desc_index });
    interned_wf(p1, EntryView::TypeDesc { desc_index });
    interned_keeps(p1, EntryView::TypeDesc { desc_index }, desc_index);
}

} // verus!
