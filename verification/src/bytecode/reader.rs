//! Big-endian reading and writing of byte sequences.

use crate::bytecode::error::{BytecodeError, BytecodeErrorView};
use vstd::prelude::*;
use vstd::slice::slice_subrange;

verus! {

pub open spec fn be16(x: u16) -> Seq<u8> {
    seq![(x / 256) as u8, (x % 256) as u8]
}

pub open spec fn be32(x: u32) -> Seq<u8> {
    be16((x / 0x1_0000) as u16) + be16((x % 0x1_0000) as u16)
}

pub open spec fn be64(x: u64) -> Seq<u8> {
    be32((x / 0x1_0000_0000) as u32) + be32((x % 0x1_0000_0000) as u32)
}

/// The value read at `p` and the position after it; an error if the bytes end
/// before that.
pub open spec fn get_u8(b: Seq<u8>, p: int) -> Result<(u8, int), BytecodeErrorView> {
    if p + 1 > b.len() {
        Err(BytecodeErrorView::UnexpectedEof)
    } else {
        Ok((b[p], p + 1))
    }
}

pub open spec fn get_u16(b: Seq<u8>, p: int) -> Result<(u16, int), BytecodeErrorView> {
    if p + 2 > b.len() {
        Err(BytecodeErrorView::UnexpectedEof)
    } else {
        Ok(((b[p] * 256 + b[p + 1]) as u16, p + 2))
    }
}

pub open spec fn get_u32(b: Seq<u8>, p: int) -> Result<(u32, int), BytecodeErrorView> {
    if p + 4 > b.len() {
        Err(BytecodeErrorView::UnexpectedEof)
    } else {
        Ok(
            (
                (b[p] * 0x100_0000 + b[p + 1] * 0x1_0000 + b[p + 2] * 256 + b[p + 3]) as u32,
                p + 4,
            ),
        )
    }
}

/// The value of the eight bytes at `p`.
pub open spec fn word_at(b: Seq<u8>, p: int) -> int {
    (b[p] * 0x100_0000 + b[p + 1] * 0x1_0000 + b[p + 2] * 256 + b[p + 3]) * 0x1_0000_0000 + (b[p
        + 4] * 0x100_0000 + b[p + 5] * 0x1_0000 + b[p + 6] * 256 + b[p + 7])
}

pub open spec fn get_u64(b: Seq<u8>, p: int) -> Result<(u64, int), BytecodeErrorView> {
    if p + 8 > b.len() {
        Err(BytecodeErrorView::UnexpectedEof)
    } else {
        Ok((word_at(b, p) as u64, p + 8))
    }
}

pub open spec fn get_bytes(b: Seq<u8>, p: int, n: int) -> Result<
    (Seq<u8>, int),
    BytecodeErrorView,
> {
    if p + n > b.len() {
        Err(BytecodeErrorView::UnexpectedEof)
    } else {
        Ok((b.subrange(p, p + n), p + n))
    }
}

/// A cursor over the bytes of a module.
pub struct Reader<'a> {
    bytes: &'a [u8],
    pos: usize,
}

impl<'a> Reader<'a> {
    pub closed spec fn data(&self) -> Seq<u8> {
        self.bytes@
    }

    pub closed spec fn at(&self) -> int {
        self.pos as int
    }

    /// The cursor stands within the bytes or at their end.
    pub open spec fn wf(&self) -> bool {
        0 <= self.at() <= self.data().len()
    }

    pub fn new(bytes: &'a [u8]) -> (r: Self)
        ensures
            r.wf(),
            r.data() == bytes@,
            r.at() == 0,
    {
        Reader { bytes, pos: 0 }
    }

    pub fn offset(&self) -> (r: usize)
        ensures
            r == self.at(),
    {
        self.pos
    }

    /// The next `len` bytes. Where fewer are left, the cursor stays where it
    /// is.
    pub fn read_bytes(&mut self, len: usize) -> (r: Result<&'a [u8], BytecodeError>)
        requires
            old(self).wf(),
        ensures
            final(self).wf(),
            final(self).data() == old(self).data(),
            match r {
                Ok(s) => get_bytes(old(self).data(), old(self).at(), len as int) == Ok::<
                    (Seq<u8>, int),
                    BytecodeErrorView,
                >((s@, final(self).at())),
                Err(e) => get_bytes(old(self).data(), old(self).at(), len as int) == Err::<
                    (Seq<u8>, int),
                    BytecodeErrorView,
                >(e@) && final(self).at() == old(self).at(),
            },
    {
        if len > self.bytes.len() - self.pos {
            return Err(BytecodeError::UnexpectedEof);
        }
        let s = slice_subrange(self.bytes, self.pos, self.pos + len);
        self.pos = self.pos + len;
        Ok(s)
    }

    pub fn read_u8(&mut self) -> (r: Result<u8, BytecodeError>)
        requires
            old(self).wf(),
        ensures
            final(self).wf(),
            final(self).data() == old(self).data(),
            match r {
                Ok(v) => get_u8(old(self).data(), old(self).at()) == Ok::<
                    (u8, int),
                    BytecodeErrorView,
                >((v, final(self).at())),
                Err(e) => get_u8(old(self).data(), old(self).at()) == Err::<
                    (u8, int),
                    BytecodeErrorView,
                >(e@) && final(self).at() == old(self).at(),
            },
    {
        let b = self.read_bytes(1)?;
        Ok(b[0])
    }

    pub fn read_u16(&mut self) -> (r: Result<u16, BytecodeError>)
        requires
            old(self).wf(),
        ensures
            final(self).wf(),
            final(self).data() == old(self).data(),
            match r {
                Ok(v) => get_u16(old(self).data(), old(self).at()) == Ok::<
                    (u16, int),
                    BytecodeErrorView,
                >((v, final(self).at())),
                Err(e) => get_u16(old(self).data(), old(self).at()) == Err::<
                    (u16, int),
                    BytecodeErrorView,
                >(e@) && final(self).at() == old(self).at(),
            },
    {
        let b = self.read_bytes(2)?;
        Ok(b[0] as u16 * 256 + b[1] as u16)
    }

    pub fn read_u32(&mut self) -> (r: Result<u32, BytecodeError>)
        requires
            old(self).wf(),
        ensures
            final(self).wf(),
            final(self).data() == old(self).data(),
            match r {
                Ok(v) => get_u32(old(self).data(), old(self).at()) == Ok::<
                    (u32, int),
                    BytecodeErrorView,
                >((v, final(self).at())),
                Err(e) => get_u32(old(self).data(), old(self).at()) == Err::<
                    (u32, int),
                    BytecodeErrorView,
                >(e@) && final(self).at() == old(self).at(),
            },
    {
        let b = self.read_bytes(4)?;
        Ok(b[0] as u32 * 0x100_0000 + b[1] as u32 * 0x1_0000 + b[2] as u32 * 256 + b[3] as u32)
    }

    pub fn read_u64(&mut self) -> (r: Result<u64, BytecodeError>)
        requires
            old(self).wf(),
        ensures
            final(self).wf(),
            final(self).data() == old(self).data(),
            match r {
                Ok(v) => get_u64(old(self).data(), old(self).at()) == Ok::<
                    (u64, int),
                    BytecodeErrorView,
                >((v, final(self).at())),
                Err(e) => get_u64(old(self).data(), old(self).at()) == Err::<
                    (u64, int),
                    BytecodeErrorView,
                >(e@) && final(self).at() == old(self).at(),
            },
    {
        let b = self.read_bytes(8)?;
        let hi: u64 = b[0] as u64 * 0x100_0000 + b[1] as u64 * 0x1_0000 + b[2] as u64 * 256
            + b[3] as u64;
        let lo: u64 = b[4] as u64 * 0x100_0000 + b[5] as u64 * 0x1_0000 + b[6] as u64 * 256
            + b[7] as u64;
        Ok(hi * 0x1_0000_0000 + lo)
    }

    pub fn read_i64(&mut self) -> (r: Result<i64, BytecodeError>)
        requires
            old(self).wf(),
        ensures
            final(self).wf(),
            final(self).data() == old(self).data(),
            match r {
                Ok(v) => get_u64(old(self).data(), old(self).at()) matches Ok((w, q)) && v
                    == w as i64 && q == final(self).at(),
                Err(e) => get_u64(old(self).data(), old(self).at()) == Err::<
                    (u64, int),
                    BytecodeErrorView,
                >(e@) && final(self).at() == old(self).at(),
            },
    {
        let w: u64 = self.read_u64()?;
        Ok(#[verifier::truncate] (w as i64))
    }
}

pub fn put_u16(buf: &mut Vec<u8>, x: u16)
    ensures
        final(buf)@ == old(buf)@ + be16(x),
{
    buf.push((x / 256) as u8);
    buf.push((x % 256) as u8);
    assert(buf@ =~= old(buf)@ + be16(x));
}

pub fn put_u32(buf: &mut Vec<u8>, x: u32)
    ensures
        final(buf)@ == old(buf)@ + be32(x),
{
    put_u16(buf, (x / 0x1_0000) as u16);
    put_u16(buf, (x % 0x1_0000) as u16);
    assert(buf@ =~= old(buf)@ + be32(x));
}

pub fn put_u64(buf: &mut Vec<u8>, x: u64)
    ensures
        final(buf)@ == old(buf)@ + be64(x),
{
    put_u32(buf, (x / 0x1_0000_0000) as u32);
    put_u32(buf, (x % 0x1_0000_0000) as u32);
    assert(buf@ =~= old(buf)@ + be64(x));
}

pub fn put_bytes(buf: &mut Vec<u8>, x: &[u8])
    ensures
        final(buf)@ == old(buf)@ + x@,
{
    let mut i: usize = 0;
    while i < x.len()
        invariant
            i <= x@.len(),
            buf@ =~= old(buf)@ + x@.take(i as int),
        decreases x@.len() - i,
    {
        buf.push(x[i]);
        i = i + 1;
    }
    assert(x@.take(i as int) =~= x@);
}

/// `b` begins with `s`.
pub open spec fn starts(b: Seq<u8>, s: Seq<u8>) -> bool {
    s.len() <= b.len() && b.take(s.len() as int) == s
}

/// What begins with `s` and then `x` holds `x` right after `s`.
pub proof fn starts_split(b: Seq<u8>, s: Seq<u8>, x: Seq<u8>)
    requires
        starts(b, s + x),
    ensures
        starts(b, s),
        b.subrange(s.len() as int, (s + x).len() as int) == x,
        forall|i: int| 0 <= i < x.len() ==> b[s.len() + i] == #[trigger] x[i],
{
    let t = s + x;
    assert(forall|i: int| 0 <= i < t.len() ==> b[i] == b.take(t.len() as int)[i]);
    assert(b.take(s.len() as int) =~= s);
    assert(b.subrange(s.len() as int, t.len() as int) =~= x);
    assert forall|i: int| 0 <= i < x.len() implies b[s.len() + i] == #[trigger] x[i] by {
        assert(t[s.len() + i] == x[i]);
    }
}

/// A number read back where it was written is the number written.
pub proof fn read_back_u16(b: Seq<u8>, s: Seq<u8>, x: u16)
    requires
        starts(b, s + be16(x)),
    ensures
        starts(b, s),
        get_u16(b, s.len() as int) == Ok::<(u16, int), BytecodeErrorView>(
            (x, (s + be16(x)).len() as int),
        ),
{
    let n = s.len() as int;
    starts_split(b, s, be16(x));
    assert(b[n + 0] == be16(x)[0]);
    assert(b[n + 1] == be16(x)[1]);
}

pub proof fn read_back_u32(b: Seq<u8>, s: Seq<u8>, x: u32)
    requires
        starts(b, s + be32(x)),
    ensures
        starts(b, s),
        get_u32(b, s.len() as int) == Ok::<(u32, int), BytecodeErrorView>(
            (x, (s + be32(x)).len() as int),
        ),
{
    let n = s.len() as int;
    starts_split(b, s, be32(x));
    assert(b[n + 0] == be32(x)[0]);
    assert(b[n + 1] == be32(x)[1]);
    assert(b[n + 2] == be32(x)[2]);
    assert(b[n + 3] == be32(x)[3]);
}

pub proof fn read_back_u64(b: Seq<u8>, s: Seq<u8>, x: u64)
    requires
        starts(b, s + be64(x)),
    ensures
        starts(b, s),
        get_u64(b, s.len() as int) == Ok::<(u64, int), BytecodeErrorView>(
            (x, (s + be64(x)).len() as int),
        ),
{
    let n = s.len() as int;
    starts_split(b, s, be64(x));
    let hi = (x / 0x1_0000_0000) as u32;
    let lo = (x % 0x1_0000_0000) as u32;
    let e = be64(x);
    assert(e[0] == be32(hi)[0] && e[1] == be32(hi)[1] && e[2] == be32(hi)[2] && e[3] == be32(
        hi,
    )[3]);
    assert(e[4] == be32(lo)[0] && e[5] == be32(lo)[1] && e[6] == be32(lo)[2] && e[7] == be32(
        lo,
    )[3]);
    assert(b[n + 0] == e[0] && b[n + 1] == e[1] && b[n + 2] == e[2] && b[n + 3] == e[3]);
    assert(b[n + 4] == e[4] && b[n + 5] == e[5] && b[n + 6] == e[6] && b[n + 7] == e[7]);
    assert(e[0] * 0x100_0000 + e[1] * 0x1_0000 + e[2] * 256 + e[3] == hi);
    assert(e[4] * 0x100_0000 + e[5] * 0x1_0000 + e[6] * 256 + e[7] == lo);
}

} // verus!
