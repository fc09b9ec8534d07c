//! What can be wrong with the bytes of a module.

use crate::text::{cat2, decimal, decimal_text, hex, hex_text, owned};
use vstd::prelude::*;

verus! {

#[derive(Debug)]
pub enum BytecodeError {
    BadMagic(u32),
    UnexpectedEof,
    UnknownConstantTag(u8),
    UnknownHashAlgo(u8),
    HashMismatch,
    Malformed(&'static str),
}

/// A `BytecodeError` with its text as a sequence of characters.
pub enum BytecodeErrorView {
    BadMagic(u32),
    UnexpectedEof,
    UnknownConstantTag(u8),
    UnknownHashAlgo(u8),
    HashMismatch,
    Malformed(Seq<char>),
}

impl View for BytecodeError {
    type V = BytecodeErrorView;

    open spec fn view(&self) -> BytecodeErrorView {
        match *self {
            BytecodeError::BadMagic(m) => BytecodeErrorView::BadMagic(m),
            BytecodeError::UnexpectedEof => BytecodeErrorView::UnexpectedEof,
            BytecodeError::UnknownConstantTag(t) => BytecodeErrorView::UnknownConstantTag(t),
            BytecodeError::UnknownHashAlgo(a) => BytecodeErrorView::UnknownHashAlgo(a),
            BytecodeError::HashMismatch => BytecodeErrorView::HashMismatch,
            BytecodeError::Malformed(s) => BytecodeErrorView::Malformed(s@),
        }
    }
}

impl BytecodeErrorView {
    /// The message shown to a user.
    pub open spec fn text(self) -> Seq<char> {
        match self {
            BytecodeErrorView::BadMagic(m) => "bad magic number: 0x"@ + hex_text(m as nat, 8),
            BytecodeErrorView::UnexpectedEof => "unexpected end of module bytes"@,
            BytecodeErrorView::UnknownConstantTag(t) => "unknown constant pool tag: "@
                + decimal_text(t as nat),
            BytecodeErrorView::UnknownHashAlgo(a) => "unknown hash algorithm: "@ + decimal_text(
                a as nat,
            ),
            BytecodeErrorView::HashMismatch =>
                "integrity hash mismatch — module is corrupted or tampered with"@,
            BytecodeErrorView::Malformed(s) => "malformed module: "@ + s,
        }
    }
}

impl BytecodeError {
    pub fn message(&self) -> (r: String)
        ensures
            r@ == self@.text(),
    {
        match self {
            BytecodeError::BadMagic(m) => cat2("bad magic number: 0x", hex(*m as u64, 8).as_str()),
            BytecodeError::UnexpectedEof => owned("unexpected end of module bytes"),
            BytecodeError::UnknownConstantTag(t) => cat2(
                "unknown constant pool tag: ",
                decimal(*t as u64).as_str(),
            ),
            BytecodeError::UnknownHashAlgo(a) => cat2(
                "unknown hash algorithm: ",
                decimal(*a as u64).as_str(),
            ),
            BytecodeError::HashMismatch => owned(
                "integrity hash mismatch — module is corrupted or tampered with",
            ),
            BytecodeError::Malformed(s) => cat2("malformed module: ", s),
        }
    }
}

} // verus!
