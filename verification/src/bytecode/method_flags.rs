//! Bits of a method descriptor's flags.

use vstd::prelude::*;

verus! {

pub const PUBLIC: u16 = 1;

pub const PROTECTED: u16 = 2;

pub const PRIVATE: u16 = 4;

pub const STATIC: u16 = 8;

pub const CONST: u16 = 16;

pub const NODISCARD: u16 = 32;

pub const CONSTRUCTOR: u16 = 64;

pub const DESTRUCTOR: u16 = 128;

pub const ABSTRACT: u16 = 256;

pub const FINAL: u16 = 512;

} // verus!
