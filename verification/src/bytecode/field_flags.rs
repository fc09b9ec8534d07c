//! Bits of a field descriptor's flags.

use vstd::prelude::*;

verus! {

pub const PUBLIC: u16 = 1;

pub const PROTECTED: u16 = 2;

pub const PRIVATE: u16 = 4;

pub const STATIC: u16 = 8;

pub const READONLY: u16 = 16;

} // verus!
