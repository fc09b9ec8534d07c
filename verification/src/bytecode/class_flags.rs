//! Bits of a module's class flags.

use vstd::prelude::*;

verus! {

pub const READONLY: u16 = 1;

pub const INTERFACE: u16 = 2;

pub const ENUM: u16 = 4;

pub const ABSTRACT: u16 = 8;

pub const FINAL: u16 = 16;

} // verus!
