//! The module format: constant pool, class descriptors and their byte encoding.

pub mod class_flags;
pub mod constant_pool;
pub mod error;
pub mod field_flags;
pub mod laws;
pub mod method_flags;
pub mod module;
pub mod opcode;
pub mod reader;
