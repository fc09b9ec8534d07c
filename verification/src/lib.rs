//! A verified compiler back half for the NL language: the module format, the
//! static checks on a program and the code generator.

pub mod agreement;
pub mod ast;
pub mod binding;
pub mod bytecode;
pub mod class_table;
pub mod codegen;
pub mod laws;
pub mod names;
pub mod native;
pub mod native_generics;
pub mod probe;
pub mod resolve;
pub mod sema;
pub mod size;
pub mod text;
