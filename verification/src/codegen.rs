//! The code generator: from a syntax tree to modules.

pub mod args;
pub mod branching;
pub mod capturing;
pub mod closure;
pub mod computing;
pub mod emitter;
pub mod error;
pub mod expr;
pub mod expr_ty;
pub mod frame;
pub mod growth;
pub mod kept;
pub mod laws;
pub mod leaving;
pub mod looping;
pub mod lowered;
pub mod machine;
pub mod naming;
pub mod nesting;
pub mod ops;
pub mod overload;
pub mod peek;
pub mod placed;
pub mod program;
pub mod running;
pub mod stdlib;
pub mod steps;
pub mod stmt;
pub mod straight;
pub mod switching;
pub mod trying;
pub mod type_desc;
pub mod values;
pub mod vars;
