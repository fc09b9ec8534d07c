//! The static checks on a program.

pub mod assignment;
pub mod checked;
pub mod checker;
pub mod class_rules;
pub mod error;
pub mod flow;
pub mod laws;
pub mod members;
pub mod program;
pub mod rules;
pub mod sight;
pub mod stdlib;
pub mod types;
