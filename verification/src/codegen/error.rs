//! What the code generator refuses.

use crate::text::cat2;
use vstd::prelude::*;

verus! {

#[derive(Debug)]
pub enum CodegenError {
    Unsupported(String),
}

impl View for CodegenError {
    type V = Seq<char>;

    /// The description of what is not supported.
    open spec fn view(&self) -> Seq<char> {
        match self {
            CodegenError::Unsupported(what) => what@,
        }
    }
}

impl CodegenError {
    pub fn message(&self) -> (r: String)
        ensures
            r@ == "unsupported construct: "@ + self@,
    {
        match self {
            CodegenError::Unsupported(what) => cat2("unsupported construct: ", what.as_str()),
        }
    }
}

} // verus!
