//! Descriptor strings of types and methods.

use crate::ast::{type_views, Type, TypeView};
use crate::sema::types::{display, display_all, display_text, display_texts};
use crate::text::{cat4, join, join_text};
use vstd::prelude::*;

verus! {

/// The descriptor of a type is how it is written.
pub open spec fn type_descriptor_text(t: TypeView) -> Seq<char> {
    display_text(t)
}

pub fn type_descriptor(ty: &Type) -> (r: String)
    ensures
        r@ == type_descriptor_text(ty@),
{
    display(ty)
}

/// As `(int, string) -> void`.
pub open spec fn method_descriptor_text(params: Seq<TypeView>, return_type: TypeView) -> Seq<char> {
    "("@ + join_text(display_texts(params), ", "@) + ") -> "@ + display_text(return_type)
}

pub fn method_descriptor(params: &Vec<Type>, return_type: &Type) -> (r: String)
    ensures
        r@ == method_descriptor_text(type_views(params@), return_type@),
{
    cat4(
        "(",
        join(&display_all(params), ", ").as_str(),
        ") -> ",
        display(return_type).as_str(),
    )
}

} // verus!
