//! The native template classes, such as `system.List<int>`, that a program
//! uses: one record for each instantiation.

use crate::ast::{clone_type, clone_types, type_views, Type, TypeView};
use crate::names::{bound_to, NameMap};
use crate::native::sig_view;
use crate::sema::types::opt_type;
use crate::text::str_eq;
use vstd::prelude::*;

verus! {

/// A method of a native template class.
#[derive(Debug)]
pub struct NativeMethod {
    pub name: String,
    pub params: Vec<Type>,
    pub return_ty: Type,
}

pub struct NativeMethodView {
    pub name: Seq<char>,
    pub params: Seq<TypeView>,
    pub return_ty: TypeView,
}

impl View for NativeMethod {
    type V = NativeMethodView;

    open spec fn view(&self) -> NativeMethodView {
        NativeMethodView {
            name: self.name@,
            params: type_views(self.params@),
            return_ty: self.return_ty@,
        }
    }
}

/// One instantiation of a native template class.
#[derive(Debug)]
pub struct NativeClass {
    /// What a `for` loop over an instance yields, if it can be looped over.
    pub element: Option<Type>,
    pub fields: NameMap<Type>,
    /// Parameter types of each constructor.
    pub ctors: Vec<Vec<Type>>,
    pub methods: Vec<NativeMethod>,
}

pub struct NativeClassView {
    pub element: Option<TypeView>,
    pub fields: Seq<(Seq<char>, TypeView)>,
    pub ctors: Seq<Seq<TypeView>>,
    pub methods: Seq<NativeMethodView>,
}

impl View for NativeClass {
    type V = NativeClassView;

    open spec fn view(&self) -> NativeClassView {
        NativeClassView {
            element: opt_type(self.element),
            fields: self.fields@,
            ctors: self.ctors@.map_values(|c: Vec<Type>| type_views(c@)),
            methods: self.methods@.map_values(|m: NativeMethod| m@),
        }
    }
}

/// The instantiations by their full names.
pub type NativeClasses = NameMap<NativeClass>;

pub type Natives = Seq<(Seq<char>, NativeClassView)>;

pub open spec fn native_class(n: Natives, fqcn: Seq<char>) -> bool {
    bound_to(n, fqcn) is Some
}

pub fn is_instance(natives: &NativeClasses, fqcn: &str) -> (r: bool)
    ensures
        r == native_class(natives@, fqcn@),
{
    natives.get(fqcn).is_some()
}

pub open spec fn element_type(n: Natives, fqcn: Seq<char>) -> Option<TypeView> {
    match bound_to(n, fqcn) {
        Some(c) => c.element,
        None => None,
    }
}

pub fn foreach_element_ty(natives: &NativeClasses, fqcn: &str) -> (r: Option<Type>)
    ensures
        opt_type(r) == element_type(natives@, fqcn@),
{
    match natives.get(fqcn) {
        Some(c) => match &c.element {
            Some(t) => Some(clone_type(t)),
            None => None,
        },
        None => None,
    }
}

pub open spec fn native_field(n: Natives, fqcn: Seq<char>, name: Seq<char>) -> Option<TypeView> {
    match bound_to(n, fqcn) {
        Some(c) => bound_to(c.fields, name),
        None => None,
    }
}

pub fn field_ty(natives: &NativeClasses, fqcn: &str, name: &str) -> (r: Option<Type>)
    ensures
        opt_type(r) == native_field(natives@, fqcn@, name@),
{
    match natives.get(fqcn) {
        Some(c) => match c.fields.get(name) {
            Some(t) => Some(clone_type(t)),
            None => None,
        },
        None => None,
    }
}

/// The first parameter list from the `i`-th on of this length.
pub open spec fn list_of_len(cs: Seq<Seq<TypeView>>, argc: nat, i: int) -> Option<Seq<TypeView>>
    decreases cs.len() - i,
{
    if i < 0 || i >= cs.len() {
        None
    } else if cs[i].len() == argc {
        Some(cs[i])
    } else {
        list_of_len(cs, argc, i + 1)
    }
}

pub open spec fn native_ctor_params(n: Natives, fqcn: Seq<char>, argc: nat) -> Option<
    Seq<TypeView>,
> {
    match bound_to(n, fqcn) {
        Some(c) => list_of_len(c.ctors, argc, 0),
        None => None,
    }
}

pub fn ctor_param_types(natives: &NativeClasses, fqcn: &str, argc: usize) -> (r: Option<Vec<Type>>)
    ensures
        match r {
            Some(v) => native_ctor_params(natives@, fqcn@, argc as nat) == Some(type_views(v@)),
            None => native_ctor_params(natives@, fqcn@, argc as nat) is None,
        },
{
    match natives.get(fqcn) {
        Some(c) => {
            let ghost cs = c@.ctors;
            let mut i: usize = 0;
            while i < c.ctors.len()
                invariant
                    i <= c.ctors@.len(),
                    cs == c@.ctors,
                    bound_to(natives@, fqcn@) == Some(c@),
                    list_of_len(cs, argc as nat, 0) == list_of_len(cs, argc as nat, i as int),
                decreases c.ctors@.len() - i,
            {
                assert(cs[i as int] == type_views(c.ctors@[i as int]@));
                if c.ctors[i].len() == argc {
                    return Some(clone_types(&c.ctors[i]));
                }
                i = i + 1;
            }
            None
        },
        None => None,
    }
}

/// The first method from the `i`-th on of this name and number of parameters.
pub open spec fn method_sig_from(
    ms: Seq<NativeMethodView>,
    name: Seq<char>,
    argc: nat,
    i: int,
) -> Option<(Seq<TypeView>, TypeView)>
    decreases ms.len() - i,
{
    if i < 0 || i >= ms.len() {
        None
    } else if ms[i].name == name && ms[i].params.len() == argc {
        Some((ms[i].params, ms[i].return_ty))
    } else {
        method_sig_from(ms, name, argc, i + 1)
    }
}

pub open spec fn native_method_sig(
    n: Natives,
    fqcn: Seq<char>,
    name: Seq<char>,
    argc: nat,
) -> Option<(Seq<TypeView>, TypeView)> {
    match bound_to(n, fqcn) {
        Some(c) => method_sig_from(c.methods, name, argc, 0),
        None => None,
    }
}

pub fn method_signature(natives: &NativeClasses, fqcn: &str, name: &str, argc: usize) -> (r: Option<
    (Vec<Type>, Type),
>)
    ensures
        sig_view(r) == native_method_sig(natives@, fqcn@, name@, argc as nat),
{
    match natives.get(fqcn) {
        Some(c) => {
            let ghost ms = c@.methods;
            let mut i: usize = 0;
            while i < c.methods.len()
                invariant
                    i <= c.methods@.len(),
                    ms == c@.methods,
                    bound_to(natives@, fqcn@) == Some(c@),
                    method_sig_from(ms, name@, argc as nat, 0) == method_sig_from(
                        ms,
                        name@,
                        argc as nat,
                        i as int,
                    ),
                decreases c.methods@.len() - i,
            {
                assert(ms[i as int] == c.methods@[i as int]@);
                if str_eq(c.methods[i].name.as_str(), name) && c.methods[i].params.len() == argc {
                    return Some(
                        (clone_types(&c.methods[i].params), clone_type(&c.methods[i].return_ty)),
                    );
                }
                i = i + 1;
            }
            None
        },
        None => None,
    }
}

} // verus!
