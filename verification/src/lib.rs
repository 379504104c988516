//! A dataclass-style code generator: a struct-like type definition annotated
//! with field-level and type-level directives is parsed into a validated
//! model, and the model is turned into the standard operations the type
//! needs — a constructor with defaults, clone, a textual representation,
//! equality, and a zero-argument constructor when every field has a default.

use vstd::prelude::*;

pub mod def;
pub mod example;
pub mod ext;
pub mod parse;
pub mod resolve;
pub mod gen;
pub mod render;

verus! {

/// A typed handle that carries only a name; the parameter records which
/// type the name refers to.
pub struct ByName<T> {
    pub name: String,
    pub data: core::marker::PhantomData<T>,
}

impl<T> ByName<T> {
    pub fn new(name: String) -> (r: Self)
        ensures
            r.name == name,
    {
        ByName { name, data: core::marker::PhantomData }
    }
}

} // verus!
