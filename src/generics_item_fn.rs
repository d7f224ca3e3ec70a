//! The annotated function, as far as the configuration compiler reads it.

use vstd::prelude::*;

verus! {

/// The name, parameter names and return kind of the annotated function.
#[derive(Debug, Clone)]
pub struct GenericsFn {
    /// The function's name.
    pub name: String,
    /// The names of its parameters, in declaration order.
    pub params: Vec<String>,
    /// Whether it produces a value.
    pub has_return: bool,
}

impl GenericsFn {
    pub fn new(name: String, params: Vec<String>, has_return: bool) -> (r: GenericsFn)
        ensures
            r.name == name,
            r.params == params,
            r.has_return == has_return,
    {
        GenericsFn { name, params, has_return }
    }
}

} // verus!
