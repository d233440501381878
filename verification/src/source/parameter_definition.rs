//! A declared event parameter: just the reference to its type.

use crate::entity::declaration_reference::DeclarationReference;
use vstd::prelude::*;

verus! {

#[derive(Debug, PartialEq, Eq)]
pub struct ParameterDefinition {
    pub type_ref: DeclarationReference,
}

impl ParameterDefinition {
    pub fn new(type_ref: DeclarationReference) -> (r: Self)
        ensures
            r.type_ref == type_ref,
    {
        ParameterDefinition { type_ref }
    }
}

} // verus!
