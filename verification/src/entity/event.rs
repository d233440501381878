//! Resolved events: what a resolved component can emit.

use crate::entity::type_definition::TypeDefinitionIdentifier;
use vstd::prelude::*;

verus! {

/// One argument of an event: a name, free-form description text, and
/// the resolved type it carries.
#[derive(Debug, PartialEq, Eq)]
pub struct EventArgument {
    pub name: String,
    pub description: String,
    pub type_ref: TypeDefinitionIdentifier,
}

#[derive(Debug, PartialEq, Eq)]
pub struct Event {
    pub name: String,
    pub description: String,
    pub arguments: Vec<EventArgument>,
}

} // verus!
