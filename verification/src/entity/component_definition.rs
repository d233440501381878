//! A declared component on the resolved side: its type reference and
//! its named events.

use crate::entity::declaration_reference::DeclarationReference;
use crate::entity::event_definition::EventDefinition;
use crate::string_map::StringMap;
use vstd::prelude::*;

verus! {

#[derive(Debug, PartialEq, Eq)]
pub struct ComponentDefinition {
    pub type_ref: DeclarationReference,
    pub events: StringMap<EventDefinition>,
}

impl ComponentDefinition {
    pub fn new(type_ref: DeclarationReference) -> (r: Self)
        ensures
            r.type_ref == type_ref,
            r.events@ == Seq::<(Seq<char>, EventDefinition)>::empty(),
    {
        ComponentDefinition { type_ref, events: StringMap::new() }
    }
}

} // verus!
