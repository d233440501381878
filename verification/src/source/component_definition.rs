//! A declared component: its type reference, its events, and its
//! named children, themselves component declarations.

use crate::entity::declaration_reference::DeclarationReference;
use crate::source::event_definition::SourceEventDefinition;
use crate::string_map::StringMap;
use vstd::prelude::*;

verus! {

#[derive(Debug, PartialEq, Eq)]
pub struct ComponentDefinition {
    pub type_ref: DeclarationReference,
    pub events: StringMap<SourceEventDefinition>,
    /// Name-keyed child components, insertion-ordered.
    pub children: Vec<(String, ComponentDefinition)>,
}

impl ComponentDefinition {
    pub fn new(type_ref: DeclarationReference) -> (r: Self)
        ensures
            r.type_ref == type_ref,
            r.events@ == Seq::<(Seq<char>, SourceEventDefinition)>::empty(),
            r.children@ == Seq::<(String, ComponentDefinition)>::empty(),
    {
        let r = ComponentDefinition {
            type_ref,
            events: StringMap::new(),
            children: Vec::new(),
        };
        proof {
            assert(r.children@ =~= Seq::<(String, ComponentDefinition)>::empty());
        }
        r
    }
}

} // verus!
