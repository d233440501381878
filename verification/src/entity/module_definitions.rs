//! The resolved-side bag of declarations at one module path.

use crate::entity::component_definition::ComponentDefinition;
use crate::entity::event_definition::EventDefinition;
use crate::entity::type_definition::TypeDefinition;
use crate::string_map::StringMap;
use vstd::prelude::*;

verus! {

#[derive(Debug, PartialEq, Eq)]
pub struct ModuleDefinitions {
    pub types: StringMap<TypeDefinition>,
    pub components: StringMap<ComponentDefinition>,
    pub events: StringMap<EventDefinition>,
}

} // verus!
