//! A declared event on the resolved side: its named parameters.

use crate::source::parameter_definition::ParameterDefinition;
use crate::string_map::StringMap;
use vstd::prelude::*;

verus! {

#[derive(Debug, PartialEq, Eq)]
pub struct EventDefinition {
    pub parameters: StringMap<ParameterDefinition>,
}

impl EventDefinition {
    pub fn new() -> (r: Self)
        ensures
            r.parameters@ == Seq::<(Seq<char>, ParameterDefinition)>::empty(),
    {
        EventDefinition { parameters: StringMap::new() }
    }
}

impl Default for EventDefinition {
    /// The default event has no parameters.
    fn default() -> (r: Self)
        ensures
            r.parameters@ == Seq::<(Seq<char>, ParameterDefinition)>::empty(),
    {
        EventDefinition::new()
    }
}

} // verus!
