//! A declared event: its named parameters.

use crate::source::parameter_definition::ParameterDefinition;
use crate::string_map::StringMap;
use vstd::prelude::*;

verus! {

#[derive(Debug, PartialEq, Eq)]
pub struct SourceEventDefinition {
    pub parameters: StringMap<ParameterDefinition>,
}

impl SourceEventDefinition {
    pub fn new() -> (r: Self)
        ensures
            r.parameters@ == Seq::<(Seq<char>, ParameterDefinition)>::empty(),
    {
        SourceEventDefinition { parameters: StringMap::new() }
    }
}

impl Default for SourceEventDefinition {
    /// The default event has no parameters; the name-list shorthand
    /// of a module record expands into such events.
    fn default() -> (r: Self)
        ensures
            r.parameters@ == Seq::<(Seq<char>, ParameterDefinition)>::empty(),
    {
        SourceEventDefinition::new()
    }
}

} // verus!
