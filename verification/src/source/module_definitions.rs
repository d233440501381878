//! The bag of declarations contributed at one module path: types,
//! components and events, each a name-keyed mapping with unique keys.
//! Merging is a right-biased union of the three mappings: on a key
//! collision the other bag's entry replaces the existing one,
//! wholesale, never field by field.

use crate::source::component_definition::ComponentDefinition;
use crate::source::event_definition::SourceEventDefinition;
use crate::source::type_definition::SourceTypeDefinition;
use crate::string_map::{map_insert, map_merge, StringMap};
use vstd::prelude::*;

verus! {

/// The mathematical content of a [`ModuleDefinitions`].
#[verifier::ext_equal]
pub struct ModuleDefinitionsView {
    pub types: Seq<(Seq<char>, SourceTypeDefinition)>,
    pub components: Seq<(Seq<char>, ComponentDefinition)>,
    pub events: Seq<(Seq<char>, SourceEventDefinition)>,
}

#[derive(Debug, PartialEq, Eq)]
pub struct ModuleDefinitions {
    pub types: StringMap<SourceTypeDefinition>,
    pub components: StringMap<ComponentDefinition>,
    pub events: StringMap<SourceEventDefinition>,
}

impl View for ModuleDefinitions {
    type V = ModuleDefinitionsView;

    open spec fn view(&self) -> ModuleDefinitionsView {
        ModuleDefinitionsView {
            types: self.types@,
            components: self.components@,
            events: self.events@,
        }
    }
}

/// The right-biased union of two bags: each of the three mappings is
/// merged with [`map_merge`], so on collision `b` wins.
pub open spec fn defs_merge(a: ModuleDefinitionsView, b: ModuleDefinitionsView)
    -> ModuleDefinitionsView {
    ModuleDefinitionsView {
        types: map_merge(a.types, b.types),
        components: map_merge(a.components, b.components),
        events: map_merge(a.events, b.events),
    }
}

impl ModuleDefinitions {
    pub fn new() -> (r: Self)
        ensures
            r@.types == Seq::<(Seq<char>, SourceTypeDefinition)>::empty(),
            r@.components == Seq::<(Seq<char>, ComponentDefinition)>::empty(),
            r@.events == Seq::<(Seq<char>, SourceEventDefinition)>::empty(),
    {
        ModuleDefinitions {
            types: StringMap::new(),
            components: StringMap::new(),
            events: StringMap::new(),
        }
    }

    pub fn types(&self) -> (r: &StringMap<SourceTypeDefinition>)
        ensures
            r@ == self@.types,
    {
        &self.types
    }

    pub fn events(&self) -> (r: &StringMap<SourceEventDefinition>)
        ensures
            r@ == self@.events,
    {
        &self.events
    }

    pub fn components(&self) -> (r: &StringMap<ComponentDefinition>)
        ensures
            r@ == self@.components,
    {
        &self.components
    }

    /// Declares (or overwrites) one type.
    pub fn add_type(&mut self, name: String, definition: SourceTypeDefinition)
        ensures
            final(self)@.types == map_insert(old(self)@.types, name@, definition),
            final(self)@.components == old(self)@.components,
            final(self)@.events == old(self)@.events,
    {
        self.types.insert(name, definition);
    }

    /// Declares (or overwrites) one component.
    pub fn add_component(&mut self, name: String, definition: ComponentDefinition)
        ensures
            final(self)@.types == old(self)@.types,
            final(self)@.components == map_insert(old(self)@.components, name@, definition),
            final(self)@.events == old(self)@.events,
    {
        self.components.insert(name, definition);
    }

    /// Declares (or overwrites) one event.
    pub fn add_event(&mut self, name: String, definition: SourceEventDefinition)
        ensures
            final(self)@.types == old(self)@.types,
            final(self)@.components == old(self)@.components,
            final(self)@.events == map_insert(old(self)@.events, name@, definition),
    {
        self.events.insert(name, definition);
    }

    /// The right-biased union, as [`defs_merge`] says: on a duplicate
    /// name, `other`'s declaration replaces the existing one.
    pub fn merge_with(&mut self, other: ModuleDefinitions)
        ensures
            final(self)@ == defs_merge(old(self)@, other@),
    {
        let ModuleDefinitions { types, components, events } = other;
        self.types.merge_from(types);
        self.components.merge_from(components);
        self.events.merge_from(events);
    }
}

} // verus!
