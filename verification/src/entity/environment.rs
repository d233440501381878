//! The resolved `Environment`: the flat, fully-addressed output of a
//! resolution run, owned independently of the source graph it came
//! from.

use crate::entity::component::Component;
use crate::entity::project_identifier::{ProjectIdentifier, ProjectIdentifierView};
use crate::entity::type_definition::{TypeDefinition, TypeDefinitionView};
use vstd::prelude::*;

verus! {

/// The mathematical content of an [`Environment`].
#[verifier::ext_equal]
pub struct EnvironmentView {
    pub identifier: ProjectIdentifierView,
    pub type_definitions: Seq<TypeDefinitionView>,
    pub components: Seq<Component>,
}

/// The target project's identity plus the resolved declarations,
/// append-only during resolution.
#[derive(Debug, PartialEq, Eq)]
pub struct Environment {
    pub identifier: ProjectIdentifier,
    pub type_definitions: Vec<TypeDefinition>,
    pub components: Vec<Component>,
}

impl View for Environment {
    type V = EnvironmentView;

    open spec fn view(&self) -> EnvironmentView {
        EnvironmentView {
            identifier: self.identifier@,
            type_definitions: Seq::new(
                self.type_definitions@.len(),
                |i: int| self.type_definitions@[i]@,
            ),
            components: self.components@,
        }
    }
}

impl Environment {
    /// A fresh environment addressed at the given project, holding
    /// nothing yet.
    pub fn empty(identifier: ProjectIdentifier) -> (r: Self)
        ensures
            r@.identifier == identifier@,
            r@.type_definitions == Seq::<TypeDefinitionView>::empty(),
            r@.components == Seq::<Component>::empty(),
    {
        let r = Environment {
            identifier,
            type_definitions: Vec::new(),
            components: Vec::new(),
        };
        proof {
            assert(r@.type_definitions =~= Seq::<TypeDefinitionView>::empty());
            assert(r@.components =~= Seq::<Component>::empty());
        }
        r
    }

    /// Appends one resolved type; everything else is untouched.
    pub fn push_type_definition(&mut self, type_definition: TypeDefinition)
        ensures
            final(self)@.identifier == old(self)@.identifier,
            final(self)@.type_definitions == old(self)@.type_definitions.push(type_definition@),
            final(self)@.components == old(self)@.components,
    {
        self.type_definitions.push(type_definition);
        proof {
            assert(self@.type_definitions =~= old(self)@.type_definitions.push(
                self.type_definitions@.last()@,
            ));
        }
    }

    /// Appends one resolved component; everything else is untouched.
    pub fn push_component(&mut self, component: Component)
        ensures
            final(self)@.identifier == old(self)@.identifier,
            final(self)@.type_definitions == old(self)@.type_definitions,
            final(self)@.components == old(self)@.components.push(component),
    {
        self.components.push(component);
        proof {
            assert(self@.type_definitions =~= old(self)@.type_definitions);
        }
    }

    pub fn identifier(&self) -> (r: &ProjectIdentifier)
        ensures
            r@ == self@.identifier,
    {
        &self.identifier
    }

    pub fn type_definitions(&self) -> (r: &Vec<TypeDefinition>)
        ensures
            r@ == self.type_definitions@,
    {
        &self.type_definitions
    }

    pub fn components(&self) -> (r: &Vec<Component>)
        ensures
            r@ == self.components@,
    {
        &self.components
    }
}

} // verus!
