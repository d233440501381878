//! The resolved type model: fully qualified identifiers and the two
//! resolved shapes, native bindings and aliases. This is the
//! resolver's output contract toward code generators.

use crate::entity::epath::EPath;
use crate::entity::project_identifier::{ProjectIdentifier, ProjectIdentifierView};
use crate::entity::target_language::{NativeBindings, TargetLanguage};
use vstd::prelude::*;

verus! {

/// The mathematical content of a [`TypeDefinitionIdentifier`].
pub struct TypeDefinitionIdentifierView {
    pub project: ProjectIdentifierView,
    pub path: Seq<Seq<char>>,
}

/// The fully qualified address of a resolved symbol: a project
/// identity plus a path inside its module tree.
#[derive(Debug, PartialEq, Eq, Hash, PartialOrd, Ord)]
pub struct TypeDefinitionIdentifier {
    pub project: ProjectIdentifier,
    pub path: EPath,
}

impl View for TypeDefinitionIdentifier {
    type V = TypeDefinitionIdentifierView;

    open spec fn view(&self) -> TypeDefinitionIdentifierView {
        TypeDefinitionIdentifierView { project: self.project@, path: self.path@ }
    }
}

impl Clone for TypeDefinitionIdentifier {
    fn clone(&self) -> (r: Self)
        ensures
            r@ == self@,
    {
        TypeDefinitionIdentifier { project: self.project.clone(), path: self.path.clone() }
    }
}

/// The shape of a placeholder identifier manufactured for a reference
/// that resolution could not determine: the reserved `undefined`
/// project identity, with a single path segment carrying a fresh
/// random token. The token itself is unconstrained, so nothing beyond
/// this shape is promised.
pub open spec fn is_undefined_identifier(v: TypeDefinitionIdentifierView) -> bool {
    &&& v.project.group == "undefined"@
    &&& v.project.name == "undefined"@
    &&& v.path.len() == 1
}

/// Relies on `uuid::Uuid::new_v4` for a freshly generated random
/// identifier, rendered in its hyphenated text form. The result
/// depends on the generator's randomness, so nothing is promised of
/// its content.
#[verifier::external_body]
fn fresh_random_token() -> (r: String) {
    uuid::Uuid::new_v4().to_string()
}

impl TypeDefinitionIdentifier {
    pub fn new(project: ProjectIdentifier, path: EPath) -> (r: Self)
        ensures
            r@ == (TypeDefinitionIdentifierView { project: project@, path: path@ }),
    {
        TypeDefinitionIdentifier { project, path }
    }

    /// Manufactures a fresh, globally unique placeholder identifier;
    /// [`is_undefined_identifier`] is all that is promised of it.
    pub fn undefined() -> (r: Self)
        ensures
            is_undefined_identifier(r@),
    {
        let token = fresh_random_token();
        let mut segments: Vec<String> = Vec::new();
        segments.push(token);
        let r = TypeDefinitionIdentifier {
            project: ProjectIdentifier::new("undefined", "undefined"),
            path: EPath::new(segments),
        };
        proof {
            assert(r@.path.len() == 1);
        }
        r
    }
}

/// The mathematical content of a [`NativeBindingTypeDefinition`].
pub struct NativeBindingTypeDefinitionView {
    pub identifier: TypeDefinitionIdentifierView,
    pub bindings: Seq<(TargetLanguage, Seq<char>)>,
}

#[derive(Debug, PartialEq, Eq)]
pub struct NativeBindingTypeDefinition {
    pub identifier: TypeDefinitionIdentifier,
    pub bindings: NativeBindings,
}

impl View for NativeBindingTypeDefinition {
    type V = NativeBindingTypeDefinitionView;

    open spec fn view(&self) -> NativeBindingTypeDefinitionView {
        NativeBindingTypeDefinitionView { identifier: self.identifier@, bindings: self.bindings@ }
    }
}

/// The mathematical content of an [`AliasTypeDefinition`].
pub struct AliasTypeDefinitionView {
    pub identifier: TypeDefinitionIdentifierView,
    pub aliases: TypeDefinitionIdentifierView,
}

#[derive(Debug, PartialEq, Eq)]
pub struct AliasTypeDefinition {
    pub identifier: TypeDefinitionIdentifier,
    pub aliases: TypeDefinitionIdentifier,
}

impl View for AliasTypeDefinition {
    type V = AliasTypeDefinitionView;

    open spec fn view(&self) -> AliasTypeDefinitionView {
        AliasTypeDefinitionView { identifier: self.identifier@, aliases: self.aliases@ }
    }
}

/// The mathematical content of a [`TypeDefinition`].
pub enum TypeDefinitionView {
    NativeBinding(NativeBindingTypeDefinitionView),
    Alias(AliasTypeDefinitionView),
}

/// A resolved type: either a native binding carrying per-language
/// code snippets, or an alias to another fully qualified identifier.
#[derive(Debug, PartialEq, Eq)]
pub enum TypeDefinition {
    NativeBinding(NativeBindingTypeDefinition),
    Alias(AliasTypeDefinition),
}

impl View for TypeDefinition {
    type V = TypeDefinitionView;

    open spec fn view(&self) -> TypeDefinitionView {
        match self {
            TypeDefinition::NativeBinding(n) => TypeDefinitionView::NativeBinding(n@),
            TypeDefinition::Alias(a) => TypeDefinitionView::Alias(a@),
        }
    }
}

impl TypeDefinition {
    /// A native binding entry owning a copy of the given binding map.
    pub fn new_native_binding(
        identifier: TypeDefinitionIdentifier,
        bindings: &NativeBindings,
    ) -> (r: Self)
        ensures
            r@ == TypeDefinitionView::NativeBinding(
                NativeBindingTypeDefinitionView { identifier: identifier@, bindings: bindings@ },
            ),
    {
        TypeDefinition::NativeBinding(
            NativeBindingTypeDefinition { identifier, bindings: bindings.clone() },
        )
    }

    /// An alias entry: `identifier` means the same as `aliases`.
    pub fn new_alias(
        identifier: TypeDefinitionIdentifier,
        aliases: TypeDefinitionIdentifier,
    ) -> (r: Self)
        ensures
            r@ == TypeDefinitionView::Alias(
                AliasTypeDefinitionView { identifier: identifier@, aliases: aliases@ },
            ),
    {
        TypeDefinition::Alias(AliasTypeDefinition { identifier, aliases })
    }
}

} // verus!
