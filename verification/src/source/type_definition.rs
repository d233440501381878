//! A declared type: either a native binding (per-language code
//! snippets) or an alias to another declaration.

use crate::entity::declaration_reference::{
    parse_declaration_reference, DeclarationReference, DeclarationReferenceError,
    DeclarationReferenceView,
};
use crate::entity::target_language::NativeBindings;
use crate::strings::str_eq;
use vstd::prelude::*;

verus! {

/// The mathematical content of a [`TypeDefinitionTypeReference`].
pub enum TypeDefinitionTypeReferenceView {
    NativeBinding,
    Alias(DeclarationReferenceView),
}

#[derive(Debug, PartialEq, Eq)]
pub enum TypeDefinitionTypeReference {
    NativeBinding,
    Alias(DeclarationReference),
}

impl View for TypeDefinitionTypeReference {
    type V = TypeDefinitionTypeReferenceView;

    open spec fn view(&self) -> TypeDefinitionTypeReferenceView {
        match self {
            TypeDefinitionTypeReference::NativeBinding => {
                TypeDefinitionTypeReferenceView::NativeBinding
            },
            TypeDefinitionTypeReference::Alias(d) => TypeDefinitionTypeReferenceView::Alias(d@),
        }
    }
}

/// Parsing a type reference: the word `NativeBinding` stands for a
/// native binding; any other string is read as a declaration
/// reference and becomes an alias.
pub open spec fn parse_type_reference(s: Seq<char>) -> Result<
    TypeDefinitionTypeReferenceView,
    DeclarationReferenceError,
> {
    if s == "NativeBinding"@ {
        Ok(TypeDefinitionTypeReferenceView::NativeBinding)
    } else {
        match parse_declaration_reference(s) {
            Ok(d) => Ok(TypeDefinitionTypeReferenceView::Alias(d)),
            Err(e) => Err(e),
        }
    }
}

impl TypeDefinitionTypeReference {
    /// Parses the `type:` field of a type-definition record;
    /// [`parse_type_reference`] says exactly what each string yields.
    pub fn from_str(s: &str) -> (r: Result<Self, DeclarationReferenceError>)
        ensures
            r is Ok <==> parse_type_reference(s@) is Ok,
            r matches Ok(t) ==> parse_type_reference(s@) == Ok::<
                _,
                DeclarationReferenceError,
            >(t@),
            r matches Err(e) ==> parse_type_reference(s@) == Err::<
                TypeDefinitionTypeReferenceView,
                _,
            >(e),
    {
        if str_eq(s, "NativeBinding") {
            Ok(TypeDefinitionTypeReference::NativeBinding)
        } else {
            match DeclarationReference::from_str(s) {
                Ok(d) => Ok(TypeDefinitionTypeReference::Alias(d)),
                Err(e) => Err(e),
            }
        }
    }
}

#[derive(Debug, PartialEq, Eq)]
pub struct SourceTypeDefinition {
    pub type_ref: TypeDefinitionTypeReference,
    pub pattern: Option<String>,
    pub example: Option<String>,
    pub native_bindings: NativeBindings,
}

impl SourceTypeDefinition {
    pub fn new(
        type_ref: TypeDefinitionTypeReference,
        pattern: Option<String>,
        example: Option<String>,
        native_bindings: NativeBindings,
    ) -> (r: Self)
        ensures
            r.type_ref == type_ref,
            r.pattern == pattern,
            r.example == example,
            r.native_bindings == native_bindings,
    {
        SourceTypeDefinition { type_ref, pattern, example, native_bindings }
    }

    pub fn native_bindings(&self) -> (r: &NativeBindings)
        ensures
            *r == self.native_bindings,
    {
        &self.native_bindings
    }

    pub fn type_ref(&self) -> (r: &TypeDefinitionTypeReference)
        ensures
            *r == self.type_ref,
    {
        &self.type_ref
    }
}

} // verus!
