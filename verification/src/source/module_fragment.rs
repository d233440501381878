//! A module fragment: one file's contribution of declarations at one
//! module path. Several fragments may share a path; merging them is
//! the right-biased union of their definition bags.

use crate::entity::epath::EPath;
use crate::source::module_definitions::{defs_merge, ModuleDefinitions, ModuleDefinitionsView};
use crate::string_map::{lemma_map_merge_lookup, map_contains_key, map_lookup, map_wf};
use vstd::prelude::*;

verus! {

/// The mathematical content of a [`SourceModuleFragment`].
#[verifier::ext_equal]
pub struct SourceModuleFragmentView {
    pub path: Seq<Seq<char>>,
    pub definitions: ModuleDefinitionsView,
}

#[derive(Debug, PartialEq, Eq)]
pub struct SourceModuleFragment {
    pub path: EPath,
    pub definitions: ModuleDefinitions,
}

impl View for SourceModuleFragment {
    type V = SourceModuleFragmentView;

    open spec fn view(&self) -> SourceModuleFragmentView {
        SourceModuleFragmentView { path: self.path@, definitions: self.definitions@ }
    }
}

/// Merging a fragment into another at the same path: the path stays,
/// the definition bags take their right-biased union.
pub open spec fn frag_merge(a: SourceModuleFragmentView, b: SourceModuleFragmentView)
    -> SourceModuleFragmentView {
    SourceModuleFragmentView { path: a.path, definitions: defs_merge(a.definitions, b.definitions) }
}

impl SourceModuleFragment {
    pub fn new(path: EPath, definitions: ModuleDefinitions) -> (r: Self)
        ensures
            r@ == (SourceModuleFragmentView { path: path@, definitions: definitions@ }),
    {
        SourceModuleFragment { path, definitions }
    }

    pub fn definitions(&self) -> (r: &ModuleDefinitions)
        ensures
            r@ == self@.definitions,
    {
        &self.definitions
    }

    pub fn path(&self) -> (r: &EPath)
        ensures
            r@ == self@.path,
    {
        &self.path
    }

    /// Absorbs `other`'s declarations, as [`frag_merge`] says: on a
    /// duplicate name, `other`'s declaration wins.
    pub fn merge_with(&mut self, other: SourceModuleFragment)
        ensures
            final(self)@ == frag_merge(old(self)@, other@),
    {
        let SourceModuleFragment { path: _, definitions } = other;
        self.definitions.merge_with(definitions);
    }
}

/// Merge bias: a type name that the later fragment declares (its
/// keys being unique) is found with the later fragment's definition
/// in the merged fragment; any other name keeps the earlier
/// fragment's definition.
pub proof fn lemma_fragment_merge_bias(
    a: SourceModuleFragmentView,
    b: SourceModuleFragmentView,
    name: Seq<char>,
)
    requires
        map_wf(b.definitions.types),
    ensures
        map_lookup(frag_merge(a, b).definitions.types, name) == if map_contains_key(
            b.definitions.types,
            name,
        ) {
            map_lookup(b.definitions.types, name)
        } else {
            map_lookup(a.definitions.types, name)
        },
{
    lemma_map_merge_lookup(a.definitions.types, b.definitions.types, name);
}

} // verus!
