//! The manifest of a source project: its identity, version, and
//! declared dependencies (an unordered list implying no resolution
//! order).

use crate::entity::dependency::DependencyReference;
use crate::entity::project_identifier::{ProjectIdentifier, ProjectIdentifierView};
use crate::entity::version::Version;
use vstd::prelude::*;

verus! {

#[derive(Debug, PartialEq, Eq)]
pub struct SourceManifest {
    pub group: String,
    pub name: String,
    pub version: Version,
    pub dependencies: Vec<DependencyReference>,
}

impl SourceManifest {
    pub fn new(
        group: &str,
        name: &str,
        version: Version,
        dependencies: Vec<DependencyReference>,
    ) -> (r: Self)
        ensures
            r.group@ == group@,
            r.name@ == name@,
            r.version == version,
            r.dependencies == dependencies,
    {
        SourceManifest {
            group: group.to_owned(),
            name: name.to_owned(),
            version,
            dependencies,
        }
    }

    /// The project identity that the manifest declares.
    pub fn identifier(&self) -> (r: ProjectIdentifier)
        ensures
            r@ == (ProjectIdentifierView { group: self.group@, name: self.name@ }),
    {
        ProjectIdentifier::new(self.group.as_str(), self.name.as_str())
    }
}

} // verus!
