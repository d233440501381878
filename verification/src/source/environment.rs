//! The `SourceEnvironment`: the full loaded project set plus the
//! designated target project. A fresh environment is seeded with the
//! bundled `stdlib` project, which the embedding loader obtains from
//! its asset store; loading a project whose identity is already
//! present is a hard error — no shadowing.

use crate::entity::project_identifier::{
    project_identifier_chars, ProjectIdentifier, ProjectIdentifierView,
};
use crate::source::project::{project_id, ProjectLoadingError, SourceProject};
use vstd::prelude::*;

verus! {

#[derive(Debug)]
pub enum EnvironmentInitializationError {
    ProjectLoadingError(ProjectLoadingError),
    ProjectDublicated { project_name: String },
}

/// Whether the project set already holds a project of this identity.
pub open spec fn contains_project(ps: Seq<SourceProject>, id: ProjectIdentifierView) -> bool {
    exists|i: int| 0 <= i < ps.len() && project_id(#[trigger] ps[i]) == id
}

#[derive(Debug)]
pub struct SourceEnvironment {
    pub projects: Vec<SourceProject>,
    pub target_project: Option<ProjectIdentifier>,
}

impl SourceEnvironment {
    /// A fresh environment: only the bundled standard library is
    /// loaded, and no target project is designated yet.
    pub fn new(stdlib: SourceProject) -> (r: Self)
        ensures
            r.projects@.len() == 1,
            r.projects@[0] == stdlib,
            r.target_project is None,
    {
        let mut projects: Vec<SourceProject> = Vec::new();
        projects.push(stdlib);
        SourceEnvironment { projects, target_project: None }
    }

    /// Adds one loaded project. A project whose identity is already
    /// present is refused with the duplicate-project error, and the
    /// environment is left unchanged.
    pub fn load_project(&mut self, project: SourceProject) -> (r: Result<
        (),
        EnvironmentInitializationError,
    >)
        ensures
            r is Ok <==> !contains_project(old(self).projects@, project_id(project)),
            r is Ok ==> final(self).projects@ == old(self).projects@.push(project),
            r matches Err(EnvironmentInitializationError::ProjectDublicated { project_name })
                ==> {
                &&& contains_project(old(self).projects@, project_id(project))
                &&& project_name@ == project_identifier_chars(project_id(project))
                &&& final(self).projects@ == old(self).projects@
            },
            r matches Err(EnvironmentInitializationError::ProjectLoadingError(_)) ==> false,
            final(self).target_project == old(self).target_project,
    {
        let pid = project.identifier();
        let mut i: usize = 0;
        while i < self.projects.len()
            invariant
                i <= self.projects@.len(),
                pid@ == project_id(project),
                self == old(self),
                forall|j: int|
                    0 <= j < i ==> project_id(#[trigger] self.projects@[j]) != project_id(
                        project,
                    ),
            decreases self.projects@.len() - i,
        {
            if self.projects[i].identifier().id_eq(&pid) {
                return Err(
                    EnvironmentInitializationError::ProjectDublicated {
                        project_name: pid.to_string(),
                    },
                );
            }
            i += 1;
        }
        proof {
            if contains_project(self.projects@, project_id(project)) {
                let j = choose|j: int|
                    0 <= j < self.projects@.len() && project_id(#[trigger] self.projects@[j])
                        == project_id(project);
            }
        }
        self.projects.push(project);
        Ok(())
    }

    /// Designates the project a resolution run will be produced for.
    pub fn set_target_project(&mut self, identifier: ProjectIdentifier)
        ensures
            final(self).projects@ == old(self).projects@,
            final(self).target_project == Some(identifier),
    {
        self.target_project = Some(identifier);
    }

    pub fn projects(&self) -> (r: &Vec<SourceProject>)
        ensures
            r@ == self.projects@,
    {
        &self.projects
    }

    pub fn target_project(&self) -> (r: Option<&ProjectIdentifier>)
        ensures
            match r {
                Some(id) => self.target_project == Some(*id),
                None => self.target_project is None,
            },
    {
        self.target_project.as_ref()
    }
}

} // verus!
