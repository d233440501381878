//! Queries over the source environment a resolver was formed on:
//! which projects a resolution run would cover.

use crate::entity::project_identifier::ProjectIdentifier;
use crate::resolver::resolver_impl::Resolver;
use crate::source::environment::SourceEnvironment;
use crate::source::project::project_id;
use vstd::prelude::*;

verus! {

/// A selection of projects out of one source environment.
#[derive(Debug)]
pub struct ProjectQuery<'env> {
    pub env: &'env SourceEnvironment,
    pub projects: Vec<ProjectIdentifier>,
}

impl<'env> Resolver<'env> {
    /// The query covering only the designated target project; `None`
    /// when no target project is set.
    pub fn form_target_project(&self) -> (r: Option<ProjectQuery<'env>>)
        ensures
            r is Some <==> self.env.target_project is Some,
            r matches Some(q) ==> {
                &&& q.env == self.env
                &&& q.projects@.len() == 1
                &&& self.env.target_project matches Some(t) && q.projects@[0]@ == t@
            },
    {
        match self.env.target_project() {
            Some(t) => {
                let mut projects: Vec<ProjectIdentifier> = Vec::new();
                projects.push(t.clone());
                Some(ProjectQuery { env: self.env, projects })
            },
            None => None,
        }
    }

    /// The query covering every loaded project, in load order.
    pub fn form_all_projects(&self) -> (r: Option<ProjectQuery<'env>>)
        ensures
            r matches Some(q) ==> {
                &&& q.env == self.env
                &&& q.projects@.len() == self.env.projects@.len()
                &&& forall|i: int|
                    0 <= i < q.projects@.len() ==> (#[trigger] q.projects@[i])@ == project_id(
                        self.env.projects@[i],
                    )
            },
            r is Some,
    {
        let mut projects: Vec<ProjectIdentifier> = Vec::new();
        let all = self.env.projects();
        let mut i: usize = 0;
        while i < all.len()
            invariant
                i <= all@.len(),
                all@ == self.env.projects@,
                projects@.len() == i,
                forall|j: int|
                    0 <= j < i ==> (#[trigger] projects@[j])@ == project_id(
                        self.env.projects@[j],
                    ),
            decreases all@.len() - i,
        {
            projects.push(all[i].identifier());
            i += 1;
        }
        Some(ProjectQuery { env: self.env, projects })
    }
}

} // verus!
