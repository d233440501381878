//! `ProjectReference`: either the declaring project itself (`self`)
//! or an external project addressed as `group:name`.

use crate::strings::{spec_split, split_char, str_eq};
use vstd::prelude::*;

verus! {

/// The mathematical content of a [`ProjectReference`].
pub enum ProjectReferenceView {
    CurrentProject,
    External { group: Seq<char>, name: Seq<char> },
}

#[derive(Debug, PartialEq, Eq)]
pub enum ProjectReference {
    CurrentProject,
    External { group: String, name: String },
}

impl View for ProjectReference {
    type V = ProjectReferenceView;

    open spec fn view(&self) -> ProjectReferenceView {
        match self {
            ProjectReference::CurrentProject => ProjectReferenceView::CurrentProject,
            ProjectReference::External { group, name } => ProjectReferenceView::External {
                group: group@,
                name: name@,
            },
        }
    }
}

#[derive(Debug, PartialEq, Eq, Structural, Clone, Copy)]
pub struct ParseProjectReferenceError;

/// The canonical string form: `self`, or `group:name`.
pub open spec fn project_reference_chars(v: ProjectReferenceView) -> Seq<char> {
    match v {
        ProjectReferenceView::CurrentProject => "self"@,
        ProjectReferenceView::External { group, name } => group + ":"@ + name,
    }
}

/// Parsing: the word `self`, or exactly two `:`-separated parts.
pub open spec fn parse_project_reference(s: Seq<char>) -> Option<ProjectReferenceView> {
    if s == "self"@ {
        Some(ProjectReferenceView::CurrentProject)
    } else {
        let ps = spec_split(s, ':');
        if ps.len() == 2 {
            Some(ProjectReferenceView::External { group: ps[0], name: ps[1] })
        } else {
            None
        }
    }
}

/// Whether the printed form of a reference parses back to it: an
/// external group or name containing `:` would split into extra parts.
pub open spec fn project_reference_printable(v: ProjectReferenceView) -> bool {
    match v {
        ProjectReferenceView::CurrentProject => true,
        ProjectReferenceView::External { group, name } => !group.contains(':')
            && !name.contains(':'),
    }
}

/// Whether the printed form contains no `/`, so that it survives
/// inside a `/`-joined declaration reference.
pub open spec fn project_reference_slash_free(v: ProjectReferenceView) -> bool {
    match v {
        ProjectReferenceView::CurrentProject => true,
        ProjectReferenceView::External { group, name } => !group.contains('/')
            && !name.contains('/'),
    }
}

impl Clone for ProjectReference {
    fn clone(&self) -> (r: Self)
        ensures
            r@ == self@,
    {
        match self {
            ProjectReference::CurrentProject => ProjectReference::CurrentProject,
            ProjectReference::External { group, name } => ProjectReference::External {
                group: group.clone(),
                name: name.clone(),
            },
        }
    }
}

impl ProjectReference {
    /// The self-reference.
    pub fn currentt() -> (r: Self)
        ensures
            r@ == ProjectReferenceView::CurrentProject,
    {
        ProjectReference::CurrentProject
    }

    pub fn external(group: &str, name: &str) -> (r: Self)
        ensures
            r@ == (ProjectReferenceView::External { group: group@, name: name@ }),
    {
        ProjectReference::External { group: group.to_owned(), name: name.to_owned() }
    }

    /// The canonical string form.
    pub fn to_string(&self) -> (r: String)
        ensures
            r@ == project_reference_chars(self@),
    {
        match self {
            ProjectReference::CurrentProject => "self".to_owned(),
            ProjectReference::External { group, name } => {
                let mut r = group.clone();
                r.append(":");
                r.append(name.as_str());
                r
            },
        }
    }

    /// Parses the canonical string form; [`parse_project_reference`]
    /// says exactly which strings are accepted.
    pub fn from_str(s: &str) -> (r: Result<Self, ParseProjectReferenceError>)
        ensures
            r is Ok <==> parse_project_reference(s@) is Some,
            r matches Ok(v) ==> Some(v@) == parse_project_reference(s@),
    {
        if str_eq(s, "self") {
            return Ok(ProjectReference::CurrentProject);
        }
        let parts = split_char(s, ':');
        if parts.len() == 2 {
            Ok(ProjectReference::external(parts[0].as_str(), parts[1].as_str()))
        } else {
            Err(ParseProjectReferenceError)
        }
    }
}

/// Parsing undoes printing for every printable reference.
pub proof fn lemma_project_reference_round_trip(v: ProjectReferenceView)
    requires
        project_reference_printable(v),
    ensures
        parse_project_reference(project_reference_chars(v)) == Some(v),
{
    match v {
        ProjectReferenceView::CurrentProject => {
        },
        ProjectReferenceView::External { group, name } => {
            reveal_strlit(":");
            reveal_strlit("self");
            let s = project_reference_chars(v);
            let parts = seq![group, name];
            assert(crate::strings::spec_join(seq![name], ':') == name);
            assert(parts.drop_first() =~= seq![name]);
            assert(s =~= crate::strings::spec_join(parts, ':'));
            // The printed form holds a `:`, which `self` does not.
            assert(s[group.len() as int] == ':');
            if s == "self"@ {
                assert(s.len() == 4);
                assert(forall|i: int| 0 <= i < 4 ==> "self"@[i] != ':');
            }
            crate::strings::lemma_split_join(parts, ':');
        },
    }
}

} // verus!
