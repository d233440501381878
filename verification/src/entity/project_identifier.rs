//! `ProjectIdentifier`: the `group:name` identity of a project, used
//! as an equality key for deduplication.

use crate::strings::{spec_split, split_char, str_eq};
use vstd::prelude::*;

verus! {

/// The mathematical content of a [`ProjectIdentifier`].
pub struct ProjectIdentifierView {
    pub group: Seq<char>,
    pub name: Seq<char>,
}

#[derive(Debug, PartialEq, Eq, Hash, PartialOrd, Ord)]
pub struct ProjectIdentifier {
    pub group: String,
    pub name: String,
}

impl View for ProjectIdentifier {
    type V = ProjectIdentifierView;

    open spec fn view(&self) -> ProjectIdentifierView {
        ProjectIdentifierView { group: self.group@, name: self.name@ }
    }
}

/// The canonical `group:name` string form.
pub open spec fn project_identifier_chars(v: ProjectIdentifierView) -> Seq<char> {
    v.group + ":"@ + v.name
}

/// Parsing the canonical form: exactly two `:`-separated parts.
pub open spec fn parse_project_identifier(s: Seq<char>) -> Option<ProjectIdentifierView> {
    let ps = spec_split(s, ':');
    if ps.len() == 2 {
        Some(ProjectIdentifierView { group: ps[0], name: ps[1] })
    } else {
        None
    }
}

impl Clone for ProjectIdentifier {
    fn clone(&self) -> (r: Self)
        ensures
            r@ == self@,
    {
        ProjectIdentifier { group: self.group.clone(), name: self.name.clone() }
    }
}

impl ProjectIdentifier {
    pub fn new(group: &str, name: &str) -> (r: Self)
        ensures
            r@ == (ProjectIdentifierView { group: group@, name: name@ }),
    {
        ProjectIdentifier { group: group.to_owned(), name: name.to_owned() }
    }

    pub fn group(&self) -> (r: &str)
        ensures
            r@ == self@.group,
    {
        self.group.as_str()
    }

    pub fn name(&self) -> (r: &str)
        ensures
            r@ == self@.name,
    {
        self.name.as_str()
    }

    /// The canonical `group:name` string form.
    pub fn to_string(&self) -> (r: String)
        ensures
            r@ == project_identifier_chars(self@),
    {
        let mut r = self.group.clone();
        r.append(":");
        r.append(self.name.as_str());
        r
    }

    /// Parses the canonical `group:name` form.
    pub fn from_str(s: &str) -> (r: Option<Self>)
        ensures
            r is Some <==> parse_project_identifier(s@) is Some,
            r matches Some(id) ==> Some(id@) == parse_project_identifier(s@),
    {
        let parts = split_char(s, ':');
        if parts.len() == 2 {
            Some(ProjectIdentifier::new(parts[0].as_str(), parts[1].as_str()))
        } else {
            None
        }
    }

    /// Identity comparison: two identifiers are the same project when
    /// group and name agree.
    pub fn id_eq(&self, other: &ProjectIdentifier) -> (r: bool)
        ensures
            r == (self@ == other@),
    {
        str_eq(self.group.as_str(), other.group.as_str()) && str_eq(
            self.name.as_str(),
            other.name.as_str(),
        )
    }
}

/// Parsing undoes printing whenever neither component contains the
/// separator. (A `:` inside the group or the name makes the printed
/// form split into more than two parts.)
pub proof fn lemma_project_identifier_round_trip(v: ProjectIdentifierView)
    requires
        !v.group.contains(':'),
        !v.name.contains(':'),
    ensures
        parse_project_identifier(project_identifier_chars(v)) == Some(v),
{
    reveal_strlit(":");
    let parts = seq![v.group, v.name];
    assert(crate::strings::spec_join(seq![v.name], ':') == v.name);
    assert(parts.drop_first() =~= seq![v.name]);
    assert(crate::strings::spec_join(parts, ':') == v.group + seq![':'] + v.name);
    assert(project_identifier_chars(v) =~= crate::strings::spec_join(parts, ':'));
    crate::strings::lemma_split_join(parts, ':');
}

} // verus!
