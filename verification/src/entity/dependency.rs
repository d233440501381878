//! `DependencyReference`: a managed dependency on another project,
//! written `group:name:version`. The reserved group `ams` marks
//! dependencies managed by the toolchain itself.

use crate::entity::version::{
    parse_version, version_chars, Version, VersionParsingError,
};
use crate::strings::{
    lemma_join_concat, lemma_split_join, spec_join, spec_split, split_char, str_eq,
};
use vstd::prelude::*;

verus! {

/// The mathematical content of a [`DependencyReference`].
pub enum DependencyReferenceView {
    Managed { group: Seq<char>, name: Seq<char>, version: Version },
}

#[derive(Debug, PartialEq, Eq)]
pub enum DependencyReference {
    Managed { name: String, group: String, version: Version },
}

impl View for DependencyReference {
    type V = DependencyReferenceView;

    open spec fn view(&self) -> DependencyReferenceView {
        match self {
            DependencyReference::Managed { name, group, version } => {
                DependencyReferenceView::Managed { group: group@, name: name@, version: *version }
            },
        }
    }
}

#[derive(Debug, PartialEq, Eq)]
pub enum DependencyReferenceParsingError {
    InvalidDependencyFormat,
    InvalidVersionFormat(VersionParsingError),
}

/// The canonical string form `group:name:version`.
pub open spec fn dependency_reference_chars(v: DependencyReferenceView) -> Seq<char> {
    match v {
        DependencyReferenceView::Managed { group, name, version } => {
            group + ":"@ + name + ":"@ + version_chars(version)
        },
    }
}

/// Parsing: exactly three `:`-separated parts whose last is a
/// well-formed version.
pub open spec fn parse_dependency_reference(s: Seq<char>) -> Option<DependencyReferenceView> {
    let ps = spec_split(s, ':');
    if ps.len() != 3 {
        None
    } else {
        match parse_version(ps[2]) {
            Some(version) => Some(
                DependencyReferenceView::Managed { group: ps[0], name: ps[1], version },
            ),
            None => None,
        }
    }
}

/// Whether a dependency names the reserved `ams` group.
pub open spec fn is_ams(v: DependencyReferenceView) -> bool {
    match v {
        DependencyReferenceView::Managed { group, .. } => group == "ams"@,
    }
}

impl DependencyReference {
    /// Whether the dependency names the reserved `ams` group.
    pub fn is_ams_dependency(&self) -> (r: bool)
        ensures
            r == is_ams(self@),
    {
        match self {
            DependencyReference::Managed { group, .. } => str_eq(group.as_str(), "ams"),
        }
    }

    /// The canonical string form.
    pub fn to_string(&self) -> (r: String)
        ensures
            r@ == dependency_reference_chars(self@),
    {
        match self {
            DependencyReference::Managed { group, name, version } => {
                let mut r = group.clone();
                r.append(":");
                r.append(name.as_str());
                r.append(":");
                let version_str = version.to_string();
                r.append(version_str.as_str());
                r
            },
        }
    }

    /// Parses the `group:name:version` form;
    /// [`parse_dependency_reference`] says exactly which strings are
    /// accepted, and the error tells a malformed shape apart from a
    /// malformed version.
    pub fn from_str(s: &str) -> (r: Result<Self, DependencyReferenceParsingError>)
        ensures
            r is Ok <==> parse_dependency_reference(s@) is Some,
            r matches Ok(d) ==> Some(d@) == parse_dependency_reference(s@),
            r matches Err(DependencyReferenceParsingError::InvalidDependencyFormat) ==> spec_split(
                s@,
                ':',
            ).len() != 3,
            r matches Err(DependencyReferenceParsingError::InvalidVersionFormat(e)) ==> {
                &&& spec_split(s@, ':').len() == 3
                &&& parse_version(spec_split(s@, ':')[2]) is None
                &&& e matches VersionParsingError::InvalidVersionFormat { raw } && raw@
                    == spec_split(s@, ':')[2]
            },
    {
        let parts = split_char(s, ':');
        if parts.len() != 3 {
            return Err(DependencyReferenceParsingError::InvalidDependencyFormat);
        }
        match Version::from_str(parts[2].as_str()) {
            Ok(version) => Ok(
                DependencyReference::Managed {
                    group: parts[0].clone(),
                    name: parts[1].clone(),
                    version,
                },
            ),
            Err(e) => Err(DependencyReferenceParsingError::InvalidVersionFormat(e)),
        }
    }
}

/// A printed version never contains `:`.
proof fn lemma_version_chars_no_colon(v: Version)
    ensures
        !version_chars(v).contains(':'),
{
    reveal_strlit("latest");
    reveal_strlit(".");
    let s = version_chars(v);
    match v {
        Version::Latest => {
            if s.contains(':') {
                let i = choose|i: int| 0 <= i < s.len() && s[i] == ':';
            }
        },
        Version::Semver { major, minor, patch } => {
            crate::strings::lemma_dec_digits(major as int);
            crate::strings::lemma_dec_digits(minor as int);
            crate::strings::lemma_dec_digits(patch as int);
            let a = crate::strings::dec_digits(major as int);
            let b = crate::strings::dec_digits(minor as int);
            let c = crate::strings::dec_digits(patch as int);
            if s.contains(':') {
                let i = choose|i: int| 0 <= i < s.len() && s[i] == ':';
                if i < a.len() {
                    assert(crate::strings::is_digit(a[i]));
                } else if i == a.len() {
                    assert(s[i] == '.');
                } else if i < a.len() + 1 + b.len() {
                    assert(crate::strings::is_digit(b[i - a.len() - 1]));
                } else if i == a.len() + 1 + b.len() {
                    assert(s[i] == '.');
                } else {
                    assert(crate::strings::is_digit(c[i - a.len() - b.len() - 2]));
                }
            }
        },
    }
}

/// Parsing undoes printing whenever neither the group nor the name
/// contains the separator. (A `:` inside either splits the printed
/// form into more than three parts.)
pub proof fn lemma_dependency_reference_round_trip(v: DependencyReferenceView)
    requires
        match v {
            DependencyReferenceView::Managed { group, name, .. } => !group.contains(':')
                && !name.contains(':'),
        },
    ensures
        parse_dependency_reference(dependency_reference_chars(v)) == Some(v),
{
    match v {
        DependencyReferenceView::Managed { group, name, version } => {
            reveal_strlit(":");
            let vc = version_chars(version);
            lemma_version_chars_no_colon(version);
            let s = dependency_reference_chars(v);
            let parts = seq![group, name, vc];
            assert(spec_join(seq![vc], ':') == vc);
            assert(seq![name, vc].drop_first() =~= seq![vc]);
            assert(spec_join(seq![name, vc], ':') == name + seq![':'] + vc);
            assert(parts.drop_first() =~= seq![name, vc]);
            assert(spec_join(parts, ':') == group + seq![':'] + (name + seq![':'] + vc));
            assert(s =~= spec_join(parts, ':'));
            lemma_split_join(parts, ':');
            let ps = spec_split(s, ':');
            assert(ps == parts);
            crate::entity::version::lemma_version_round_trip(version);
        },
    }
}

} // verus!
