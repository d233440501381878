//! `DeclarationReferenceFilter`: the import filter of a module's
//! `uses` list, written `project/module/path/<name|*|**>`. The data
//! model is present for loaders even though the resolver does not yet
//! consume it.

use crate::entity::epath::{epath_chars, EPath};
use crate::source::project_reference::{
    parse_project_reference, project_reference_chars, project_reference_printable,
    project_reference_slash_free, ProjectReference, ProjectReferenceView,
};
use crate::strings::{
    lemma_join_concat, lemma_split_join, lemma_split_len, spec_join, spec_split, split_char,
    str_eq,
};
use vstd::prelude::*;

verus! {

/// The mathematical content of a [`DeclarationReferenceFilterMode`].
pub enum DeclarationReferenceFilterModeView {
    Specific { name: Seq<char> },
    Everything,
    EverythingRecursive,
}

/// What the filter selects at its module path: one named declaration,
/// everything in the module (`*`), or everything below it too (`**`).
#[derive(Debug, PartialEq, Eq)]
pub enum DeclarationReferenceFilterMode {
    Specific { name: String },
    Everything,
    EverythingRecursive,
}

impl View for DeclarationReferenceFilterMode {
    type V = DeclarationReferenceFilterModeView;

    open spec fn view(&self) -> DeclarationReferenceFilterModeView {
        match self {
            DeclarationReferenceFilterMode::Specific { name } => {
                DeclarationReferenceFilterModeView::Specific { name: name@ }
            },
            DeclarationReferenceFilterMode::Everything => {
                DeclarationReferenceFilterModeView::Everything
            },
            DeclarationReferenceFilterMode::EverythingRecursive => {
                DeclarationReferenceFilterModeView::EverythingRecursive
            },
        }
    }
}

/// The mathematical content of a [`DeclarationReferenceFilter`].
pub struct DeclarationReferenceFilterView {
    pub project: ProjectReferenceView,
    pub path: Seq<Seq<char>>,
    pub mode: DeclarationReferenceFilterModeView,
}

#[derive(Debug, PartialEq, Eq)]
pub struct DeclarationReferenceFilter {
    pub project: ProjectReference,
    pub path: EPath,
    pub mode: DeclarationReferenceFilterMode,
}

impl View for DeclarationReferenceFilter {
    type V = DeclarationReferenceFilterView;

    open spec fn view(&self) -> DeclarationReferenceFilterView {
        DeclarationReferenceFilterView {
            project: self.project@,
            path: self.path@,
            mode: self.mode@,
        }
    }
}

#[derive(Debug, PartialEq, Eq, Structural, Clone, Copy)]
pub enum DeclarationReferenceFilterParsingError {
    InvalidFilterFormat,
    InvalidProjectReference,
}

pub open spec fn filter_mode_chars(v: DeclarationReferenceFilterModeView) -> Seq<char> {
    match v {
        DeclarationReferenceFilterModeView::Specific { name } => name,
        DeclarationReferenceFilterModeView::Everything => "*"@,
        DeclarationReferenceFilterModeView::EverythingRecursive => "**"@,
    }
}

/// Parsing a mode never fails: `*` and `**` are the wildcards, any
/// other string names one declaration.
pub open spec fn parse_filter_mode(s: Seq<char>) -> DeclarationReferenceFilterModeView {
    if s == "*"@ {
        DeclarationReferenceFilterModeView::Everything
    } else if s == "**"@ {
        DeclarationReferenceFilterModeView::EverythingRecursive
    } else {
        DeclarationReferenceFilterModeView::Specific { name: s }
    }
}

/// The canonical string form `project/module/path/mode`.
pub open spec fn filter_chars(v: DeclarationReferenceFilterView) -> Seq<char> {
    project_reference_chars(v.project) + "/"@ + epath_chars(v.path) + "/"@ + filter_mode_chars(
        v.mode,
    )
}

/// Parsing: at least two `/`-separated parts; the first must be a
/// project reference, the last is the mode, the middle parts form the
/// module path (empty when there are exactly two parts).
pub open spec fn parse_filter(s: Seq<char>) -> Result<
    DeclarationReferenceFilterView,
    DeclarationReferenceFilterParsingError,
> {
    let ps = spec_split(s, '/');
    if ps.len() < 2 {
        Err(DeclarationReferenceFilterParsingError::InvalidFilterFormat)
    } else {
        match parse_project_reference(ps[0]) {
            None => Err(DeclarationReferenceFilterParsingError::InvalidProjectReference),
            Some(project) => Ok(
                DeclarationReferenceFilterView {
                    project,
                    path: if ps.len() == 2 {
                        Seq::empty()
                    } else {
                        ps.subrange(1, ps.len() - 1)
                    },
                    mode: parse_filter_mode(ps.last()),
                },
            ),
        }
    }
}

impl DeclarationReferenceFilterMode {
    pub fn specific(name: &str) -> (r: Self)
        ensures
            r@ == (DeclarationReferenceFilterModeView::Specific { name: name@ }),
    {
        DeclarationReferenceFilterMode::Specific { name: name.to_owned() }
    }

    pub fn everything() -> (r: Self)
        ensures
            r@ == DeclarationReferenceFilterModeView::Everything,
    {
        DeclarationReferenceFilterMode::Everything
    }

    pub fn everything_recursive() -> (r: Self)
        ensures
            r@ == DeclarationReferenceFilterModeView::EverythingRecursive,
    {
        DeclarationReferenceFilterMode::EverythingRecursive
    }

    /// The canonical string form of the mode alone.
    pub fn to_string(&self) -> (r: String)
        ensures
            r@ == filter_mode_chars(self@),
    {
        match self {
            DeclarationReferenceFilterMode::Specific { name } => name.clone(),
            DeclarationReferenceFilterMode::Everything => "*".to_owned(),
            DeclarationReferenceFilterMode::EverythingRecursive => "**".to_owned(),
        }
    }

    /// Parses a mode; every string parses, as [`parse_filter_mode`]
    /// says.
    pub fn from_str(s: &str) -> (r: Self)
        ensures
            r@ == parse_filter_mode(s@),
    {
        if str_eq(s, "*") {
            DeclarationReferenceFilterMode::Everything
        } else if str_eq(s, "**") {
            DeclarationReferenceFilterMode::EverythingRecursive
        } else {
            DeclarationReferenceFilterMode::Specific { name: s.to_owned() }
        }
    }
}

impl DeclarationReferenceFilter {
    pub fn new(
        project: ProjectReference,
        path: EPath,
        mode: DeclarationReferenceFilterMode,
    ) -> (r: Self)
        ensures
            r@ == (DeclarationReferenceFilterView {
                project: project@,
                path: path@,
                mode: mode@,
            }),
    {
        DeclarationReferenceFilter { project, path, mode }
    }

    /// The canonical string form.
    pub fn to_string(&self) -> (r: String)
        ensures
            r@ == filter_chars(self@),
    {
        let mut r = self.project.to_string();
        r.append("/");
        let path_str = self.path.to_string();
        r.append(path_str.as_str());
        r.append("/");
        let mode_str = self.mode.to_string();
        r.append(mode_str.as_str());
        r
    }

    /// Parses the filter grammar; [`parse_filter`] says exactly what
    /// each string yields.
    pub fn from_str(s: &str) -> (r: Result<Self, DeclarationReferenceFilterParsingError>)
        ensures
            r is Ok <==> parse_filter(s@) is Ok,
            r matches Ok(f) ==> parse_filter(s@) == Ok::<
                _,
                DeclarationReferenceFilterParsingError,
            >(f@),
            r matches Err(e) ==> parse_filter(s@) == Err::<DeclarationReferenceFilterView, _>(e),
    {
        let parts = split_char(s, '/');
        proof {
            lemma_split_len(s@, '/');
        }
        if parts.len() < 2 {
            return Err(DeclarationReferenceFilterParsingError::InvalidFilterFormat);
        }
        match ProjectReference::from_str(parts[0].as_str()) {
            Err(_) => Err(DeclarationReferenceFilterParsingError::InvalidProjectReference),
            Ok(project) => {
                let mode = DeclarationReferenceFilterMode::from_str(
                    parts[parts.len() - 1].as_str(),
                );
                proof {
                    assert(parts.deep_view().last() == parts@[parts@.len() - 1]@);
                }
                let mut path_segments: Vec<String> = Vec::new();
                let mut i: usize = 1;
                while i < parts.len() - 1
                    invariant
                        1 <= i <= parts@.len() - 1,
                        path_segments.deep_view() =~= parts.deep_view().subrange(1, i as int),
                    decreases parts@.len() - i,
                {
                    let ghost prev = path_segments.deep_view();
                    let piece = parts[i].clone();
                    path_segments.push(piece);
                    proof {
                        assert(path_segments.deep_view() =~= prev.push(piece@));
                        assert(prev.push(piece@) =~= parts.deep_view().subrange(1, i + 1));
                    }
                    i += 1;
                }
                proof {
                    if parts.deep_view().len() == 2 {
                        assert(path_segments.deep_view() =~= Seq::<Seq<char>>::empty());
                    }
                }
                Ok(
                    DeclarationReferenceFilter {
                        project,
                        path: EPath::new(path_segments),
                        mode,
                    },
                )
            },
        }
    }
}

/// Parsing undoes printing for every filter with a non-empty,
/// slash-free module path, a printable project reference, and a mode
/// that is either a wildcard or a specific slash-free name other than
/// the wildcards themselves. (An empty path prints as `project//mode`
/// and parses back with a one-empty-segment path; a specific name
/// `*` or `**` parses back as the wildcard.)
pub proof fn lemma_filter_round_trip(v: DeclarationReferenceFilterView)
    requires
        v.path.len() >= 1,
        forall|i: int| 0 <= i < v.path.len() ==> !(#[trigger] v.path[i]).contains('/'),
        project_reference_printable(v.project),
        project_reference_slash_free(v.project),
        match v.mode {
            DeclarationReferenceFilterModeView::Specific { name } => {
                &&& !name.contains('/')
                &&& name != "*"@
                &&& name != "**"@
            },
            _ => true,
        },
    ensures
        parse_filter(filter_chars(v)) == Ok::<_, DeclarationReferenceFilterParsingError>(v),
{
    reveal_strlit("/");
    reveal_strlit("self");
    reveal_strlit(":");
    reveal_strlit("*");
    reveal_strlit("**");
    let pc = project_reference_chars(v.project);
    assert(!pc.contains('/')) by {
        match v.project {
            ProjectReferenceView::CurrentProject => {
                assert(forall|i: int| 0 <= i < "self"@.len() ==> "self"@[i] != '/');
                if pc.contains('/') {
                    let i = choose|i: int| 0 <= i < pc.len() && pc[i] == '/';
                }
            },
            ProjectReferenceView::External { group, name } => {
                if pc.contains('/') {
                    let i = choose|i: int| 0 <= i < pc.len() && pc[i] == '/';
                    if i < group.len() {
                        assert(group[i] == '/');
                    } else if i == group.len() {
                        assert(pc[i] == ':');
                    } else {
                        assert(name[i - group.len() - 1] == '/');
                    }
                }
            },
        }
    }
    let mc = filter_mode_chars(v.mode);
    assert(!mc.contains('/')) by {
        match v.mode {
            DeclarationReferenceFilterModeView::Specific { name } => {
            },
            DeclarationReferenceFilterModeView::Everything => {
                if mc.contains('/') {
                    let i = choose|i: int| 0 <= i < mc.len() && mc[i] == '/';
                }
            },
            DeclarationReferenceFilterModeView::EverythingRecursive => {
                if mc.contains('/') {
                    let i = choose|i: int| 0 <= i < mc.len() && mc[i] == '/';
                }
            },
        }
    }
    let s = filter_chars(v);
    let head = seq![pc] + v.path;
    let parts = head + seq![mc];
    lemma_join_concat(seq![pc], v.path, '/');
    assert(spec_join(seq![pc], '/') == pc);
    lemma_join_concat(head, seq![mc], '/');
    assert(spec_join(seq![mc], '/') == mc);
    assert(spec_join(head, '/') == pc + seq!['/'] + spec_join(v.path, '/'));
    assert(s =~= spec_join(parts, '/'));
    assert(forall|i: int| 0 <= i < parts.len() ==> !(#[trigger] parts[i]).contains('/')) by {
        assert(parts[0] == pc);
        assert(parts.last() == mc);
        assert(forall|i: int| 1 <= i < parts.len() - 1 ==> parts[i] == v.path[i - 1]);
    }
    lemma_split_join(parts, '/');
    let ps = spec_split(s, '/');
    assert(ps == parts);
    assert(ps.len() == v.path.len() + 2);
    assert(ps[0] == pc);
    crate::source::project_reference::lemma_project_reference_round_trip(v.project);
    assert(ps.subrange(1, ps.len() - 1) =~= v.path);
    assert(ps.last() == mc);
    assert(parse_filter_mode(mc) == v.mode) by {
        match v.mode {
            DeclarationReferenceFilterModeView::Specific { name } => {
            },
            DeclarationReferenceFilterModeView::Everything => {
                if "*"@ == "**"@ {
                    assert("*"@.len() == "**"@.len());
                }
            },
            DeclarationReferenceFilterModeView::EverythingRecursive => {
                if "**"@ == "*"@ {
                    assert("*"@.len() == "**"@.len());
                }
            },
        }
    }
}

} // verus!
