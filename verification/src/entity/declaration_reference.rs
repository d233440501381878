//! `DeclarationReference`: a symbolic address to a declaration,
//! either local to the referencing scope or fully qualified across
//! project and module boundaries.
//!
//! The string grammar splits on `/`: one segment is a local name, two
//! segments are a project reference plus a name with an empty module
//! path, three or more put the module path in the middle. The grammar
//! is ambiguous by design: a two-segment string cannot be told apart
//! from a name containing a slash; the split rule alone decides.

use crate::entity::epath::{epath_chars, EPath};
use crate::source::project_reference::{
    parse_project_reference, project_reference_chars, project_reference_printable,
    project_reference_slash_free, ProjectReference, ProjectReferenceView,
};
use crate::strings::{
    lemma_join_concat, lemma_split_join, lemma_split_len, lemma_split_no_sep, spec_join,
    spec_split, split_char,
};
use vstd::prelude::*;

verus! {

/// The mathematical content of a [`DeclarationReference`].
pub enum DeclarationReferenceView {
    FullyQualified {
        project_ref: ProjectReferenceView,
        module: Seq<Seq<char>>,
        name: Seq<char>,
    },
    Local { name: Seq<char> },
}

#[derive(Debug, PartialEq, Eq)]
pub enum DeclarationReference {
    FullyQualified { project_ref: ProjectReference, module: EPath, name: String },
    Local { name: String },
}

impl View for DeclarationReference {
    type V = DeclarationReferenceView;

    open spec fn view(&self) -> DeclarationReferenceView {
        match self {
            DeclarationReference::FullyQualified { project_ref, module, name } => {
                DeclarationReferenceView::FullyQualified {
                    project_ref: project_ref@,
                    module: module@,
                    name: name@,
                }
            },
            DeclarationReference::Local { name } => DeclarationReferenceView::Local {
                name: name@,
            },
        }
    }
}

#[derive(Debug, PartialEq, Eq, Structural, Clone, Copy)]
pub enum DeclarationReferenceError {
    InvalidFormat,
    InvalidProjectReference,
    InvalidEPath,
}

/// The canonical string form: the bare name for a local reference,
/// `project/module/path/name` for a fully qualified one. An empty
/// module path still contributes its empty joined form, producing
/// `project//name`.
pub open spec fn declaration_reference_chars(v: DeclarationReferenceView) -> Seq<char> {
    match v {
        DeclarationReferenceView::Local { name } => name,
        DeclarationReferenceView::FullyQualified { project_ref, module, name } => {
            project_reference_chars(project_ref) + "/"@ + epath_chars(module) + "/"@ + name
        },
    }
}

/// Parsing by the segment count of the `/`-split: one segment is
/// local, two are fully qualified with an empty module path, three or
/// more take the middle segments as the module path. The only failure
/// is a first segment that is no project reference.
pub open spec fn parse_declaration_reference(s: Seq<char>) -> Result<
    DeclarationReferenceView,
    DeclarationReferenceError,
> {
    let ps = spec_split(s, '/');
    if ps.len() == 1 {
        Ok(DeclarationReferenceView::Local { name: ps[0] })
    } else {
        match parse_project_reference(ps[0]) {
            None => Err(DeclarationReferenceError::InvalidProjectReference),
            Some(pr) => {
                if ps.len() == 2 {
                    Ok(
                        DeclarationReferenceView::FullyQualified {
                            project_ref: pr,
                            module: Seq::empty(),
                            name: ps[1],
                        },
                    )
                } else {
                    Ok(
                        DeclarationReferenceView::FullyQualified {
                            project_ref: pr,
                            module: ps.subrange(1, ps.len() - 1),
                            name: ps.last(),
                        },
                    )
                }
            },
        }
    }
}

impl DeclarationReference {
    pub fn fully_qualified(project_ref: ProjectReference, module: EPath, name: String) -> (r: Self)
        ensures
            r@ == (DeclarationReferenceView::FullyQualified {
                project_ref: project_ref@,
                module: module@,
                name: name@,
            }),
    {
        DeclarationReference::FullyQualified { project_ref, module, name }
    }

    pub fn local(name: String) -> (r: Self)
        ensures
            r@ == (DeclarationReferenceView::Local { name: name@ }),
    {
        DeclarationReference::Local { name }
    }

    /// The canonical string form.
    pub fn to_string(&self) -> (r: String)
        ensures
            r@ == declaration_reference_chars(self@),
    {
        match self {
            DeclarationReference::Local { name } => name.clone(),
            DeclarationReference::FullyQualified { project_ref, module, name } => {
                let mut r = project_ref.to_string();
                r.append("/");
                let module_str = module.to_string();
                r.append(module_str.as_str());
                r.append("/");
                r.append(name.as_str());
                r
            },
        }
    }

    /// Parses the string grammar; [`parse_declaration_reference`]
    /// says exactly what each string yields.
    pub fn from_str(s: &str) -> (r: Result<Self, DeclarationReferenceError>)
        ensures
            r is Ok <==> parse_declaration_reference(s@) is Ok,
            r matches Ok(d) ==> parse_declaration_reference(s@) == Ok::<
                _,
                DeclarationReferenceError,
            >(d@),
            r matches Err(e) ==> parse_declaration_reference(s@) == Err::<
                DeclarationReferenceView,
                _,
            >(e),
    {
        let parts = split_char(s, '/');
        proof {
            lemma_split_len(s@, '/');
        }
        if parts.len() == 1 {
            Ok(DeclarationReference::Local { name: parts[0].clone() })
        } else {
            match ProjectReference::from_str(parts[0].as_str()) {
                Err(_) => Err(DeclarationReferenceError::InvalidProjectReference),
                Ok(pr) => {
                    if parts.len() == 2 {
                        Ok(
                            DeclarationReference::FullyQualified {
                                project_ref: pr,
                                module: EPath::empty(),
                                name: parts[1].clone(),
                            },
                        )
                    } else {
                        let mut module_segments: Vec<String> = Vec::new();
                        let mut i: usize = 1;
                        while i < parts.len() - 1
                            invariant
                                1 <= i <= parts@.len() - 1,
                                module_segments.deep_view() =~= parts.deep_view().subrange(
                                    1,
                                    i as int,
                                ),
                            decreases parts@.len() - i,
                        {
                            let ghost prev = module_segments.deep_view();
                            let piece = parts[i].clone();
                            module_segments.push(piece);
                            proof {
                                assert(module_segments.deep_view() =~= prev.push(piece@));
                                assert(prev.push(piece@) =~= parts.deep_view().subrange(
                                    1,
                                    i + 1,
                                ));
                            }
                            i += 1;
                        }
                        let name = parts[parts.len() - 1].clone();
                        proof {
                            assert(name@ == parts.deep_view().last());
                        }
                        Ok(
                            DeclarationReference::FullyQualified {
                                project_ref: pr,
                                module: EPath::new(module_segments),
                                name,
                            },
                        )
                    }
                },
            }
        }
    }
}

/// Parsing undoes printing for every local reference whose name is
/// slash-free and every fully qualified reference with a non-empty,
/// slash-free module path, a printable project reference and a
/// slash-free name. (A fully qualified reference with an *empty*
/// module path prints as `project//name`, which parses back with a
/// one-empty-segment module path instead.)
pub proof fn lemma_declaration_reference_round_trip(v: DeclarationReferenceView)
    requires
        match v {
            DeclarationReferenceView::Local { name } => !name.contains('/'),
            DeclarationReferenceView::FullyQualified { project_ref, module, name } => {
                &&& module.len() >= 1
                &&& forall|i: int| 0 <= i < module.len() ==> !(#[trigger] module[i]).contains('/')
                &&& !name.contains('/')
                &&& project_reference_printable(project_ref)
                &&& project_reference_slash_free(project_ref)
            },
        },
    ensures
        parse_declaration_reference(declaration_reference_chars(v)) == Ok::<
            _,
            DeclarationReferenceError,
        >(v),
{
    match v {
        DeclarationReferenceView::Local { name } => {
            lemma_split_no_sep(name, '/');
        },
        DeclarationReferenceView::FullyQualified { project_ref, module, name } => {
            reveal_strlit("/");
            reveal_strlit("self");
            reveal_strlit(":");
            let pc = project_reference_chars(project_ref);
            assert(!pc.contains('/')) by {
                match project_ref {
                    ProjectReferenceView::CurrentProject => {
                        assert(forall|i: int| 0 <= i < "self"@.len() ==> "self"@[i] != '/');
                        if pc.contains('/') {
                            let i = choose|i: int| 0 <= i < pc.len() && pc[i] == '/';
                        }
                    },
                    ProjectReferenceView::External { group, name } => {
                        if pc.contains('/') {
                            let i = choose|i: int| 0 <= i < pc.len() && pc[i] == '/';
                            if i < group.len() {
                                assert(group[i] == '/');
                            } else if i == group.len() {
                                assert(pc[i] == ':');
                            } else {
                                assert(name[i - group.len() - 1] == '/');
                            }
                        }
                    },
                }
            }
            let s = declaration_reference_chars(v);
            let head = seq![pc] + module;
            let parts = head + seq![name];
            lemma_join_concat(seq![pc], module, '/');
            assert(spec_join(seq![pc], '/') == pc);
            lemma_join_concat(head, seq![name], '/');
            assert(spec_join(seq![name], '/') == name);
            assert(spec_join(head, '/') == pc + seq!['/'] + spec_join(module, '/'));
            assert(s =~= spec_join(parts, '/'));
            assert(forall|i: int| 0 <= i < parts.len() ==> !(#[trigger] parts[i]).contains('/'))
                by {
                assert(parts[0] == pc);
                assert(parts.last() == name);
                assert(forall|i: int| 1 <= i < parts.len() - 1 ==> parts[i] == module[i - 1]);
            }
            lemma_split_join(parts, '/');
            let ps = spec_split(s, '/');
            assert(ps == parts);
            assert(ps.len() == module.len() + 2);
            assert(ps[0] == pc);
            crate::source::project_reference::lemma_project_reference_round_trip(project_ref);
            assert(ps.subrange(1, ps.len() - 1) =~= module);
            assert(ps.last() == name);
        },
    }
}

} // verus!
