//! A source project: its manifest plus module fragments. Right after
//! loading, fragments sharing a module path are compressed into one
//! fragment each by the right-biased merge; the first occurrence of a
//! path keeps its position, so compression is deterministic.

use crate::entity::epath::EPath;
use crate::entity::project_identifier::{ProjectIdentifier, ProjectIdentifierView};
use crate::source::manifest::SourceManifest;
use crate::source::module_fragment::{frag_merge, SourceModuleFragment, SourceModuleFragmentView};
use crate::source::project_reference::{ProjectReference, ProjectReferenceView};
use vstd::prelude::*;

verus! {

#[derive(Debug, PartialEq, Eq, Structural, Clone, Copy)]
pub enum ProjectLoadingError {
    ManifestNotFound,
}

#[derive(Debug, PartialEq, Eq)]
pub struct SourceProject {
    pub manifest: SourceManifest,
    pub module_fragments: Vec<SourceModuleFragment>,
}

/// The identity a project declares in its manifest.
pub open spec fn project_id(p: SourceProject) -> ProjectIdentifierView {
    ProjectIdentifierView { group: p.manifest.group@, name: p.manifest.name@ }
}

/// The identity a project reference stands for: the declaring
/// project's own identity for `self`, the literal identity for an
/// external reference — not validated against any loaded project set.
pub open spec fn resolved_project_id(
    pr: ProjectReferenceView,
    current: ProjectIdentifierView,
) -> ProjectIdentifierView {
    match pr {
        ProjectReferenceView::CurrentProject => current,
        ProjectReferenceView::External { group, name } => ProjectIdentifierView { group, name },
    }
}

impl ProjectReference {
    /// Resolves the reference to a concrete identity, relative to the
    /// project that contains it.
    pub fn identifier(&self, current: &SourceProject) -> (r: ProjectIdentifier)
        ensures
            r@ == resolved_project_id(self@, project_id(*current)),
    {
        match self {
            ProjectReference::CurrentProject => current.identifier(),
            ProjectReference::External { group, name } => ProjectIdentifier::new(
                group.as_str(),
                name.as_str(),
            ),
        }
    }
}

/// The views of a fragment sequence.
pub open spec fn frags_view(s: Seq<SourceModuleFragment>) -> Seq<SourceModuleFragmentView> {
    Seq::new(s.len(), |i: int| s[i]@)
}

/// The position of the first fragment at the given path, or the
/// length when none matches.
pub open spec fn frag_find(acc: Seq<SourceModuleFragmentView>, path: Seq<Seq<char>>) -> int
    decreases acc.len(),
{
    if acc.len() == 0 {
        0
    } else if acc[0].path == path {
        0
    } else {
        1 + frag_find(acc.drop_first(), path)
    }
}

pub proof fn lemma_frag_find(acc: Seq<SourceModuleFragmentView>, path: Seq<Seq<char>>)
    ensures
        0 <= frag_find(acc, path) <= acc.len(),
        frag_find(acc, path) < acc.len() ==> acc[frag_find(acc, path)].path == path,
        forall|j: int| 0 <= j < frag_find(acc, path) ==> (#[trigger] acc[j]).path != path,
        frag_find(acc, path) == acc.len() ==> forall|j: int|
            0 <= j < acc.len() ==> (#[trigger] acc[j]).path != path,
    decreases acc.len(),
{
    if acc.len() == 0 {
    } else if acc[0].path == path {
    } else {
        lemma_frag_find(acc.drop_first(), path);
        assert(forall|j: int|
            1 <= j < acc.len() ==> (#[trigger] acc[j]) == acc.drop_first()[j - 1]);
    }
}

/// Absorbing one fragment into the compressed accumulator: merged
/// into the first fragment at its path, or appended when the path is
/// new.
pub open spec fn compress_push(
    acc: Seq<SourceModuleFragmentView>,
    f: SourceModuleFragmentView,
) -> Seq<SourceModuleFragmentView> {
    let i = frag_find(acc, f.path);
    if i == acc.len() {
        acc.push(f)
    } else {
        acc.update(i, frag_merge(acc[i], f))
    }
}

/// Compressing a fragment sequence: every fragment is absorbed in
/// order, so fragments sharing a path collapse into one, first
/// occurrence keeping the position and later declarations winning.
pub open spec fn compress_frags(s: Seq<SourceModuleFragmentView>) -> Seq<
    SourceModuleFragmentView,
>
    decreases s.len(),
{
    if s.len() == 0 {
        Seq::empty()
    } else {
        compress_push(compress_frags(s.drop_last()), s.last())
    }
}

/// Pairwise distinct module paths.
pub open spec fn frag_paths_distinct(s: Seq<SourceModuleFragmentView>) -> bool {
    forall|i: int, j: int|
        0 <= i < j < s.len() ==> (#[trigger] s[i]).path != (#[trigger] s[j]).path
}

/// Compression leaves pairwise distinct paths behind.
pub proof fn lemma_compress_distinct(s: Seq<SourceModuleFragmentView>)
    ensures
        frag_paths_distinct(compress_frags(s)),
    decreases s.len(),
{
    if s.len() == 0 {
    } else {
        lemma_compress_distinct(s.drop_last());
        let acc = compress_frags(s.drop_last());
        let f = s.last();
        lemma_frag_find(acc, f.path);
        let i = frag_find(acc, f.path);
        if i == acc.len() {
            let r = acc.push(f);
            assert forall|a: int, b: int| 0 <= a < b < r.len() implies (#[trigger] r[a]).path != (
            #[trigger] r[b]).path by {
                if b == acc.len() {
                    assert(acc[a].path != f.path);
                }
            }
        } else {
            let r = acc.update(i, frag_merge(acc[i], f));
            assert forall|a: int, b: int| 0 <= a < b < r.len() implies (#[trigger] r[a]).path != (
            #[trigger] r[b]).path by {
                assert(r[i].path == acc[i].path);
                assert(forall|k: int| 0 <= k < r.len() ==> (#[trigger] r[k]).path == acc[k].path);
            }
        }
    }
}

/// Compressing a sequence whose paths are already pairwise distinct
/// changes nothing.
pub proof fn lemma_compress_identity(s: Seq<SourceModuleFragmentView>)
    requires
        frag_paths_distinct(s),
    ensures
        compress_frags(s) == s,
    decreases s.len(),
{
    if s.len() == 0 {
        assert(compress_frags(s) =~= s);
    } else {
        assert(frag_paths_distinct(s.drop_last()));
        lemma_compress_identity(s.drop_last());
        let acc = s.drop_last();
        let f = s.last();
        lemma_frag_find(acc, f.path);
        let i = frag_find(acc, f.path);
        if i < acc.len() {
            assert(s[i].path == s[s.len() - 1].path);
        }
        assert(acc.push(f) =~= s);
    }
}

/// Compressing twice yields what compressing once yields.
pub proof fn lemma_compress_idempotent(s: Seq<SourceModuleFragmentView>)
    ensures
        compress_frags(compress_frags(s)) == compress_frags(s),
{
    lemma_compress_distinct(s);
    lemma_compress_identity(compress_frags(s));
}

/// The position of the first fragment in `buf` at the given path.
fn find_fragment(buf: &Vec<SourceModuleFragment>, path: &EPath) -> (r: Option<usize>)
    ensures
        match r {
            Some(i) => {
                &&& i < buf@.len()
                &&& frags_view(buf@)[i as int].path == path@
                &&& forall|j: int| 0 <= j < i ==> (#[trigger] frags_view(buf@)[j]).path != path@
            },
            None => forall|j: int|
                0 <= j < buf@.len() ==> (#[trigger] frags_view(buf@)[j]).path != path@,
        },
{
    let mut i: usize = 0;
    while i < buf.len()
        invariant
            i <= buf@.len(),
            forall|j: int| 0 <= j < i ==> (#[trigger] frags_view(buf@)[j]).path != path@,
        decreases buf@.len() - i,
    {
        if buf[i].path.path_eq(path) {
            return Some(i);
        }
        i += 1;
    }
    None
}

impl SourceProject {
    pub fn new(manifest: SourceManifest, modules: Vec<SourceModuleFragment>) -> (r: Self)
        ensures
            r.manifest == manifest,
            r.module_fragments == modules,
    {
        SourceProject { manifest, module_fragments: modules }
    }

    /// The identity the manifest declares.
    pub fn identifier(&self) -> (r: ProjectIdentifier)
        ensures
            r@ == project_id(*self),
    {
        self.manifest.identifier()
    }

    pub fn modules(&self) -> (r: &Vec<SourceModuleFragment>)
        ensures
            r@ == self.module_fragments@,
    {
        &self.module_fragments
    }

    /// Collapses fragments sharing a module path into one fragment
    /// each, exactly as [`compress_frags`] says: first occurrence
    /// keeps its position, later declarations win on name collisions.
    pub fn compress_module_fragments(&mut self)
        ensures
            final(self).manifest == old(self).manifest,
            frags_view(final(self).module_fragments@) == compress_frags(
                frags_view(old(self).module_fragments@),
            ),
    {
        let ghost all = frags_view(self.module_fragments@);
        let mut buf: Vec<SourceModuleFragment> = Vec::new();
        let ghost mut j: int = 0;
        proof {
            assert(all.take(0) =~= Seq::<SourceModuleFragmentView>::empty());
            assert(frags_view(buf@) =~= compress_frags(all.take(0)));
        }
        while self.module_fragments.len() > 0
            invariant
                0 <= j <= all.len(),
                self.manifest == old(self).manifest,
                self.module_fragments@.len() == all.len() - j,
                forall|k: int|
                    0 <= k < all.len() - j ==> (#[trigger] self.module_fragments@[k])@ == all[j
                        + k],
                frags_view(buf@) == compress_frags(all.take(j)),
            decreases self.module_fragments@.len(),
        {
            let frag = self.module_fragments.remove(0);
            proof {
                assert(frag@ == all[j]);
                assert(all.take(j + 1).drop_last() =~= all.take(j));
                assert(all.take(j + 1).last() == all[j]);
                lemma_frag_find(frags_view(buf@), frag@.path);
            }
            match find_fragment(&buf, &frag.path) {
                Some(i) => {
                    let ghost before = frags_view(buf@);
                    let mut target = buf.remove(i);
                    target.merge_with(frag);
                    buf.insert(i, target);
                    proof {
                        let fi = frag_find(before, all[j].path);
                        if fi < i {
                            assert(before[fi].path != all[j].path);
                        } else if i < fi {
                            assert(before[i as int].path != all[j].path);
                        }
                        assert(frags_view(buf@) =~= before.update(
                            i as int,
                            frag_merge(before[i as int], all[j]),
                        ));
                        assert(frags_view(buf@) =~= compress_push(before, all[j]));
                    }
                },
                None => {
                    let ghost before = frags_view(buf@);
                    buf.push(frag);
                    proof {
                        let fi = frag_find(before, all[j].path);
                        if fi < before.len() {
                            assert(before[fi].path != all[j].path);
                        }
                        assert(frags_view(buf@) =~= before.push(all[j]));
                        assert(frags_view(buf@) =~= compress_push(before, all[j]));
                    }
                },
            }
            proof {
                j = j + 1;
            }
        }
        self.module_fragments = buf;
        proof {
            assert(all.take(all.len() as int) =~= all);
        }
    }
}

} // verus!
