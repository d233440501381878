//! `EPath`: a module path inside a project's module tree, an ordered
//! sequence of string segments that round-trips through a `/`-joined
//! string form.

use crate::strings::{join_slash, spec_join, spec_split, split_char, str_eq};
use vstd::prelude::*;

verus! {

/// A module path: an ordered sequence of string segments, with no
/// leading or trailing marker beyond the separator.
#[derive(Debug, PartialEq, Eq, Hash, PartialOrd, Ord)]
pub struct EPath {
    pub segments: Vec<String>,
}

impl View for EPath {
    type V = Seq<Seq<char>>;

    open spec fn view(&self) -> Seq<Seq<char>> {
        self.segments.deep_view()
    }
}

/// The `/`-joined string form of a path.
pub open spec fn epath_chars(p: Seq<Seq<char>>) -> Seq<char> {
    spec_join(p, '/')
}

/// Parsing a string form back into segments; total.
pub open spec fn parse_epath(s: Seq<char>) -> Seq<Seq<char>> {
    spec_split(s, '/')
}

impl Clone for EPath {
    fn clone(&self) -> (r: Self)
        ensures
            r@ == self@,
    {
        let mut segments: Vec<String> = Vec::new();
        let mut i: usize = 0;
        while i < self.segments.len()
            invariant
                i <= self.segments@.len(),
                segments.deep_view() =~= self.segments.deep_view().take(i as int),
            decreases self.segments@.len() - i,
        {
            let ghost prev = segments.deep_view();
            let piece = self.segments[i].clone();
            segments.push(piece);
            proof {
                assert(segments.deep_view() =~= prev.push(piece@));
                assert(prev.push(piece@) =~= self.segments.deep_view().take(i + 1));
            }
            i += 1;
        }
        proof {
            assert(segments.deep_view() =~= self.segments.deep_view());
        }
        EPath { segments }
    }
}

impl EPath {
    pub fn new(segments: Vec<String>) -> (r: Self)
        ensures
            r@ == segments.deep_view(),
    {
        EPath { segments }
    }

    /// Appends one segment, returning a new path; the receiver is
    /// untouched.
    pub fn extended(&self, segment: &str) -> (r: Self)
        ensures
            r@ == self@.push(segment@),
    {
        let mut clone = self.clone();
        clone.segments.push(segment.to_owned());
        proof {
            assert(clone.segments.deep_view() =~= self@.push(segment@));
        }
        clone
    }

    pub fn empty() -> (r: Self)
        ensures
            r@ == Seq::<Seq<char>>::empty(),
    {
        let r = EPath { segments: Vec::new() };
        proof {
            assert(r@ =~= Seq::<Seq<char>>::empty());
        }
        r
    }

    /// Parses a `/`-joined string form; every string parses.
    pub fn from_str(s: &str) -> (r: Self)
        ensures
            r@ == parse_epath(s@),
    {
        EPath { segments: split_char(s, '/') }
    }

    /// The `/`-joined string form.
    pub fn to_string(&self) -> (r: String)
        ensures
            r@ == epath_chars(self@),
    {
        join_slash(&self.segments)
    }

    /// Equality of paths, decided segment by segment.
    pub fn path_eq(&self, other: &EPath) -> (r: bool)
        ensures
            r == (self@ == other@),
    {
        if self.segments.len() != other.segments.len() {
            proof {
                assert(self@.len() != other@.len());
            }
            return false;
        }
        let mut i: usize = 0;
        while i < self.segments.len()
            invariant
                i <= self.segments@.len(),
                self.segments@.len() == other.segments@.len(),
                forall|j: int| 0 <= j < i ==> self@[j] == other@[j],
            decreases self.segments@.len() - i,
        {
            if !str_eq(self.segments[i].as_str(), other.segments[i].as_str()) {
                proof {
                    assert(self@[i as int] == self.segments@[i as int]@);
                    assert(other@[i as int] == other.segments@[i as int]@);
                }
                return false;
            }
            i += 1;
        }
        proof {
            assert(self@ =~= other@);
        }
        true
    }
}

/// Parsing undoes printing for every path with at least one segment
/// whose segments are free of the separator. (The empty path prints as
/// the empty string, which parses as one empty segment; a segment
/// containing `/` is cut apart again.)
pub proof fn lemma_epath_round_trip(p: Seq<Seq<char>>)
    requires
        p.len() >= 1,
        forall|i: int| 0 <= i < p.len() ==> !(#[trigger] p[i]).contains('/'),
    ensures
        parse_epath(epath_chars(p)) == p,
{
    crate::strings::lemma_split_join(p, '/');
}

} // verus!
