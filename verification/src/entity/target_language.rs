//! The target languages that a native binding can carry a code
//! snippet for.

use crate::string_map::{map_insert, map_lookup};
use vstd::prelude::*;

verus! {

#[derive(Debug, PartialEq, Eq, Structural, PartialOrd, Ord, Hash, Clone, Copy)]
pub enum TargetLanguage {
    Kotlin,
    Java,
    Swift,
    Dart,
}

/// The per-language code snippets of a native binding: a mapping from
/// target language to code string, with unique keys and stable
/// insertion order.
#[derive(Debug, PartialEq, Eq)]
pub struct NativeBindings {
    pub entries: Vec<(TargetLanguage, String)>,
}

impl View for NativeBindings {
    type V = Seq<(TargetLanguage, Seq<char>)>;

    open spec fn view(&self) -> Seq<(TargetLanguage, Seq<char>)> {
        Seq::new(self.entries@.len(), |i: int| (self.entries@[i].0, self.entries@[i].1@))
    }
}

impl Clone for NativeBindings {
    fn clone(&self) -> (r: Self)
        ensures
            r@ == self@,
    {
        let mut entries: Vec<(TargetLanguage, String)> = Vec::new();
        let mut i: usize = 0;
        while i < self.entries.len()
            invariant
                i <= self.entries@.len(),
                entries@.len() == i,
                forall|j: int|
                    0 <= j < i ==> (#[trigger] entries@[j]).0 == self.entries@[j].0
                        && entries@[j].1@ == self.entries@[j].1@,
            decreases self.entries@.len() - i,
        {
            let lang = self.entries[i].0;
            let code = self.entries[i].1.clone();
            entries.push((lang, code));
            i += 1;
        }
        let r = NativeBindings { entries };
        proof {
            assert(r@ =~= self@);
        }
        r
    }
}

impl NativeBindings {
    pub fn new() -> (r: Self)
        ensures
            r@ == Seq::<(TargetLanguage, Seq<char>)>::empty(),
    {
        let r = NativeBindings { entries: Vec::new() };
        proof {
            assert(r@ =~= Seq::<(TargetLanguage, Seq<char>)>::empty());
        }
        r
    }

    pub fn len(&self) -> (n: usize)
        ensures
            n == self@.len(),
    {
        self.entries.len()
    }

    /// Inserts with overwrite, exactly as
    /// [`crate::string_map::map_insert`] says.
    pub fn insert(&mut self, language: TargetLanguage, code: String)
        ensures
            final(self)@ == map_insert(old(self)@, language, code@),
    {
        let mut i: usize = 0;
        while i < self.entries.len()
            invariant
                i <= self.entries@.len(),
                forall|j: int| 0 <= j < i ==> (#[trigger] self@[j]).0 != language,
                self@ == old(self)@,
                self.entries@ == old(self).entries@,
            decreases self.entries@.len() - i,
        {
            if self.entries[i].0 == language {
                let ghost before = self@;
                self.entries.remove(i);
                self.entries.insert(i, (language, code));
                proof {
                    crate::string_map::lemma_map_insert_present(before, language, code@);
                    let fi = crate::string_map::first_key_index(before, language);
                    assert(before[i as int].0 == language);
                    if fi < i {
                        assert(before[fi].0 != language);
                    } else if i < fi {
                        assert(before[i as int].0 != language);
                    }
                    assert(self@ =~= before.update(i as int, (language, code@)));
                }
                return ;
            }
            i += 1;
        }
        let ghost before = self@;
        proof {
            if crate::string_map::map_contains_key(before, language) {
                let j = choose|j: int|
                    0 <= j < before.len() && (#[trigger] before[j]).0 == language;
            }
        }
        self.entries.push((language, code));
        proof {
            crate::string_map::lemma_map_insert_absent(before, language, code@);
            assert(self@ =~= before.push((language, code@)));
        }
    }

    /// Looks a language up; [`crate::string_map::map_lookup`] says
    /// what is found.
    pub fn get(&self, language: TargetLanguage) -> (r: Option<&String>)
        ensures
            match r {
                Some(code) => map_lookup(self@, language) == Some(code@),
                None => map_lookup(self@, language) is None,
            },
    {
        let mut i: usize = 0;
        while i < self.entries.len()
            invariant
                i <= self.entries@.len(),
                forall|j: int| 0 <= j < i ==> (#[trigger] self@[j]).0 != language,
            decreases self.entries@.len() - i,
        {
            if self.entries[i].0 == language {
                proof {
                    crate::string_map::lemma_map_lookup_first(self@, language);
                    let fi = crate::string_map::first_key_index(self@, language);
                    if fi < i {
                        assert(self@[fi].0 != language);
                    } else if i < fi {
                        assert(self@[i as int].0 != language);
                    }
                }
                return Some(&self.entries[i].1);
            }
            i += 1;
        }
        proof {
            if map_lookup(self@, language) is Some {
                crate::string_map::lemma_map_lookup_some_contains(self@, language);
                let j = choose|j: int|
                    0 <= j < self@.len() && (#[trigger] self@[j]).0 == language;
            }
        }
        None
    }
}

} // verus!
