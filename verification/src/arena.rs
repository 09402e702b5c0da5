//! The set of problems of one contest.

use vstd::prelude::*;
use crate::language::Language;
use crate::problems::{Problem, ProblemView};
use crate::settings::add_language;

verus! {

/// The problems of a contest by name. No name stands twice.
#[derive(Debug, PartialEq, Eq)]
pub struct Arena {
    pub problems: Vec<(String, Problem)>,
}

impl Arena {
    /// The names of the problems, in the order in which they are held.
    pub open spec fn names(&self) -> Seq<Seq<char>> {
        Seq::new(self.problems@.len(), |i: int| self.problems@[i].0@)
    }

    /// The problems, in the order in which they are held.
    pub open spec fn contents(&self) -> Seq<ProblemView> {
        Seq::new(self.problems@.len(), |i: int| self.problems@[i].1@)
    }

    /// Whether every scenario of every problem carries its expected output.
    pub open spec fn complete(&self) -> bool {
        forall|i: int| 0 <= i < self.problems@.len() ==> (#[trigger] self.problems@[i]).1.complete()
    }

    /// Whether no name stands twice.
    pub open spec fn wf(&self) -> bool {
        self.names().no_duplicates()
    }

    /// The languages of the problems, each once; `None` where a problem has
    /// no language.
    pub fn languages(&self) -> (r: Option<Vec<Language>>)
        ensures
            match r {
                Some(v) => {
                    &&& v@.no_duplicates()
                    &&& forall|i: int|
                        0 <= i < self.problems@.len() ==> (#[trigger] self.problems@[i]).1.language
                            is Some
                    &&& forall|l: Language|
                        v@.contains(l) <==> exists|i: int|
                            0 <= i < self.problems@.len() && (
                            #[trigger] self.problems@[i]).1.language == Some(l)
                },
                None => exists|i: int|
                    0 <= i < self.problems@.len() && (#[trigger] self.problems@[i]).1.language
                        is None,
            },
    {
        let mut v: Vec<Language> = Vec::new();
        let mut i: usize = 0;
        while i < self.problems.len()
            invariant
                i <= self.problems.len(),
                v@.no_duplicates(),
                forall|j: int| 0 <= j < i ==> (#[trigger] self.problems@[j]).1.language is Some,
                forall|l: Language|
                    v@.contains(l) <==> exists|j: int|
                        0 <= j < i && (#[trigger] self.problems@[j]).1.language == Some(l),
            decreases self.problems.len() - i,
        {
            match self.problems[i].1.language {
                Some(language) => {
                    let ghost before = v@;
                    add_language(&mut v, language);
                    proof {
                        assert forall|l: Language|
                            v@.contains(l) <==> exists|j: int|
                                0 <= j < i + 1 && (#[trigger] self.problems@[j]).1.language
                                    == Some(l) by {
                            if v@.contains(l) {
                                if before.contains(l) {
                                    let j = choose|j: int|
                                        0 <= j < i && (#[trigger] self.problems@[j]).1.language
                                            == Some(l);
                                    assert(0 <= j < i + 1 && self.problems@[j].1.language == Some(
                                        l,
                                    ));
                                } else {
                                    assert(self.problems@[i as int].1.language == Some(l));
                                }
                            }
                            if exists|j: int|
                                0 <= j < i + 1 && (#[trigger] self.problems@[j]).1.language
                                    == Some(l) {
                                let j = choose|j: int|
                                    0 <= j < i + 1 && (#[trigger] self.problems@[j]).1.language
                                        == Some(l);
                                if j < i {
                                    assert(before.contains(l));
                                }
                            }
                        }
                    }
                },
                None => {
                    return None;
                },
            }
            i = i + 1;
        }
        Some(v)
    }
}

} // verus!
