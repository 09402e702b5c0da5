//! What the judge is told: proposals to build from, competitors to grade,
//! and the grade of a competitor on a problem.

use vstd::prelude::*;
use vstd::string::*;
use crate::language::{Language, LanguageSettings, default_settings};
use crate::problems::{Proposal, Scenario};
use crate::text::{chars_of, opt_text, slice, text_of, texts};

verus! {

/// A participant: where the submissions are, and where the report goes.
#[derive(Debug, PartialEq, Eq)]
pub struct Competitor {
    /// Name of the competitor.
    pub id: String,
    /// Directory that holds one source file per problem.
    pub files: String,
    /// Directory for the report, if the competitor gets one.
    pub result: Option<String>,
}

impl Clone for Competitor {
    fn clone(&self) -> (r: Competitor)
        ensures
            r.id@ == self.id@,
            r.files@ == self.files@,
            crate::text::opt_text(r.result) == crate::text::opt_text(self.result),
    {
        Competitor {
            id: self.id.clone(),
            files: self.files.clone(),
            result: crate::text::copy_opt_text(&self.result),
        }
    }
}

/// The position of the first colon in `s`; the length of `s` if it has none.
pub open spec fn first_colon(s: Seq<char>) -> nat
    decreases s.len(),
{
    if s.len() == 0 || s[0] == ':' {
        0
    } else {
        1 + first_colon(s.skip(1))
    }
}

/// The parts of `s` between its colons; one part more than there are
/// colons.
pub open spec fn fields_of(s: Seq<char>) -> Seq<Seq<char>>
    decreases s.len(),
{
    let i = first_colon(s);
    if i >= s.len() {
        seq![s]
    } else {
        seq![s.take(i as int)] + fields_of(s.skip(i as int + 1))
    }
}

/// The first colon of a text stands where no colon stands before.
pub proof fn lemma_first_colon(s: Seq<char>, k: int)
    requires
        0 <= k <= s.len(),
        forall|j: int| 0 <= j < k ==> s[j] != ':',
        k < s.len() ==> s[k] == ':',
    ensures
        first_colon(s) == k,
    decreases s.len(),
{
    if s.len() == 0 || s[0] == ':' {
    } else {
        let t = s.skip(1);
        assert forall|j: int| 0 <= j < k - 1 implies t[j] != ':' by {
            assert(t[j] == s[j + 1]);
        }
        if k - 1 < t.len() {
            assert(t[k - 1] == s[k]);
        }
        lemma_first_colon(t, k - 1);
    }
}

/// The parts of a text between its colons, in order.
pub fn split_colons(s: &str) -> (r: Vec<String>)
    ensures
        texts(r@) == fields_of(s@),
{
    let chars = chars_of(s);
    let mut parts: Vec<String> = Vec::new();
    let mut start: usize = 0;
    let mut i: usize = 0;
    assert(texts(parts@) + fields_of(chars@.skip(0)) =~= fields_of(chars@)) by {
        assert(chars@.skip(0) =~= chars@);
    }
    while i < chars.len()
        invariant
            start <= i <= chars@.len(),
            forall|j: int| start <= j < i ==> chars@[j] != ':',
            texts(parts@) + fields_of(chars@.skip(start as int)) == fields_of(chars@),
        decreases chars.len() - i,
    {
        if chars[i] == ':' {
            let part = text_of(&slice(&chars, start, i));
            let ghost before = texts(parts@);
            parts.push(part);
            proof {
                let rest = chars@.skip(start as int);
                assert forall|j: int| 0 <= j < i - start implies rest[j] != ':' by {
                    assert(rest[j] == chars@[start + j]);
                }
                assert(rest[i - start] == ':');
                lemma_first_colon(rest, i - start);
                assert(rest.take(i - start) =~= chars@.subrange(start as int, i as int));
                assert(rest.skip(i - start + 1) =~= chars@.skip(i + 1));
                assert(texts(parts@) =~= before.push(part@));
                assert(texts(parts@) + fields_of(chars@.skip(i + 1)) =~= before + fields_of(
                    rest,
                ));
            }
            start = i + 1;
        }
        i = i + 1;
    }
    let part = text_of(&slice(&chars, start, chars.len()));
    let ghost before = texts(parts@);
    parts.push(part);
    proof {
        let rest = chars@.skip(start as int);
        assert forall|j: int| 0 <= j < rest.len() implies rest[j] != ':' by {
            assert(rest[j] == chars@[start + j]);
        }
        lemma_first_colon(rest, rest.len() as int);
        assert(rest =~= chars@.subrange(start as int, chars@.len() as int));
        assert(texts(parts@) =~= before.push(part@));
        assert(texts(parts@) =~= before + fields_of(rest));
    }
    parts
}

/// What is wrong with the description of a competitor that has these
/// fields, if anything.
pub open spec fn complaint_about(fields: Seq<Seq<char>>) -> Option<Seq<char>> {
    if fields.len() != 3 {
        Some("Competitors must be described as id:path_to_files:path_for_result"@)
    } else if fields[0].len() == 0 {
        Some("Every competitor needs an id."@)
    } else if fields[1].len() == 0 {
        Some("Every competitor needs a path to the files"@)
    } else {
        None
    }
}

impl Competitor {
    /// Reads a competitor from `id:files:result`. The three fields must be
    /// there and the first two not empty; an empty third means that the
    /// competitor gets no report. Otherwise the complaint comes back.
    pub fn parse(token: &str) -> (r: Result<Competitor, String>)
        ensures
            match r {
                Ok(c) => {
                    &&& complaint_about(fields_of(token@)).is_none()
                    &&& c.id@ == fields_of(token@)[0]
                    &&& c.files@ == fields_of(token@)[1]
                    &&& opt_text(c.result) == (if fields_of(token@)[2].len() == 0 {
                        None
                    } else {
                        Some(fields_of(token@)[2])
                    })
                },
                Err(complaint) => complaint_about(fields_of(token@)) == Some(complaint@),
            },
    {
        let tokens = split_colons(token);
        assert(texts(tokens@).len() == tokens@.len());
        if tokens.len() != 3 {
            return Err(
                "Competitors must be described as id:path_to_files:path_for_result".to_owned(),
            );
        }
        assert(texts(tokens@)[0] == tokens@[0]@ && texts(tokens@)[1] == tokens@[1]@ && texts(
            tokens@,
        )[2] == tokens@[2]@);
        if tokens[0].as_str().is_empty() {
            return Err("Every competitor needs an id.".to_owned());
        }
        if tokens[1].as_str().is_empty() {
            return Err("Every competitor needs a path to the files".to_owned());
        }
        let result = if tokens[2].as_str().is_empty() {
            None
        } else {
            Some(tokens[2].clone())
        };
        Ok(Competitor { id: tokens[0].clone(), files: tokens[1].clone(), result })
    }
}

/// The grade of one competitor on one problem. The score of a `Grade` is
/// `earned` divided by `total`.
#[derive(Clone, Copy, PartialEq, Eq, Debug, Structural)]
pub enum Evaluation {
    /// The submission ran: the points of the scenarios it got right, and
    /// the points of the problem.
    Grade { earned: u128, total: u32 },
    /// The submission failed to build or to run.
    RunError,
    /// There was no submission.
    NoFile,
}

/// The proposals of a contest by name, and toolchains by language.
#[derive(Debug, PartialEq, Eq)]
pub struct Settings {
    pub proposals: Vec<(String, Proposal)>,
    pub language_settings: Option<Vec<(Language, LanguageSettings)>>,
}

impl Settings {
    /// The names of the proposals, in the order in which they are held.
    pub open spec fn names(&self) -> Seq<Seq<char>> {
        Seq::new(self.proposals@.len(), |i: int| self.proposals@[i].0@)
    }

    /// Example settings: one problem written in shell, with one scenario
    /// worth ten points that passes the argument `Tito` and allows a second.
    pub fn example() -> (r: Settings)
        ensures
            r.proposals@.len() == 1,
            r.proposals@[0].0@ == "problem-a"@,
            r.proposals@[0].1.solution@ == "./problem-a.sh"@,
            r.proposals@[0].1.language == Language::Shell,
            r.proposals@[0].1.points == 10,
            r.proposals@[0].1.scenarios@.len() == 1,
            r.proposals@[0].1.scenarios@[0]@ == (crate::problems::ScenarioView {
                arguments: Some(seq!["Tito"@]),
                input: None,
                output: None,
                max_time_millis: 1000,
                max_ram: None,
                points: 10,
            }),
            r.language_settings is Some,
            r.language_settings->Some_0@.len() == 1,
            r.language_settings->Some_0@[0].0 == Language::Shell,
            r.language_settings->Some_0@[0].1@ == default_settings(Language::Shell, false),
    {
        let mut arguments: Vec<String> = Vec::new();
        arguments.push("Tito".to_owned());
        assert(crate::text::texts(arguments@) =~= seq!["Tito"@]);
        let scenario = Scenario {
            arguments: Some(arguments),
            input: None,
            output: None,
            max_time_millis: 1000,
            max_ram: None,
            points: 10,
        };
        let mut scenarios: Vec<Scenario> = Vec::new();
        scenarios.push(scenario);
        let proposal = Proposal {
            scenarios,
            solution: "./problem-a.sh".to_owned(),
            language: Language::Shell,
            points: 10,
        };
        let mut proposals: Vec<(String, Proposal)> = Vec::new();
        proposals.push(("problem-a".to_owned(), proposal));
        let mut language_settings: Vec<(Language, LanguageSettings)> = Vec::new();
        language_settings.push((Language::Shell, LanguageSettings::default(Language::Shell)));
        Settings { proposals, language_settings: Some(language_settings) }
    }

    /// The languages of the proposals, each once.
    pub fn languages(&self) -> (r: Vec<Language>)
        ensures
            r@.no_duplicates(),
            forall|l: Language|
                r@.contains(l) <==> exists|i: int|
                    0 <= i < self.proposals@.len() && (#[trigger] self.proposals@[i]).1.language
                        == l,
    {
        let mut r: Vec<Language> = Vec::new();
        let mut i: usize = 0;
        while i < self.proposals.len()
            invariant
                i <= self.proposals.len(),
                r@.no_duplicates(),
                forall|l: Language|
                    r@.contains(l) <==> exists|j: int|
                        0 <= j < i && (#[trigger] self.proposals@[j]).1.language == l,
            decreases self.proposals.len() - i,
        {
            let language = self.proposals[i].1.language;
            let ghost before = r@;
            add_language(&mut r, language);
            proof {
                assert forall|l: Language|
                    r@.contains(l) <==> exists|j: int|
                        0 <= j < i + 1 && (#[trigger] self.proposals@[j]).1.language == l by {
                    if r@.contains(l) {
                        if before.contains(l) {
                            let j = choose|j: int|
                                0 <= j < i && (#[trigger] self.proposals@[j]).1.language == l;
                            assert(0 <= j < i + 1 && self.proposals@[j].1.language == l);
                        } else {
                            assert(self.proposals@[i as int].1.language == l);
                        }
                    }
                    if exists|j: int|
                        0 <= j < i + 1 && (#[trigger] self.proposals@[j]).1.language == l {
                        let j = choose|j: int|
                            0 <= j < i + 1 && (#[trigger] self.proposals@[j]).1.language == l;
                        if j < i {
                            assert(before.contains(l));
                        }
                    }
                }
            }
            i = i + 1;
        }
        r
    }
}

/// Adds a language to a list unless it is there.
pub fn add_language(list: &mut Vec<Language>, language: Language)
    requires
        old(list)@.no_duplicates(),
    ensures
        final(list)@.no_duplicates(),
        final(list)@ == (if old(list)@.contains(language) {
            old(list)@
        } else {
            old(list)@.push(language)
        }),
        forall|l: Language| final(list)@.contains(l) <==> (old(list)@.contains(l) || l == language),
{
    let mut i: usize = 0;
    while i < list.len()
        invariant
            i <= list.len(),
            list@ == old(list)@,
            list@.no_duplicates(),
            forall|j: int| 0 <= j < i ==> list@[j] != language,
        decreases list.len() - i,
    {
        if list[i] == language {
            assert(list@.contains(language));
            return ;
        }
        i = i + 1;
    }
    assert(!list@.contains(language));
    list.push(language);
    proof {
        let before = old(list)@;
        assert forall|l: Language| list@.contains(l) <==> (before.contains(l) || l == language) by {
            if before.contains(l) {
                let j = choose|j: int| 0 <= j < before.len() && before[j] == l;
                assert(list@[j] == l);
            }
            if l == language {
                assert(list@[before.len() as int] == l);
            }
        }
    }
}

} // verus!
