//! The judge: the registry of toolchains found on the host, the start of a
//! batch, the freezing of expected outputs and the grading of submissions.
//!
//! The judge touches neither files nor processes. Its owner does, and hands
//! over what it found.

use vstd::prelude::*;
use vstd::string::*;
pub use crate::error::Error;
use crate::batch::{Batch, plan_of};
use crate::error::{ErrorView, outcome_view};
use crate::language::{
    Language,
    LanguageSettings,
    LanguageSettingsView,
    Tool,
    ToolView,
    default_settings,
    label_of,
    tools_view,
};
use crate::arena::Arena;
use crate::problems::{
    Problem,
    ProblemView,
    Proposal,
    Scenario,
    ScenarioView,
    copy_scenarios,
    scenarios_view,
};
use crate::settings::{Competitor, Evaluation, Settings};
use crate::text::{copy_opt_text, copy_opt_texts, occurs, occurs_at, texts, trim, trimmed};

verus! {

/// Calls `Path::join` on `dir` and owns the result as text. The result
/// depends on the host's path syntax, so nothing is said of it.
#[verifier::external_body]
pub(crate) fn join_path(dir: &str, name: &str) -> (r: String) {
    std::path::Path::new(dir).join(name).to_string_lossy().to_string()
}

/// The position of the last dot of a name; `-1` where the name has none.
pub open spec fn last_dot(name: Seq<char>) -> int
    decreases name.len(),
{
    if name.len() == 0 {
        -1
    } else if name.last() == '.' {
        name.len() - 1
    } else {
        last_dot(name.drop_last())
    }
}

/// The stem of a file name: the whole name where it has no dot, or none but
/// the one it starts with; otherwise what stands before its last dot.
pub open spec fn stem_of(name: Seq<char>) -> Seq<char> {
    if last_dot(name) <= 0 {
        name
    } else {
        name.take(last_dot(name))
    }
}

/// Whether `name` is a component of `path` with `stem` as its stem.
pub open spec fn names_stem(path: Seq<char>, name: Seq<char>, stem: Seq<char>) -> bool {
    name.len() > 0 && occurs(path, name) && stem == stem_of(name)
}

/// Whether `stem` is the stem of some component of `path`. Which component
/// is the file name of a path is for the host to say.
pub open spec fn is_stem_in(path: Seq<char>, stem: Seq<char>) -> bool {
    exists|name: Seq<char>| names_stem(path, name, stem)
}

/// The last dot of a name stands inside the name.
pub proof fn lemma_last_dot_bounds(name: Seq<char>)
    ensures
        -1 <= last_dot(name) < name.len(),
    decreases name.len(),
{
    if name.len() > 0 && name.last() != '.' {
        lemma_last_dot_bounds(name.drop_last());
    }
}

/// A stem of a component of a path is not empty and stands in the path, so
/// an empty path has none.
pub proof fn lemma_stem_is_part(path: Seq<char>, stem: Seq<char>)
    requires
        is_stem_in(path, stem),
    ensures
        stem.len() > 0,
        occurs(path, stem),
        path.len() > 0,
{
    let name = choose|name: Seq<char>| names_stem(path, name, stem);
    let at = choose|at: int| occurs_at(path, name, at);
    lemma_last_dot_bounds(name);
    let dot = last_dot(name);
    if dot > 0 {
        assert forall|i: int| 0 <= i < dot implies path.subrange(at, at + dot)[i] == name.take(
            dot,
        )[i] by {
            assert(path.subrange(at, at + name.len())[i] == name[i]);
        }
        assert(path.subrange(at, at + dot) =~= name.take(dot));
    }
    assert(occurs_at(path, stem, at));
}

/// Calls `Path::file_stem` and owns the result as text. Where there is a
/// stem, it is that of the file name, the last component of the path: the
/// whole name where it has no dot or only starts with one, otherwise what
/// stands before its last dot. Which component that is, and whether there
/// is one, depends on the host's path syntax and is not said.
#[verifier::external_body]
pub(crate) fn file_stem(path: &str) -> (r: Option<String>)
    ensures
        r is Some ==> is_stem_in(path@, r->Some_0@),
{
    match std::path::Path::new(path).file_stem() {
        Some(stem) => Some(stem.to_string_lossy().to_string()),
        None => None,
    }
}

/// The utilities of the tools that are to be looked up on the host: those
/// that no earlier step produces, in order.
pub open spec fn probes_of_tools(tools: Seq<ToolView>) -> Seq<Seq<char>>
    decreases tools.len(),
{
    if tools.len() == 0 {
        Seq::empty()
    } else {
        let rest = probes_of_tools(tools.drop_last());
        if tools.last().temporal {
            rest
        } else {
            rest.push(tools.last().utility)
        }
    }
}

/// All tools of a toolchain: those that prepare, then the main tool.
pub open spec fn tools_of(settings: LanguageSettingsView) -> Seq<ToolView> {
    (match settings.pre_tools {
        Some(tools) => tools,
        None => Seq::empty(),
    }).push(settings.tool)
}

/// The utilities to look up for a list of languages, language by language.
pub open spec fn probes_of(languages: Seq<Language>, windows: bool) -> Seq<Seq<char>>
    decreases languages.len(),
{
    if languages.len() == 0 {
        Seq::empty()
    } else {
        probes_of(languages.drop_last(), windows) + probes_of_tools(
            tools_of(default_settings(languages.last(), windows)),
        )
    }
}

fn add_probe(list: &mut Vec<String>, tool: &Tool)
    ensures
        texts(final(list)@) == (if tool.temporal {
            texts(old(list)@)
        } else {
            texts(old(list)@).push(tool.utility@)
        }),
{
    if !tool.temporal {
        list.push(tool.utility.clone());
        assert(texts(list@) =~= texts(old(list)@).push(tool.utility@));
    }
}

fn add_probes(list: &mut Vec<String>, settings: &LanguageSettings)
    ensures
        texts(final(list)@) == texts(old(list)@) + probes_of_tools(tools_of(settings@)),
{
    let ghost pre: Seq<ToolView> = match settings@.pre_tools {
        Some(tools) => tools,
        None => Seq::empty(),
    };
    assert(texts(list@) =~= texts(old(list)@) + probes_of_tools(pre.take(0)));
    match &settings.pre_tools {
        Some(tools) => {
            let mut i: usize = 0;
            while i < tools.len()
                invariant
                    i <= tools.len(),
                    pre == tools_view(tools@),
                    texts(list@) == texts(old(list)@) + probes_of_tools(pre.take(i as int)),
                decreases tools.len() - i,
            {
                add_probe(list, &tools[i]);
                proof {
                    let upto = pre.take(i + 1);
                    assert(upto.drop_last() =~= pre.take(i as int));
                    assert(upto.last() == tools@[i as int]@);
                    assert(texts(list@) =~= texts(old(list)@) + probes_of_tools(upto));
                }
                i = i + 1;
            }
            assert(pre.take(i as int) =~= pre);
        },
        None => {},
    }
    assert(pre.take(pre.len() as int) =~= pre);
    add_probe(list, &settings.tool);
    proof {
        let all = tools_of(settings@);
        assert(all.drop_last() =~= pre);
        assert(all.last() == settings.tool@);
        assert(texts(list@) =~= texts(old(list)@) + probes_of_tools(all));
    }
}

/// A walk through the utilities that a list of languages needs on the host.
/// Its owner looks up the pending utility and records what it found; the
/// first utility that is missing, or whose lookup fails, ends the walk.
pub struct Survey {
    languages: Vec<Language>,
    windows: bool,
    utilities: Vec<String>,
    position: usize,
    failure: Option<Error>,
}

impl Survey {
    /// The languages that the survey is about.
    pub closed spec fn languages(&self) -> Seq<Language> {
        self.languages@
    }

    /// Whether the toolchains are those of Windows.
    pub closed spec fn windows(&self) -> bool {
        self.windows
    }

    /// The utilities to look up, in order.
    pub closed spec fn utilities(&self) -> Seq<Seq<char>> {
        texts(self.utilities@)
    }

    /// How many utilities were found so far.
    pub closed spec fn position(&self) -> int {
        self.position as int
    }

    /// The error that ended the survey, if any.
    pub closed spec fn failure(&self) -> Option<ErrorView> {
        crate::error::opt_error_view(self.failure)
    }

    /// The invariant of a survey.
    pub open spec fn wf(&self) -> bool {
        &&& self.utilities() == probes_of(self.languages(), self.windows())
        &&& 0 <= self.position() <= self.utilities().len()
        &&& self.failure().is_some() ==> self.position() < self.utilities().len()
    }

    /// Whether a utility is waiting to be looked up.
    pub open spec fn is_pending(&self) -> bool {
        self.failure().is_none() && self.position() < self.utilities().len()
    }

    /// A survey of the default toolchains of `languages`.
    pub fn new(languages: Vec<Language>, windows: bool) -> (r: Survey)
        ensures
            r.wf(),
            r.languages() == languages@,
            r.windows() == windows,
            r.position() == 0,
            r.failure().is_none(),
    {
        let mut utilities: Vec<String> = Vec::new();
        let mut i: usize = 0;
        assert(texts(utilities@) =~= probes_of(languages@.take(0), windows));
        while i < languages.len()
            invariant
                i <= languages.len(),
                texts(utilities@) == probes_of(languages@.take(i as int), windows),
            decreases languages.len() - i,
        {
            let settings = LanguageSettings::default_on(languages[i], windows);
            add_probes(&mut utilities, &settings);
            proof {
                let upto = languages@.take(i + 1);
                assert(upto.drop_last() =~= languages@.take(i as int));
                assert(upto.last() == languages@[i as int]);
            }
            i = i + 1;
        }
        assert(languages@.take(i as int) =~= languages@);
        Survey { languages, windows, utilities, position: 0, failure: None }
    }

    /// The utility to look up next; `None` once the survey is over.
    pub fn pending(&self) -> (r: Option<String>)
        requires
            self.wf(),
        ensures
            r is Some == self.is_pending(),
            r is Some ==> r->Some_0@ == self.utilities()[self.position()],
    {
        if self.failure.is_none() && self.position < self.utilities.len() {
            Some(self.utilities[self.position].clone())
        } else {
            None
        }
    }

    /// Records what the lookup of the pending utility gave: found, not
    /// found, or the detail of a lookup that failed itself.
    pub fn record(&mut self, lookup: Result<bool, String>)
        requires
            old(self).wf(),
            old(self).is_pending(),
        ensures
            final(self).wf(),
            final(self).languages() == old(self).languages(),
            final(self).windows() == old(self).windows(),
            final(self).utilities() == old(self).utilities(),
            final(self).position() == (if lookup == Ok::<bool, String>(true) {
                old(self).position() + 1
            } else {
                old(self).position()
            }),
            final(self).failure() == lookup_verdict(
                old(self).utilities()[old(self).position()],
                lookup,
            ),
    {
        assert(self.position < self.utilities.len());
        let utility = self.utilities[self.position].clone();
        match Tito::tool_verdict(utility.as_str(), lookup) {
            None => {
                self.position = self.position + 1;
            },
            Some(error) => {
                self.failure = Some(error);
            },
        }
    }

    /// Whether every utility was found.
    pub fn cleared(&self) -> (r: bool)
        requires
            self.wf(),
        ensures
            r == (self.failure().is_none() && self.position() == self.utilities().len()),
    {
        self.failure.is_none() && self.position == self.utilities.len()
    }
}

/// The error, if any, that the lookup of a utility stands for.
pub open spec fn lookup_verdict(utility: Seq<char>, lookup: Result<bool, String>) -> Option<ErrorView> {
    match lookup {
        Ok(found) => if found {
            None
        } else {
            Some(ErrorView::MissingTool(utility))
        },
        Err(detail) => Some(ErrorView::ToolLookup(detail@ + " ("@ + utility + ")"@)),
    }
}

/// Whether a candidate output, once trimmed, is the expected output of a
/// scenario.
pub open spec fn matches(scenario: ScenarioView, candidate: Seq<char>) -> bool {
    scenario.output == Some(trimmed(candidate))
}

/// The points of those among the first `n` scenarios whose expected output
/// the candidate output of the same position matches.
pub open spec fn earned_points(scenarios: Seq<ScenarioView>, outputs: Seq<Seq<char>>, n: nat) -> nat
    decreases n,
{
    if n == 0 {
        0
    } else {
        earned_points(scenarios, outputs, (n - 1) as nat) + (if matches(
            scenarios[n - 1],
            outputs[n - 1],
        ) {
            scenarios[n - 1].points as nat
        } else {
            0
        })
    }
}

/// The points of the first `n` scenarios together.
pub open spec fn total_points(scenarios: Seq<ScenarioView>, n: nat) -> nat
    decreases n,
{
    if n == 0 {
        0
    } else {
        total_points(scenarios, (n - 1) as nat) + scenarios[n - 1].points as nat
    }
}

/// No submission earns more than the scenarios give: where the points of a
/// problem are those of its scenarios together, the score is at most one.
pub proof fn lemma_earned_within_total(scenarios: Seq<ScenarioView>, outputs: Seq<Seq<char>>, n: nat)
    ensures
        earned_points(scenarios, outputs, n) <= total_points(scenarios, n),
    decreases n,
{
    if n > 0 {
        lemma_earned_within_total(scenarios, outputs, (n - 1) as nat);
    }
}

/// The number of scenarios that have a candidate output.
pub open spec fn paired(scenarios: Seq<ScenarioView>, outputs: Seq<Seq<char>>) -> nat {
    if scenarios.len() <= outputs.len() {
        scenarios.len()
    } else {
        outputs.len()
    }
}

/// A scenario with `output` frozen as its expected output.
pub open spec fn with_output(scenario: ScenarioView, output: Seq<char>) -> ScenarioView {
    ScenarioView { output: Some(trimmed(output)), ..scenario }
}

/// The problem that a proposal becomes once its solution gave `outputs`.
pub open spec fn frozen(proposal: crate::problems::ProposalView, filename: Seq<char>, outputs: Seq<Seq<char>>) -> ProblemView {
    ProblemView {
        scenarios: Seq::new(
            paired(proposal.scenarios, outputs),
            |i: int| with_output(proposal.scenarios[i], outputs[i]),
        ),
        filename,
        language: Some(proposal.language),
        points: proposal.points,
    }
}

/// Whether `entry` is the problem that `proposal` becomes under its name,
/// once its solution gave `outputs`.
pub open spec fn built_from(entry: (String, Problem), proposal: (String, Proposal), outputs: Vec<String>) -> bool {
    &&& entry.0@ == proposal.0@
    &&& entry.1@ == frozen(proposal.1@, entry.1.filename@, texts(outputs@))
}

/// Whether `r` is the grade of `outputs` on `problem`.
pub open spec fn graded_as(name: Seq<char>, problem: ProblemView, outputs: Seq<Seq<char>>, r: Result<Evaluation, Error>) -> bool {
    match r {
        Ok(evaluation) => {
            &&& forall|j: int|
                0 <= j < paired(problem.scenarios, outputs) ==> (#[trigger] problem.scenarios[j]).output.is_some()
            &&& evaluation == (Evaluation::Grade {
                earned: earned_points(
                    problem.scenarios,
                    outputs,
                    paired(problem.scenarios, outputs),
                ) as u128,
                total: problem.points,
            })
        },
        Err(error) => exists|k: int|
            {
                &&& 0 <= k < paired(problem.scenarios, outputs)
                &&& (#[trigger] problem.scenarios[k]).output.is_none()
                &&& error@ == ErrorView::NoSolution(name, k as usize)
                &&& forall|j: int| 0 <= j < k ==> (#[trigger] problem.scenarios[j]).output.is_some()
            },
    }
}

/// Whether `r` is the evaluation of a submission of which running it gave
/// `attempt`: the grade of its outputs, `NoFile` where the file was not
/// found, `RunError` for any other error.
pub open spec fn evaluated_as(name: Seq<char>, problem: ProblemView, attempt: Result<Vec<String>, Error>, r: Result<Evaluation, Error>) -> bool {
    match attempt {
        Ok(outputs) => graded_as(name, problem, texts(outputs@), r),
        Err(error) => r == Ok::<Evaluation, Error>(
            if error@ == ErrorView::NoFileFound {
                Evaluation::NoFile
            } else {
                Evaluation::RunError
            },
        ),
    }
}

/// Whether `grades` holds, problem by problem in the order of the arena,
/// the name of the problem and the evaluation of what `attempts` holds
/// for it.
pub open spec fn competitor_graded(arena: &Arena, attempts: Seq<Result<Vec<String>, Error>>, grades: Seq<(String, Evaluation)>) -> bool {
    &&& grades.len() == arena.problems@.len()
    &&& forall|k: int|
        0 <= k < grades.len() ==> entry_graded(arena, attempts, #[trigger] grades[k], k)
}

/// Whether `entry` is the name and the evaluation of the problem of index
/// `k`.
pub open spec fn entry_graded(arena: &Arena, attempts: Seq<Result<Vec<String>, Error>>, entry: (String, Evaluation), k: int) -> bool {
    &&& entry.0@ == arena.problems@[k].0@
    &&& evaluated_as(
        arena.problems@[k].0@,
        arena.problems@[k].1@,
        attempts[k],
        Ok::<Evaluation, Error>(entry.1),
    )
}

/// Whether evaluating what `attempts` holds for the problem of index `k`
/// fails with `error`.
pub open spec fn entry_fails(arena: &Arena, attempts: Seq<Result<Vec<String>, Error>>, k: int, error: Error) -> bool {
    &&& 0 <= k < arena.problems@.len()
    &&& evaluated_as(
        arena.problems@[k].0@,
        arena.problems@[k].1@,
        attempts[k],
        Err::<Evaluation, Error>(error),
    )
}

/// Whether the problem of index `j` has, among the scenarios for which
/// `attempts` holds an output, one without expected output.
pub open spec fn unsolved(arena: &Arena, attempts: Seq<Result<Vec<String>, Error>>, j: int) -> bool {
    match attempts[j] {
        Ok(outputs) => exists|i: int|
            0 <= i < paired(arena.problems@[j].1@.scenarios, texts(outputs@)) && (
            #[trigger] arena.problems@[j].1@.scenarios[i]).output.is_none(),
        Err(_) => false,
    }
}

/// What came of running a submission, as contents.
pub open spec fn attempt_view(attempt: Result<Vec<String>, Error>) -> Result<Seq<Seq<char>>, ErrorView> {
    match attempt {
        Ok(outputs) => Ok(texts(outputs@)),
        Err(error) => Err(error@),
    }
}

/// A missing file gives `NoFile` for its problem, and the evaluation of a
/// problem depends on what came of running the submission for that problem
/// alone: where two competitors differ on other problems only, they have
/// the same evaluation on this one.
pub proof fn lemma_evaluation_is_local(
    arena: &Arena,
    first: Seq<Result<Vec<String>, Error>>,
    first_grades: Seq<(String, Evaluation)>,
    second: Seq<Result<Vec<String>, Error>>,
    second_grades: Seq<(String, Evaluation)>,
    k: int,
)
    requires
        competitor_graded(arena, first, first_grades),
        competitor_graded(arena, second, second_grades),
        0 <= k < arena.problems@.len(),
        attempt_view(first[k]) == attempt_view(second[k]),
    ensures
        first_grades[k].0@ == second_grades[k].0@,
        first_grades[k].1 == second_grades[k].1,
        attempt_view(first[k]) == Err::<Seq<Seq<char>>, ErrorView>(ErrorView::NoFileFound)
            ==> first_grades[k].1 == Evaluation::NoFile,
{
    assert(entry_graded(arena, first, first_grades[k], k));
    assert(entry_graded(arena, second, second_grades[k], k));
}

/// Building is repeatable: two arenas built from the same proposals and the
/// same outputs, with the same file names, hold the same problems under the
/// same names.
pub proof fn lemma_build_is_repeatable(
    settings: &Settings,
    solutions: Seq<Vec<String>>,
    first: &Arena,
    second: &Arena,
)
    requires
        first.problems@.len() == settings.proposals@.len(),
        second.problems@.len() == settings.proposals@.len(),
        forall|k: int|
            0 <= k < settings.proposals@.len() ==> built_from(
                #[trigger] first.problems@[k],
                settings.proposals@[k],
                solutions[k],
            ),
        forall|k: int|
            0 <= k < settings.proposals@.len() ==> built_from(
                #[trigger] second.problems@[k],
                settings.proposals@[k],
                solutions[k],
            ),
        forall|k: int|
            0 <= k < settings.proposals@.len() ==> (#[trigger] first.problems@[k]).1.filename@
                == second.problems@[k].1.filename@,
    ensures
        first.names() == second.names(),
        first.contents() == second.contents(),
{
    assert forall|k: int| 0 <= k < settings.proposals@.len() implies first.problems@[k].0@
        == second.problems@[k].0@ && first.problems@[k].1@ == second.problems@[k].1@ by {
        assert(built_from(first.problems@[k], settings.proposals@[k], solutions[k]));
        assert(built_from(second.problems@[k], settings.proposals@[k], solutions[k]));
    }
    assert(first.names() =~= second.names());
    assert(first.contents() =~= second.contents());
}

/// What reading a source file gave.
#[derive(Debug, PartialEq, Eq)]
pub enum FileRead {
    /// The file could not be opened; the detail says why.
    Absent(String),
    /// The file was opened and could not be read; the detail says why.
    Broken(String),
    /// The text of the file.
    Text(String),
}

/// The judge: a working directory and the toolchains found on the host.
pub struct Tito {
    dir: String,
    windows: bool,
    rust: Option<LanguageSettings>,
    shell: Option<LanguageSettings>,
    cpp: Option<LanguageSettings>,
    c: Option<LanguageSettings>,
    python2: Option<LanguageSettings>,
    python3: Option<LanguageSettings>,
}

/// What an optional toolchain holds.
pub open spec fn opt_settings_view(o: Option<LanguageSettings>) -> Option<LanguageSettingsView> {
    match o {
        Some(s) => Some(s@),
        None => None,
    }
}

impl Tito {
    /// The working directory.
    pub closed spec fn dir(&self) -> Seq<char> {
        self.dir@
    }

    /// Whether the host is Windows.
    pub closed spec fn windows(&self) -> bool {
        self.windows
    }

    /// The toolchain resolved for a language, if any.
    pub closed spec fn settings_of(&self, language: Language) -> Option<LanguageSettingsView> {
        opt_settings_view(
            match language {
                Language::Rust => self.rust,
                Language::Shell => self.shell,
                Language::Cpp => self.cpp,
                Language::C => self.c,
                Language::Python2 => self.python2,
                Language::Python3 => self.python3,
            },
        )
    }

    /// A judge that works in `dir` and has resolved no language yet.
    pub fn new(dir: String, windows: bool) -> (r: Tito)
        ensures
            r.dir() == dir@,
            r.windows() == windows,
            forall|l: Language| r.settings_of(l).is_none(),
    {
        Tito {
            dir,
            windows,
            rust: None,
            shell: None,
            cpp: None,
            c: None,
            python2: None,
            python3: None,
        }
    }

    /// The working directory.
    pub fn directory(&self) -> (r: String)
        ensures
            r@ == self.dir(),
    {
        self.dir.clone()
    }

    /// A survey of the utilities that `languages` need on this host.
    pub fn survey(&self, languages: Vec<Language>) -> (r: Survey)
        ensures
            r.wf(),
            r.languages() == languages@,
            r.windows() == self.windows(),
            r.position() == 0,
            r.failure().is_none(),
    {
        Survey::new(languages, self.windows)
    }

    /// Judges the lookup of a utility: found, not found, or a lookup that
    /// failed itself with a detail.
    pub fn tool_verdict(utility: &str, lookup: Result<bool, String>) -> (r: Option<Error>)
        ensures
            crate::error::opt_error_view(r) == lookup_verdict(utility@, lookup),
    {
        match lookup {
            Ok(found) => if found {
                None
            } else {
                Some(Error::MissingTool(utility.to_owned()))
            },
            Err(detail) => Some(Error::ToolLookup(detail.concat(" (").concat(utility).concat(")"))),
        }
    }

    fn set(&mut self, language: Language, settings: LanguageSettings)
        ensures
            final(self).dir() == old(self).dir(),
            final(self).windows() == old(self).windows(),
            forall|l: Language|
                final(self).settings_of(l) == (if l == language {
                    Some(settings@)
                } else {
                    old(self).settings_of(l)
                }),
    {
        match language {
            Language::Rust => {
                self.rust = Some(settings);
            },
            Language::Shell => {
                self.shell = Some(settings);
            },
            Language::Cpp => {
                self.cpp = Some(settings);
            },
            Language::C => {
                self.c = Some(settings);
            },
            Language::Python2 => {
                self.python2 = Some(settings);
            },
            Language::Python3 => {
                self.python3 = Some(settings);
            },
        }
    }

    /// Takes in a survey that is over. Where a utility was missing or a
    /// lookup failed, that error comes back and no language is resolved;
    /// otherwise every language of the survey has its default toolchain
    /// from now on.
    pub fn gather_language_info(&mut self, survey: Survey) -> (r: Result<(), Error>)
        requires
            survey.wf(),
            !survey.is_pending(),
        ensures
            final(self).dir() == old(self).dir(),
            final(self).windows() == old(self).windows(),
            match survey.failure() {
                Some(error) => r is Err && r->Err_0@ == error && forall|l: Language|
                    final(self).settings_of(l) == old(self).settings_of(l),
                None => r is Ok && forall|l: Language|
                    final(self).settings_of(l) == (if survey.languages().contains(l) {
                        Some(default_settings(l, survey.windows()))
                    } else {
                        old(self).settings_of(l)
                    }),
            },
    {
        match survey.failure {
            Some(error) => Err(error),
            None => {
                let mut i: usize = 0;
                while i < survey.languages.len()
                    invariant
                        i <= survey.languages.len(),
                        self.dir() == old(self).dir(),
                        self.windows() == old(self).windows(),
                        forall|l: Language|
                            self.settings_of(l) == (if survey.languages@.take(i as int).contains(
                                l,
                            ) {
                                Some(default_settings(l, survey.windows))
                            } else {
                                old(self).settings_of(l)
                            }),
                    decreases survey.languages.len() - i,
                {
                    let language = survey.languages[i];
                    let ghost before = survey.languages@.take(i as int);
                    let ghost after = survey.languages@.take(i + 1);
                    self.set(language, LanguageSettings::default_on(language, survey.windows));
                    proof {
                        assert(after =~= before.push(language));
                        assert forall|l: Language|
                            after.contains(l) <==> (before.contains(l) || l == language) by {
                            if before.contains(l) {
                                let j = choose|j: int| 0 <= j < before.len() && before[j] == l;
                                assert(after[j] == l);
                            }
                            if l == language {
                                assert(after[before.len() as int] == l);
                            }
                        }
                    }
                    i = i + 1;
                }
                assert(survey.languages@.take(i as int) =~= survey.languages@);
                Ok(())
            },
        }
    }

    /// The toolchain of a language that was resolved; `NoLangSettings` with
    /// the quoted name of the language where it was not.
    pub fn settings_for(&self, language: Language) -> (r: Result<LanguageSettings, Error>)
        ensures
            match self.settings_of(language) {
                Some(settings) => r is Ok && r->Ok_0@ == settings,
                None => r is Err && r->Err_0@ == ErrorView::NoLangSettings(label_of(language)),
            },
    {
        let slot = match language {
            Language::Rust => &self.rust,
            Language::Shell => &self.shell,
            Language::Cpp => &self.cpp,
            Language::C => &self.c,
            Language::Python2 => &self.python2,
            Language::Python3 => &self.python3,
        };
        match slot {
            Some(settings) => Ok(settings.clone()),
            None => Err(Error::NoLangSettings(language.label())),
        }
    }

    /// The name of the file that holds the source text of a batch.
    pub fn source_name(settings: &LanguageSettings) -> (r: String)
        ensures
            r@ == "source."@ + settings.extension@,
    {
        "source.".to_owned().concat(settings.extension.as_str())
    }

    /// The name of the file that holds a competitor's submission for a
    /// problem.
    pub fn submission_name(problem: &Problem, settings: &LanguageSettings) -> (r: String)
        ensures
            r@ == problem.filename@ + "."@ + settings.extension@,
    {
        problem.filename.clone().concat(".").concat(settings.extension.as_str())
    }

    /// Starts a batch for `source` in the working directory. The source
    /// file is the one named by `source_name`, joined to the directory as
    /// the host writes paths.
    pub fn run_tools(&self, source: String, scenarios: Vec<Scenario>, settings: &LanguageSettings) -> (r: Batch)
        ensures
            r.wf(),
            r.plan() == plan_of(
                source@,
                scenarios_view(scenarios@),
                settings@,
                self.dir(),
                r.plan().source_path,
            ),
            r.progress() == crate::batch::initial(),
    {
        let name = Tito::source_name(settings);
        let source_path = join_path(self.dir.as_str(), name.as_str());
        Batch::new(source, scenarios, settings, self.dir.as_str(), source_path)
    }

    /// The outputs of a batch whose scenarios all gave one; otherwise the
    /// error of the first scenario that failed.
    pub fn collect(outputs: &Vec<Result<String, Error>>) -> (r: Result<Vec<String>, Error>)
        ensures
            match r {
                Ok(v) => v@.len() == outputs@.len() && forall|i: int|
                    0 <= i < outputs@.len() ==> outcome_view(#[trigger] outputs@[i]) == Ok::<
                        Seq<char>,
                        ErrorView,
                    >(v@[i]@),
                Err(e) => exists|k: int|
                    0 <= k < outputs@.len() && outcome_view(#[trigger] outputs@[k]) == Err::<
                        Seq<char>,
                        ErrorView,
                    >(e@) && forall|j: int| 0 <= j < k ==> (#[trigger] outputs@[j]) is Ok,
            },
    {
        let mut v: Vec<String> = Vec::new();
        let mut i: usize = 0;
        while i < outputs.len()
            invariant
                i <= outputs.len(),
                v@.len() == i,
                forall|j: int|
                    0 <= j < i ==> outcome_view(#[trigger] outputs@[j]) == Ok::<
                        Seq<char>,
                        ErrorView,
                    >(v@[j]@),
            decreases outputs.len() - i,
        {
            match &outputs[i] {
                Ok(text) => {
                    v.push(text.clone());
                },
                Err(error) => {
                    let e = error.clone();
                    assert(outcome_view(outputs@[i as int]) == Err::<Seq<char>, ErrorView>(e@));
                    assert forall|j: int| 0 <= j < i implies (#[trigger] outputs@[j]) is Ok by {
                        assert(outcome_view(outputs@[j]) is Ok);
                    }
                    return Err(e);
                },
            }
            i = i + 1;
        }
        Ok(v)
    }

    /// The file name of a problem, given the stem of its solution's path:
    /// the stem, or `NoFileName` with the problem's name where the path has
    /// none.
    pub fn filename_from_stem(name: &str, stem: Option<String>) -> (r: Result<String, Error>)
        ensures
            match stem {
                Some(s) => r is Ok && r->Ok_0@ == s@,
                None => r is Err && r->Err_0@ == ErrorView::NoFileName(name@),
            },
    {
        match stem {
            Some(s) => Ok(s),
            None => Err(Error::NoFileName(name.to_owned())),
        }
    }

    /// The file name of the problem that a proposal becomes: the stem of
    /// the file name of its solution's path, as the host reads paths. Where
    /// the path has no file name, as an empty path has none, the error is
    /// `NoFileName` with the problem's name; there is no other error.
    pub fn problem_filename(name: &str, proposal: &Proposal) -> (r: Result<String, Error>)
        ensures
            r is Ok ==> is_stem_in(proposal.solution@, r->Ok_0@),
            r is Err ==> r->Err_0@ == ErrorView::NoFileName(name@),
            proposal.solution@.len() == 0 ==> r is Err,
    {
        let stem = file_stem(proposal.solution.as_str());
        proof {
            if stem is Some {
                lemma_stem_is_part(proposal.solution@, stem->Some_0@);
            }
        }
        Tito::filename_from_stem(name, stem)
    }

    /// The problem that a proposal becomes: each scenario that has an
    /// output, in order, with the trimmed output as its expected output.
    pub fn freeze(proposal: &Proposal, filename: String, outputs: &Vec<String>) -> (r: Problem)
        ensures
            r@ == frozen(proposal@, filename@, texts(outputs@)),
            r.complete(),
    {
        let mut scenarios: Vec<Scenario> = Vec::new();
        let mut i: usize = 0;
        while i < proposal.scenarios.len() && i < outputs.len()
            invariant
                i <= proposal.scenarios.len(),
                i <= outputs.len(),
                scenarios@.len() == i,
                forall|j: int|
                    0 <= j < i ==> (#[trigger] scenarios@[j])@ == with_output(
                        proposal.scenarios@[j]@,
                        outputs@[j]@,
                    ),
                forall|j: int| 0 <= j < i ==> (#[trigger] scenarios@[j]).output.is_some(),
            decreases proposal.scenarios.len() - i,
        {
            let given = &proposal.scenarios[i];
            let scenario = Scenario {
                arguments: copy_opt_texts(&given.arguments),
                input: copy_opt_text(&given.input),
                output: Some(trim(outputs[i].as_str())),
                max_time_millis: given.max_time_millis,
                max_ram: given.max_ram,
                points: given.points,
            };
            scenarios.push(scenario);
            i = i + 1;
        }
        let r = Problem {
            scenarios,
            filename,
            language: Some(proposal.language),
            points: proposal.points,
        };
        assert(r@.scenarios =~= frozen(proposal@, filename@, texts(outputs@)).scenarios);
        r
    }

    /// Grades the outputs of a submission against a problem, output by
    /// output in the order of the scenarios. A scenario without expected
    /// output is an error, `NoSolution` with the problem's name and the
    /// index of the first such scenario that has a candidate output.
    /// Otherwise the grade holds the points of the scenarios whose expected
    /// output equals the trimmed candidate output, and the points of the
    /// problem.
    pub fn grade(name: &str, problem: &Problem, outputs: &Vec<String>) -> (r: Result<Evaluation, Error>)
        ensures
            graded_as(name@, problem@, texts(outputs@), r),
            r is Ok ==> earned_points(
                problem@.scenarios,
                texts(outputs@),
                paired(problem@.scenarios, texts(outputs@)),
            ) <= u128::MAX,
    {
        let ghost scenarios = problem@.scenarios;
        let ghost candidates = texts(outputs@);
        let mut earned: u128 = 0;
        let mut i: usize = 0;
        while i < problem.scenarios.len() && i < outputs.len()
            invariant
                i <= problem.scenarios.len(),
                i <= outputs.len(),
                scenarios == problem@.scenarios,
                candidates == texts(outputs@),
                earned == earned_points(scenarios, candidates, i as nat),
                earned <= i * 0xffff_ffff,
                forall|j: int| 0 <= j < i ==> (#[trigger] scenarios[j]).output.is_some(),
            decreases problem.scenarios.len() - i,
        {
            let scenario = &problem.scenarios[i];
            assert(scenarios[i as int] == scenario@);
            match &scenario.output {
                Some(expected) => {
                    let candidate = trim(outputs[i].as_str());
                    assert(candidates[i as int] == outputs@[i as int]@);
                    if candidate == *expected {
                        earned = earned + (scenario.points as u128);
                    }
                },
                None => {
                    assert(scenarios[i as int].output.is_none());
                    return Err(Error::NoSolution(name.to_owned(), i));
                },
            }
            i = i + 1;
        }
        assert(i == paired(scenarios, candidates));
        Ok(Evaluation::Grade { earned, total: problem.points })
    }

    /// Starts the batch that runs the solution of a proposal, given what
    /// reading its file gave. A file that could not be opened or read is an
    /// `IOError`; after that, `NoLangSettings` where the proposal's language
    /// was not resolved.
    pub fn test_proposal(&self, proposal: &Proposal, read: FileRead) -> (r: Result<Batch, Error>)
        ensures
            match read {
                FileRead::Absent(detail) => r is Err && r->Err_0@ == ErrorView::IOError(detail@),
                FileRead::Broken(detail) => r is Err && r->Err_0@ == ErrorView::IOError(detail@),
                FileRead::Text(source) => self.starts(
                    proposal.language,
                    source@,
                    proposal@.scenarios,
                    r,
                ),
            },
    {
        match read {
            FileRead::Absent(detail) => Err(Error::IOError(detail)),
            FileRead::Broken(detail) => Err(Error::IOError(detail)),
            FileRead::Text(source) => match self.settings_for(proposal.language) {
                Ok(settings) => Ok(
                    self.run_tools(source, copy_scenarios(&proposal.scenarios), &settings),
                ),
                Err(error) => Err(error),
            },
        }
    }

    /// Starts the batch that runs a submission for a problem, given what
    /// reading its file gave. `NoLangSettings` where the problem's language
    /// was not resolved; after that, a file that could not be opened is
    /// `NoFileFound` and one that could not be read an `IOError`.
    pub fn evaluate(&self, problem: &Problem, read: FileRead) -> (r: Result<Batch, Error>)
        requires
            problem.language is Some,
        ensures
            match read {
                FileRead::Text(source) => self.starts(
                    problem.language->Some_0,
                    source@,
                    problem@.scenarios,
                    r,
                ),
                _ => r is Err && r->Err_0@ == (match self.settings_of(problem.language->Some_0) {
                    None => ErrorView::NoLangSettings(label_of(problem.language->Some_0)),
                    Some(_) => match read {
                        FileRead::Broken(detail) => ErrorView::IOError(detail@),
                        _ => ErrorView::NoFileFound,
                    },
                }),
            },
    {
        let language = match problem.language {
            Some(language) => language,
            None => Language::Shell,
        };
        match self.settings_for(language) {
            Ok(settings) => match read {
                FileRead::Absent(_) => Err(Error::NoFileFound),
                FileRead::Broken(detail) => Err(Error::IOError(detail)),
                FileRead::Text(source) => Ok(
                    self.run_tools(source, copy_scenarios(&problem.scenarios), &settings),
                ),
            },
            Err(error) => Err(error),
        }
    }

    /// Whether `r` is what starting a batch for `source` in `language`
    /// gives: a fresh batch under the toolchain resolved for the language,
    /// or `NoLangSettings` where there is none.
    pub open spec fn starts(&self, language: Language, source: Seq<char>, scenarios: Seq<ScenarioView>, r: Result<Batch, Error>) -> bool {
        match self.settings_of(language) {
            Some(settings) => r is Ok && r->Ok_0.wf() && r->Ok_0.progress()
                == crate::batch::initial() && r->Ok_0.plan() == plan_of(
                source,
                scenarios,
                settings,
                self.dir(),
                r->Ok_0.plan().source_path,
            ),
            None => r is Err && r->Err_0@ == ErrorView::NoLangSettings(label_of(language)),
        }
    }

    /// The arena of the problems that the proposals of `settings` become,
    /// under their names and in their order, where `solutions` holds for
    /// each proposal the outputs of its solution. Every scenario of the
    /// arena has its expected output. The only error is `NoFileName`, with
    /// the name of the first proposal whose solution's path has no stem.
    pub fn build(&self, settings: &Settings, solutions: &Vec<Vec<String>>) -> (r: Result<Arena, Error>)
        requires
            solutions@.len() == settings.proposals@.len(),
        ensures
            match r {
                Ok(arena) => {
                    &&& arena.complete()
                    &&& arena.names() == settings.names()
                    &&& arena.problems@.len() == settings.proposals@.len()
                    &&& forall|k: int|
                        0 <= k < arena.problems@.len() ==> built_from(
                            #[trigger] arena.problems@[k],
                            settings.proposals@[k],
                            solutions@[k],
                        )
                },
                Err(error) => exists|k: int|
                    0 <= k < settings.proposals@.len() && error@ == ErrorView::NoFileName(
                        (#[trigger] settings.proposals@[k]).0@,
                    ),
            },
    {
        let mut problems: Vec<(String, Problem)> = Vec::new();
        let mut i: usize = 0;
        while i < settings.proposals.len()
            invariant
                i <= settings.proposals.len(),
                solutions@.len() == settings.proposals@.len(),
                problems@.len() == i,
                forall|k: int|
                    0 <= k < i ==> built_from(
                        #[trigger] problems@[k],
                        settings.proposals@[k],
                        solutions@[k],
                    ),
                forall|k: int| 0 <= k < i ==> (#[trigger] problems@[k]).1.complete(),
            decreases settings.proposals.len() - i,
        {
            let name = &settings.proposals[i].0;
            let proposal = &settings.proposals[i].1;
            match Tito::problem_filename(name.as_str(), proposal) {
                Ok(filename) => {
                    let problem = Tito::freeze(proposal, filename, &solutions[i]);
                    problems.push((name.clone(), problem));
                },
                Err(error) => {
                    assert(error@ == ErrorView::NoFileName(settings.proposals@[i as int].0@));
                    return Err(error);
                },
            }
            i = i + 1;
        }
        let arena = Arena { problems };
        assert(arena.names() =~= settings.names());
        Ok(arena)
    }

    /// The evaluations of one competitor, problem by problem in the order
    /// of the arena, where `attempts` holds for each problem what came of
    /// running the submission. A missing file or a failed run touches the
    /// evaluation of that problem alone. The only error is that of `grade`,
    /// for the first problem that has it.
    pub fn run_competitor(arena: &Arena, attempts: &Vec<Result<Vec<String>, Error>>) -> (r: Result<
        Vec<(String, Evaluation)>,
        Error,
    >)
        requires
            attempts@.len() == arena.problems@.len(),
        ensures
            match r {
                Ok(grades) => competitor_graded(arena, attempts@, grades@),
                Err(error) => exists|k: int| #[trigger]
                    entry_fails(arena, attempts@, k, error) && forall|j: int|
                        0 <= j < k ==> !(#[trigger] unsolved(arena, attempts@, j)),
            },
    {
        let mut grades: Vec<(String, Evaluation)> = Vec::new();
        let mut i: usize = 0;
        while i < arena.problems.len()
            invariant
                i <= arena.problems.len(),
                attempts@.len() == arena.problems@.len(),
                grades@.len() == i,
                forall|k: int|
                    0 <= k < i ==> entry_graded(arena, attempts@, #[trigger] grades@[k], k),
                forall|j: int| 0 <= j < i ==> !(#[trigger] unsolved(arena, attempts@, j)),
            decreases arena.problems.len() - i,
        {
            let name = &arena.problems[i].0;
            let problem = &arena.problems[i].1;
            match Tito::evaluation_of(name.as_str(), problem, &attempts[i]) {
                Ok(evaluation) => {
                    grades.push((name.clone(), evaluation));
                    assert(!unsolved(arena, attempts@, i as int));
                },
                Err(error) => {
                    assert(entry_fails(arena, attempts@, i as int, error));
                    return Err(error);
                },
            }
            i = i + 1;
        }
        Ok(grades)
    }

    /// The evaluations of every competitor, in their order, each under the
    /// competitor's name, where `attempts` holds for each competitor and
    /// each problem of the arena what came of running the submission. The
    /// only error is that of `grade`.
    pub fn run(&self, competitors: &Vec<Competitor>, arena: &Arena, attempts: &Vec<Vec<Result<Vec<String>, Error>>>) -> (r:
        Result<Vec<(String, Vec<(String, Evaluation)>)>, Error>)
        requires
            attempts@.len() == competitors@.len(),
            forall|c: int|
                0 <= c < attempts@.len() ==> (#[trigger] attempts@[c])@.len()
                    == arena.problems@.len(),
        ensures
            match r {
                Ok(grades) => {
                    &&& grades@.len() == competitors@.len()
                    &&& forall|c: int|
                        0 <= c < grades@.len() ==> (#[trigger] grades@[c]).0@ == competitors@[c].id@
                            && competitor_graded(arena, attempts@[c]@, grades@[c].1@)
                },
                Err(error) => exists|c: int, k: int|
                    {
                        &&& 0 <= c < competitors@.len()
                        &&& #[trigger] entry_fails(arena, attempts@[c]@, k, error)
                        &&& forall|j: int| 0 <= j < k ==> !(#[trigger] unsolved(arena, attempts@[c]@, j))
                        &&& forall|b: int, j: int|
                            0 <= b < c && 0 <= j < arena.problems@.len() ==> !(#[trigger] unsolved(
                                arena,
                                attempts@[b]@,
                                j,
                            ))
                    },
            },
    {
        let mut grades: Vec<(String, Vec<(String, Evaluation)>)> = Vec::new();
        let mut i: usize = 0;
        while i < competitors.len()
            invariant
                i <= competitors.len(),
                attempts@.len() == competitors@.len(),
                forall|c: int|
                    0 <= c < attempts@.len() ==> (#[trigger] attempts@[c])@.len()
                        == arena.problems@.len(),
                grades@.len() == i,
                forall|c: int|
                    0 <= c < i ==> (#[trigger] grades@[c]).0@ == competitors@[c].id@
                        && competitor_graded(arena, attempts@[c]@, grades@[c].1@),
                forall|b: int, j: int|
                    0 <= b < i && 0 <= j < arena.problems@.len() ==> !(#[trigger] unsolved(
                        arena,
                        attempts@[b]@,
                        j,
                    )),
            decreases competitors.len() - i,
        {
            match Tito::run_competitor(arena, &attempts[i]) {
                Ok(user_grades) => {
                    proof {
                        assert forall|j: int| 0 <= j < arena.problems@.len() implies !(
                        #[trigger] unsolved(arena, attempts@[i as int]@, j)) by {
                            assert(entry_graded(
                                arena,
                                attempts@[i as int]@,
                                user_grades@[j],
                                j,
                            ));
                        }
                    }
                    grades.push((competitors[i].id.clone(), user_grades));
                },
                Err(error) => {
                    let ghost k = choose|k: int| #[trigger]
                        entry_fails(arena, attempts@[i as int]@, k, error) && forall|j: int|
                            0 <= j < k ==> !(#[trigger] unsolved(arena, attempts@[i as int]@, j));
                    assert(entry_fails(arena, attempts@[i as int]@, k, error));
                    return Err(error);
                },
            }
            i = i + 1;
        }
        Ok(grades)
    }

    /// The evaluation of a submission, given what came of running it: a
    /// grade for outputs, `NoFile` where the file was not found, `RunError`
    /// for any other error. The only error is that of `grade`.
    pub fn evaluation_of(name: &str, problem: &Problem, attempt: &Result<Vec<String>, Error>) -> (r: Result<
        Evaluation,
        Error,
    >)
        ensures
            evaluated_as(name@, problem@, *attempt, r),
    {
        match attempt {
            Ok(outputs) => Tito::grade(name, problem, outputs),
            Err(error) => match error {
                Error::NoFileFound => Ok(Evaluation::NoFile),
                _ => Ok(Evaluation::RunError),
            },
        }
    }
}

} // verus!
