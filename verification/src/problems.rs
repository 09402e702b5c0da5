//! Scenarios, and the problems and proposals made of them.

use vstd::prelude::*;
use vstd::string::*;
use crate::language::Language;
use crate::text::{copy_opt_text, copy_opt_texts, opt_text, opt_texts};

verus! {

/// What surrounds one execution of a solution, or of an attempt.
#[derive(Debug, PartialEq, Eq)]
pub struct Scenario {
    /// Arguments provided at execution time.
    pub arguments: Option<Vec<String>>,
    /// Standard input for the program.
    pub input: Option<String>,
    /// Expected output; absent until the solution of the proposal has run.
    pub output: Option<String>,
    /// Maximum allowed time, in milliseconds.
    pub max_time_millis: u64,
    /// Maximum allowed memory, in bytes. Advisory: nothing enforces it.
    pub max_ram: Option<u32>,
    /// Points that this scenario gives.
    pub points: u32,
}

/// What a `Scenario` holds.
pub struct ScenarioView {
    pub arguments: Option<Seq<Seq<char>>>,
    pub input: Option<Seq<char>>,
    pub output: Option<Seq<char>>,
    pub max_time_millis: u64,
    pub max_ram: Option<u32>,
    pub points: u32,
}

impl View for Scenario {
    type V = ScenarioView;

    open spec fn view(&self) -> ScenarioView {
        ScenarioView {
            arguments: opt_texts(self.arguments),
            input: opt_text(self.input),
            output: opt_text(self.output),
            max_time_millis: self.max_time_millis,
            max_ram: self.max_ram,
            points: self.points,
        }
    }
}

impl Clone for Scenario {
    fn clone(&self) -> (r: Scenario)
        ensures
            r@ == self@,
    {
        Scenario {
            arguments: copy_opt_texts(&self.arguments),
            input: copy_opt_text(&self.input),
            output: copy_opt_text(&self.output),
            max_time_millis: self.max_time_millis,
            max_ram: self.max_ram,
            points: self.points,
        }
    }
}

/// The contents of a list of scenarios.
pub open spec fn scenarios_view(v: Seq<Scenario>) -> Seq<ScenarioView> {
    Seq::new(v.len(), |i: int| v[i]@)
}

/// A copy of a list of scenarios.
pub fn copy_scenarios(v: &Vec<Scenario>) -> (r: Vec<Scenario>)
    ensures
        scenarios_view(r@) == scenarios_view(v@),
{
    let mut r: Vec<Scenario> = Vec::new();
    let mut i: usize = 0;
    while i < v.len()
        invariant
            i <= v.len(),
            r@.len() == i,
            forall|j: int| 0 <= j < i ==> r@[j]@ == v@[j]@,
        decreases v.len() - i,
    {
        r.push(v[i].clone());
        i = i + 1;
    }
    assert(scenarios_view(r@) =~= scenarios_view(v@));
    r
}

/// A graded unit: scenarios with their expected outputs.
#[derive(Debug, PartialEq, Eq)]
pub struct Problem {
    /// Scenarios where the problem should run.
    pub scenarios: Vec<Scenario>,
    /// Name, without extension, of the file that holds a submission.
    pub filename: String,
    /// Language that submissions are written in.
    pub language: Option<Language>,
    /// Total points that the problem gives.
    pub points: u32,
}

/// What a `Problem` holds.
pub struct ProblemView {
    pub scenarios: Seq<ScenarioView>,
    pub filename: Seq<char>,
    pub language: Option<Language>,
    pub points: u32,
}

impl View for Problem {
    type V = ProblemView;

    open spec fn view(&self) -> ProblemView {
        ProblemView {
            scenarios: scenarios_view(self.scenarios@),
            filename: self.filename@,
            language: self.language,
            points: self.points,
        }
    }
}

impl Clone for Problem {
    fn clone(&self) -> (r: Problem)
        ensures
            r@ == self@,
    {
        Problem {
            scenarios: copy_scenarios(&self.scenarios),
            filename: self.filename.clone(),
            language: self.language,
            points: self.points,
        }
    }
}

impl Problem {
    /// Whether every scenario carries its expected output.
    pub open spec fn complete(&self) -> bool {
        forall|i: int| 0 <= i < self.scenarios@.len() ==> (#[trigger] self.scenarios@[i]).output.is_some()
    }
}

/// A solution to run, with its scenarios.
#[derive(Debug, PartialEq, Eq)]
pub struct Proposal {
    /// Input scenarios.
    pub scenarios: Vec<Scenario>,
    /// Path to the solution of the problem.
    pub solution: String,
    /// Language the solution is written in.
    pub language: Language,
    /// Number of points this problem gives.
    pub points: u32,
}

/// What a `Proposal` holds.
pub struct ProposalView {
    pub scenarios: Seq<ScenarioView>,
    pub solution: Seq<char>,
    pub language: Language,
    pub points: u32,
}

impl View for Proposal {
    type V = ProposalView;

    open spec fn view(&self) -> ProposalView {
        ProposalView {
            scenarios: scenarios_view(self.scenarios@),
            solution: self.solution@,
            language: self.language,
            points: self.points,
        }
    }
}

impl Clone for Proposal {
    fn clone(&self) -> (r: Proposal)
        ensures
            r@ == self@,
    {
        Proposal {
            scenarios: copy_scenarios(&self.scenarios),
            solution: self.solution.clone(),
            language: self.language,
            points: self.points,
        }
    }
}

} // verus!
