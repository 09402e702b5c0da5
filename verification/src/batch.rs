//! One batch of the execution engine: a source text, run once through the
//! tools that prepare it and then once per scenario through the main tool.
//!
//! The batch decides; its owner acts. `Batch::action` names the next thing
//! to do on the host, and the owner reports what came of it to
//! `source_written`, `pre_tool_ran` or `scenario_ran`.

use vstd::prelude::*;
use vstd::string::*;
use vstd::utf8::*;
use crate::error::{Error, ErrorView, opt_error_view, outcome_view, outcomes_view};
use crate::language::{LanguageSettings, LanguageSettingsView, Tool, ToolView};
use crate::problems::{Scenario, ScenarioView, scenarios_view};
use crate::text::{
    copy_opt_text,
    copy_texts,
    decode,
    decode_lossy,
    lemma_replaced_absent,
    lemma_replaced_whole,
    lemma_short_text_lacks,
    lossy_text,
    occurs,
    opt_text,
    replace,
    replaced,
    texts,
};

verus! {

/// `text` with `{filename}` replaced by the path of the source file and then
/// `{pwd}` by the working directory.
pub open spec fn resolved(text: Seq<char>, source_path: Seq<char>, dir: Seq<char>) -> Seq<char> {
    replaced(replaced(text, "{filename}"@, source_path), "{pwd}"@, dir)
}

/// Replaces the placeholders `{filename}` and `{pwd}` in `text`.
pub fn resolve(text: &str, source_path: &str, dir: &str) -> (r: String)
    ensures
        r@ == resolved(text@, source_path@, dir@),
{
    proof {
        reveal_strlit("{filename}");
        reveal_strlit("{pwd}");
    }
    let with_file = replace(text, "{filename}", source_path);
    replace(with_file.as_str(), "{pwd}", dir)
}

/// The placeholder `{pwd}` resolves to the working directory.
pub proof fn lemma_pwd_resolves(source_path: Seq<char>, dir: Seq<char>)
    ensures
        resolved("{pwd}"@, source_path, dir) == dir,
{
    reveal_strlit("{filename}");
    reveal_strlit("{pwd}");
    lemma_short_text_lacks("{pwd}"@, "{filename}"@);
    lemma_replaced_absent("{pwd}"@, "{filename}"@, source_path);
    lemma_replaced_whole("{pwd}"@, dir);
}

/// The placeholder `{filename}` resolves to the path of the source file,
/// where that path does not itself hold `{pwd}`.
pub proof fn lemma_filename_resolves(source_path: Seq<char>, dir: Seq<char>)
    requires
        !occurs(source_path, "{pwd}"@),
    ensures
        resolved("{filename}"@, source_path, dir) == source_path,
{
    reveal_strlit("{filename}");
    reveal_strlit("{pwd}");
    lemma_replaced_whole("{filename}"@, source_path);
    lemma_replaced_absent(source_path, "{pwd}"@, dir);
}

/// A text without placeholders resolves to itself.
pub proof fn lemma_plain_text_resolves(text: Seq<char>, source_path: Seq<char>, dir: Seq<char>)
    requires
        !occurs(text, "{filename}"@),
        !occurs(text, "{pwd}"@),
    ensures
        resolved(text, source_path, dir) == text,
{
    lemma_replaced_absent(text, "{filename}"@, source_path);
    lemma_replaced_absent(text, "{pwd}"@, dir);
}

/// A utility to spawn, with its arguments and its working directory.
#[derive(Debug, PartialEq, Eq)]
pub struct Invocation {
    pub utility: String,
    pub arguments: Vec<String>,
    pub directory: String,
}

/// What an `Invocation` holds.
pub struct InvocationView {
    pub utility: Seq<char>,
    pub arguments: Seq<Seq<char>>,
    pub directory: Seq<char>,
}

impl View for Invocation {
    type V = InvocationView;

    open spec fn view(&self) -> InvocationView {
        InvocationView {
            utility: self.utility@,
            arguments: texts(self.arguments@),
            directory: self.directory@,
        }
    }
}

impl Clone for Invocation {
    fn clone(&self) -> (r: Invocation)
        ensures
            r@ == self@,
    {
        Invocation {
            utility: self.utility.clone(),
            arguments: copy_texts(&self.arguments),
            directory: self.directory.clone(),
        }
    }
}

/// The invocation that a tool stands for: placeholders resolved in the
/// utility and in every argument, run in the working directory.
pub open spec fn invocation_of(tool: ToolView, source_path: Seq<char>, dir: Seq<char>) -> InvocationView {
    InvocationView {
        utility: resolved(tool.utility, source_path, dir),
        arguments: Seq::new(
            tool.arguments.len(),
            |i: int| resolved(tool.arguments[i], source_path, dir),
        ),
        directory: dir,
    }
}

/// The invocations of a list of tools, in order.
pub open spec fn invocations_of(tools: Seq<ToolView>, source_path: Seq<char>, dir: Seq<char>) -> Seq<
    InvocationView,
> {
    Seq::new(tools.len(), |i: int| invocation_of(tools[i], source_path, dir))
}

/// The contents of a list of invocations.
pub open spec fn invocations_view(v: Seq<Invocation>) -> Seq<InvocationView> {
    Seq::new(v.len(), |i: int| v[i]@)
}

/// Resolves the placeholders of a tool.
pub fn invocation(tool: &Tool, source_path: &str, dir: &str) -> (r: Invocation)
    ensures
        r@ == invocation_of(tool@, source_path@, dir@),
{
    let utility = resolve(tool.utility.as_str(), source_path, dir);
    let mut arguments: Vec<String> = Vec::new();
    let mut i: usize = 0;
    while i < tool.arguments.len()
        invariant
            i <= tool.arguments.len(),
            arguments@.len() == i,
            forall|j: int|
                0 <= j < i ==> arguments@[j]@ == resolved(
                    tool.arguments@[j]@,
                    source_path@,
                    dir@,
                ),
        decreases tool.arguments.len() - i,
    {
        arguments.push(resolve(tool.arguments[i].as_str(), source_path, dir));
        i = i + 1;
    }
    let r = Invocation { utility, arguments, directory: dir.to_owned() };
    assert(r@.arguments =~= invocation_of(tool@, source_path@, dir@).arguments);
    r
}

/// Where a batch stands.
#[derive(Clone, Copy, PartialEq, Eq, Debug, Structural)]
pub enum Stage {
    /// The source text is to be written.
    Source,
    /// The preparing tool of this index is to run.
    PreTool(usize),
    /// The main tool is to run on the scenario of this index.
    Scenario(usize),
    /// Nothing is left to do.
    Done,
}

/// What a batch was made to do.
pub struct Plan {
    pub source: Seq<char>,
    pub source_path: Seq<char>,
    pub pre: Seq<InvocationView>,
    pub main: InvocationView,
    pub scenarios: Seq<ScenarioView>,
}

/// How far a batch has come.
pub struct Progress {
    pub stage: Stage,
    pub values: Seq<Result<Seq<char>, ErrorView>>,
    pub failure: Option<ErrorView>,
}

/// The plan for a source text under a toolchain.
pub open spec fn plan_of(
    source: Seq<char>,
    scenarios: Seq<ScenarioView>,
    settings: LanguageSettingsView,
    dir: Seq<char>,
    source_path: Seq<char>,
) -> Plan {
    Plan {
        source,
        source_path,
        pre: match settings.pre_tools {
            Some(tools) => invocations_of(tools, source_path, dir),
            None => Seq::empty(),
        },
        main: invocation_of(settings.tool, source_path, dir),
        scenarios,
    }
}

/// Where a batch starts.
pub open spec fn initial() -> Progress {
    Progress { stage: Stage::Source, values: Seq::empty(), failure: None }
}

/// A result that a scenario can have in a batch that was not stopped: its
/// output, or `TimeExceeded`.
pub open spec fn recordable(value: Result<Seq<char>, ErrorView>) -> bool {
    value is Ok || value == Err::<Seq<char>, ErrorView>(ErrorView::TimeExceeded)
}

/// A progress that a batch can have under a plan.
pub open spec fn coherent(plan: Plan, progress: Progress) -> bool {
    &&& plan.pre.len() <= usize::MAX
    &&& plan.scenarios.len() <= usize::MAX
    &&& forall|j: int|
        0 <= j < progress.values.len() ==> recordable(#[trigger] progress.values[j])
    &&& match progress.stage {
        Stage::Source => progress.values.len() == 0 && progress.failure.is_none(),
        Stage::PreTool(i) => i < plan.pre.len() && progress.values.len() == 0
            && progress.failure.is_none(),
        Stage::Scenario(i) => i < plan.scenarios.len() && progress.values.len() == i
            && progress.failure.is_none(),
        Stage::Done => progress.failure.is_some() || progress.values.len()
            == plan.scenarios.len(),
    }
}

/// The stage at which the scenario of index `i` is next, if there is one.
pub open spec fn scenario_stage(plan: Plan, i: int) -> Stage {
    if i < plan.scenarios.len() {
        Stage::Scenario(i as usize)
    } else {
        Stage::Done
    }
}

/// The stage at which the preparing tool of index `i` is next, if there is
/// one; the scenarios follow the last.
pub open spec fn pre_tool_stage(plan: Plan, i: int) -> Stage {
    if i < plan.pre.len() {
        Stage::PreTool(i as usize)
    } else {
        scenario_stage(plan, 0)
    }
}

/// The batch stops with an error.
pub open spec fn aborted(progress: Progress, error: ErrorView) -> Progress {
    Progress { stage: Stage::Done, values: progress.values, failure: Some(error) }
}

/// Progress once writing the source has failed with `failure`, or succeeded.
pub open spec fn after_source(plan: Plan, progress: Progress, failure: Option<Seq<char>>) -> Progress {
    match failure {
        Some(detail) => aborted(progress, ErrorView::IOError(detail)),
        None => Progress { stage: pre_tool_stage(plan, 0), ..progress },
    }
}

/// Progress once the preparing tool of index `i` has run: an error stops
/// the batch, otherwise the next tool follows.
pub open spec fn after_pre_tool(plan: Plan, progress: Progress, i: usize, verdict: Option<ErrorView>) -> Progress {
    match verdict {
        Some(error) => aborted(progress, error),
        None => Progress { stage: pre_tool_stage(plan, i + 1), ..progress },
    }
}

/// Progress once the main tool has run on the scenario of index `i`: a
/// result is recorded and the next scenario follows, an error stops the
/// batch.
pub open spec fn after_scenario(
    plan: Plan,
    progress: Progress,
    i: usize,
    verdict: Result<Result<Seq<char>, ErrorView>, ErrorView>,
) -> Progress {
    match verdict {
        Ok(value) => Progress {
            stage: scenario_stage(plan, i + 1),
            values: progress.values.push(value),
            failure: None,
        },
        Err(error) => aborted(progress, error),
    }
}

/// What came of running a preparing tool.
#[derive(Debug, PartialEq, Eq)]
pub enum PreToolOutcome {
    /// The process could not be spawned.
    SpawnFailed(String),
    /// The process exited; `stderr` is what it wrote there.
    Exited { success: bool, stderr: Vec<u8> },
}

/// What came of running the main tool on a scenario.
#[derive(Debug, PartialEq, Eq)]
pub enum ScenarioOutcome {
    /// The process could not be spawned.
    SpawnFailed(String),
    /// The scenario has an input and the child's standard input was not
    /// there to take it.
    StdinUnavailable,
    /// Writing the input to the child failed.
    StdinFeedFailed,
    /// Waiting with a deadline failed.
    WaitFailed(String),
    /// The process had not exited at the deadline and was killed.
    TimedOut,
    /// Collecting the output failed.
    OutputFailed(String),
    /// The process exited in time.
    Exited { success: bool, stdout: Vec<u8>, stderr: Vec<u8> },
}

/// The error, if any, that the outcome of the preparing tool of index
/// `index` stands for.
pub open spec fn pre_tool_verdict(index: usize, outcome: PreToolOutcome) -> Option<ErrorView> {
    match outcome {
        PreToolOutcome::SpawnFailed(detail) => Some(ErrorView::ChildProcessError(detail@)),
        PreToolOutcome::Exited { success, stderr } => if success {
            None
        } else {
            Some(ErrorView::ToolFailure(index, lossy_text(stderr@)))
        },
    }
}

/// What the outcome of a scenario stands for: a result to record, `Ok`, or
/// an error that stops the batch, `Err`. Only a timeout is recorded as a
/// failed result.
pub open spec fn scenario_verdict(outcome: ScenarioOutcome) -> Result<
    Result<Seq<char>, ErrorView>,
    ErrorView,
> {
    match outcome {
        ScenarioOutcome::SpawnFailed(detail) => Err(ErrorView::ChildProcessError(detail@)),
        ScenarioOutcome::StdinUnavailable => Err(ErrorView::ChildStdinRef),
        ScenarioOutcome::StdinFeedFailed => Err(ErrorView::ChildStdinFeed),
        ScenarioOutcome::WaitFailed(detail) => Err(ErrorView::WaitTimeoutError(detail@)),
        ScenarioOutcome::TimedOut => Ok(Err(ErrorView::TimeExceeded)),
        ScenarioOutcome::OutputFailed(detail) => Err(ErrorView::WaitOutputError(detail@)),
        ScenarioOutcome::Exited { success, stdout, stderr } => if !success {
            Err(ErrorView::RuntimeError(lossy_text(stderr@)))
        } else if valid_utf8(stdout@) {
            Ok(Ok(decode_utf8(stdout@)))
        } else {
            Err(ErrorView::Utf8)
        },
    }
}

/// What a verdict on a scenario holds.
pub open spec fn verdict_view(v: Result<Result<String, Error>, Error>) -> Result<
    Result<Seq<char>, ErrorView>,
    ErrorView,
> {
    match v {
        Ok(value) => Ok(outcome_view(value)),
        Err(e) => Err(e@),
    }
}

/// Judges the outcome of the preparing tool of index `index`.
pub fn judge_pre_tool(index: usize, outcome: PreToolOutcome) -> (r: Option<Error>)
    ensures
        opt_error_view(r) == pre_tool_verdict(index, outcome),
{
    match outcome {
        PreToolOutcome::SpawnFailed(detail) => Some(Error::ChildProcessError(detail)),
        PreToolOutcome::Exited { success, stderr } => if success {
            None
        } else {
            Some(Error::ToolFailure(index, decode_lossy(&stderr)))
        },
    }
}

/// Judges the outcome of a scenario.
pub fn judge_scenario(outcome: ScenarioOutcome) -> (r: Result<Result<String, Error>, Error>)
    ensures
        verdict_view(r) == scenario_verdict(outcome),
{
    match outcome {
        ScenarioOutcome::SpawnFailed(detail) => Err(Error::ChildProcessError(detail)),
        ScenarioOutcome::StdinUnavailable => Err(Error::ChildStdinRef),
        ScenarioOutcome::StdinFeedFailed => Err(Error::ChildStdinFeed),
        ScenarioOutcome::WaitFailed(detail) => Err(Error::WaitTimeoutError(detail)),
        ScenarioOutcome::TimedOut => Ok(Err(Error::TimeExceeded)),
        ScenarioOutcome::OutputFailed(detail) => Err(Error::WaitOutputError(detail)),
        ScenarioOutcome::Exited { success, stdout, stderr } => if !success {
            Err(Error::RuntimeError(decode_lossy(&stderr)))
        } else {
            match decode(stdout) {
                Some(text) => Ok(Ok(text)),
                None => Err(Error::Utf8),
            }
        },
    }
}

/// What the owner of a batch is to do next.
#[derive(Debug, PartialEq, Eq)]
pub enum Action {
    /// Write `content` to the file at `path`.
    WriteSource { path: String, content: String },
    /// Run the preparing tool of this index: standard input closed, standard
    /// output discarded, standard error captured.
    RunPreTool { index: usize, invocation: Invocation },
    /// Run the main tool on the scenario of this index with all three
    /// streams piped: feed it `input` if there is one, and wait for it no
    /// longer than `max_time_millis`.
    RunScenario { index: usize, invocation: Invocation, input: Option<String>, max_time_millis: u64 },
    /// Nothing: the batch is over.
    Finish,
}

/// What an `Action` holds.
pub enum ActionView {
    WriteSource { path: Seq<char>, content: Seq<char> },
    RunPreTool { index: usize, invocation: InvocationView },
    RunScenario {
        index: usize,
        invocation: InvocationView,
        input: Option<Seq<char>>,
        max_time_millis: u64,
    },
    Finish,
}

impl View for Action {
    type V = ActionView;

    open spec fn view(&self) -> ActionView {
        match self {
            Action::WriteSource { path, content } => ActionView::WriteSource {
                path: path@,
                content: content@,
            },
            Action::RunPreTool { index, invocation } => ActionView::RunPreTool {
                index: *index,
                invocation: invocation@,
            },
            Action::RunScenario {
                index,
                invocation,
                input,
                max_time_millis,
            } => ActionView::RunScenario {
                index: *index,
                invocation: invocation@,
                input: opt_text(*input),
                max_time_millis: *max_time_millis,
            },
            Action::Finish => ActionView::Finish,
        }
    }
}

/// The action that a stage asks for under a plan.
pub open spec fn action_of(plan: Plan, stage: Stage) -> ActionView
    recommends
        coherent(plan, Progress { stage, values: Seq::empty(), failure: None }),
{
    match stage {
        Stage::Source => ActionView::WriteSource { path: plan.source_path, content: plan.source },
        Stage::PreTool(i) => ActionView::RunPreTool { index: i, invocation: plan.pre[i as int] },
        Stage::Scenario(i) => ActionView::RunScenario {
            index: i,
            invocation: plan.main,
            input: plan.scenarios[i as int].input,
            max_time_millis: plan.scenarios[i as int].max_time_millis,
        },
        Stage::Done => ActionView::Finish,
    }
}

/// One run of a source text through a toolchain and a list of scenarios.
pub struct Batch {
    source: String,
    source_path: String,
    pre: Vec<Invocation>,
    main: Invocation,
    scenarios: Vec<Scenario>,
    stage: Stage,
    values: Vec<Result<String, Error>>,
    failure: Option<Error>,
}

impl Batch {
    /// What the batch was made to do.
    pub closed spec fn plan(&self) -> Plan {
        Plan {
            source: self.source@,
            source_path: self.source_path@,
            pre: invocations_view(self.pre@),
            main: self.main@,
            scenarios: scenarios_view(self.scenarios@),
        }
    }

    /// How far the batch has come.
    pub closed spec fn progress(&self) -> Progress {
        Progress {
            stage: self.stage,
            values: outcomes_view(self.values@),
            failure: opt_error_view(self.failure),
        }
    }

    /// The invariant of a batch.
    pub open spec fn wf(&self) -> bool {
        coherent(self.plan(), self.progress())
    }

    /// A batch for `source` under `settings`, with the source file at
    /// `source_path` and `dir` as working directory. Nothing has happened yet.
    pub fn new(
        source: String,
        scenarios: Vec<Scenario>,
        settings: &LanguageSettings,
        dir: &str,
        source_path: String,
    ) -> (r: Batch)
        ensures
            r.wf(),
            r.plan() == plan_of(
                source@,
                scenarios_view(scenarios@),
                settings@,
                dir@,
                source_path@,
            ),
            r.progress() == initial(),
    {
        let mut pre: Vec<Invocation> = Vec::new();
        match &settings.pre_tools {
            Some(tools) => {
                let mut i: usize = 0;
                while i < tools.len()
                    invariant
                        i <= tools.len(),
                        pre@.len() == i,
                        forall|j: int|
                            0 <= j < i ==> pre@[j]@ == invocation_of(
                                tools@[j]@,
                                source_path@,
                                dir@,
                            ),
                    decreases tools.len() - i,
                {
                    pre.push(invocation(&tools[i], source_path.as_str(), dir));
                    i = i + 1;
                }
            },
            None => {},
        }
        let main = invocation(&settings.tool, source_path.as_str(), dir);
        let r = Batch {
            source,
            source_path,
            pre,
            main,
            scenarios,
            stage: Stage::Source,
            values: Vec::new(),
            failure: None,
        };
        assert(r.plan().pre =~= plan_of(
            source@,
            scenarios_view(scenarios@),
            settings@,
            dir@,
            source_path@,
        ).pre);
        assert(r.progress().values =~= Seq::empty());
        assert(r.pre.len() == r.pre@.len() && r.scenarios.len() == r.scenarios@.len());
        r
    }

    /// Where the batch stands.
    pub fn stage(&self) -> (r: Stage)
        ensures
            r == self.progress().stage,
    {
        self.stage
    }

    /// Whether nothing is left to do.
    pub fn is_done(&self) -> (r: bool)
        ensures
            r == (self.progress().stage == Stage::Done),
    {
        match self.stage {
            Stage::Done => true,
            _ => false,
        }
    }

    /// What is to be done next.
    pub fn action(&self) -> (r: Action)
        requires
            self.wf(),
        ensures
            r@ == action_of(self.plan(), self.progress().stage),
    {
        match self.stage {
            Stage::Source => Action::WriteSource {
                path: self.source_path.clone(),
                content: self.source.clone(),
            },
            Stage::PreTool(i) => Action::RunPreTool { index: i, invocation: self.pre[i].clone() },
            Stage::Scenario(i) => Action::RunScenario {
                index: i,
                invocation: self.main.clone(),
                input: copy_opt_text(&self.scenarios[i].input),
                max_time_millis: self.scenarios[i].max_time_millis,
            },
            Stage::Done => Action::Finish,
        }
    }

    fn stage_of_scenario(&self, i: usize) -> (r: Stage)
        ensures
            r == scenario_stage(self.plan(), i as int),
    {
        if i < self.scenarios.len() {
            Stage::Scenario(i)
        } else {
            Stage::Done
        }
    }

    fn stage_of_pre_tool(&self, i: usize) -> (r: Stage)
        ensures
            r == pre_tool_stage(self.plan(), i as int),
    {
        if i < self.pre.len() {
            Stage::PreTool(i)
        } else {
            self.stage_of_scenario(0)
        }
    }

    /// Takes note of how writing the source went: `Err` holds the detail of
    /// the failure.
    pub fn source_written(&mut self, result: Result<(), String>)
        requires
            old(self).wf(),
            old(self).progress().stage == Stage::Source,
        ensures
            final(self).wf(),
            final(self).plan() == old(self).plan(),
            final(self).progress() == after_source(
                old(self).plan(),
                old(self).progress(),
                match result {
                    Ok(_) => None,
                    Err(detail) => Some(detail@),
                },
            ),
    {
        match result {
            Ok(_) => {
                self.stage = self.stage_of_pre_tool(0);
            },
            Err(detail) => {
                self.failure = Some(Error::IOError(detail));
                self.stage = Stage::Done;
            },
        }
    }

    /// Takes note of how the preparing tool went that `action` asked for.
    pub fn pre_tool_ran(&mut self, outcome: PreToolOutcome)
        requires
            old(self).wf(),
            old(self).progress().stage is PreTool,
        ensures
            final(self).wf(),
            final(self).plan() == old(self).plan(),
            final(self).progress() == after_pre_tool(
                old(self).plan(),
                old(self).progress(),
                old(self).progress().stage->PreTool_0,
                pre_tool_verdict(old(self).progress().stage->PreTool_0, outcome),
            ),
    {
        let index = match self.stage {
            Stage::PreTool(i) => i,
            _ => 0,
        };
        assert(index < self.pre@.len());
        match judge_pre_tool(index, outcome) {
            None => {
                self.stage = self.stage_of_pre_tool(index + 1);
            },
            Some(error) => {
                self.failure = Some(error);
                self.stage = Stage::Done;
            },
        }
    }

    /// Takes note of how the main tool went on the scenario that `action`
    /// asked for.
    pub fn scenario_ran(&mut self, outcome: ScenarioOutcome)
        requires
            old(self).wf(),
            old(self).progress().stage is Scenario,
        ensures
            final(self).wf(),
            final(self).plan() == old(self).plan(),
            final(self).progress() == after_scenario(
                old(self).plan(),
                old(self).progress(),
                old(self).progress().stage->Scenario_0,
                scenario_verdict(outcome),
            ),
    {
        let index = match self.stage {
            Stage::Scenario(i) => i,
            _ => 0,
        };
        assert(index < self.scenarios@.len());
        match judge_scenario(outcome) {
            Ok(value) => {
                self.values.push(value);
                self.stage = self.stage_of_scenario(index + 1);
                assert(self.progress().values =~= old(self).progress().values.push(
                    outcome_view(value),
                ));
            },
            Err(error) => {
                self.failure = Some(error);
                self.stage = Stage::Done;
            },
        }
    }

    /// The result of a batch that is over: the error that stopped it, or one
    /// result per scenario, in the order of the scenarios.
    pub fn finish(self) -> (r: Result<Vec<Result<String, Error>>, Error>)
        requires
            self.wf(),
            self.progress().stage == Stage::Done,
        ensures
            match self.progress().failure {
                Some(error) => r is Err && r->Err_0@ == error,
                None => {
                    &&& r is Ok
                    &&& outcomes_view(r->Ok_0@) == self.progress().values
                    &&& r->Ok_0@.len() == self.plan().scenarios.len()
                    &&& forall|j: int|
                        0 <= j < r->Ok_0@.len() ==> recordable(
                            outcome_view(#[trigger] r->Ok_0@[j]),
                        )
                },
            },
    {
        proof {
            assert forall|j: int| 0 <= j < self.values@.len() implies recordable(
                outcome_view(#[trigger] self.values@[j]),
            ) by {
                assert(recordable(self.progress().values[j]));
            }
        }
        match self.failure {
            Some(error) => Err(error),
            None => Ok(self.values),
        }
    }
}

/// Progress once the scenarios from the current one on gave `outcomes`, one
/// after the other, for as long as the batch is not over.
pub open spec fn after_scenarios(plan: Plan, progress: Progress, outcomes: Seq<ScenarioOutcome>) -> Progress
    decreases outcomes.len(),
{
    if outcomes.len() == 0 {
        progress
    } else {
        match progress.stage {
            Stage::Scenario(i) => after_scenarios(
                plan,
                after_scenario(plan, progress, i, scenario_verdict(outcomes[0])),
                outcomes.skip(1),
            ),
            _ => progress,
        }
    }
}

/// The position of the first outcome that stops a batch; the number of
/// outcomes if none does.
pub open spec fn first_stop(outcomes: Seq<ScenarioOutcome>) -> nat
    decreases outcomes.len(),
{
    if outcomes.len() == 0 || scenario_verdict(outcomes[0]) is Err {
        0
    } else {
        1 + first_stop(outcomes.skip(1))
    }
}

/// What a batch comes to, given the outcome of each scenario that is left:
/// it is over; the results of the scenarios before the first outcome that
/// stops a batch are recorded in order after those that were there; that
/// outcome's error is the failure of the batch, and without such an outcome
/// every scenario has its result and the batch has no failure.
pub proof fn lemma_batch_runs_to_its_end(plan: Plan, progress: Progress, i: usize, outcomes: Seq<ScenarioOutcome>)
    requires
        coherent(plan, progress),
        progress.stage == Stage::Scenario(i),
        outcomes.len() == plan.scenarios.len() - i,
    ensures
        ({
            let end = after_scenarios(plan, progress, outcomes);
            let k = first_stop(outcomes) as int;
            &&& coherent(plan, end)
            &&& end.stage == Stage::Done
            &&& k <= outcomes.len()
            &&& end.values.len() == i + k
            &&& forall|j: int| 0 <= j < i ==> end.values[j] == progress.values[j]
            &&& forall|j: int|
                0 <= j < k ==> scenario_verdict(#[trigger] outcomes[j]) == Ok::<
                    Result<Seq<char>, ErrorView>,
                    ErrorView,
                >(end.values[i + j])
            &&& k < outcomes.len() ==> scenario_verdict(outcomes[k]) is Err && end.failure == Some(
                scenario_verdict(outcomes[k])->Err_0,
            )
            &&& k == outcomes.len() ==> end.failure.is_none()
        }),
    decreases outcomes.len(),
{
    let verdict = scenario_verdict(outcomes[0]);
    let next = after_scenario(plan, progress, i, verdict);
    let rest = outcomes.skip(1);
    match verdict {
        Err(error) => {
            assert(after_scenarios(plan, next, rest) == next);
        },
        Ok(value) => {
            if i + 1 < plan.scenarios.len() {
                lemma_batch_runs_to_its_end(plan, next, (i + 1) as usize, rest);
                let end = after_scenarios(plan, next, rest);
                let k = first_stop(outcomes) as int;
                assert forall|j: int| 0 <= j < k implies scenario_verdict(#[trigger] outcomes[j])
                    == Ok::<Result<Seq<char>, ErrorView>, ErrorView>(end.values[i + j]) by {
                    if j > 0 {
                        assert(outcomes[j] == rest[j - 1]);
                    } else {
                        assert(end.values[i as int] == next.values[i as int]);
                    }
                }
                assert forall|j: int| 0 <= j < i implies end.values[j] == progress.values[j] by {
                    assert(end.values[j] == next.values[j]);
                }
                if k < outcomes.len() {
                    assert(outcomes[k] == rest[k - 1]);
                }
            } else {
                assert(rest.len() == 0);
                assert(after_scenarios(plan, next, rest) == next);
                assert(first_stop(rest) == 0);
            }
        },
    }
}

/// A scenario that runs out of time fails alone: its result is recorded as
/// `TimeExceeded`, the batch goes on to the next scenario and is not stopped.
pub proof fn lemma_timeout_is_recorded(plan: Plan, progress: Progress, i: usize)
    requires
        coherent(plan, progress),
        progress.stage == Stage::Scenario(i),
    ensures
        ({
            let next = after_scenario(plan, progress, i, scenario_verdict(ScenarioOutcome::TimedOut));
            &&& next.values == progress.values.push(Err(ErrorView::TimeExceeded))
            &&& next.failure.is_none()
            &&& i + 1 < plan.scenarios.len() ==> next.stage == Stage::Scenario((i + 1) as usize)
            &&& i + 1 == plan.scenarios.len() ==> next.stage == Stage::Done
            &&& coherent(plan, next)
        }),
{
}

} // verus!
