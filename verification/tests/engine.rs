use tito::batch::{
    invocation, judge_pre_tool, judge_scenario, resolve, Action, Batch, Invocation, PreToolOutcome,
    ScenarioOutcome, Stage,
};
use tito::error::Error;
use tito::language::{Language, LanguageSettings, Tool};
use tito::problems::Scenario;
use tito::tito::Tito;

fn text(s: &str) -> String {
    s.to_string()
}

fn scenario(input: Option<&str>, millis: u64) -> Scenario {
    Scenario {
        arguments: None,
        input: input.map(text),
        output: None,
        max_time_millis: millis,
        max_ram: None,
        points: 5,
    }
}

fn exited(stdout: &str) -> ScenarioOutcome {
    ScenarioOutcome::Exited { success: true, stdout: stdout.as_bytes().to_vec(), stderr: vec![] }
}

fn rust_batch(scenarios: Vec<Scenario>) -> Batch {
    Batch::new(
        text("fn main() {}"),
        scenarios,
        &LanguageSettings::default(Language::Rust),
        "/work",
        text("/work/source.rs"),
    )
}

fn past_preparation(scenarios: Vec<Scenario>) -> Batch {
    let mut batch = rust_batch(scenarios);
    batch.source_written(Ok(()));
    batch.pre_tool_ran(PreToolOutcome::Exited { success: true, stderr: vec![] });
    batch
}

#[test]
fn filename_placeholder_becomes_the_source_path() {
    assert_eq!(resolve("{filename}", "/work/source.rs", "/work"), "/work/source.rs");
}

#[test]
fn pwd_placeholder_becomes_the_working_directory() {
    assert_eq!(resolve("{pwd}", "/work/source.rs", "/work"), "/work");
    assert_eq!(resolve("{pwd}/a.exe", "/work/source.rs", "/work"), "/work/a.exe");
}

#[test]
fn every_placeholder_is_replaced() {
    assert_eq!(
        resolve("{pwd}:{filename}:{pwd}:{filename}", "/w/source.c", "/w"),
        "/w:/w/source.c:/w:/w/source.c"
    );
    assert_eq!(resolve("-o", "/w/source.c", "/w"), "-o");
    assert_eq!(resolve("{file}{name}", "/w/source.c", "/w"), "{file}{name}");
}

#[test]
fn placeholders_are_replaced_in_utility_and_arguments() {
    let tool = Tool {
        utility: text("{pwd}/run-{filename}"),
        temporal: true,
        arguments: vec![text("{filename}"), text("--dir={pwd}"), text("plain")],
    };
    assert_eq!(
        invocation(&tool, "s.py", "/w"),
        Invocation {
            utility: text("/w/run-s.py"),
            arguments: vec![text("s.py"), text("--dir=/w"), text("plain")],
            directory: text("/w"),
        }
    );
}

#[test]
fn batch_writes_the_source_first() {
    let batch = rust_batch(vec![scenario(None, 100)]);
    assert_eq!(batch.stage(), Stage::Source);
    assert!(!batch.is_done());
    assert_eq!(
        batch.action(),
        Action::WriteSource { path: text("/work/source.rs"), content: text("fn main() {}") }
    );
}

#[test]
fn failed_write_stops_the_batch() {
    let mut batch = rust_batch(vec![scenario(None, 100)]);
    batch.source_written(Err(text("disk full")));
    assert!(batch.is_done());
    assert_eq!(batch.action(), Action::Finish);
    assert_eq!(batch.finish(), Err(Error::IOError(text("disk full"))));
}

#[test]
fn preparing_tool_runs_once_before_the_scenarios() {
    let mut batch = rust_batch(vec![scenario(Some("1 2"), 100), scenario(None, 250)]);
    batch.source_written(Ok(()));
    assert_eq!(batch.stage(), Stage::PreTool(0));
    assert_eq!(
        batch.action(),
        Action::RunPreTool {
            index: 0,
            invocation: Invocation {
                utility: text("rustc"),
                arguments: vec![text("-o"), text("a.exe"), text("/work/source.rs")],
                directory: text("/work"),
            },
        }
    );
    batch.pre_tool_ran(PreToolOutcome::Exited { success: true, stderr: b"warning".to_vec() });
    assert_eq!(batch.stage(), Stage::Scenario(0));
    let main = Invocation { utility: text("/work/a.exe"), arguments: vec![], directory: text("/work") };
    assert_eq!(
        batch.action(),
        Action::RunScenario {
            index: 0,
            invocation: main.clone(),
            input: Some(text("1 2")),
            max_time_millis: 100,
        }
    );
    batch.scenario_ran(exited("3\n"));
    assert_eq!(batch.stage(), Stage::Scenario(1));
    assert_eq!(
        batch.action(),
        Action::RunScenario { index: 1, invocation: main, input: None, max_time_millis: 250 }
    );
    batch.scenario_ran(exited("done"));
    assert_eq!(batch.stage(), Stage::Done);
    assert_eq!(batch.action(), Action::Finish);
    assert_eq!(batch.finish(), Ok(vec![Ok(text("3\n")), Ok(text("done"))]));
}

#[test]
fn interpreted_batch_goes_from_source_to_scenarios() {
    let mut batch = Batch::new(
        text("echo hi"),
        vec![scenario(None, 1000)],
        &LanguageSettings::default(Language::Shell),
        "/w",
        text("/w/source.sh"),
    );
    batch.source_written(Ok(()));
    assert_eq!(
        batch.action(),
        Action::RunScenario {
            index: 0,
            invocation: Invocation {
                utility: text("bash"),
                arguments: vec![text("/w/source.sh")],
                directory: text("/w"),
            },
            input: None,
            max_time_millis: 1000,
        }
    );
}

#[test]
fn batch_without_scenarios_is_over_after_preparation() {
    let batch = past_preparation(vec![]);
    assert!(batch.is_done());
    assert_eq!(batch.finish(), Ok(vec![]));
}

#[test]
fn failing_preparing_tool_stops_the_batch() {
    let mut batch = rust_batch(vec![scenario(None, 100)]);
    batch.source_written(Ok(()));
    batch.pre_tool_ran(PreToolOutcome::Exited { success: false, stderr: b"error[E0425]".to_vec() });
    assert!(batch.is_done());
    assert_eq!(batch.finish(), Err(Error::ToolFailure(0, text("error[E0425]"))));
}

#[test]
fn preparing_tool_that_cannot_be_spawned_stops_the_batch() {
    let mut batch = rust_batch(vec![scenario(None, 100)]);
    batch.source_written(Ok(()));
    batch.pre_tool_ran(PreToolOutcome::SpawnFailed(text("not found")));
    assert_eq!(batch.finish(), Err(Error::ChildProcessError(text("not found"))));
}

#[test]
fn second_preparing_tool_fails_under_its_index() {
    let tool = Tool { utility: text("true"), temporal: false, arguments: vec![] };
    let settings = LanguageSettings {
        pre_tools: Some(vec![tool.clone(), tool.clone()]),
        tool,
        extension: text("x"),
    };
    let mut batch = Batch::new(text(""), vec![scenario(None, 1)], &settings, "/w", text("/w/source.x"));
    batch.source_written(Ok(()));
    batch.pre_tool_ran(PreToolOutcome::Exited { success: true, stderr: vec![] });
    assert_eq!(batch.stage(), Stage::PreTool(1));
    batch.pre_tool_ran(PreToolOutcome::Exited { success: false, stderr: b"bad".to_vec() });
    assert_eq!(batch.finish(), Err(Error::ToolFailure(1, text("bad"))));
}

#[test]
fn timeout_fails_one_scenario_and_the_batch_goes_on() {
    let mut batch = past_preparation(vec![scenario(None, 100), scenario(None, 100)]);
    batch.scenario_ran(ScenarioOutcome::TimedOut);
    assert_eq!(batch.stage(), Stage::Scenario(1));
    assert!(matches!(batch.action(), Action::RunScenario { index: 1, .. }));
    batch.scenario_ran(exited("late but fine"));
    assert!(batch.is_done());
    assert_eq!(batch.finish(), Ok(vec![Err(Error::TimeExceeded), Ok(text("late but fine"))]));
}

#[test]
fn timeout_of_the_last_scenario_ends_the_batch_without_error() {
    let mut batch = past_preparation(vec![scenario(None, 100)]);
    batch.scenario_ran(ScenarioOutcome::TimedOut);
    assert!(batch.is_done());
    assert_eq!(batch.finish(), Ok(vec![Err(Error::TimeExceeded)]));
}

#[test]
fn runtime_error_stops_the_batch() {
    let mut batch = past_preparation(vec![scenario(None, 100), scenario(None, 100)]);
    batch.scenario_ran(ScenarioOutcome::Exited {
        success: false,
        stdout: b"partial".to_vec(),
        stderr: b"panicked".to_vec(),
    });
    assert!(batch.is_done());
    assert_eq!(batch.finish(), Err(Error::RuntimeError(text("panicked"))));
}

#[test]
fn output_that_is_not_text_stops_the_batch() {
    let mut batch = past_preparation(vec![scenario(None, 100), scenario(None, 100)]);
    batch.scenario_ran(ScenarioOutcome::Exited {
        success: true,
        stdout: vec![0x66, 0xff, 0x6f],
        stderr: vec![],
    });
    assert!(batch.is_done());
    assert_eq!(batch.finish(), Err(Error::Utf8));
}

#[test]
fn scenario_verdicts() {
    assert_eq!(
        judge_scenario(ScenarioOutcome::SpawnFailed(text("x"))),
        Err(Error::ChildProcessError(text("x")))
    );
    assert_eq!(judge_scenario(ScenarioOutcome::StdinUnavailable), Err(Error::ChildStdinRef));
    assert_eq!(judge_scenario(ScenarioOutcome::StdinFeedFailed), Err(Error::ChildStdinFeed));
    assert_eq!(
        judge_scenario(ScenarioOutcome::WaitFailed(text("x"))),
        Err(Error::WaitTimeoutError(text("x")))
    );
    assert_eq!(judge_scenario(ScenarioOutcome::TimedOut), Ok(Err(Error::TimeExceeded)));
    assert_eq!(
        judge_scenario(ScenarioOutcome::OutputFailed(text("x"))),
        Err(Error::WaitOutputError(text("x")))
    );
    assert_eq!(judge_scenario(exited("h\u{e9}llo")), Ok(Ok(text("h\u{e9}llo"))));
    assert_eq!(
        judge_scenario(ScenarioOutcome::Exited {
            success: false,
            stdout: vec![],
            stderr: vec![0x61, 0xff, 0x62],
        }),
        Err(Error::RuntimeError(text("a\u{fffd}b")))
    );
}

#[test]
fn pre_tool_verdicts() {
    assert_eq!(
        judge_pre_tool(3, PreToolOutcome::Exited { success: true, stderr: b"noise".to_vec() }),
        None
    );
    assert_eq!(
        judge_pre_tool(3, PreToolOutcome::Exited { success: false, stderr: vec![0xc3, 0x28] }),
        Some(Error::ToolFailure(3, text("\u{fffd}(")))
    );
    assert_eq!(
        judge_pre_tool(3, PreToolOutcome::SpawnFailed(text("x"))),
        Some(Error::ChildProcessError(text("x")))
    );
}

#[test]
fn stdin_failures_stop_the_batch() {
    let mut batch = past_preparation(vec![scenario(Some("in"), 100), scenario(None, 100)]);
    batch.scenario_ran(ScenarioOutcome::StdinFeedFailed);
    assert_eq!(batch.finish(), Err(Error::ChildStdinFeed));
    let mut batch = past_preparation(vec![scenario(Some("in"), 100)]);
    batch.scenario_ran(ScenarioOutcome::StdinUnavailable);
    assert_eq!(batch.finish(), Err(Error::ChildStdinRef));
}

#[test]
fn judge_starts_a_batch_in_its_directory() {
    let tito = Tito::new(text("/tmp/tito.x1"), false);
    let settings = LanguageSettings::default(Language::C);
    assert_eq!(Tito::source_name(&settings), "source.c");
    let mut batch = tito.run_tools(text("int main(){}"), vec![scenario(None, 10)], &settings);
    let path = match batch.action() {
        Action::WriteSource { path, content } => {
            assert_eq!(content, "int main(){}");
            path
        }
        other => panic!("unexpected action {:?}", other),
    };
    assert!(path.starts_with("/tmp/tito.x1"));
    assert!(path.ends_with("source.c"));
    assert_ne!(path, "/tmp/tito.x1");
    batch.source_written(Ok(()));
    match batch.action() {
        Action::RunPreTool { index, invocation } => {
            assert_eq!(index, 0);
            assert_eq!(invocation.utility, "gcc");
            assert_eq!(invocation.arguments, vec![text("-o"), text("a.exe"), path]);
            assert_eq!(invocation.directory, "/tmp/tito.x1");
        }
        other => panic!("unexpected action {:?}", other),
    }
}
