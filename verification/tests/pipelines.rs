use tito::arena::Arena;
use tito::batch::{Action, ScenarioOutcome};
use tito::error::Error;
use tito::language::Language;
use tito::problems::{Problem, Proposal, Scenario};
use tito::settings::{Competitor, Evaluation, Settings};
use tito::tito::{FileRead, Tito};

fn text(s: &str) -> String {
    s.to_string()
}

fn scenario(expected: Option<&str>, points: u32) -> Scenario {
    Scenario {
        arguments: None,
        input: None,
        output: expected.map(text),
        max_time_millis: 1000,
        max_ram: None,
        points,
    }
}

fn problem(scenarios: Vec<Scenario>, points: u32) -> Problem {
    Problem { scenarios, filename: text("problem-a"), language: Some(Language::Shell), points }
}

fn score(evaluation: Evaluation) -> f64 {
    match evaluation {
        Evaluation::Grade { earned, total } => earned as f64 / total as f64,
        other => panic!("no grade: {:?}", other),
    }
}

fn resolved_judge(languages: Vec<Language>) -> Tito {
    let mut tito = Tito::new(text("/tmp/judge"), false);
    let mut survey = tito.survey(languages);
    while survey.pending().is_some() {
        survey.record(Ok(true));
    }
    assert_eq!(tito.gather_language_info(survey), Ok(()));
    tito
}

#[test]
fn half_the_points_for_the_first_of_two_scenarios() {
    let problem = problem(vec![scenario(Some("one"), 5), scenario(Some("two"), 5)], 10);
    let outputs = vec![text("one\n"), text("three\n")];
    let evaluation = Tito::grade("p", &problem, &outputs).unwrap();
    assert_eq!(evaluation, Evaluation::Grade { earned: 5, total: 10 });
    assert_eq!(score(evaluation), 0.5);
}

#[test]
fn all_and_none_of_the_points() {
    let problem = problem(vec![scenario(Some("one"), 3), scenario(Some("two"), 7)], 10);
    let all = Tito::grade("p", &problem, &vec![text("one"), text("two")]).unwrap();
    assert_eq!(all, Evaluation::Grade { earned: 10, total: 10 });
    assert_eq!(score(all), 1.0);
    let none = Tito::grade("p", &problem, &vec![text("two"), text("one")]).unwrap();
    assert_eq!(none, Evaluation::Grade { earned: 0, total: 10 });
    assert_eq!(score(none), 0.0);
    let second = Tito::grade("p", &problem, &vec![text(""), text("two")]).unwrap();
    assert_eq!(second, Evaluation::Grade { earned: 7, total: 10 });
}

#[test]
fn surrounding_whitespace_does_not_count() {
    let problem = problem(vec![scenario(Some("Hello, Tito!"), 10)], 10);
    let evaluation = Tito::grade("p", &problem, &vec![text("Hello, Tito! \n")]).unwrap();
    assert_eq!(evaluation, Evaluation::Grade { earned: 10, total: 10 });
    let evaluation =
        Tito::grade("p", &problem, &vec![text("\t\u{2003}\r\nHello, Tito!\u{3000}\u{a0}")]).unwrap();
    assert_eq!(evaluation, Evaluation::Grade { earned: 10, total: 10 });
}

#[test]
fn inner_whitespace_and_case_count() {
    let problem = problem(vec![scenario(Some("Hello, Tito!"), 10)], 10);
    for wrong in ["Hello,  Tito!", "Hello,Tito!", "hello, tito!", "Hello, Tito", "\u{200b}Hello, Tito!"] {
        let evaluation = Tito::grade("p", &problem, &vec![text(wrong)]).unwrap();
        assert_eq!(evaluation, Evaluation::Grade { earned: 0, total: 10 });
    }
}

#[test]
fn expected_output_is_compared_as_it_stands() {
    let problem = problem(vec![scenario(Some("padded "), 10)], 10);
    let evaluation = Tito::grade("p", &problem, &vec![text("padded ")]).unwrap();
    assert_eq!(evaluation, Evaluation::Grade { earned: 0, total: 10 });
}

#[test]
fn scenario_without_expected_output_is_an_error() {
    let problem = problem(vec![scenario(Some("a"), 5), scenario(None, 5), scenario(None, 5)], 15);
    let outputs = vec![text("a"), text("b"), text("c")];
    assert_eq!(Tito::grade("knots", &problem, &outputs), Err(Error::NoSolution(text("knots"), 1)));
    assert_eq!(
        Tito::evaluation_of("knots", &problem, &Ok(outputs)),
        Err(Error::NoSolution(text("knots"), 1))
    );
}

#[test]
fn only_scenarios_with_an_output_are_graded() {
    let problem = problem(vec![scenario(Some("a"), 5), scenario(None, 5)], 10);
    let evaluation = Tito::grade("p", &problem, &vec![text("a")]).unwrap();
    assert_eq!(evaluation, Evaluation::Grade { earned: 5, total: 10 });
    let evaluation = Tito::grade("p", &problem, &vec![]).unwrap();
    assert_eq!(evaluation, Evaluation::Grade { earned: 0, total: 10 });
}

#[test]
fn points_add_up_beyond_thirty_two_bits() {
    let problem = problem(vec![scenario(Some("a"), u32::MAX), scenario(Some("b"), u32::MAX)], 1);
    let evaluation = Tito::grade("p", &problem, &vec![text("a"), text("b")]).unwrap();
    assert_eq!(evaluation, Evaluation::Grade { earned: 8589934590, total: 1 });
}

#[test]
fn missing_file_and_failed_run() {
    let problem = problem(vec![scenario(Some("a"), 5)], 5);
    assert_eq!(Tito::evaluation_of("p", &problem, &Err(Error::NoFileFound)), Ok(Evaluation::NoFile));
    for error in [
        Error::TimeExceeded,
        Error::Utf8,
        Error::RuntimeError(text("x")),
        Error::ToolFailure(0, text("x")),
        Error::IOError(text("x")),
        Error::NoSolution(text("p"), 0),
    ] {
        assert_eq!(Tito::evaluation_of("p", &problem, &Err(error)), Ok(Evaluation::RunError));
    }
    assert_eq!(
        Tito::evaluation_of("p", &problem, &Ok(vec![text("a")])),
        Ok(Evaluation::Grade { earned: 5, total: 5 })
    );
}

#[test]
fn missing_file_touches_one_problem_only() {
    let arena = Arena {
        problems: vec![
            (text("first"), problem(vec![scenario(Some("1"), 2)], 2)),
            (text("second"), problem(vec![scenario(Some("2"), 2)], 2)),
            (text("third"), problem(vec![scenario(Some("3"), 2)], 2)),
        ],
    };
    let with_gap = vec![Ok(vec![text("1")]), Err(Error::NoFileFound), Ok(vec![text("0")])];
    let complete = vec![Ok(vec![text("1")]), Ok(vec![text("2")]), Ok(vec![text("0")])];
    let gapped = Tito::run_competitor(&arena, &with_gap).unwrap();
    let full = Tito::run_competitor(&arena, &complete).unwrap();
    assert_eq!(
        gapped,
        vec![
            (text("first"), Evaluation::Grade { earned: 2, total: 2 }),
            (text("second"), Evaluation::NoFile),
            (text("third"), Evaluation::Grade { earned: 0, total: 2 }),
        ]
    );
    assert_eq!(gapped[0], full[0]);
    assert_eq!(gapped[2], full[2]);
    assert_eq!(full[1], (text("second"), Evaluation::Grade { earned: 2, total: 2 }));
}

#[test]
fn every_competitor_has_every_problem() {
    let tito = Tito::new(text("/tmp/judge"), false);
    let arena = Arena {
        problems: vec![
            (text("first"), problem(vec![scenario(Some("1"), 2)], 2)),
            (text("second"), problem(vec![scenario(Some("2"), 2)], 2)),
        ],
    };
    let competitors = vec![
        Competitor { id: text("ana"), files: text("/a"), result: None },
        Competitor { id: text("bo"), files: text("/b"), result: Some(text("/b/out")) },
    ];
    let attempts = vec![
        vec![Ok(vec![text("1\n")]), Err(Error::RuntimeError(text("segfault")))],
        vec![Err(Error::NoFileFound), Ok(vec![text(" 2 ")])],
    ];
    assert_eq!(
        tito.run(&competitors, &arena, &attempts),
        Ok(vec![
            (
                text("ana"),
                vec![
                    (text("first"), Evaluation::Grade { earned: 2, total: 2 }),
                    (text("second"), Evaluation::RunError),
                ]
            ),
            (
                text("bo"),
                vec![
                    (text("first"), Evaluation::NoFile),
                    (text("second"), Evaluation::Grade { earned: 2, total: 2 }),
                ]
            ),
        ])
    );
}

#[test]
fn malformed_arena_stops_the_run() {
    let tito = Tito::new(text("/tmp/judge"), false);
    let arena = Arena { problems: vec![(text("first"), problem(vec![scenario(None, 2)], 2))] };
    let competitors = vec![Competitor { id: text("ana"), files: text("/a"), result: None }];
    let attempts = vec![vec![Ok(vec![text("1")])]];
    assert_eq!(
        tito.run(&competitors, &arena, &attempts),
        Err(Error::NoSolution(text("first"), 0))
    );
}

#[test]
fn collect_gives_all_outputs_or_the_first_error() {
    assert_eq!(Tito::collect(&vec![]), Ok(vec![]));
    assert_eq!(
        Tito::collect(&vec![Ok(text("a")), Ok(text("b"))]),
        Ok(vec![text("a"), text("b")])
    );
    assert_eq!(
        Tito::collect(&vec![Ok(text("a")), Err(Error::TimeExceeded), Err(Error::Utf8)]),
        Err(Error::TimeExceeded)
    );
}

#[test]
fn freezing_sets_the_trimmed_outputs() {
    let proposal = Proposal {
        scenarios: vec![
            Scenario {
                arguments: Some(vec![text("Tito")]),
                input: Some(text("in")),
                output: None,
                max_time_millis: 100,
                max_ram: Some(64),
                points: 4,
            },
            scenario(Some("stale"), 6),
        ],
        solution: text("./sol/problem-a.sh"),
        language: Language::Shell,
        points: 10,
    };
    let outputs = vec![text("Hello, Tito! \n"), text("\n 42")];
    let problem = Tito::freeze(&proposal, text("problem-a"), &outputs);
    assert_eq!(problem.filename, "problem-a");
    assert_eq!(problem.language, Some(Language::Shell));
    assert_eq!(problem.points, 10);
    assert_eq!(
        problem.scenarios,
        vec![
            Scenario {
                arguments: Some(vec![text("Tito")]),
                input: Some(text("in")),
                output: Some(text("Hello, Tito!")),
                max_time_millis: 100,
                max_ram: Some(64),
                points: 4,
            },
            scenario(Some("42"), 6),
        ]
    );
    assert_eq!(Tito::freeze(&proposal, text("problem-a"), &outputs), problem);
    assert_eq!(problem.clone(), problem);
}

#[test]
fn freezing_keeps_the_scenarios_that_have_an_output() {
    let proposal = Proposal {
        scenarios: vec![scenario(None, 1), scenario(None, 1)],
        solution: text("a.sh"),
        language: Language::Shell,
        points: 2,
    };
    let problem = Tito::freeze(&proposal, text("a"), &vec![text("x")]);
    assert_eq!(problem.scenarios, vec![scenario(Some("x"), 1)]);
    let problem = Tito::freeze(&proposal, text("a"), &vec![text("x"), text("y"), text("z")]);
    assert_eq!(problem.scenarios, vec![scenario(Some("x"), 1), scenario(Some("y"), 1)]);
}

#[test]
fn file_names() {
    assert_eq!(Tito::filename_from_stem("p", Some(text("problem-a"))), Ok(text("problem-a")));
    assert_eq!(Tito::filename_from_stem("p", None), Err(Error::NoFileName(text("p"))));
    let mut proposal = Settings::example().proposals.remove(0).1;
    assert_eq!(Tito::problem_filename("p", &proposal), Ok(text("problem-a")));
    proposal.solution = text("");
    assert_eq!(Tito::problem_filename("p", &proposal), Err(Error::NoFileName(text("p"))));
    let tito = resolved_judge(vec![Language::Python3]);
    let settings = tito.settings_for(Language::Python3).unwrap();
    let problem = problem(vec![], 0);
    assert_eq!(Tito::submission_name(&problem, &settings), "problem-a.py");
}

#[test]
fn built_arena_has_every_expected_output() {
    let tito = resolved_judge(vec![Language::Shell]);
    let mut settings = Settings::example();
    let mut second = settings.proposals[0].1.clone();
    second.solution = text("/srv/contest/sum.tar.sh");
    second.scenarios.push(scenario(None, 3));
    settings.proposals.push((text("problem-b"), second));
    let solutions = vec![vec![text("Hello, Tito!\n")], vec![text(" 1"), text("2 ")]];
    let arena = tito.build(&settings, &solutions).unwrap();
    assert_eq!(arena.problems.len(), 2);
    assert_eq!(arena.problems[0].0, "problem-a");
    assert_eq!(arena.problems[0].1.filename, "problem-a");
    assert_eq!(arena.problems[0].1.scenarios[0].output, Some(text("Hello, Tito!")));
    assert_eq!(arena.problems[1].0, "problem-b");
    assert_eq!(arena.problems[1].1.filename, "sum.tar");
    assert_eq!(arena.problems[1].1.scenarios.len(), 2);
    for (_, problem) in arena.problems.iter() {
        assert_eq!(problem.language, Some(Language::Shell));
        for scenario in problem.scenarios.iter() {
            assert!(scenario.output.is_some());
        }
    }
    assert_eq!(tito.build(&settings, &solutions), Ok(arena));
}

#[test]
fn solution_without_file_name_stops_the_build() {
    let tito = resolved_judge(vec![Language::Shell]);
    let mut settings = Settings::example();
    let mut second = settings.proposals[0].1.clone();
    second.solution = text("..");
    settings.proposals.push((text("problem-b"), second));
    let solutions = vec![vec![text("x")], vec![text("y")]];
    assert_eq!(tito.build(&settings, &solutions), Err(Error::NoFileName(text("problem-b"))));
}

#[test]
fn proposal_of_unresolved_language_starts_no_batch() {
    let tito = resolved_judge(vec![Language::Shell]);
    let mut proposal = Settings::example().proposals.remove(0).1;
    assert!(tito.test_proposal(&proposal, FileRead::Text(text("echo"))).is_ok());
    match tito.test_proposal(&proposal, FileRead::Absent(text("not there"))) {
        Err(error) => assert_eq!(error, Error::IOError(text("not there"))),
        Ok(_) => panic!("a batch was started"),
    }
    match tito.test_proposal(&proposal, FileRead::Broken(text("not text"))) {
        Err(error) => assert_eq!(error, Error::IOError(text("not text"))),
        Ok(_) => panic!("a batch was started"),
    }
    proposal.language = Language::Rust;
    match tito.test_proposal(&proposal, FileRead::Text(text("fn main() {}"))) {
        Err(error) => assert_eq!(error, Error::NoLangSettings(text("\"Rust\""))),
        Ok(_) => panic!("a batch was started"),
    }
    match tito.test_proposal(&proposal, FileRead::Absent(text("not there"))) {
        Err(error) => assert_eq!(error, Error::IOError(text("not there"))),
        Ok(_) => panic!("a batch was started"),
    }
}

#[test]
fn submission_that_is_not_there_or_cannot_be_read() {
    let tito = resolved_judge(vec![Language::Shell]);
    let problem = problem(vec![scenario(Some("a"), 1)], 1);
    let attempt = match tito.evaluate(&problem, FileRead::Absent(text("no such file"))) {
        Err(error) => Err(error),
        Ok(_) => panic!("a batch was started"),
    };
    assert_eq!(attempt, Err(Error::NoFileFound));
    assert_eq!(Tito::evaluation_of("p", &problem, &attempt), Ok(Evaluation::NoFile));
    let attempt = match tito.evaluate(&problem, FileRead::Broken(text("not text"))) {
        Err(error) => Err(error),
        Ok(_) => panic!("a batch was started"),
    };
    assert_eq!(attempt, Err(Error::IOError(text("not text"))));
    assert_eq!(Tito::evaluation_of("p", &problem, &attempt), Ok(Evaluation::RunError));
    let unresolved = Problem { language: Some(Language::C), ..problem };
    match tito.evaluate(&unresolved, FileRead::Absent(text("no such file"))) {
        Err(error) => assert_eq!(error, Error::NoLangSettings(text("\"C\""))),
        Ok(_) => panic!("a batch was started"),
    }
}

#[test]
fn submission_runs_through_the_scenarios_of_its_problem() {
    let tito = resolved_judge(vec![Language::Shell]);
    let problem = problem(vec![scenario(Some("a"), 1), scenario(Some("b"), 1)], 2);
    let mut batch = tito.evaluate(&problem, FileRead::Text(text("echo a"))).unwrap();
    batch.source_written(Ok(()));
    let mut seen = Vec::new();
    loop {
        match batch.action() {
            Action::RunScenario { index, invocation, .. } => {
                assert_eq!(invocation.utility, "bash");
                seen.push(index);
                batch.scenario_ran(ScenarioOutcome::Exited {
                    success: true,
                    stdout: b"a\n".to_vec(),
                    stderr: vec![],
                });
            }
            Action::Finish => break,
            other => panic!("unexpected action {:?}", other),
        }
    }
    assert_eq!(seen, vec![0, 1]);
    let outputs = Tito::collect(&batch.finish().unwrap());
    assert_eq!(
        Tito::evaluation_of("p", &problem, &outputs),
        Ok(Evaluation::Grade { earned: 1, total: 2 })
    );
    let unresolved = Problem { language: Some(Language::C), ..problem };
    match tito.evaluate(&unresolved, FileRead::Text(text("int main(){}"))) {
        Err(error) => assert_eq!(error, Error::NoLangSettings(text("\"C\""))),
        Ok(_) => panic!("a batch was started"),
    }
}

#[test]
fn languages_of_an_arena_come_once_each() {
    let mut arena = Arena {
        problems: vec![
            (text("first"), problem(vec![], 0)),
            (text("second"), Problem { language: Some(Language::Cpp), ..problem(vec![], 0) }),
            (text("third"), problem(vec![], 0)),
        ],
    };
    assert_eq!(arena.languages(), Some(vec![Language::Shell, Language::Cpp]));
    arena.problems[2].1.language = None;
    assert_eq!(arena.languages(), None);
    assert_eq!(Arena { problems: vec![] }.languages(), Some(vec![]));
}

#[test]
fn file_name_is_the_stem_of_the_last_component() {
    let mut proposal = Settings::example().proposals.remove(0).1;
    for (path, stem) in [
        ("problem-a.sh", "problem-a"),
        ("./sol/problem-a.sh", "problem-a"),
        ("/srv/contest/sum.tar.sh", "sum.tar"),
        ("plain", "plain"),
        ("dir.d/plain", "plain"),
        (".hidden", ".hidden"),
        ("dir/.hidden.sh", ".hidden"),
        ("trailing.", "trailing"),
        ("dir/name.rs/", "name"),
    ] {
        proposal.solution = text(path);
        assert_eq!(Tito::problem_filename("p", &proposal), Ok(text(stem)));
    }
    for path in ["", "..", "dir/..", "/"] {
        proposal.solution = text(path);
        assert_eq!(Tito::problem_filename("q", &proposal), Err(Error::NoFileName(text("q"))));
    }
}
