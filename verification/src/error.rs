//! The failures of the judge, one variant per class.

use vstd::prelude::*;
use vstd::string::*;

verus! {

/// Everything that can go wrong, each variant naming one class of failure.
#[derive(Debug, PartialEq, Eq)]
pub enum Error {
    /// A utility that the toolchain needs is not on the host.
    MissingTool(String),
    /// The lookup of a utility failed itself.
    ToolLookup(String),
    /// The path of a solution has no file stem.
    NoFileName(String),
    /// A language was not resolved before it was used.
    NoLangSettings(String),
    /// A process could not be spawned.
    ChildProcessError(String),
    /// A tool that runs before the scenarios exited with a failure.
    ToolFailure(usize, String),
    /// The standard input of a child was not available.
    ChildStdinRef,
    /// The standard input of a child could not be written.
    ChildStdinFeed,
    /// Collecting the output of a child failed.
    WaitOutputError(String),
    /// Waiting for a child with a deadline failed.
    WaitTimeoutError(String),
    /// The main tool exited with a failure.
    RuntimeError(String),
    /// The main tool ran longer than the scenario allows.
    TimeExceeded,
    /// A competitor did not hand in a file for a problem.
    NoFileFound,
    /// Captured output was not valid UTF-8.
    Utf8,
    /// A scenario of a problem has no expected output.
    NoSolution(String, usize),
    /// A generic error with the settings.
    SettingsError,
    /// An input or output operation failed.
    IOError(String),
}

/// What an `Error` holds.
pub enum ErrorView {
    MissingTool(Seq<char>),
    ToolLookup(Seq<char>),
    NoFileName(Seq<char>),
    NoLangSettings(Seq<char>),
    ChildProcessError(Seq<char>),
    ToolFailure(usize, Seq<char>),
    ChildStdinRef,
    ChildStdinFeed,
    WaitOutputError(Seq<char>),
    WaitTimeoutError(Seq<char>),
    RuntimeError(Seq<char>),
    TimeExceeded,
    NoFileFound,
    Utf8,
    NoSolution(Seq<char>, usize),
    SettingsError,
    IOError(Seq<char>),
}

impl View for Error {
    type V = ErrorView;

    open spec fn view(&self) -> ErrorView {
        match self {
            Error::MissingTool(s) => ErrorView::MissingTool(s@),
            Error::ToolLookup(s) => ErrorView::ToolLookup(s@),
            Error::NoFileName(s) => ErrorView::NoFileName(s@),
            Error::NoLangSettings(s) => ErrorView::NoLangSettings(s@),
            Error::ChildProcessError(s) => ErrorView::ChildProcessError(s@),
            Error::ToolFailure(i, s) => ErrorView::ToolFailure(*i, s@),
            Error::ChildStdinRef => ErrorView::ChildStdinRef,
            Error::ChildStdinFeed => ErrorView::ChildStdinFeed,
            Error::WaitOutputError(s) => ErrorView::WaitOutputError(s@),
            Error::WaitTimeoutError(s) => ErrorView::WaitTimeoutError(s@),
            Error::RuntimeError(s) => ErrorView::RuntimeError(s@),
            Error::TimeExceeded => ErrorView::TimeExceeded,
            Error::NoFileFound => ErrorView::NoFileFound,
            Error::Utf8 => ErrorView::Utf8,
            Error::NoSolution(s, i) => ErrorView::NoSolution(s@, *i),
            Error::SettingsError => ErrorView::SettingsError,
            Error::IOError(s) => ErrorView::IOError(s@),
        }
    }
}

impl Clone for Error {
    fn clone(&self) -> (r: Error)
        ensures
            r@ == self@,
    {
        match self {
            Error::MissingTool(s) => Error::MissingTool(s.clone()),
            Error::ToolLookup(s) => Error::ToolLookup(s.clone()),
            Error::NoFileName(s) => Error::NoFileName(s.clone()),
            Error::NoLangSettings(s) => Error::NoLangSettings(s.clone()),
            Error::ChildProcessError(s) => Error::ChildProcessError(s.clone()),
            Error::ToolFailure(i, s) => Error::ToolFailure(*i, s.clone()),
            Error::ChildStdinRef => Error::ChildStdinRef,
            Error::ChildStdinFeed => Error::ChildStdinFeed,
            Error::WaitOutputError(s) => Error::WaitOutputError(s.clone()),
            Error::WaitTimeoutError(s) => Error::WaitTimeoutError(s.clone()),
            Error::RuntimeError(s) => Error::RuntimeError(s.clone()),
            Error::TimeExceeded => Error::TimeExceeded,
            Error::NoFileFound => Error::NoFileFound,
            Error::Utf8 => Error::Utf8,
            Error::NoSolution(s, i) => Error::NoSolution(s.clone(), *i),
            Error::SettingsError => Error::SettingsError,
            Error::IOError(s) => Error::IOError(s.clone()),
        }
    }
}

/// The decimal digit of a number below ten.
pub open spec fn digit_of(n: nat) -> char {
    if n == 0 {
        '0'
    } else if n == 1 {
        '1'
    } else if n == 2 {
        '2'
    } else if n == 3 {
        '3'
    } else if n == 4 {
        '4'
    } else if n == 5 {
        '5'
    } else if n == 6 {
        '6'
    } else if n == 7 {
        '7'
    } else if n == 8 {
        '8'
    } else {
        '9'
    }
}

/// A number in decimal digits, without leading zeros.
pub open spec fn decimal_of(n: nat) -> Seq<char>
    decreases n,
{
    if n < 10 {
        seq![digit_of(n)]
    } else {
        decimal_of(n / 10).push(digit_of(n % 10))
    }
}

fn digit(d: usize) -> (r: &'static str)
    requires
        d < 10,
    ensures
        r@ == seq![digit_of(d as nat)],
{
    proof {
        reveal_strlit("0");
        reveal_strlit("1");
        reveal_strlit("2");
        reveal_strlit("3");
        reveal_strlit("4");
        reveal_strlit("5");
        reveal_strlit("6");
        reveal_strlit("7");
        reveal_strlit("8");
        reveal_strlit("9");
    }
    let r = if d == 0 {
        "0"
    } else if d == 1 {
        "1"
    } else if d == 2 {
        "2"
    } else if d == 3 {
        "3"
    } else if d == 4 {
        "4"
    } else if d == 5 {
        "5"
    } else if d == 6 {
        "6"
    } else if d == 7 {
        "7"
    } else if d == 8 {
        "8"
    } else {
        "9"
    };
    assert(r@ =~= seq![digit_of(d as nat)]);
    r
}

/// A number in decimal digits.
pub fn decimal(n: usize) -> (r: String)
    ensures
        r@ == decimal_of(n as nat),
    decreases n,
{
    if n < 10 {
        digit(n).to_owned()
    } else {
        let r = decimal(n / 10).concat(digit(n % 10));
        assert(r@ =~= decimal_of((n / 10) as nat).push(digit_of((n % 10) as nat)));
        r
    }
}

/// The text that describes an error.
pub open spec fn message_of(e: ErrorView) -> Seq<char> {
    match e {
        ErrorView::MissingTool(tool) => "The tool \""@ + tool + "\" was not found"@,
        ErrorView::ToolLookup(detail) => "Could not perform tool search, "@ + detail,
        ErrorView::NoFileName(problem) => "Problem \""@ + problem
            + "\" did not contain a valid filename"@,
        ErrorView::NoLangSettings(detail) => "No language settings were found for language "@
            + detail,
        ErrorView::ChildProcessError(detail) => "Could not spawn child process, "@ + detail,
        ErrorView::ToolFailure(idx, detail) => "Tool "@ + decimal_of(idx as nat)
            + " failed with the following stderr: "@ + detail,
        ErrorView::ChildStdinRef => "Could not obtain reference to child stdin"@,
        ErrorView::ChildStdinFeed => "Could not feed input to child process"@,
        ErrorView::WaitTimeoutError(detail) => "Wait timeout command failed, "@ + detail,
        ErrorView::WaitOutputError(detail) => "Wait for output failed, "@ + detail,
        ErrorView::RuntimeError(detail) => "Runtime error, "@ + detail,
        ErrorView::TimeExceeded => "The execution exceeded the maximum time"@,
        ErrorView::NoFileFound => "Could not evaluete due to lack of file"@,
        ErrorView::Utf8 => "A byte stream received was not utf-8 valid"@,
        ErrorView::NoSolution(name, idx) => "No solution was provided for problem "@ + name
            + ", scenario "@ + decimal_of(idx as nat),
        ErrorView::SettingsError => "An error with the settings has occured"@,
        ErrorView::IOError(detail) => "An io error occured, "@ + detail,
    }
}

impl Error {
    /// The text that describes the error.
    pub fn message(&self) -> (r: String)
        ensures
            r@ == message_of(self@),
    {
        match self {
            Error::MissingTool(tool) => "The tool \"".to_owned().concat(tool.as_str()).concat(
                "\" was not found",
            ),
            Error::ToolLookup(detail) => "Could not perform tool search, ".to_owned().concat(
                detail.as_str(),
            ),
            Error::NoFileName(problem) => "Problem \"".to_owned().concat(problem.as_str()).concat(
                "\" did not contain a valid filename",
            ),
            Error::NoLangSettings(detail) => "No language settings were found for language ".to_owned().concat(
            detail.as_str()),
            Error::ChildProcessError(detail) => "Could not spawn child process, ".to_owned().concat(
                detail.as_str(),
            ),
            Error::ToolFailure(idx, detail) => "Tool ".to_owned().concat(
                decimal(*idx).as_str(),
            ).concat(" failed with the following stderr: ").concat(detail.as_str()),
            Error::ChildStdinRef => "Could not obtain reference to child stdin".to_owned(),
            Error::ChildStdinFeed => "Could not feed input to child process".to_owned(),
            Error::WaitTimeoutError(detail) => "Wait timeout command failed, ".to_owned().concat(
                detail.as_str(),
            ),
            Error::WaitOutputError(detail) => "Wait for output failed, ".to_owned().concat(
                detail.as_str(),
            ),
            Error::RuntimeError(detail) => "Runtime error, ".to_owned().concat(detail.as_str()),
            Error::TimeExceeded => "The execution exceeded the maximum time".to_owned(),
            Error::NoFileFound => "Could not evaluete due to lack of file".to_owned(),
            Error::Utf8 => "A byte stream received was not utf-8 valid".to_owned(),
            Error::NoSolution(name, idx) => "No solution was provided for problem ".to_owned().concat(
            name.as_str()).concat(", scenario ").concat(decimal(*idx).as_str()),
            Error::SettingsError => "An error with the settings has occured".to_owned(),
            Error::IOError(detail) => "An io error occured, ".to_owned().concat(detail.as_str()),
        }
    }
}

/// What a per-scenario result holds.
pub open spec fn outcome_view(r: Result<String, Error>) -> Result<Seq<char>, ErrorView> {
    match r {
        Ok(s) => Ok(s@),
        Err(e) => Err(e@),
    }
}

/// What a list of per-scenario results holds.
pub open spec fn outcomes_view(v: Seq<Result<String, Error>>) -> Seq<Result<Seq<char>, ErrorView>> {
    Seq::new(v.len(), |i: int| outcome_view(v[i]))
}

/// What an optional error holds.
pub open spec fn opt_error_view(e: Option<Error>) -> Option<ErrorView> {
    match e {
        Some(e) => Some(e@),
        None => None,
    }
}

} // verus!
