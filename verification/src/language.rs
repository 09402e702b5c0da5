//! Languages and the tools that build and run a source file of each.

use vstd::prelude::*;
use vstd::string::*;
use crate::text::{copy_texts, texts};

verus! {

/// The languages a solution can be written in.
#[derive(Clone, Copy, PartialEq, Eq, Hash, Debug, Structural)]
pub enum Language {
    Rust,
    Shell,
    Cpp,
    C,
    Python2,
    Python3,
}

/// One invocation of a utility. In `utility` and in each argument,
/// `{filename}` stands for the path of the source file and `{pwd}` for the
/// working directory.
#[derive(Debug, PartialEq, Eq)]
pub struct Tool {
    /// Name of the utility.
    pub utility: String,
    /// Whether an earlier step of the same run produces the utility, so that
    /// it is not looked up on the host.
    pub temporal: bool,
    /// Arguments that the utility receives.
    pub arguments: Vec<String>,
}

/// What a `Tool` holds.
pub struct ToolView {
    pub utility: Seq<char>,
    pub temporal: bool,
    pub arguments: Seq<Seq<char>>,
}

impl View for Tool {
    type V = ToolView;

    open spec fn view(&self) -> ToolView {
        ToolView {
            utility: self.utility@,
            temporal: self.temporal,
            arguments: texts(self.arguments@),
        }
    }
}

impl Clone for Tool {
    fn clone(&self) -> (r: Tool)
        ensures
            r@ == self@,
    {
        Tool {
            utility: self.utility.clone(),
            temporal: self.temporal,
            arguments: copy_texts(&self.arguments),
        }
    }
}

/// The contents of a list of tools.
pub open spec fn tools_view(v: Seq<Tool>) -> Seq<ToolView> {
    Seq::new(v.len(), |i: int| v[i]@)
}

/// A copy of a list of tools.
pub fn copy_tools(v: &Vec<Tool>) -> (r: Vec<Tool>)
    ensures
        tools_view(r@) == tools_view(v@),
{
    let mut r: Vec<Tool> = Vec::new();
    let mut i: usize = 0;
    while i < v.len()
        invariant
            i <= v.len(),
            r@.len() == i,
            forall|j: int| 0 <= j < i ==> r@[j]@ == v@[j]@,
        decreases v.len() - i,
    {
        r.push(v[i].clone());
        i = i + 1;
    }
    assert(tools_view(r@) =~= tools_view(v@));
    r
}

/// The toolchain of a language: tools that run once before any scenario, the
/// tool that runs once per scenario, and the extension of source files.
#[derive(Debug, PartialEq, Eq)]
pub struct LanguageSettings {
    /// Tools to be executed once before measuring, such as compilers.
    pub pre_tools: Option<Vec<Tool>>,
    /// Tool that is executed per scenario: the binary, or the interpreter
    /// with the source file.
    pub tool: Tool,
    /// Extension of the source files.
    pub extension: String,
}

/// What a `LanguageSettings` holds.
pub struct LanguageSettingsView {
    pub pre_tools: Option<Seq<ToolView>>,
    pub tool: ToolView,
    pub extension: Seq<char>,
}

impl View for LanguageSettings {
    type V = LanguageSettingsView;

    open spec fn view(&self) -> LanguageSettingsView {
        LanguageSettingsView {
            pre_tools: match self.pre_tools {
                Some(v) => Some(tools_view(v@)),
                None => None,
            },
            tool: self.tool@,
            extension: self.extension@,
        }
    }
}

impl Clone for LanguageSettings {
    fn clone(&self) -> (r: LanguageSettings)
        ensures
            r@ == self@,
    {
        let pre_tools = match &self.pre_tools {
            Some(v) => Some(copy_tools(v)),
            None => None,
        };
        LanguageSettings { pre_tools, tool: self.tool.clone(), extension: self.extension.clone() }
    }
}

/// The toolchain of a compiled language: `compiler -o a.exe {filename}`
/// once, then `{pwd}/a.exe` per scenario.
pub open spec fn compiled(compiler: Seq<char>, extension: Seq<char>) -> LanguageSettingsView {
    LanguageSettingsView {
        pre_tools: Some(
            seq![
                ToolView {
                    utility: compiler,
                    temporal: false,
                    arguments: seq!["-o"@, "a.exe"@, "{filename}"@],
                },
            ],
        ),
        tool: ToolView { utility: "{pwd}/a.exe"@, temporal: true, arguments: seq![] },
        extension,
    }
}

/// The toolchain of an interpreted language: `interpreter {filename}` per
/// scenario.
pub open spec fn interpreted(interpreter: Seq<char>, extension: Seq<char>) -> LanguageSettingsView {
    LanguageSettingsView {
        pre_tools: None,
        tool: ToolView { utility: interpreter, temporal: false, arguments: seq!["{filename}"@] },
        extension,
    }
}

/// The default toolchain of each language. On Windows both Pythons go by
/// the name `python`.
pub open spec fn default_settings(language: Language, windows: bool) -> LanguageSettingsView {
    match language {
        Language::Rust => compiled("rustc"@, "rs"@),
        Language::Shell => interpreted("bash"@, "sh"@),
        Language::Cpp => compiled("g++"@, "cpp"@),
        Language::C => compiled("gcc"@, "c"@),
        Language::Python2 => interpreted(if windows { "python"@ } else { "python2"@ }, "py"@),
        Language::Python3 => interpreted(if windows { "python"@ } else { "python3"@ }, "py"@),
    }
}

fn compiled_settings(compiler: &str, extension: &str) -> (r: LanguageSettings)
    ensures
        r@ == compiled(compiler@, extension@),
{
    let mut arguments: Vec<String> = Vec::new();
    arguments.push("-o".to_owned());
    arguments.push("a.exe".to_owned());
    arguments.push("{filename}".to_owned());
    let compiler_tool = Tool { utility: compiler.to_owned(), temporal: false, arguments };
    assert(compiler_tool@.arguments =~= seq!["-o"@, "a.exe"@, "{filename}"@]);
    let mut pre_tools: Vec<Tool> = Vec::new();
    pre_tools.push(compiler_tool);
    assert(tools_view(pre_tools@) =~= seq![compiler_tool@]);
    let tool = Tool { utility: "{pwd}/a.exe".to_owned(), temporal: true, arguments: Vec::new() };
    assert(tool@.arguments =~= seq![]);
    LanguageSettings { pre_tools: Some(pre_tools), tool, extension: extension.to_owned() }
}

fn interpreted_settings(interpreter: &str, extension: &str) -> (r: LanguageSettings)
    ensures
        r@ == interpreted(interpreter@, extension@),
{
    let mut arguments: Vec<String> = Vec::new();
    arguments.push("{filename}".to_owned());
    let tool = Tool { utility: interpreter.to_owned(), temporal: false, arguments };
    assert(tool@.arguments =~= seq!["{filename}"@]);
    LanguageSettings { pre_tools: None, tool, extension: extension.to_owned() }
}

impl LanguageSettings {
    /// The default toolchain of `language` on a host that is not Windows.
    pub fn default(language: Language) -> (r: LanguageSettings)
        ensures
            r@ == default_settings(language, false),
    {
        LanguageSettings::default_on(language, false)
    }

    /// The default toolchain of `language`, on Windows or elsewhere.
    pub fn default_on(language: Language, windows: bool) -> (r: LanguageSettings)
        ensures
            r@ == default_settings(language, windows),
    {
        match language {
            Language::Rust => compiled_settings("rustc", "rs"),
            Language::Shell => interpreted_settings("bash", "sh"),
            Language::Cpp => compiled_settings("g++", "cpp"),
            Language::C => compiled_settings("gcc", "c"),
            Language::Python2 => if windows {
                interpreted_settings("python", "py")
            } else {
                interpreted_settings("python2", "py")
            },
            Language::Python3 => if windows {
                interpreted_settings("python", "py")
            } else {
                interpreted_settings("python3", "py")
            },
        }
    }
}

/// The name of a language between double quotes, as it stands in a settings
/// file.
pub open spec fn label_of(language: Language) -> Seq<char> {
    match language {
        Language::Rust => "\"Rust\""@,
        Language::Shell => "\"Shell\""@,
        Language::Cpp => "\"Cpp\""@,
        Language::C => "\"C\""@,
        Language::Python2 => "\"Python2\""@,
        Language::Python3 => "\"Python3\""@,
    }
}

impl Language {
    /// The quoted name of the language.
    pub fn label(&self) -> (r: String)
        ensures
            r@ == label_of(*self),
    {
        match self {
            Language::Rust => "\"Rust\"".to_owned(),
            Language::Shell => "\"Shell\"".to_owned(),
            Language::Cpp => "\"Cpp\"".to_owned(),
            Language::C => "\"C\"".to_owned(),
            Language::Python2 => "\"Python2\"".to_owned(),
            Language::Python3 => "\"Python3\"".to_owned(),
        }
    }
}

} // verus!
