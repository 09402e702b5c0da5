//! An automated judge: toolchains per language, the execution of a source
//! text against scenarios, the freezing of expected outputs and the scoring
//! of submissions against them.

pub mod text;
pub mod error;
pub mod batch;
pub mod language;
pub mod problems;
pub mod arena;
pub mod settings;
pub mod tito;

pub use self::arena::Arena;
pub use self::language::{Language, LanguageSettings, Tool};
pub use self::problems::{Problem, Proposal, Scenario};
pub use self::settings::{Competitor, Evaluation, Settings};
pub use self::tito::{Error, Tito};
