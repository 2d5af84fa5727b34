//! Finds the tests of a Python project and reports how they ran.
//!
//! Discovery reads the text of each source file, finds the functions that a decorator
//! marks as tests, and lists for each the assertions that its body is expected to make.
//! Reporting takes the events of a run and renders them as text, as lines of JSON, as
//! progress glyphs or as a JUnit document.
//!
//! The library does no input or output of its own. Paths and texts are handed in as
//! strings, and each reporter gathers what it writes in a string that its owner sends
//! wherever it should go. Every function states what it returns over a model of its
//! arguments, and the statements are proved.
//!
//! Five crates do work that is taken on trust: `ruff_python_parser` reads the source
//! text, `ruff_source_file` finds where its lines begin, `miette` draws the diagnostics
//! of failed assertions, `owo-colors` styles the text for a terminal, and `serde_json`
//! writes JSON strings. Each is called through one small function whose doc comment says
//! what is believed of it.

pub mod analysis;
pub mod assertion;
pub mod diagnostic;
pub mod discovery;
pub mod dot;
pub mod duration;
pub mod json;
pub mod junit;
pub mod lines;
pub mod marker;
pub mod order;
pub mod parse;
pub mod paths;
pub mod placement;
pub mod reporter;
pub mod run;
pub mod strings;
pub mod style;
pub mod syntax;
pub mod text;
pub mod types;

pub use crate::analysis::{parse_source, ParseError, SyntaxTree};
pub use crate::discovery::{discover, parse_tests_from_file, SourceFile};
pub use crate::dot::DotReporter;
pub use crate::duration::{format_duration, Duration};
pub use crate::json::JSONReporter;
pub use crate::junit::JUnitReporter;
pub use crate::reporter::Reporter;
pub use crate::run::{fake_results, run_collect_only, run_test, summarize};
pub use crate::text::{LogLevel, TextReporter, Verbosity};
pub use crate::types::{
    Assertion, DiscoveryError, DiscoveryResult, ExpectedAssertion, FileDiscovery, RunSummary,
    TestItem, TestOutcome, TestResult,
};
