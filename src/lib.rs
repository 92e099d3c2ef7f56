//! A parser for Gherkin-style feature files: a line classifier and a grammar
//! state machine that folds classified lines into a document tree.
//!
//! `tokenizer` classifies one raw line; `parser` holds the transition on a
//! line and the fold over a file, each stated as a spec function and proved
//! of the executable code; `theorems` holds facts proved about the grammar.
pub mod error;
pub mod parser;
pub mod theorems;
pub mod tokenizer;
pub mod types;

pub use error::{Error, ErrorV};
pub use parser::{parse, Parser, State};
pub use tokenizer::{parse_line, Line};
pub use types::{
    ArgV, Feature, FeatureItem, FeatureV, Features, ItemV, Scenario, ScenarioOutline, Step,
    StepArg, StepKind, StepV, Steps, Table, TableV, Text,
};
