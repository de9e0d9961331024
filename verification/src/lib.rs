//! git-redate: interactively edit git commit dates.
//!
//! The verified library holds the pure logic of the tool: the timestamp
//! arithmetic, the edit model, the interactive editor's state machine,
//! the line editor, the command-line range normalization and the small
//! helpers of the signing and rewriting steps. Terminal, repository and
//! process work live outside it.

pub mod app;
pub mod calendar;
pub mod cli;
pub mod config;
pub mod datetime;
pub mod error;
pub mod input;
pub mod lineedit;
pub mod model;
pub mod repo;
pub mod rewrite;
pub mod sign;
pub mod text;
pub mod ui;
