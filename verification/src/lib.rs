//! Decision logic of the `agc` commit assistant, verified with Verus.

pub mod ai;
pub mod cli;
pub mod commit;
pub mod config;
pub mod error;
pub mod git;
pub mod history;
pub mod legacy;
pub mod search;
pub mod text;
pub mod ui;
pub mod workflow;
pub mod model;
pub mod pipeline;
