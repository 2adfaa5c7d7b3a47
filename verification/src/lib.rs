//! chronikl — release notes from git history.
//!
//! The verified core: commit parsing, version detection, the
//! deterministic classification ladder, prompt assembly and rendering.

pub mod audit;
pub mod cache;
pub mod cli;
pub mod config;
pub mod enrichment;
pub mod env;
pub mod git;
pub mod hashing;
pub mod ladder;
pub mod models;
pub mod output;
pub mod progress;
pub mod project;
pub mod prompt_dump;
pub mod prompts;
pub mod prose;
pub mod providers;
pub mod run;
pub mod split;
pub mod telemetry;
pub mod text;
pub mod tools;
pub mod update;
pub mod voice;
