//! A parent/child GitHub issue runner: the parsing, planning, budgeting and
//! reporting logic, with contracts proved by Verus.
pub mod text;
pub mod numbers;
pub mod models;
pub mod issue_parse;
pub mod config;
pub mod budget;
pub mod diff_budget;
pub mod selection;
pub mod estimate;
pub mod reporting;
pub mod run_outcome;
pub mod control_assets;
pub mod agent_exec;
pub mod github;
pub mod git_ops;
pub mod issue_lint;
pub mod runner;
pub mod cli;
pub mod intent_bundle;
pub mod prompt_builder;
pub mod docs_support;
pub mod telemetry;
