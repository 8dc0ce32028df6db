//! Commit ingestion for a repository analysis service: where a working copy
//! lives, which commits of a history are wanted, what a commit changed, how the
//! changed files are archived, and how a job advances through its states.

pub mod archive;
pub mod diff;
pub mod git;
pub mod history;
pub mod ledger;
pub mod md5;
pub mod models;
pub mod orchestrator;
pub mod record;
pub mod sanitize;
pub mod text;
pub mod ticket;
