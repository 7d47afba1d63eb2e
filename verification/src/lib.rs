//! Trunk's repository logic: commit messages, history search, review
//! sessions, stash and operation-state handling, each with a contract
//! checked by Verus.

#![allow(unused_imports)]

use vstd::prelude::*;

pub mod error;
pub mod text;
pub mod review_doc;
pub mod session_store;
pub mod graph;
pub mod history;
pub mod review;
pub mod state;
pub mod shell_env;
pub mod messages;
pub mod operation;
pub mod cli;
pub mod git;
pub mod repo_ops;
pub mod repo_read;
pub mod resolution;

verus! {

} // verus!
