//! Verified core of a git-worktree management tool.
//!
//! The library covers the logic that is worth proving: parsing the
//! porcelain worktree listing into structured records, selecting a
//! worktree-creation strategy from branch-existence facts, classifying a
//! repository URL into a hosting provider, and reconciling local worktrees
//! against a provider's open pull requests.  Process invocation, HTTP and
//! file I/O stay outside; they hand the library plain values.

pub mod bitbucket_api;
pub mod bitbucket_auth;
pub mod bitbucket_data_center_api;
pub mod bitbucket_data_center_auth;
pub mod cli;
pub mod config;
pub mod git;
pub mod github;
pub mod list_helpers;
pub mod provider;
pub mod reconcile;
pub mod text;
pub mod utils;
