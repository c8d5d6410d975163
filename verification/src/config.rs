//! The project configuration as the core reads it: the repository URL,
//! the default branch, the source-control discriminator, and the hook
//! command lists.  Reading and writing the file is the caller's business.

use vstd::prelude::*;
use vstd::string::StringExecFns;

verus! {

/// The hook command lists a project may configure.
#[derive(Debug, Clone)]
pub struct Hooks {
    pub post_add: Option<Vec<String>>,
    pub post_remove: Option<Vec<String>>,
    pub post_init: Option<Vec<String>>,
}

/// The project configuration fields the core reads.
#[derive(Debug, Clone)]
pub struct GitWorktreeConfig {
    pub repository_url: String,
    pub main_branch: String,
    /// `github`, `bitbucket-cloud` or `bitbucket-data-center`; anything
    /// else falls back to `github` semantics.
    pub source_control: String,
    pub bitbucket_email: Option<String>,
    pub hooks: Option<Hooks>,
}

impl GitWorktreeConfig {
    /// A fresh configuration for a newly initialized project: GitHub
    /// semantics by default, with commented-out sample hooks.
    pub fn new(repository_url: String, main_branch: String) -> (r: GitWorktreeConfig)
        ensures
            r.repository_url == repository_url,
            r.main_branch == main_branch,
            r.source_control@ == "github"@,
            r.bitbucket_email is None,
            r.hooks is Some,
            (r.hooks->0).post_add matches Some(v) && v.deep_view() == seq!["# npm install"@],
            (r.hooks->0).post_remove matches Some(v) && v.deep_view() == seq![
                "# echo 'Removed worktree for branch ${branchName}'"@,
            ],
            (r.hooks->0).post_init matches Some(v) && v.deep_view() == seq![
                "# echo 'Initialized git worktree project'"@,
            ],
    {
        let mut post_add: Vec<String> = Vec::new();
        post_add.push(String::from_str("# npm install"));
        let mut post_remove: Vec<String> = Vec::new();
        post_remove.push(String::from_str("# echo 'Removed worktree for branch ${branchName}'"));
        let mut post_init: Vec<String> = Vec::new();
        post_init.push(String::from_str("# echo 'Initialized git worktree project'"));
        proof {
            assert(post_add.deep_view() =~= seq!["# npm install"@]);
            assert(post_remove.deep_view() =~= seq![
                "# echo 'Removed worktree for branch ${branchName}'"@,
            ]);
            assert(post_init.deep_view() =~= seq!["# echo 'Initialized git worktree project'"@]);
        }
        GitWorktreeConfig {
            repository_url,
            main_branch,
            source_control: String::from_str("github"),
            bitbucket_email: None,
            hooks: Some(
                Hooks {
                    post_add: Some(post_add),
                    post_remove: Some(post_remove),
                    post_init: Some(post_init),
                },
            ),
        }
    }
}

/// The default branch to build new worktrees from: the configured one
/// when a configuration exists, the detected one otherwise, and `main`
/// as the last resort.
pub fn get_main_branch(config: Option<&GitWorktreeConfig>, detected_default: Option<&str>) -> (r:
    String)
    ensures
        config matches Some(c) ==> r@ == c.main_branch@,
        config is None ==> (detected_default matches Some(d) ==> r@ == d@),
        config is None && detected_default is None ==> r@ == "main"@,
{
    match config {
        Some(c) => c.main_branch.clone(),
        None => match detected_default {
            Some(d) => d.to_owned(),
            None => String::from_str("main"),
        },
    }
}

} // verus!
