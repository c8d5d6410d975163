//! The command-line vocabulary the core decides over: the provider
//! selector and the authentication subcommands.  Argument parsing itself
//! is the caller's business.

use vstd::prelude::*;

verus! {

/// The hosting providers the tool can talk to.
#[derive(Debug, Clone, Copy, PartialEq, Eq, Structural)]
pub enum Provider {
    Github,
    BitbucketCloud,
    BitbucketDataCenter,
}

/// The authentication subcommands.
#[derive(Debug, Clone, Copy, PartialEq, Eq, Structural)]
pub enum AuthAction {
    /// Check or manage the GitHub session.
    Github { logout: bool },
}

} // verus!
