//! Resolution of the Bitbucket Cloud coordinates out of the project
//! configuration.  The secret store and the environment stay outside;
//! this module only decides what the configuration denotes.

use vstd::prelude::*;
use crate::config::GitWorktreeConfig;
use crate::text::contains_seq;
use crate::bitbucket_api::{
    spec_extract_bitbucket, extract_bitbucket_info_from_url, is_bitbucket_repository,
};

verus! {

/// Why the cloud coordinates could not be resolved.
#[derive(Debug, Clone, Copy, PartialEq, Eq, Structural)]
pub enum BitbucketAuthConfigError {
    /// No project configuration was found.
    NoConfig,
    /// The configured repository is not hosted on Bitbucket Cloud.
    NotBitbucket,
    /// The repository URL names the host but has none of the known shapes.
    UrlParse,
}

/// The workspace, repository slug and account email of the configured
/// cloud repository: present exactly when a configuration exists, its
/// URL names the cloud host and has a recognized shape.
pub fn get_auth_from_config(config: Option<&GitWorktreeConfig>) -> (r: Result<
    (String, String, Option<String>),
    BitbucketAuthConfigError,
>)
    ensures
        config is None ==> r == Result::<
            (String, String, Option<String>),
            BitbucketAuthConfigError,
        >::Err(BitbucketAuthConfigError::NoConfig),
        config matches Some(c) ==> {
            &&& !contains_seq(c.repository_url@, "bitbucket.org"@) ==> r == Result::<
                (String, String, Option<String>),
                BitbucketAuthConfigError,
            >::Err(BitbucketAuthConfigError::NotBitbucket)
            &&& contains_seq(c.repository_url@, "bitbucket.org"@) && spec_extract_bitbucket(
                c.repository_url@,
            ) is None ==> r == Result::<
                (String, String, Option<String>),
                BitbucketAuthConfigError,
            >::Err(BitbucketAuthConfigError::UrlParse)
            &&& contains_seq(c.repository_url@, "bitbucket.org"@) && spec_extract_bitbucket(
                c.repository_url@,
            ) is Some ==> r is Ok && {
                let ex = spec_extract_bitbucket(c.repository_url@)->0;
                &&& (r->Ok_0).0@ == ex.0
                &&& (r->Ok_0).1@ == ex.1
                &&& (r->Ok_0).2 == c.bitbucket_email
            }
        },
{
    match config {
        None => Err(BitbucketAuthConfigError::NoConfig),
        Some(c) => {
            if !is_bitbucket_repository(c.repository_url.as_str()) {
                return Err(BitbucketAuthConfigError::NotBitbucket);
            }
            match extract_bitbucket_info_from_url(c.repository_url.as_str()) {
                Some((workspace, repo)) => Ok((workspace, repo, c.bitbucket_email.clone())),
                None => Err(BitbucketAuthConfigError::UrlParse),
            }
        },
    }
}

} // verus!
