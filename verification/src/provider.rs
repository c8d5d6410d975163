//! Classification of a repository URL into one of the supported hosting
//! providers, with or without an explicitly configured platform, and the
//! structured identifiers each provider's API needs.

use vstd::prelude::*;
use crate::cli::Provider;
use crate::github::{GitHubClient, spec_parse_github_url};
use crate::bitbucket_api::{
    is_bitbucket_repository, extract_bitbucket_info_from_url, spec_extract_bitbucket,
};
use crate::bitbucket_data_center_api::{
    extract_bitbucket_data_center_info_from_url, spec_extract_dc,
};
use crate::bitbucket_data_center_auth::{derive_api_base_url_from_repo_url, spec_derive_api_base};
use crate::text::{contains_seq, ends_with, split_on, str_eq, str_ends_with, split_str};
use vstd::string::{StrSliceExecFns, StringExecFns};

verus! {

/// Classification of a remote repository: the active platform and the
/// identifiers its API needs.  The scope and slug are non-empty whenever
/// a platform was resolved.
#[derive(Debug, Clone)]
pub struct ProviderIdentity {
    pub platform: Provider,
    /// Owner login, workspace slug, or project key, by platform.
    pub primary_scope: String,
    pub repo_slug: String,
    /// Base URL for REST calls: fixed for the cloud platforms, derived
    /// from the repository URL for self-hosted instances.
    pub api_base: String,
}

/// Why detection failed.
#[derive(Debug, Clone, PartialEq, Eq)]
pub enum DetectError {
    /// No pattern matched and no explicit platform was supplied.
    Unrecognized { url: String },
    /// The explicit platform claim is structurally incompatible with
    /// what the URL already establishes.
    PlatformMismatch { url: String, requested: Provider },
}

/// URL-based platform detection, in priority order: the specific GitHub
/// shapes first, then the cloud host, then the Data Center shapes, then
/// nothing.
pub open spec fn spec_detect_provider(u: Seq<char>) -> Option<Provider> {
    if spec_parse_github_url(u) is Some {
        Option::Some(Provider::Github)
    } else if contains_seq(u, "bitbucket.org"@) {
        Option::Some(Provider::BitbucketCloud)
    } else if spec_extract_dc(u) is Some {
        Option::Some(Provider::BitbucketDataCenter)
    } else {
        Option::None
    }
}

pub fn detect_provider_from_url(repo_url: &str) -> (r: Option<Provider>)
    ensures
        r == spec_detect_provider(repo_url@),
{
    if GitHubClient::parse_github_url(repo_url).is_some() {
        Some(Provider::Github)
    } else if is_bitbucket_repository(repo_url) {
        Some(Provider::BitbucketCloud)
    } else if extract_bitbucket_data_center_info_from_url(repo_url).is_some() {
        Some(Provider::BitbucketDataCenter)
    } else {
        None
    }
}

/// The two platform claims agree.
pub fn providers_match(a: &Provider, b: &Provider) -> (r: bool)
    ensures
        r == (a == b),
{
    *a == *b
}

/// The failure reported when nothing matched and nothing was requested.
pub fn create_provider_error(repo_url: &str) -> (r: DetectError)
    ensures
        r matches DetectError::Unrecognized { url } && url@ == repo_url@,
{
    DetectError::Unrecognized { url: repo_url.to_owned() }
}

/// The platform a project is initialized with: the explicit request when
/// one was given (any disagreement with the URL is the caller's to
/// surface as a warning), the URL-detected platform otherwise.
pub fn detect_repository_provider(repo_url: &str, provider: Option<Provider>) -> (r: Result<
    Provider,
    DetectError,
>)
    ensures
        provider matches Some(p) ==> r matches Ok(d) && d == p,
        provider is None ==> match spec_detect_provider(repo_url@) {
            Option::Some(d) => r matches Ok(x) && x == d,
            Option::None => r matches Err(e) && e matches DetectError::Unrecognized { url }
                && url@ == repo_url@,
        },
{
    match provider {
        Some(explicit) => Ok(explicit),
        None => match detect_provider_from_url(repo_url) {
            Some(detected) => Ok(detected),
            None => Err(create_provider_error(repo_url)),
        },
    }
}

/// The repository's directory name: the last `/`-separated segment of
/// its URL, with one trailing `.git` removed.
pub open spec fn spec_repo_name(u: Seq<char>) -> Seq<char> {
    let last = split_on(u, '/').last();
    if ends_with(last, ".git"@) {
        last.subrange(0, last.len() - ".git"@.len())
    } else {
        last
    }
}

pub fn extract_repo_name(repo_url: &str) -> (r: String)
    ensures
        r@ == spec_repo_name(repo_url@),
{
    proof {
        reveal_strlit(".git");
        crate::text::lemma_split_on_len(repo_url@, '/');
    }
    let parts = split_str(repo_url, '/');
    let i: usize = parts.len() - 1;
    let last = &parts[i];
    proof {
        assert(parts.deep_view()[i as int] == parts@[i as int]@);
    }
    if str_ends_with(last.as_str(), ".git") {
        let n: usize = last.as_str().unicode_len();
        last.as_str().substring_char(0, n - 4).to_owned()
    } else {
        last.clone()
    }
}

/// The identity detection resolves to, when it resolves: platform,
/// primary scope, repository slug and API base.  An explicit platform
/// request wins over re-deriving from the URL; a stored discriminator
/// that names no known platform falls back to GitHub semantics; scope
/// and slug must be non-empty for an identity to count.
pub open spec fn spec_detect_identity(u: Seq<char>, sc: Option<Seq<char>>) -> Option<
    (Provider, Seq<char>, Seq<char>, Seq<char>),
> {
    if sc matches Some(s) && s == "bitbucket-cloud"@ {
        if contains_seq(u, "bitbucket.org"@) {
            spec_cloud_identity(u)
        } else {
            Option::None
        }
    } else if sc matches Some(s) && s == "bitbucket-data-center"@ {
        if contains_seq(u, "bitbucket.org"@) {
            Option::None
        } else if spec_extract_dc(u) is Some {
            let t = spec_extract_dc(u)->0;
            Option::Some((Provider::BitbucketDataCenter, t.1, t.2, t.0))
        } else if spec_parse_github_url(u) is Some && spec_derive_api_base(u) is Some
            && (spec_parse_github_url(u)->0).0.len() > 0 && (spec_parse_github_url(u)->0).1.len()
            > 0 {
            let gh = spec_parse_github_url(u)->0;
            Option::Some(
                (Provider::BitbucketDataCenter, gh.0, gh.1, spec_derive_api_base(u)->0),
            )
        } else {
            Option::None
        }
    } else if sc is Some {
        // `github`, or an unrecognized discriminator: GitHub semantics
        spec_github_identity(u)
    } else {
        // no stored discriminator: URL priority order
        if spec_github_identity(u) is Some {
            spec_github_identity(u)
        } else if contains_seq(u, "bitbucket.org"@) && spec_cloud_identity(u) is Some {
            spec_cloud_identity(u)
        } else if spec_extract_dc(u) is Some {
            let t = spec_extract_dc(u)->0;
            Option::Some((Provider::BitbucketDataCenter, t.1, t.2, t.0))
        } else {
            Option::None
        }
    }
}

pub open spec fn spec_github_identity(u: Seq<char>) -> Option<
    (Provider, Seq<char>, Seq<char>, Seq<char>),
> {
    if spec_parse_github_url(u) is Some && (spec_parse_github_url(u)->0).0.len() > 0 && (
    spec_parse_github_url(u)->0).1.len() > 0 {
        let gh = spec_parse_github_url(u)->0;
        Option::Some((Provider::Github, gh.0, gh.1, "https://api.github.com"@))
    } else {
        Option::None
    }
}

pub open spec fn spec_cloud_identity(u: Seq<char>) -> Option<
    (Provider, Seq<char>, Seq<char>, Seq<char>),
> {
    if spec_extract_bitbucket(u) is Some && (spec_extract_bitbucket(u)->0).0.len() > 0 && (
    spec_extract_bitbucket(u)->0).1.len() > 0 {
        let t = spec_extract_bitbucket(u)->0;
        Option::Some((Provider::BitbucketCloud, t.0, t.1, "https://api.bitbucket.org"@))
    } else {
        Option::None
    }
}

/// The mismatch detection reports instead, when the explicit claim is
/// structurally incompatible with the URL: a Data Center request against
/// the cloud host, or a cloud request against a Data-Center-shaped URL.
pub open spec fn spec_detect_mismatch(u: Seq<char>, sc: Option<Seq<char>>) -> Option<Provider> {
    if sc matches Some(s) && s == "bitbucket-data-center"@ && contains_seq(
        u,
        "bitbucket.org"@,
    ) {
        Option::Some(Provider::BitbucketDataCenter)
    } else if sc matches Some(s) && s == "bitbucket-cloud"@ && !contains_seq(
        u,
        "bitbucket.org"@,
    ) && spec_extract_dc(u) is Some {
        Option::Some(Provider::BitbucketCloud)
    } else {
        Option::None
    }
}

fn github_identity(url: &str) -> (r: Option<ProviderIdentity>)
    ensures
        (r is Some) == (spec_github_identity(url@) is Some),
        r matches Some(id) ==> {
            let t = spec_github_identity(url@)->0;
            &&& id.platform == t.0
            &&& id.primary_scope@ == t.1
            &&& id.repo_slug@ == t.2
            &&& id.api_base@ == t.3
        },
{
    match GitHubClient::parse_github_url(url) {
        Some((owner, repo)) => {
            if owner.as_str().is_empty() || repo.as_str().is_empty() {
                None
            } else {
                Some(
                    ProviderIdentity {
                        platform: Provider::Github,
                        primary_scope: owner,
                        repo_slug: repo,
                        api_base: String::from_str("https://api.github.com"),
                    },
                )
            }
        },
        None => None,
    }
}

fn cloud_identity(url: &str) -> (r: Option<ProviderIdentity>)
    ensures
        (r is Some) == (spec_cloud_identity(url@) is Some),
        r matches Some(id) ==> {
            let t = spec_cloud_identity(url@)->0;
            &&& id.platform == t.0
            &&& id.primary_scope@ == t.1
            &&& id.repo_slug@ == t.2
            &&& id.api_base@ == t.3
        },
{
    match extract_bitbucket_info_from_url(url) {
        Some((ws, repo)) => {
            if ws.as_str().is_empty() || repo.as_str().is_empty() {
                None
            } else {
                Some(
                    ProviderIdentity {
                        platform: Provider::BitbucketCloud,
                        primary_scope: ws,
                        repo_slug: repo,
                        api_base: String::from_str("https://api.bitbucket.org"),
                    },
                )
            }
        },
        None => None,
    }
}

/// Classify a repository URL, honouring an explicitly stored platform.
/// An explicit claim wins over re-deriving from the URL, except that a
/// structurally incompatible claim is a hard error; with no usable
/// claim, the URL shapes are tried in priority order.  A merely
/// disagreeing weak guess is not an error; callers surface it as a
/// warning through `providers_match`.
pub fn detect(repository_url: &str, stored_source_control: Option<&str>) -> (r: Result<
    ProviderIdentity,
    DetectError,
>)
    ensures
        ({
            let scv = match stored_source_control {
                Option::Some(s) => Option::Some(s@),
                Option::None => Option::None::<Seq<char>>,
            };
            &&& (spec_detect_mismatch(repository_url@, scv) matches Some(req) ==> r matches Err(e)
                && e matches DetectError::PlatformMismatch { url, requested } && url@
                == repository_url@ && requested == req)
            &&& (spec_detect_mismatch(repository_url@, scv) is None ==> {
                match spec_detect_identity(repository_url@, scv) {
                    Option::Some(t) => r matches Ok(id) && id.platform == t.0
                        && id.primary_scope@ == t.1 && id.repo_slug@ == t.2 && id.api_base@
                        == t.3,
                    Option::None => r matches Err(e) && e matches DetectError::Unrecognized {
                        url,
                    } && url@ == repository_url@,
                }
            })
            &&& (r matches Ok(id) ==> id.primary_scope@.len() > 0 && id.repo_slug@.len() > 0)
        }),
{
    proof {
        reveal_strlit("github");
        reveal_strlit("bitbucket-cloud");
        reveal_strlit("bitbucket-data-center");
        assert("github"@.len() == 6);
        assert("bitbucket-cloud"@.len() == 15);
        assert("bitbucket-data-center"@.len() == 21);
    }
    match stored_source_control {
        Some(s) => {
            if str_eq(s, "bitbucket-cloud") {
                if is_bitbucket_repository(repository_url) {
                    match cloud_identity(repository_url) {
                        Some(id) => Ok(id),
                        None => Err(create_provider_error(repository_url)),
                    }
                } else if extract_bitbucket_data_center_info_from_url(
                    repository_url,
                ).is_some() {
                    Err(
                        DetectError::PlatformMismatch {
                            url: repository_url.to_owned(),
                            requested: Provider::BitbucketCloud,
                        },
                    )
                } else {
                    Err(create_provider_error(repository_url))
                }
            } else if str_eq(s, "bitbucket-data-center") {
                if is_bitbucket_repository(repository_url) {
                    return Err(
                        DetectError::PlatformMismatch {
                            url: repository_url.to_owned(),
                            requested: Provider::BitbucketDataCenter,
                        },
                    );
                }
                if let Some((base, project, repo)) = extract_bitbucket_data_center_info_from_url(
                    repository_url,
                ) {
                    proof {
                        lemma_dc_capture_nonempty(repository_url@);
                    }
                    return Ok(
                        ProviderIdentity {
                            platform: Provider::BitbucketDataCenter,
                            primary_scope: project,
                            repo_slug: repo,
                            api_base: base,
                        },
                    );
                }
                match GitHubClient::parse_github_url(repository_url) {
                    Some((owner, repo)) => {
                        if owner.as_str().is_empty() || repo.as_str().is_empty() {
                            return Err(create_provider_error(repository_url));
                        }
                        match derive_api_base_url_from_repo_url(repository_url) {
                            Some(base) => Ok(
                                ProviderIdentity {
                                    platform: Provider::BitbucketDataCenter,
                                    primary_scope: owner,
                                    repo_slug: repo,
                                    api_base: base,
                                },
                            ),
                            None => Err(create_provider_error(repository_url)),
                        }
                    },
                    None => Err(create_provider_error(repository_url)),
                }
            } else {
                // `github`, or an unrecognized discriminator
                match github_identity(repository_url) {
                    Some(id) => Ok(id),
                    None => Err(create_provider_error(repository_url)),
                }
            }
        },
        None => url_priority_detect(repository_url),
    }
}

/// Detection with no usable override: the URL shapes in priority order.
fn url_priority_detect(repository_url: &str) -> (r: Result<ProviderIdentity, DetectError>)
    ensures
        match spec_detect_identity(repository_url@, Option::None) {
            Option::Some(t) => r matches Ok(id) && id.platform == t.0 && id.primary_scope@ == t.1
                && id.repo_slug@ == t.2 && id.api_base@ == t.3,
            Option::None => r matches Err(e) && e matches DetectError::Unrecognized { url }
                && url@ == repository_url@,
        },
        r matches Ok(id) ==> id.primary_scope@.len() > 0 && id.repo_slug@.len() > 0,
{
    if let Some(id) = github_identity(repository_url) {
        return Ok(id);
    }
    if is_bitbucket_repository(repository_url) {
        if let Some(id) = cloud_identity(repository_url) {
            return Ok(id);
        }
    }
    if let Some((base, project, repo)) = extract_bitbucket_data_center_info_from_url(
        repository_url,
    ) {
        proof {
            lemma_dc_capture_nonempty(repository_url@);
        }
        return Ok(
            ProviderIdentity {
                platform: Provider::BitbucketDataCenter,
                primary_scope: project,
                repo_slug: repo,
                api_base: base,
            },
        );
    }
    Err(create_provider_error(repository_url))
}


/// A Data Center capture always has a non-empty project and repository:
/// every shape demands at least one character in each group.
proof fn lemma_dc_capture_nonempty(u: Seq<char>)
    requires
        spec_extract_dc(u) is Some,
    ensures
        (spec_extract_dc(u)->0).1.len() > 0,
        (spec_extract_dc(u)->0).2.len() > 0,
{
    crate::bitbucket_data_center_api::lemma_dc_groups_nonempty(u);
}

} // verus!
