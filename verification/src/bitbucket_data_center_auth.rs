//! Resolution of the Bitbucket Data Center coordinates out of the
//! project configuration.  The access token lives in the environment and
//! stays outside; this module only decides what the configuration
//! denotes, including the fallback that derives an API base from a
//! generically shaped repository URL.

use vstd::prelude::*;
use crate::config::GitWorktreeConfig;
use crate::github::{GitHubClient, spec_parse_github_url};
use crate::bitbucket_data_center_api::{
    spec_extract_dc, extract_bitbucket_data_center_info_from_url,
};
use crate::text::{
    occurs_at, find_char_from, first_match, lemma_first_match, lemma_first_match_step,
    str_occurs_at, str_find_char,
};
use vstd::string::{StrSliceExecFns, StringExecFns};

verus! {

/// The Data Center authentication context.  The token itself is read
/// from the environment by the caller, so nothing is stored here.
pub struct BitbucketDataCenterAuth;

impl BitbucketDataCenterAuth {
    /// An authentication context for the given coordinates.  The
    /// coordinates select the repository in the REST calls themselves,
    /// so the context carries no state of its own, and unlike the other
    /// providers' contexts its construction cannot actually fail.
    pub fn new(project_key: String, repo_slug: String, base_url: String) -> (r: Result<
        BitbucketDataCenterAuth,
        DataCenterAuthConfigError,
    >)
        ensures
            r is Ok,
    {
        let _ = project_key;
        let _ = repo_slug;
        let _ = base_url;
        Ok(BitbucketDataCenterAuth)
    }
}

/// Why the Data Center coordinates could not be resolved.
#[derive(Debug, Clone, Copy, PartialEq, Eq, Structural)]
pub enum DataCenterAuthConfigError {
    /// No project configuration was found.
    NoConfig,
    /// The configuration does not select Bitbucket Data Center.
    WrongSourceControl,
    /// The URL parses generically but no API base could be derived.
    NoBaseUrl,
    /// The repository URL has no recognized shape at all.
    UrlParse,
}

/// The `https://{host}` base hidden in a generically shaped repository
/// URL: behind `https://`, behind `git@…:`, or behind `ssh://git@…`, in
/// that order.
pub open spec fn spec_derive_api_base(s: Seq<char>) -> Option<Seq<char>> {
    if spec_base_https(s) is Some {
        spec_base_https(s)
    } else if spec_base_ssh(s) is Some {
        spec_base_ssh(s)
    } else {
        spec_base_ssh_proto(s)
    }
}

/// The `https://{domain}` shape at `p`: the literal scheme followed by at
/// least one character other than `/`.
pub open spec fn base_https_match_at(s: Seq<char>, p: int) -> bool {
    &&& occurs_at(s, "https://"@, p)
    &&& p + "https://"@.len() < s.len()
    &&& s[p + "https://"@.len()] != '/'
}

pub open spec fn spec_base_https(s: Seq<char>) -> Option<Seq<char>> {
    let p = first_match(s, 0, |pp: int| base_https_match_at(s, pp));
    if p == s.len() {
        Option::None
    } else {
        let d = p + "https://"@.len();
        Option::Some("https://"@ + s.subrange(d, find_char_from(s, '/', d)))
    }
}

/// The `git@{domain}:` shape at `p`.
pub open spec fn base_ssh_match_at(s: Seq<char>, p: int) -> bool {
    &&& occurs_at(s, "git@"@, p)
    &&& {
        let c = find_char_from(s, ':', p + "git@"@.len());
        &&& c > p + "git@"@.len()
        &&& c < s.len()
    }
}

pub open spec fn spec_base_ssh(s: Seq<char>) -> Option<Seq<char>> {
    let p = first_match(s, 0, |pp: int| base_ssh_match_at(s, pp));
    if p == s.len() {
        Option::None
    } else {
        let d = p + "git@"@.len();
        Option::Some("https://"@ + s.subrange(d, find_char_from(s, ':', d)))
    }
}

/// The `ssh://git@{domain}` shape at `p`.
pub open spec fn base_ssh_proto_match_at(s: Seq<char>, p: int) -> bool {
    &&& occurs_at(s, "ssh://git@"@, p)
    &&& p + "ssh://git@"@.len() < s.len()
    &&& s[p + "ssh://git@"@.len()] != '/'
}

pub open spec fn spec_base_ssh_proto(s: Seq<char>) -> Option<Seq<char>> {
    let p = first_match(s, 0, |pp: int| base_ssh_proto_match_at(s, pp));
    if p == s.len() {
        Option::None
    } else {
        let d = p + "ssh://git@"@.len();
        Option::Some("https://"@ + s.subrange(d, find_char_from(s, '/', d)))
    }
}

fn base_https_check(url: &str, p: usize) -> (r: bool)
    ensures
        r == base_https_match_at(url@, p as int),
{
    proof {
        reveal_strlit("https://");
    }
    let n: usize = url.unicode_len();
    if !str_occurs_at(url, "https://", p) {
        return false;
    }
    let d: usize = p + 8;
    if d >= n {
        return false;
    }
    url.get_char(d) != '/'
}

fn base_ssh_check(url: &str, p: usize) -> (r: bool)
    ensures
        r == base_ssh_match_at(url@, p as int),
{
    proof {
        reveal_strlit("git@");
    }
    let n: usize = url.unicode_len();
    if !str_occurs_at(url, "git@", p) {
        return false;
    }
    let c: usize = str_find_char(url, ':', p + 4);
    c > p + 4 && c < n
}

fn base_ssh_proto_check(url: &str, p: usize) -> (r: bool)
    ensures
        r == base_ssh_proto_match_at(url@, p as int),
{
    proof {
        reveal_strlit("ssh://git@");
    }
    let n: usize = url.unicode_len();
    if !str_occurs_at(url, "ssh://git@", p) {
        return false;
    }
    let d: usize = p + 10;
    if d >= n {
        return false;
    }
    url.get_char(d) != '/'
}

fn base_https_search(url: &str) -> (r: Option<String>)
    ensures
        (r is Some) == (spec_base_https(url@) is Some),
        r is Some ==> Option::Some((r->0)@) == spec_base_https(url@),
{
    let ghost pr = |pp: int| base_https_match_at(url@, pp);
    let n: usize = url.unicode_len();
    let mut i: usize = 0;
    while i < n
        invariant
            i <= n,
            n == url@.len(),
            pr == (|pp: int| base_https_match_at(url@, pp)),
            first_match(url@, 0, pr) == first_match(url@, i as int, pr),
        decreases n - i,
    {
        if base_https_check(url, i) {
            proof {
                reveal_strlit("https://");
                assert(pr(i as int));
                assert(base_https_match_at(url@, i as int));
                assert(first_match(url@, i as int, pr) == i);
            }
            let d: usize = i + 8;
            let k: usize = str_find_char(url, '/', d);
            let mut s = String::from_str("https://");
            s.append(url.substring_char(d, k));
            return Some(s);
        }
        proof {
            assert(!pr(i as int));
            lemma_first_match_step(url@, i as int, pr);
        }
        i += 1;
    }
    proof {
        assert(first_match(url@, 0, pr) == n);
    }
    None
}

fn base_ssh_search(url: &str) -> (r: Option<String>)
    ensures
        (r is Some) == (spec_base_ssh(url@) is Some),
        r is Some ==> Option::Some((r->0)@) == spec_base_ssh(url@),
{
    let ghost pr = |pp: int| base_ssh_match_at(url@, pp);
    let n: usize = url.unicode_len();
    let mut i: usize = 0;
    while i < n
        invariant
            i <= n,
            n == url@.len(),
            pr == (|pp: int| base_ssh_match_at(url@, pp)),
            first_match(url@, 0, pr) == first_match(url@, i as int, pr),
        decreases n - i,
    {
        if base_ssh_check(url, i) {
            proof {
                reveal_strlit("git@");
                assert(pr(i as int));
                assert(base_ssh_match_at(url@, i as int));
                assert(first_match(url@, i as int, pr) == i);
            }
            let d: usize = i + 4;
            let c: usize = str_find_char(url, ':', d);
            let mut s = String::from_str("https://");
            s.append(url.substring_char(d, c));
            return Some(s);
        }
        proof {
            assert(!pr(i as int));
            lemma_first_match_step(url@, i as int, pr);
        }
        i += 1;
    }
    proof {
        assert(first_match(url@, 0, pr) == n);
    }
    None
}

fn base_ssh_proto_search(url: &str) -> (r: Option<String>)
    ensures
        (r is Some) == (spec_base_ssh_proto(url@) is Some),
        r is Some ==> Option::Some((r->0)@) == spec_base_ssh_proto(url@),
{
    let ghost pr = |pp: int| base_ssh_proto_match_at(url@, pp);
    let n: usize = url.unicode_len();
    let mut i: usize = 0;
    while i < n
        invariant
            i <= n,
            n == url@.len(),
            pr == (|pp: int| base_ssh_proto_match_at(url@, pp)),
            first_match(url@, 0, pr) == first_match(url@, i as int, pr),
        decreases n - i,
    {
        if base_ssh_proto_check(url, i) {
            proof {
                reveal_strlit("ssh://git@");
                assert(pr(i as int));
                assert(base_ssh_proto_match_at(url@, i as int));
                assert(first_match(url@, i as int, pr) == i);
            }
            let d: usize = i + 10;
            let k: usize = str_find_char(url, '/', d);
            let mut s = String::from_str("https://");
            s.append(url.substring_char(d, k));
            return Some(s);
        }
        proof {
            assert(!pr(i as int));
            lemma_first_match_step(url@, i as int, pr);
        }
        i += 1;
    }
    proof {
        assert(first_match(url@, 0, pr) == n);
    }
    None
}

/// The API base URL hidden in a repository URL of any common shape,
/// stripping scheme and user to obtain a bare domain.
pub fn derive_api_base_url_from_repo_url(repo_url: &str) -> (r: Option<String>)
    ensures
        (r is Some) == (spec_derive_api_base(repo_url@) is Some),
        r is Some ==> Option::Some((r->0)@) == spec_derive_api_base(repo_url@),
{
    if let Some(b) = base_https_search(repo_url) {
        return Some(b);
    }
    if let Some(b) = base_ssh_search(repo_url) {
        return Some(b);
    }
    base_ssh_proto_search(repo_url)
}

/// The API base, project key and repository slug of the configured Data
/// Center repository.  A Data-Center-shaped URL wins; a generically
/// shaped URL falls back to owner/repository capture plus derived API
/// base, since the platform was explicitly configured.
pub fn get_auth_from_config(config: Option<&GitWorktreeConfig>) -> (r: Result<
    (String, String, String),
    DataCenterAuthConfigError,
>)
    ensures
        config is None ==> r == Result::<(String, String, String), DataCenterAuthConfigError>::Err(
            DataCenterAuthConfigError::NoConfig,
        ),
        config matches Some(c) ==> {
            &&& c.source_control@ != "bitbucket-data-center"@ ==> r == Result::<
                (String, String, String),
                DataCenterAuthConfigError,
            >::Err(DataCenterAuthConfigError::WrongSourceControl)
            &&& c.source_control@ == "bitbucket-data-center"@ && spec_extract_dc(
                c.repository_url@,
            ) is Some ==> r is Ok && {
                let ex = spec_extract_dc(c.repository_url@)->0;
                &&& (r->Ok_0).0@ == ex.0
                &&& (r->Ok_0).1@ == ex.1
                &&& (r->Ok_0).2@ == ex.2
            }
            &&& c.source_control@ == "bitbucket-data-center"@ && spec_extract_dc(
                c.repository_url@,
            ) is None && spec_parse_github_url(c.repository_url@) is Some
                && spec_derive_api_base(c.repository_url@) is Some ==> r is Ok && {
                let gh = spec_parse_github_url(c.repository_url@)->0;
                &&& (r->Ok_0).0@ == spec_derive_api_base(c.repository_url@)->0
                &&& (r->Ok_0).1@ == gh.0
                &&& (r->Ok_0).2@ == gh.1
            }
            &&& c.source_control@ == "bitbucket-data-center"@ && spec_extract_dc(
                c.repository_url@,
            ) is None && spec_parse_github_url(c.repository_url@) is Some
                && spec_derive_api_base(c.repository_url@) is None ==> r == Result::<
                (String, String, String),
                DataCenterAuthConfigError,
            >::Err(DataCenterAuthConfigError::NoBaseUrl)
            &&& c.source_control@ == "bitbucket-data-center"@ && spec_extract_dc(
                c.repository_url@,
            ) is None && spec_parse_github_url(c.repository_url@) is None ==> r == Result::<
                (String, String, String),
                DataCenterAuthConfigError,
            >::Err(DataCenterAuthConfigError::UrlParse)
        },
{
    match config {
        None => Err(DataCenterAuthConfigError::NoConfig),
        Some(c) => {
            if !crate::text::str_eq(c.source_control.as_str(), "bitbucket-data-center") {
                return Err(DataCenterAuthConfigError::WrongSourceControl);
            }
            if let Some(t) = extract_bitbucket_data_center_info_from_url(
                c.repository_url.as_str(),
            ) {
                return Ok(t);
            }
            match GitHubClient::parse_github_url(c.repository_url.as_str()) {
                Some((owner, repo)) => {
                    match derive_api_base_url_from_repo_url(c.repository_url.as_str()) {
                        Some(base) => Ok((base, owner, repo)),
                        None => Err(DataCenterAuthConfigError::NoBaseUrl),
                    }
                },
                None => Err(DataCenterAuthConfigError::UrlParse),
            }
        },
    }
}

} // verus!
