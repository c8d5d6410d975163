//! The Bitbucket Cloud side of the pull-request integration: the records
//! the REST listing reports, and the URL shape that identifies a cloud
//! repository and yields its workspace and repository slug.

use vstd::prelude::*;
use crate::text::{
    occurs_at, contains_seq, find_char_from, seg_end, first_match,
    lemma_first_match, lemma_first_match_step,
    str_contains, str_occurs_at, str_find_char, str_seg_end,
};
use vstd::string::StrSliceExecFns;

verus! {

#[derive(Debug, Clone)]
pub struct BitbucketUser {
    pub display_name: String,
    pub uuid: String,
    pub nickname: Option<String>,
}

#[derive(Debug, Clone)]
pub struct BitbucketRepository {
    pub name: String,
    pub full_name: String,
    pub uuid: String,
}

#[derive(Debug, Clone)]
pub struct BitbucketBranch {
    pub name: String,
}

#[derive(Debug, Clone)]
pub struct BitbucketSource {
    pub branch: BitbucketBranch,
    pub repository: BitbucketRepository,
}

#[derive(Debug, Clone)]
pub struct BitbucketDestination {
    pub branch: BitbucketBranch,
    pub repository: BitbucketRepository,
}

/// One pull request as the cloud REST listing reports it.  Of the link
/// map the listing carries, only the web link is read anywhere, so only
/// that link is kept.
#[derive(Debug, Clone)]
pub struct BitbucketPullRequest {
    pub id: u64,
    pub title: String,
    pub state: String,
    pub author: BitbucketUser,
    pub source: BitbucketSource,
    pub destination: BitbucketDestination,
    pub created_on: String,
    pub updated_on: String,
    /// The `html` link of the record, when the listing carried one.
    pub html_href: Option<String>,
}

/// Whether a remote URL points at Bitbucket Cloud: it names the host.
pub fn is_bitbucket_repository(remote_url: &str) -> (r: bool)
    ensures
        r == contains_seq(remote_url@, "bitbucket.org"@),
{
    str_contains(remote_url, "bitbucket.org")
}

/// The outcomes of a provider REST call that callers must distinguish.
#[derive(Debug, Clone, Copy, PartialEq, Eq, Structural)]
pub enum ApiOutcome {
    Success,
    /// The credentials were missing or rejected.
    AuthFailure,
    /// The addressed repository does not exist.
    NotFound,
    /// Any other non-success response.
    Failure,
}

/// Sort a provider's HTTP status code into success, authentication
/// failure, resource-not-found, or generic failure.
pub fn classify_http_status(status: u16) -> (r: ApiOutcome)
    ensures
        200 <= status < 300 ==> r == ApiOutcome::Success,
        status == 401 ==> r == ApiOutcome::AuthFailure,
        status == 404 ==> r == ApiOutcome::NotFound,
        !(200 <= status < 300) && status != 401 && status != 404 ==> r == ApiOutcome::Failure,
{
    if 200 <= status && status < 300 {
        ApiOutcome::Success
    } else if status == 401 {
        ApiOutcome::AuthFailure
    } else if status == 404 {
        ApiOutcome::NotFound
    } else {
        ApiOutcome::Failure
    }
}

/// The cloud URL shape at position `i`: the literal host, `:` or `/`, a
/// non-empty workspace running to the next `/`, and a repository segment
/// that opens with a character other than `/` and `.`.
pub open spec fn bb_match_at(s: Seq<char>, i: int) -> bool {
    let j = i + "bitbucket.org"@.len();
    &&& occurs_at(s, "bitbucket.org"@, i)
    &&& j + 1 < s.len()
    &&& (s[j] == ':' || s[j] == '/')
    &&& {
        let k = find_char_from(s, '/', j + 1);
        &&& k > j + 1
        &&& k + 1 < s.len()
        &&& s[k + 1] != '/'
        &&& s[k + 1] != '.'
    }
}

/// The workspace and repository of the leftmost cloud URL match: the
/// workspace runs to the `/` after the separator, the repository to the
/// first `/` or `.` after that (which strips a trailing `.git`).
pub open spec fn spec_extract_bitbucket(s: Seq<char>) -> Option<(Seq<char>, Seq<char>)> {
    let i = first_match(s, 0, |ii: int| bb_match_at(s, ii));
    if i == s.len() {
        Option::None
    } else {
        let j = i + "bitbucket.org"@.len();
        let k = find_char_from(s, '/', j + 1);
        let e = seg_end(s, k + 1);
        Option::Some((s.subrange(j + 1, k), s.subrange(k + 1, e)))
    }
}

fn bb_check_at(url: &str, i: usize) -> (r: bool)
    ensures
        r == bb_match_at(url@, i as int),
{
    proof {
        reveal_strlit("bitbucket.org");
    }
    let n: usize = url.unicode_len();
    if !str_occurs_at(url, "bitbucket.org", i) {
        return false;
    }
    let j: usize = i + 13;
    if j >= n - 1 {
        return false;
    }
    let sep = url.get_char(j);
    if !(sep == ':' || sep == '/') {
        return false;
    }
    let k: usize = str_find_char(url, '/', j + 1);
    if k <= j + 1 {
        return false;
    }
    if k >= n - 1 {
        return false;
    }
    let c = url.get_char(k + 1);
    if c == '/' || c == '.' {
        return false;
    }
    true
}

/// The workspace and repository slug of a Bitbucket Cloud repository URL,
/// for the HTTPS, HTTPS-with-`.git` and SSH shapes alike.
pub fn extract_bitbucket_info_from_url(url: &str) -> (r: Option<(String, String)>)
    ensures
        (r is Some) == (spec_extract_bitbucket(url@) is Some),
        r is Some ==> Option::Some(((r->0).0@, (r->0).1@)) == spec_extract_bitbucket(url@),
{
    proof {
        reveal_strlit("bitbucket.org");
    }
    let ghost p = |ii: int| bb_match_at(url@, ii);
    let n: usize = url.unicode_len();
    let mut i: usize = 0;
    while i < n
        invariant
            i <= n,
            n == url@.len(),
            p == (|ii: int| bb_match_at(url@, ii)),
            first_match(url@, 0, p) == first_match(url@, i as int, p),
        decreases n - i,
    {
        if bb_check_at(url, i) {
            proof {
                reveal_strlit("bitbucket.org");
                assert(p(i as int));
                assert(bb_match_at(url@, i as int));
                assert(first_match(url@, i as int, p) == i);
            }
            let j: usize = i + 13;
            let k: usize = str_find_char(url, '/', j + 1);
            let e: usize = str_seg_end(url, k + 1);
            let ws = url.substring_char(j + 1, k).to_owned();
            let repo = url.substring_char(k + 1, e).to_owned();
            return Some((ws, repo));
        }
        proof {
            assert(!p(i as int));
            lemma_first_match_step(url@, i as int, p);
        }
        i += 1;
    }
    proof {
        assert(first_match(url@, 0, p) == n);
    }
    None
}

} // verus!
