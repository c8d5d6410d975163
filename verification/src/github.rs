//! The GitHub side of the pull-request integration: the normalized
//! pull-request record, the client state, and the URL parser that
//! recognizes GitHub repositories.

use vstd::prelude::*;
use crate::text::{starts_with, split_on, strip_suffix_all, str_starts_with, str_strip_suffix_all, split_str, is_blank, str_is_blank};
use vstd::string::StrSliceExecFns;
use vstd::string::StringExecFns;

verus! {

/// One pull request as the GitHub listing reports it.
#[derive(Debug, Clone)]
pub struct PullRequest {
    pub number: u32,
    pub title: String,
    pub state: String,
    pub html_url: String,
    pub draft: bool,
}

/// The GitHub client: it carries the authentication token of the locally
/// available session, when one exists.  Obtaining the token is the
/// caller's business.
pub struct GitHubClient {
    pub token: Option<String>,
}

impl GitHubClient {
    /// A client around an already-looked-up session token.
    pub fn new(token: Option<String>) -> (r: GitHubClient)
        ensures
            r.token == token,
    {
        GitHubClient { token }
    }

    /// Whether a session token is present: the presence of a locally
    /// available authenticated session is itself the signal that
    /// pull-request enrichment is possible.
    pub fn has_auth(&self) -> (r: bool)
        ensures
            r == (self.token is Some),
    {
        self.token.is_some()
    }

    /// The owner and repository of a GitHub URL, when the URL has one of
    /// the two recognized shapes.
    pub fn parse_github_url(url: &str) -> (r: Option<(String, String)>)
        ensures
            (r is Some) == (spec_parse_github_url(url@) is Some),
            r is Some ==> Option::Some(((r->0).0@, (r->0).1@)) == spec_parse_github_url(url@),
    {
        proof {
            reveal_strlit("https://github.com/");
            reveal_strlit("git@github.com:");
        }
        let n: usize = url.unicode_len();
        if str_starts_with(url, "https://github.com/") {
            github_owner_repo(url.substring_char(19, n))
        } else if str_starts_with(url, "git@github.com:") {
            github_owner_repo(url.substring_char(15, n))
        } else {
            None
        }
    }
}

/// The owner/repository capture of a GitHub URL: after one of the two
/// recognized prefixes, the trailing `.git` copies are stripped and the
/// first two `/`-separated segments are the owner and the repository.
pub open spec fn spec_parse_github_url(u: Seq<char>) -> Option<(Seq<char>, Seq<char>)> {
    if starts_with(u, "https://github.com/"@) {
        spec_owner_repo(u.subrange("https://github.com/"@.len() as int, u.len() as int))
    } else if starts_with(u, "git@github.com:"@) {
        spec_owner_repo(u.subrange("git@github.com:"@.len() as int, u.len() as int))
    } else {
        Option::None
    }
}

pub open spec fn spec_owner_repo(rest: Seq<char>) -> Option<(Seq<char>, Seq<char>)> {
    let parts = split_on(strip_suffix_all(rest, ".git"@), '/');
    if parts.len() >= 2 {
        Option::Some((parts[0], parts[1]))
    } else {
        Option::None
    }
}

/// What the per-field readers below return is a function of the listing
/// text alone, far too wide to write out: the names below stand for it.
/// How many elements the text decodes to as a JSON array; nothing when
/// it is not one.
pub uninterp spec fn gh_count(s: Seq<char>) -> Option<int>;

/// The unsigned integer under `key` of the `i`-th element, when the
/// element is an object carrying such a number there.
pub uninterp spec fn gh_u64_field(s: Seq<char>, i: int, key: Seq<char>) -> Option<u64>;

/// The string under `key` of the `i`-th element, when present.
pub uninterp spec fn gh_str_field(s: Seq<char>, i: int, key: Seq<char>) -> Option<Seq<char>>;

/// The boolean under `key` of the `i`-th element, when present.
pub uninterp spec fn gh_bool_field(s: Seq<char>, i: int, key: Seq<char>) -> Option<bool>;

/// Relies on `serde_json::from_str`: how many elements the text decodes
/// to as a JSON array; nothing when it is not one.
#[verifier::external_body]
fn gh_array_len(s: &str) -> (r: Option<usize>)
    ensures
        (r is Some) == (gh_count(s@) is Some),
        r matches Some(n) ==> n == gh_count(s@)->0,
{
    serde_json::from_str::<Vec<serde_json::Value>>(s).ok().map(|v| v.len())
}

/// Relies on `serde_json::from_str`, `Value::get` and `Value::as_u64`:
/// reads one unsigned-integer field of one array element out of the
/// text.  The listings are small; each read decodes the text anew so
/// that what it returns stays a function of the text alone.
#[verifier::external_body]
fn gh_read_u64(s: &str, i: usize, key: &str) -> (r: Option<u64>)
    ensures
        r == gh_u64_field(s@, i as int, key@),
{
    serde_json::from_str::<Vec<serde_json::Value>>(s)
        .ok()
        .and_then(|v| v.into_iter().nth(i))
        .and_then(|e| e.get(key).and_then(|f| f.as_u64()))
}

/// Relies on `serde_json::from_str`, `Value::get` and `Value::as_str`:
/// reads one string field of one array element out of the text.
#[verifier::external_body]
fn gh_read_str(s: &str, i: usize, key: &str) -> (r: Option<String>)
    ensures
        (r is Some) == (gh_str_field(s@, i as int, key@) is Some),
        r matches Some(t) ==> Option::Some(t@) == gh_str_field(s@, i as int, key@),
{
    serde_json::from_str::<Vec<serde_json::Value>>(s)
        .ok()
        .and_then(|v| v.into_iter().nth(i))
        .and_then(|e| e.get(key).and_then(|f| f.as_str().map(|t| t.to_string())))
}

/// Relies on `serde_json::from_str`, `Value::get` and `Value::as_bool`:
/// reads one boolean field of one array element out of the text.
#[verifier::external_body]
fn gh_read_bool(s: &str, i: usize, key: &str) -> (r: Option<bool>)
    ensures
        r == gh_bool_field(s@, i as int, key@),
{
    serde_json::from_str::<Vec<serde_json::Value>>(s)
        .ok()
        .and_then(|v| v.into_iter().nth(i))
        .and_then(|e| e.get(key).and_then(|f| f.as_bool()))
}

/// The `u32` a record field denotes: the number truncated, or zero when
/// the field is absent or not an unsigned integer.  Absent fields fall
/// back to defaults, a forward-compatible policy.
pub open spec fn spec_gh_u32(s: Seq<char>, i: int, key: Seq<char>) -> u32 {
    match gh_u64_field(s, i, key) {
        Option::Some(n) => n as u32,
        Option::None => 0u32,
    }
}

/// The string a record field denotes, empty when absent.
pub open spec fn spec_gh_string(s: Seq<char>, i: int, key: Seq<char>) -> Seq<char> {
    match gh_str_field(s, i, key) {
        Option::Some(t) => t,
        Option::None => Seq::<char>::empty(),
    }
}

/// The flag a record field denotes, false when absent.
pub open spec fn spec_gh_flag(s: Seq<char>, i: int, key: Seq<char>) -> bool {
    match gh_bool_field(s, i, key) {
        Option::Some(b) => b,
        Option::None => false,
    }
}

fn read_u32_field(s: &str, i: usize, key: &str) -> (r: u32)
    ensures
        r == spec_gh_u32(s@, i as int, key@),
{
    match gh_read_u64(s, i, key) {
        Some(n) => #[verifier::truncate] (n as u32),
        None => 0,
    }
}

fn read_string_field(s: &str, i: usize, key: &str) -> (r: String)
    ensures
        r@ == spec_gh_string(s@, i as int, key@),
{
    match gh_read_str(s, i, key) {
        Some(t) => t,
        None => String::new(),
    }
}

fn read_flag_field(s: &str, i: usize, key: &str) -> (r: bool)
    ensures
        r == spec_gh_flag(s@, i as int, key@),
{
    match gh_read_bool(s, i, key) {
        Some(b) => b,
        None => false,
    }
}

/// The `i`-th pull-request record the listing text denotes: the listing
/// reports `number`, `title`, `state`, `url` and `isDraft` fields.
pub open spec fn spec_gh_record(s: Seq<char>, i: int, p: PullRequest) -> bool {
    &&& p.number == spec_gh_u32(s, i, "number"@)
    &&& p.title@ == spec_gh_string(s, i, "title"@)
    &&& p.state@ == spec_gh_string(s, i, "state"@)
    &&& p.html_url@ == spec_gh_string(s, i, "url"@)
    &&& p.draft == spec_gh_flag(s, i, "isDraft"@)
}

fn read_pr_record(s: &str, i: usize) -> (p: PullRequest)
    ensures
        spec_gh_record(s@, i as int, p),
{
    PullRequest {
        number: read_u32_field(s, i, "number"),
        title: read_string_field(s, i, "title"),
        state: read_string_field(s, i, "state"),
        html_url: read_string_field(s, i, "url"),
        draft: read_flag_field(s, i, "isDraft"),
    }
}

/// The records in the captured output of the per-branch pull-request
/// listing: an empty list for blank output; otherwise one record per
/// element of the JSON array the output decodes to, in listing order,
/// and nothing at all when the output is not a JSON array.
pub fn parse_gh_pr_list(stdout: &str) -> (r: Option<Vec<PullRequest>>)
    ensures
        is_blank(stdout@) ==> (r matches Some(v) && v@.len() == 0),
        !is_blank(stdout@) ==> (r is Some) == (gh_count(stdout@) is Some),
        !is_blank(stdout@) ==> (r matches Some(v) ==> {
            &&& v@.len() == gh_count(stdout@)->0
            &&& forall|i: int| 0 <= i < v@.len() ==> spec_gh_record(stdout@, i, #[trigger] v@[i])
        }),
{
    if str_is_blank(stdout) {
        return Some(Vec::new());
    }
    match gh_array_len(stdout) {
        Some(n) => {
            let mut out: Vec<PullRequest> = Vec::new();
            let mut i: usize = 0;
            while i < n
                invariant
                    i <= n,
                    out@.len() == i,
                    forall|j: int| 0 <= j < i ==> spec_gh_record(stdout@, j, #[trigger] out@[j]),
                decreases n - i,
            {
                out.push(read_pr_record(stdout, i));
                i += 1;
            }
            Some(out)
        },
        None => None,
    }
}

/// The records of the full open-pull-request listing, each paired with
/// the `headRefName` branch the pull request was opened from.
pub fn parse_gh_all_pr_list(stdout: &str) -> (r: Option<Vec<(PullRequest, String)>>)
    ensures
        is_blank(stdout@) ==> (r matches Some(v) && v@.len() == 0),
        !is_blank(stdout@) ==> (r is Some) == (gh_count(stdout@) is Some),
        !is_blank(stdout@) ==> (r matches Some(v) ==> {
            &&& v@.len() == gh_count(stdout@)->0
            &&& forall|i: int|
                0 <= i < v@.len() ==> {
                    &&& spec_gh_record(stdout@, i, (#[trigger] v@[i]).0)
                    &&& v@[i].1@ == spec_gh_string(stdout@, i, "headRefName"@)
                }
        }),
{
    if str_is_blank(stdout) {
        return Some(Vec::new());
    }
    match gh_array_len(stdout) {
        Some(n) => {
            let mut out: Vec<(PullRequest, String)> = Vec::new();
            let mut i: usize = 0;
            while i < n
                invariant
                    i <= n,
                    out@.len() == i,
                    forall|j: int|
                        0 <= j < i ==> {
                            &&& spec_gh_record(stdout@, j, (#[trigger] out@[j]).0)
                            &&& out@[j].1@ == spec_gh_string(stdout@, j, "headRefName"@)
                        },
                decreases n - i,
            {
                let record = read_pr_record(stdout, i);
                let head_ref = read_string_field(stdout, i, "headRefName");
                out.push((record, head_ref));
                i += 1;
            }
            Some(out)
        },
        None => None,
    }
}

fn github_owner_repo(rest: &str) -> (r: Option<(String, String)>)
    ensures
        (r is Some) == (spec_owner_repo(rest@) is Some),
        r is Some ==> Option::Some(((r->0).0@, (r->0).1@)) == spec_owner_repo(rest@),
{
    let trimmed = str_strip_suffix_all(rest, ".git");
    let parts = split_str(trimmed.as_str(), '/');
    if parts.len() >= 2 {
        let owner = parts[0].clone();
        let repo = parts[1].clone();
        proof {
            assert(parts.deep_view()[0] == parts@[0]@);
            assert(parts.deep_view()[1] == parts@[1]@);
        }
        Some((owner, repo))
    } else {
        None
    }
}

} // verus!
