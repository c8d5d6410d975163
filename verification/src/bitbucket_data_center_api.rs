//! The Bitbucket Data Center side of the pull-request integration: the
//! records its REST listing reports, and the four URL shapes that
//! identify a self-hosted instance and yield its API base, project key
//! and repository slug.

use vstd::prelude::*;
use crate::text::{
    starts_with, occurs_at, find_char_from, seg_end, first_match,
    lemma_first_match, lemma_first_match_step,
    str_starts_with, str_occurs_at, str_find_char, str_seg_end,
};
use vstd::string::{StrSliceExecFns, StringExecFns};

verus! {

#[derive(Debug, Clone)]
pub struct BitbucketDataCenterUser {
    pub name: String,
    pub display_name: String,
    pub email_address: Option<String>,
    pub id: u64,
    pub slug: String,
}

#[derive(Debug, Clone)]
pub struct BitbucketDataCenterProject {
    pub key: String,
    pub name: String,
    pub id: u64,
}

#[derive(Debug, Clone)]
pub struct BitbucketDataCenterRepository {
    pub slug: String,
    pub name: String,
    pub id: u64,
    pub project: BitbucketDataCenterProject,
}

#[derive(Debug, Clone)]
pub struct BitbucketDataCenterBranch {
    pub id: String,
    pub display_id: String,
    pub repository: Option<BitbucketDataCenterRepository>,
}

#[derive(Debug, Clone)]
pub struct BitbucketDataCenterPullRequestRef {
    pub id: String,
    pub display_id: String,
    pub latest_commit: String,
    pub repository: BitbucketDataCenterRepository,
}

/// One pull request as the Data Center REST listing reports it.  Of the
/// link map the listing carries, only the first `self` link is read
/// anywhere, so only that link is kept.
#[derive(Debug, Clone)]
pub struct BitbucketDataCenterPullRequest {
    pub id: u64,
    pub version: u32,
    pub title: String,
    pub description: Option<String>,
    pub state: String,
    pub open: bool,
    pub closed: bool,
    pub author: BitbucketDataCenterUser,
    pub from_ref: BitbucketDataCenterPullRequestRef,
    pub to_ref: BitbucketDataCenterPullRequestRef,
    pub created_date: u64,
    pub updated_date: u64,
    /// The first `self` link of the record, when the listing carried one.
    pub self_href: Option<String>,
}

/// A captured host made usable as an API base: kept as is when it already
/// carries a scheme, put behind `https://` otherwise.
pub open spec fn api_base_of(base: Seq<char>) -> Seq<char> {
    if starts_with(base, "http"@) {
        base
    } else {
        "https://"@ + base
    }
}

fn normalize_api_base(base: &str) -> (r: String)
    ensures
        r@ == api_base_of(base@),
{
    proof {
        reveal_strlit("http");
    }
    if str_starts_with(base, "http") {
        base.to_owned()
    } else {
        let mut s = String::from_str("https://");
        s.append(base);
        s
    }
}

fn https_base(host: &str) -> (r: String)
    ensures
        r@ == "https://"@ + host@,
{
    let mut s = String::from_str("https://");
    s.append(host);
    s
}

/// The `{host}/scm/{project}/{repo}` shape at position `p`: a host
/// segment running to the next `/`, the literal `/scm/`, a project up to
/// the next `/`, and a repository segment.
pub open spec fn dc_scm_match_at(s: Seq<char>, p: int) -> bool {
    &&& 0 <= p < s.len()
    &&& s[p] != '/'
    &&& {
        let k1 = find_char_from(s, '/', p);
        &&& occurs_at(s, "/scm/"@, k1)
        &&& {
            let k2 = find_char_from(s, '/', k1 + "/scm/"@.len());
            &&& k2 > k1 + "/scm/"@.len()
            &&& k2 + 1 < s.len()
            &&& s[k2 + 1] != '/'
            &&& s[k2 + 1] != '.'
        }
    }
}

pub open spec fn spec_dc_scm(s: Seq<char>) -> Option<(Seq<char>, Seq<char>, Seq<char>)> {
    let p = first_match(s, 0, |pp: int| dc_scm_match_at(s, pp));
    if p == s.len() {
        Option::None
    } else {
        let k1 = find_char_from(s, '/', p);
        let k2 = find_char_from(s, '/', k1 + "/scm/"@.len());
        Option::Some(
            (
                api_base_of(s.subrange(p, k1)),
                s.subrange(k1 + "/scm/"@.len(), k2),
                s.subrange(k2 + 1, seg_end(s, k2 + 1)),
            ),
        )
    }
}

fn dc_scm_check(url: &str, p: usize) -> (r: bool)
    ensures
        r == dc_scm_match_at(url@, p as int),
{
    proof {
        reveal_strlit("/scm/");
    }
    let n: usize = url.unicode_len();
    if p >= n {
        return false;
    }
    if url.get_char(p) == '/' {
        return false;
    }
    let k1: usize = str_find_char(url, '/', p);
    if !str_occurs_at(url, "/scm/", k1) {
        return false;
    }
    let k2: usize = str_find_char(url, '/', k1 + 5);
    if k2 <= k1 + 5 {
        return false;
    }
    if k2 >= n - 1 {
        return false;
    }
    let c = url.get_char(k2 + 1);
    if c == '/' || c == '.' {
        return false;
    }
    true
}

fn dc_scm_search(url: &str) -> (r: Option<(String, String, String)>)
    ensures
        (r is Some) == (spec_dc_scm(url@) is Some),
        r is Some ==> Option::Some(((r->0).0@, (r->0).1@, (r->0).2@)) == spec_dc_scm(url@),
{
    let ghost pr = |pp: int| dc_scm_match_at(url@, pp);
    let n: usize = url.unicode_len();
    let mut i: usize = 0;
    while i < n
        invariant
            i <= n,
            n == url@.len(),
            pr == (|pp: int| dc_scm_match_at(url@, pp)),
            first_match(url@, 0, pr) == first_match(url@, i as int, pr),
        decreases n - i,
    {
        if dc_scm_check(url, i) {
            proof {
                reveal_strlit("/scm/");
                assert(pr(i as int));
                assert(dc_scm_match_at(url@, i as int));
                assert(first_match(url@, i as int, pr) == i);
            }
            let k1: usize = str_find_char(url, '/', i);
            let k2: usize = str_find_char(url, '/', k1 + 5);
            let e: usize = str_seg_end(url, k2 + 1);
            let base = normalize_api_base(url.substring_char(i, k1));
            let project = url.substring_char(k1 + 5, k2).to_owned();
            let repo = url.substring_char(k2 + 1, e).to_owned();
            return Some((base, project, repo));
        }
        proof {
            assert(!pr(i as int));
            lemma_first_match_step(url@, i as int, pr);
        }
        i += 1;
    }
    proof {
        assert(first_match(url@, 0, pr) == n);
    }
    None
}

/// The `{host}/projects/{project}/repos/{repo}` shape at position `p`.
pub open spec fn dc_projects_match_at(s: Seq<char>, p: int) -> bool {
    &&& 0 <= p < s.len()
    &&& s[p] != '/'
    &&& {
        let k1 = find_char_from(s, '/', p);
        &&& occurs_at(s, "/projects/"@, k1)
        &&& {
            let k2 = find_char_from(s, '/', k1 + "/projects/"@.len());
            &&& k2 > k1 + "/projects/"@.len()
            &&& occurs_at(s, "/repos/"@, k2)
            &&& {
                let m = k2 + "/repos/"@.len();
                &&& m < s.len()
                &&& s[m] != '/'
                &&& s[m] != '.'
            }
        }
    }
}

pub open spec fn spec_dc_projects(s: Seq<char>) -> Option<(Seq<char>, Seq<char>, Seq<char>)> {
    let p = first_match(s, 0, |pp: int| dc_projects_match_at(s, pp));
    if p == s.len() {
        Option::None
    } else {
        let k1 = find_char_from(s, '/', p);
        let k2 = find_char_from(s, '/', k1 + "/projects/"@.len());
        let m = k2 + "/repos/"@.len();
        Option::Some(
            (
                api_base_of(s.subrange(p, k1)),
                s.subrange(k1 + "/projects/"@.len(), k2),
                s.subrange(m, seg_end(s, m)),
            ),
        )
    }
}

fn dc_projects_check(url: &str, p: usize) -> (r: bool)
    ensures
        r == dc_projects_match_at(url@, p as int),
{
    proof {
        reveal_strlit("/projects/");
        reveal_strlit("/repos/");
    }
    let n: usize = url.unicode_len();
    if p >= n {
        return false;
    }
    if url.get_char(p) == '/' {
        return false;
    }
    let k1: usize = str_find_char(url, '/', p);
    if !str_occurs_at(url, "/projects/", k1) {
        return false;
    }
    let k2: usize = str_find_char(url, '/', k1 + 10);
    if k2 <= k1 + 10 {
        return false;
    }
    if !str_occurs_at(url, "/repos/", k2) {
        return false;
    }
    let m: usize = k2 + 7;
    if m >= n {
        return false;
    }
    let c = url.get_char(m);
    if c == '/' || c == '.' {
        return false;
    }
    true
}

fn dc_projects_search(url: &str) -> (r: Option<(String, String, String)>)
    ensures
        (r is Some) == (spec_dc_projects(url@) is Some),
        r is Some ==> Option::Some(((r->0).0@, (r->0).1@, (r->0).2@)) == spec_dc_projects(url@),
{
    let ghost pr = |pp: int| dc_projects_match_at(url@, pp);
    let n: usize = url.unicode_len();
    let mut i: usize = 0;
    while i < n
        invariant
            i <= n,
            n == url@.len(),
            pr == (|pp: int| dc_projects_match_at(url@, pp)),
            first_match(url@, 0, pr) == first_match(url@, i as int, pr),
        decreases n - i,
    {
        if dc_projects_check(url, i) {
            proof {
                reveal_strlit("/projects/");
                reveal_strlit("/repos/");
                assert(pr(i as int));
                assert(dc_projects_match_at(url@, i as int));
                assert(first_match(url@, i as int, pr) == i);
            }
            let k1: usize = str_find_char(url, '/', i);
            let k2: usize = str_find_char(url, '/', k1 + 10);
            let m: usize = k2 + 7;
            let e: usize = str_seg_end(url, m);
            let base = normalize_api_base(url.substring_char(i, k1));
            let project = url.substring_char(k1 + 10, k2).to_owned();
            let repo = url.substring_char(m, e).to_owned();
            return Some((base, project, repo));
        }
        proof {
            assert(!pr(i as int));
            lemma_first_match_step(url@, i as int, pr);
        }
        i += 1;
    }
    proof {
        assert(first_match(url@, 0, pr) == n);
    }
    None
}

/// The `git@{host}:{project}/{repo}` shape at position `p`.
pub open spec fn dc_ssh_match_at(s: Seq<char>, p: int) -> bool {
    &&& occurs_at(s, "git@"@, p)
    &&& {
        let c1 = find_char_from(s, ':', p + "git@"@.len());
        &&& c1 > p + "git@"@.len()
        &&& c1 < s.len()
        &&& {
            let k = find_char_from(s, '/', c1 + 1);
            &&& k > c1 + 1
            &&& k + 1 < s.len()
            &&& s[k + 1] != '/'
            &&& s[k + 1] != '.'
        }
    }
}

pub open spec fn spec_dc_ssh(s: Seq<char>) -> Option<(Seq<char>, Seq<char>, Seq<char>)> {
    let p = first_match(s, 0, |pp: int| dc_ssh_match_at(s, pp));
    if p == s.len() {
        Option::None
    } else {
        let c1 = find_char_from(s, ':', p + "git@"@.len());
        let k = find_char_from(s, '/', c1 + 1);
        Option::Some(
            (
                "https://"@ + s.subrange(p + "git@"@.len(), c1),
                s.subrange(c1 + 1, k),
                s.subrange(k + 1, seg_end(s, k + 1)),
            ),
        )
    }
}

fn dc_ssh_check(url: &str, p: usize) -> (r: bool)
    ensures
        r == dc_ssh_match_at(url@, p as int),
{
    proof {
        reveal_strlit("git@");
    }
    let n: usize = url.unicode_len();
    if !str_occurs_at(url, "git@", p) {
        return false;
    }
    let c1: usize = str_find_char(url, ':', p + 4);
    if c1 <= p + 4 {
        return false;
    }
    if c1 >= n {
        return false;
    }
    let k: usize = str_find_char(url, '/', c1 + 1);
    if k <= c1 + 1 {
        return false;
    }
    if k >= n - 1 {
        return false;
    }
    let c = url.get_char(k + 1);
    if c == '/' || c == '.' {
        return false;
    }
    true
}

fn dc_ssh_search(url: &str) -> (r: Option<(String, String, String)>)
    ensures
        (r is Some) == (spec_dc_ssh(url@) is Some),
        r is Some ==> Option::Some(((r->0).0@, (r->0).1@, (r->0).2@)) == spec_dc_ssh(url@),
{
    let ghost pr = |pp: int| dc_ssh_match_at(url@, pp);
    let n: usize = url.unicode_len();
    let mut i: usize = 0;
    while i < n
        invariant
            i <= n,
            n == url@.len(),
            pr == (|pp: int| dc_ssh_match_at(url@, pp)),
            first_match(url@, 0, pr) == first_match(url@, i as int, pr),
        decreases n - i,
    {
        if dc_ssh_check(url, i) {
            proof {
                reveal_strlit("git@");
                assert(pr(i as int));
                assert(dc_ssh_match_at(url@, i as int));
                assert(first_match(url@, i as int, pr) == i);
            }
            let c1: usize = str_find_char(url, ':', i + 4);
            let k: usize = str_find_char(url, '/', c1 + 1);
            let e: usize = str_seg_end(url, k + 1);
            let base = https_base(url.substring_char(i + 4, c1));
            let project = url.substring_char(c1 + 1, k).to_owned();
            let repo = url.substring_char(k + 1, e).to_owned();
            return Some((base, project, repo));
        }
        proof {
            assert(!pr(i as int));
            lemma_first_match_step(url@, i as int, pr);
        }
        i += 1;
    }
    proof {
        assert(first_match(url@, 0, pr) == n);
    }
    None
}

/// The `ssh://git@{host}/{project}/{repo}` shape at position `p`.
pub open spec fn dc_ssh_proto_match_at(s: Seq<char>, p: int) -> bool {
    &&& occurs_at(s, "ssh://git@"@, p)
    &&& {
        let k1 = find_char_from(s, '/', p + "ssh://git@"@.len());
        &&& k1 > p + "ssh://git@"@.len()
        &&& k1 < s.len()
        &&& {
            let k2 = find_char_from(s, '/', k1 + 1);
            &&& k2 > k1 + 1
            &&& k2 + 1 < s.len()
            &&& s[k2 + 1] != '/'
            &&& s[k2 + 1] != '.'
        }
    }
}

pub open spec fn spec_dc_ssh_proto(s: Seq<char>) -> Option<(Seq<char>, Seq<char>, Seq<char>)> {
    let p = first_match(s, 0, |pp: int| dc_ssh_proto_match_at(s, pp));
    if p == s.len() {
        Option::None
    } else {
        let k1 = find_char_from(s, '/', p + "ssh://git@"@.len());
        let k2 = find_char_from(s, '/', k1 + 1);
        Option::Some(
            (
                "https://"@ + s.subrange(p + "ssh://git@"@.len(), k1),
                s.subrange(k1 + 1, k2),
                s.subrange(k2 + 1, seg_end(s, k2 + 1)),
            ),
        )
    }
}

fn dc_ssh_proto_check(url: &str, p: usize) -> (r: bool)
    ensures
        r == dc_ssh_proto_match_at(url@, p as int),
{
    proof {
        reveal_strlit("ssh://git@");
    }
    let n: usize = url.unicode_len();
    if !str_occurs_at(url, "ssh://git@", p) {
        return false;
    }
    let k1: usize = str_find_char(url, '/', p + 10);
    if k1 <= p + 10 {
        return false;
    }
    if k1 >= n {
        return false;
    }
    let k2: usize = str_find_char(url, '/', k1 + 1);
    if k2 <= k1 + 1 {
        return false;
    }
    if k2 >= n - 1 {
        return false;
    }
    let c = url.get_char(k2 + 1);
    if c == '/' || c == '.' {
        return false;
    }
    true
}

fn dc_ssh_proto_search(url: &str) -> (r: Option<(String, String, String)>)
    ensures
        (r is Some) == (spec_dc_ssh_proto(url@) is Some),
        r is Some ==> Option::Some(((r->0).0@, (r->0).1@, (r->0).2@)) == spec_dc_ssh_proto(url@),
{
    let ghost pr = |pp: int| dc_ssh_proto_match_at(url@, pp);
    let n: usize = url.unicode_len();
    let mut i: usize = 0;
    while i < n
        invariant
            i <= n,
            n == url@.len(),
            pr == (|pp: int| dc_ssh_proto_match_at(url@, pp)),
            first_match(url@, 0, pr) == first_match(url@, i as int, pr),
        decreases n - i,
    {
        if dc_ssh_proto_check(url, i) {
            proof {
                reveal_strlit("ssh://git@");
                assert(pr(i as int));
                assert(dc_ssh_proto_match_at(url@, i as int));
                assert(first_match(url@, i as int, pr) == i);
            }
            let k1: usize = str_find_char(url, '/', i + 10);
            let k2: usize = str_find_char(url, '/', k1 + 1);
            let e: usize = str_seg_end(url, k2 + 1);
            let base = https_base(url.substring_char(i + 10, k1));
            let project = url.substring_char(k1 + 1, k2).to_owned();
            let repo = url.substring_char(k2 + 1, e).to_owned();
            return Some((base, project, repo));
        }
        proof {
            assert(!pr(i as int));
            lemma_first_match_step(url@, i as int, pr);
        }
        i += 1;
    }
    proof {
        assert(first_match(url@, 0, pr) == n);
    }
    None
}

/// The API base, project key and repository slug a Data Center URL
/// denotes, trying the four recognized shapes in a fixed order.
pub open spec fn spec_extract_dc(s: Seq<char>) -> Option<(Seq<char>, Seq<char>, Seq<char>)> {
    if spec_dc_scm(s) is Some {
        spec_dc_scm(s)
    } else if spec_dc_projects(s) is Some {
        spec_dc_projects(s)
    } else if spec_dc_ssh(s) is Some {
        spec_dc_ssh(s)
    } else {
        spec_dc_ssh_proto(s)
    }
}

/// The first `/`-or-`.` boundary strictly follows `from` when the
/// character at `from` is neither.
proof fn lemma_seg_end_past(s: Seq<char>, from: int)
    requires
        0 <= from < s.len(),
        s[from] != '/',
        s[from] != '.',
    ensures
        from < seg_end(s, from) <= s.len(),
{
    crate::text::lemma_find_char_from(s, '/', from);
    crate::text::lemma_find_char_from(s, '.', from);
    assert(find_char_from(s, '/', from) != from);
    assert(find_char_from(s, '.', from) != from);
}

proof fn lemma_scm_nonempty(s: Seq<char>)
    requires
        spec_dc_scm(s) is Some,
    ensures
        (spec_dc_scm(s)->0).1.len() > 0,
        (spec_dc_scm(s)->0).2.len() > 0,
{
    let pr = |pp: int| dc_scm_match_at(s, pp);
    let p = first_match(s, 0, pr);
    lemma_first_match(s, 0, pr);
    assert(p < s.len());
    assert(pr(p));
    assert(dc_scm_match_at(s, p));
    let k1 = find_char_from(s, '/', p);
    crate::text::lemma_find_char_from(s, '/', p);
    let k2 = find_char_from(s, '/', k1 + "/scm/"@.len());
    crate::text::lemma_find_char_from(s, '/', k1 + "/scm/"@.len());
    assert(k2 + 1 < s.len() && s[k2 + 1] != '/' && s[k2 + 1] != '.');
    lemma_seg_end_past(s, k2 + 1);
}

proof fn lemma_projects_nonempty(s: Seq<char>)
    requires
        spec_dc_projects(s) is Some,
    ensures
        (spec_dc_projects(s)->0).1.len() > 0,
        (spec_dc_projects(s)->0).2.len() > 0,
{
    let pr = |pp: int| dc_projects_match_at(s, pp);
    let p = first_match(s, 0, pr);
    lemma_first_match(s, 0, pr);
    assert(dc_projects_match_at(s, p));
    let k1 = find_char_from(s, '/', p);
    crate::text::lemma_find_char_from(s, '/', p);
    let k2 = find_char_from(s, '/', k1 + "/projects/"@.len());
    crate::text::lemma_find_char_from(s, '/', k1 + "/projects/"@.len());
    lemma_seg_end_past(s, k2 + "/repos/"@.len());
}

proof fn lemma_ssh_nonempty(s: Seq<char>)
    requires
        spec_dc_ssh(s) is Some,
    ensures
        (spec_dc_ssh(s)->0).1.len() > 0,
        (spec_dc_ssh(s)->0).2.len() > 0,
{
    let pr = |pp: int| dc_ssh_match_at(s, pp);
    let p = first_match(s, 0, pr);
    lemma_first_match(s, 0, pr);
    assert(dc_ssh_match_at(s, p));
    let c1 = find_char_from(s, ':', p + "git@"@.len());
    crate::text::lemma_find_char_from(s, ':', p + "git@"@.len());
    let k = find_char_from(s, '/', c1 + 1);
    crate::text::lemma_find_char_from(s, '/', c1 + 1);
    lemma_seg_end_past(s, k + 1);
}

proof fn lemma_ssh_proto_nonempty(s: Seq<char>)
    requires
        spec_dc_ssh_proto(s) is Some,
    ensures
        (spec_dc_ssh_proto(s)->0).1.len() > 0,
        (spec_dc_ssh_proto(s)->0).2.len() > 0,
{
    let pr = |pp: int| dc_ssh_proto_match_at(s, pp);
    let p = first_match(s, 0, pr);
    lemma_first_match(s, 0, pr);
    assert(dc_ssh_proto_match_at(s, p));
    let k1 = find_char_from(s, '/', p + "ssh://git@"@.len());
    crate::text::lemma_find_char_from(s, '/', p + "ssh://git@"@.len());
    let k2 = find_char_from(s, '/', k1 + 1);
    crate::text::lemma_find_char_from(s, '/', k1 + 1);
    lemma_seg_end_past(s, k2 + 1);
}

/// Every recognized Data Center shape captures a non-empty project key
/// and repository slug: each group demands at least one character.
pub proof fn lemma_dc_groups_nonempty(u: Seq<char>)
    requires
        spec_extract_dc(u) is Some,
    ensures
        (spec_extract_dc(u)->0).1.len() > 0,
        (spec_extract_dc(u)->0).2.len() > 0,
{
    if spec_dc_scm(u) is Some {
        lemma_scm_nonempty(u);
    } else if spec_dc_projects(u) is Some {
        lemma_projects_nonempty(u);
    } else if spec_dc_ssh(u) is Some {
        lemma_ssh_nonempty(u);
    } else {
        lemma_ssh_proto_nonempty(u);
    }
}

/// The API base, project key and repository slug of a Bitbucket Data
/// Center repository URL, for the `scm`, `projects`, SSH and
/// SSH-with-scheme shapes alike.
pub fn extract_bitbucket_data_center_info_from_url(url: &str) -> (r: Option<
    (String, String, String),
>)
    ensures
        (r is Some) == (spec_extract_dc(url@) is Some),
        r is Some ==> Option::Some(((r->0).0@, (r->0).1@, (r->0).2@)) == spec_extract_dc(url@),
{
    if let Some(t) = dc_scm_search(url) {
        return Some(t);
    }
    if let Some(t) = dc_projects_search(url) {
        return Some(t);
    }
    if let Some(t) = dc_ssh_search(url) {
        return Some(t);
    }
    dc_ssh_proto_search(url)
}

} // verus!
