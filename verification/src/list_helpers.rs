//! Per-branch pull-request presentation: picking the right entry out of
//! a provider listing, normalizing its status, and formatting the pair
//! that the listing shows.  Fetching the listings is the caller's
//! business.

use vstd::prelude::*;
use crate::text::{lower_seq, upper_seq, dec_str, ascii_lowercase, u64_to_string, str_eq};
use crate::github::PullRequest;
use crate::bitbucket_api::BitbucketPullRequest;
use crate::bitbucket_data_center_api::BitbucketDataCenterPullRequest;
use vstd::string::{StrSliceExecFns, StringExecFns};

verus! {

/// Normalized cross-provider pull-request summary.
#[derive(Debug)]
pub struct PullRequestInfo {
    /// Canonical web link to the pull request.
    pub url: String,
    /// One of `OPEN`, `CLOSED`, `MERGED`, `DRAFT`, or an unrecognized
    /// provider state passed through uppercased.
    pub status: String,
    /// Human-readable title; may be empty.
    pub title: String,
}

/// Mathematical image of a `PullRequestInfo`.
pub ghost struct PrInfoView {
    pub url: Seq<char>,
    pub status: Seq<char>,
    pub title: Seq<char>,
}

impl View for PullRequestInfo {
    type V = PrInfoView;

    open spec fn view(&self) -> PrInfoView {
        PrInfoView { url: self.url@, status: self.status@, title: self.title@ }
    }
}

impl DeepView for PullRequestInfo {
    type V = PrInfoView;

    open spec fn deep_view(&self) -> PrInfoView {
        self.view()
    }
}

/// An identical copy of a summary, field by field.
pub fn clone_pr_info(info: &PullRequestInfo) -> (r: PullRequestInfo)
    ensures
        r@ == info@,
{
    PullRequestInfo {
        url: info.url.clone(),
        status: info.status.clone(),
        title: info.title.clone(),
    }
}

/// The normalized status label of a GitHub pull request: the draft flag
/// wins; otherwise `open`, `closed` and `merged` (in any letter case) map
/// to their uppercase labels, and any other state passes through
/// uppercased.  Case mapping is ASCII; provider states are ASCII.
pub open spec fn spec_github_status(state: Seq<char>, draft: bool) -> Seq<char> {
    if draft {
        "DRAFT"@
    } else if lower_seq(state) == "open"@ {
        "OPEN"@
    } else if lower_seq(state) == "closed"@ {
        "CLOSED"@
    } else if lower_seq(state) == "merged"@ {
        "MERGED"@
    } else {
        upper_seq(state)
    }
}

pub fn normalize_github_status(state: &str, draft: bool) -> (r: String)
    ensures
        r@ == spec_github_status(state@, draft),
{
    if draft {
        return String::from_str("DRAFT");
    }
    let low = ascii_lowercase(state);
    if str_eq(low.as_str(), "open") {
        String::from_str("OPEN")
    } else if str_eq(low.as_str(), "closed") {
        String::from_str("CLOSED")
    } else if str_eq(low.as_str(), "merged") {
        String::from_str("MERGED")
    } else {
        crate::text::ascii_uppercase(state)
    }
}

/// The summary of the first pull request in a GitHub per-branch listing;
/// nothing when the listing is empty.  Providers return most-recent
/// first, and the first entry wins.
pub fn select_github_pr(prs: &Vec<PullRequest>) -> (r: Option<PullRequestInfo>)
    ensures
        (r is Some) == (prs@.len() > 0),
        r matches Some(info) ==> {
            &&& info.url@ == prs@[0].html_url@
            &&& info.status@ == spec_github_status(prs@[0].state@, prs@[0].draft)
            &&& info.title@ == prs@[0].title@
        },
{
    if prs.len() == 0 {
        return None;
    }
    let pr = &prs[0];
    Some(
        PullRequestInfo {
            url: pr.html_url.clone(),
            status: normalize_github_status(pr.state.as_str(), pr.draft),
            title: pr.title.clone(),
        },
    )
}

/// The web link of a cloud pull request: its `html` link when the
/// listing carried one, a `PR #<id>` placeholder otherwise.
pub open spec fn spec_bb_cloud_url(pr: BitbucketPullRequest) -> Seq<char> {
    match pr.html_href {
        Option::Some(u) => u@,
        Option::None => "PR #"@ + dec_str(pr.id as int),
    }
}

pub fn extract_bitbucket_cloud_url(pr: &BitbucketPullRequest) -> (r: String)
    ensures
        r@ == spec_bb_cloud_url(*pr),
{
    match &pr.html_href {
        Some(u) => u.clone(),
        None => {
            let mut s = String::from_str("PR #");
            let d = u64_to_string(pr.id);
            s.append(d.as_str());
            s
        },
    }
}

/// The summary of the first cloud pull request whose source branch is
/// `branch`; nothing when no entry matches.
pub fn select_bitbucket_cloud_pr(prs: &Vec<BitbucketPullRequest>, branch: &str) -> (r: Option<
    PullRequestInfo,
>)
    ensures
        match r {
            Option::Some(info) => exists|i: int|
                {
                    &&& 0 <= i < prs@.len()
                    &&& (#[trigger] prs@[i]).source.branch.name@ == branch@
                    &&& forall|j: int| 0 <= j < i ==> prs@[j].source.branch.name@ != branch@
                    &&& info.url@ == spec_bb_cloud_url(prs@[i])
                    &&& info.status@ == upper_seq(prs@[i].state@)
                    &&& info.title@ == prs@[i].title@
                },
            Option::None => forall|j: int|
                0 <= j < prs@.len() ==> (#[trigger] prs@[j]).source.branch.name@ != branch@,
        },
{
    let n = prs.len();
    let mut i: usize = 0;
    while i < n
        invariant
            i <= n == prs@.len(),
            forall|j: int| 0 <= j < i ==> (#[trigger] prs@[j]).source.branch.name@ != branch@,
        decreases n - i,
    {
        let pr = &prs[i];
        if str_eq(pr.source.branch.name.as_str(), branch) {
            return Some(
                PullRequestInfo {
                    url: extract_bitbucket_cloud_url(pr),
                    status: crate::text::ascii_uppercase(pr.state.as_str()),
                    title: pr.title.clone(),
                },
            );
        }
        i += 1;
    }
    None
}

/// The web link of a Data Center pull request: its first `self` link
/// when the listing carried one, a `PR #<id>` placeholder otherwise.
pub open spec fn spec_bb_dc_url(pr: BitbucketDataCenterPullRequest) -> Seq<char> {
    match pr.self_href {
        Option::Some(u) => u@,
        Option::None => "PR #"@ + dec_str(pr.id as int),
    }
}

pub fn extract_bitbucket_data_center_url(pr: &BitbucketDataCenterPullRequest) -> (r: String)
    ensures
        r@ == spec_bb_dc_url(*pr),
{
    match &pr.self_href {
        Some(u) => u.clone(),
        None => {
            let mut s = String::from_str("PR #");
            let d = u64_to_string(pr.id);
            s.append(d.as_str());
            s
        },
    }
}

/// The summary of the first Data Center pull request whose source ref
/// display id is `branch`; nothing when no entry matches.
pub fn select_bitbucket_data_center_pr(
    prs: &Vec<BitbucketDataCenterPullRequest>,
    branch: &str,
) -> (r: Option<PullRequestInfo>)
    ensures
        match r {
            Option::Some(info) => exists|i: int|
                {
                    &&& 0 <= i < prs@.len()
                    &&& (#[trigger] prs@[i]).from_ref.display_id@ == branch@
                    &&& forall|j: int| 0 <= j < i ==> prs@[j].from_ref.display_id@ != branch@
                    &&& info.url@ == spec_bb_dc_url(prs@[i])
                    &&& info.status@ == upper_seq(prs@[i].state@)
                    &&& info.title@ == prs@[i].title@
                },
            Option::None => forall|j: int|
                0 <= j < prs@.len() ==> (#[trigger] prs@[j]).from_ref.display_id@ != branch@,
        },
{
    let n = prs.len();
    let mut i: usize = 0;
    while i < n
        invariant
            i <= n == prs@.len(),
            forall|j: int| 0 <= j < i ==> (#[trigger] prs@[j]).from_ref.display_id@ != branch@,
        decreases n - i,
    {
        let pr = &prs[i];
        if str_eq(pr.from_ref.display_id.as_str(), branch) {
            return Some(
                PullRequestInfo {
                    url: extract_bitbucket_data_center_url(pr),
                    status: crate::text::ascii_uppercase(pr.state.as_str()),
                    title: pr.title.clone(),
                },
            );
        }
        i += 1;
    }
    None
}

/// The displayed pair for one worktree row: `url (status)` and the
/// title when a pull request is known, a dash and an empty title when
/// none is.
pub fn format_pr_display(pr_info: Option<PullRequestInfo>) -> (r: (String, String))
    ensures
        pr_info matches Some(info) ==> r.0@ == info.url@ + " ("@ + info.status@ + ")"@ && r.1@
            == info.title@,
        pr_info is None ==> r.0@ == "-"@ && r.1@.len() == 0,
{
    match pr_info {
        Some(info) => {
            let mut s = info.url;
            s.append(" (");
            s.append(info.status.as_str());
            s.append(")");
            proof {
                assert(s@ == info.url@ + " ("@ + info.status@ + ")"@);
            }
            (s, info.title)
        },
        None => (String::from_str("-"), String::new()),
    }
}

/// Strip the heads-namespace prefix from a branch reference.
pub fn clean_branch_name(branch: &str) -> (r: String)
    ensures
        r@ == crate::utils::cleaned_branch(branch@),
{
    crate::utils::clean_branch_name(branch)
}

} // verus!
