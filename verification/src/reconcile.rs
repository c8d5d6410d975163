//! Reconciliation of local worktrees against a provider's open pull
//! requests: the cleaned local branch set, the per-worktree rows in
//! listing order, and the remote-only rows in provider order.  The
//! per-branch lookups themselves happen outside and are handed in as a
//! vector parallel to the worktree listing.

use vstd::prelude::*;
use crate::git::{Worktree, WorktreeView, branch_display, get_branch_display};
use crate::github::PullRequest;
use crate::list_helpers::{PullRequestInfo, PrInfoView, clone_pr_info};
use crate::utils::cleaned_branch;
use vstd::string::StringExecFns;

verus! {

/// One local worktree row of the unified view.
#[derive(Debug)]
pub struct WorktreeDisplay {
    pub branch: String,
    pub pr_info: Option<PullRequestInfo>,
}

/// Mathematical image of a `WorktreeDisplay`.
pub ghost struct DisplayView {
    pub branch: Seq<char>,
    pub pr_info: Option<PrInfoView>,
}

impl View for WorktreeDisplay {
    type V = DisplayView;

    open spec fn view(&self) -> DisplayView {
        DisplayView {
            branch: self.branch@,
            pr_info: match self.pr_info {
                Option::Some(p) => Option::Some(p@),
                Option::None => Option::None,
            },
        }
    }
}

impl DeepView for WorktreeDisplay {
    type V = DisplayView;

    open spec fn deep_view(&self) -> DisplayView {
        self.view()
    }
}

/// One remote-only row of the unified view.
#[derive(Debug)]
pub struct RemotePullRequest {
    pub branch: String,
    pub pr_info: PullRequestInfo,
}

/// Mathematical image of a `RemotePullRequest`.
pub ghost struct RemotePrView {
    pub branch: Seq<char>,
    pub pr_info: PrInfoView,
}

impl View for RemotePullRequest {
    type V = RemotePrView;

    open spec fn view(&self) -> RemotePrView {
        RemotePrView { branch: self.branch@, pr_info: self.pr_info@ }
    }
}

impl DeepView for RemotePullRequest {
    type V = RemotePrView;

    open spec fn deep_view(&self) -> RemotePrView {
        self.view()
    }
}

/// The unified view: one row per local worktree in listing order, then
/// the open pull requests with no local worktree, in provider order.
#[derive(Debug)]
pub struct ReconciliationResult {
    pub matched: Vec<WorktreeDisplay>,
    pub unmatched_remote: Vec<RemotePullRequest>,
    /// False when no provider credentials or capability were available:
    /// the rows then carry no pull-request information at all.
    pub pr_info_available: bool,
}

/// The cleaned branch names of the non-bare worktrees that are on a
/// branch, in listing order.
pub open spec fn spec_local_branches(ws: Seq<WorktreeView>) -> Seq<Seq<char>>
    decreases ws.len(),
{
    if ws.len() == 0 {
        Seq::<Seq<char>>::empty()
    } else {
        (if !ws[0].bare && ws[0].branch is Some {
            seq![cleaned_branch(ws[0].branch->0)]
        } else {
            Seq::<Seq<char>>::empty()
        }) + spec_local_branches(ws.subrange(1, ws.len() as int))
    }
}

proof fn lemma_local_branches_snoc(ws: Seq<WorktreeView>, w: WorktreeView)
    ensures
        spec_local_branches(ws.push(w)) == spec_local_branches(ws) + (if !w.bare
            && w.branch is Some {
            seq![cleaned_branch(w.branch->0)]
        } else {
            Seq::<Seq<char>>::empty()
        }),
    decreases ws.len(),
{
    if ws.len() == 0 {
        reveal_with_fuel(spec_local_branches, 3);
        assert(ws.push(w).subrange(1, 1) =~= Seq::<WorktreeView>::empty());
        assert(ws.push(w)[0] == w);
        assert(ws =~= Seq::<WorktreeView>::empty());
        assert(spec_local_branches(ws.push(w)) =~= spec_local_branches(ws) + (if !w.bare
            && w.branch is Some {
            seq![cleaned_branch(w.branch->0)]
        } else {
            Seq::<Seq<char>>::empty()
        }));
    } else {
        let tail = ws.subrange(1, ws.len() as int);
        lemma_local_branches_snoc(tail, w);
        assert(ws.push(w).subrange(1, ws.len() as int + 1) =~= tail.push(w));
        assert(ws.push(w)[0] == ws[0]);
        assert(spec_local_branches(ws.push(w)) =~= spec_local_branches(ws) + (if !w.bare
            && w.branch is Some {
            seq![cleaned_branch(w.branch->0)]
        } else {
            Seq::<Seq<char>>::empty()
        }));
    }
}

/// The cleaned branch names of all non-bare worktrees on a branch;
/// detached-HEAD and bare entries contribute nothing.
pub fn local_branch_names(worktrees: &Vec<Worktree>) -> (r: Vec<String>)
    ensures
        r.deep_view() == spec_local_branches(worktrees.deep_view()),
{
    let n = worktrees.len();
    let mut out: Vec<String> = Vec::new();
    let mut i: usize = 0;
    proof {
        assert(worktrees.deep_view().subrange(0, 0) =~= Seq::<WorktreeView>::empty());
        assert(out.deep_view() =~= spec_local_branches(worktrees.deep_view().subrange(0, 0)));
    }
    while i < n
        invariant
            i <= n == worktrees@.len(),
            worktrees.deep_view().len() == worktrees@.len(),
            forall|j: int|
                0 <= j < worktrees@.len() ==> worktrees.deep_view()[j] == worktrees@[j]@,
            out.deep_view() == spec_local_branches(worktrees.deep_view().subrange(0, i as int)),
        decreases n - i,
    {
        let ghost old_dv = out.deep_view();
        let wt = &worktrees[i];
        if !wt.bare {
            match &wt.branch {
                Some(b) => {
                    out.push(crate::utils::clean_branch_name(b.as_str()));
                    proof {
                        assert(out.deep_view() =~= old_dv + seq![
                            cleaned_branch(worktrees.deep_view()[i as int].branch->0),
                        ]);
                    }
                },
                None => {},
            }
        }
        proof {
            let pre = worktrees.deep_view().subrange(0, i as int);
            lemma_local_branches_snoc(pre, worktrees.deep_view()[i as int]);
            assert(worktrees.deep_view().subrange(0, i + 1) =~= pre.push(
                worktrees.deep_view()[i as int],
            ));
            assert(out.deep_view() =~= spec_local_branches(
                worktrees.deep_view().subrange(0, i + 1),
            ));
        }
        i += 1;
    }
    proof {
        assert(worktrees.deep_view().subrange(0, n as int) =~= worktrees.deep_view());
    }
    out
}

/// The rows of the unified view for the local worktrees: row `i` shows
/// worktree `i`'s display name beside lookup outcome `i`.
pub open spec fn spec_matched(ws: Seq<WorktreeView>, lk: Seq<Option<PrInfoView>>) -> Seq<
    DisplayView,
> {
    Seq::new(ws.len(), |i: int| DisplayView { branch: branch_display(ws[i]), pr_info: lk[i] })
}

/// Build the local rows.  A lookup that failed or found nothing is
/// `None` and degrades only its own row.
pub fn assemble_matched(worktrees: &Vec<Worktree>, lookups: &Vec<Option<PullRequestInfo>>) -> (r:
    Vec<WorktreeDisplay>)
    requires
        worktrees@.len() == lookups@.len(),
    ensures
        r.deep_view() == spec_matched(worktrees.deep_view(), lookups.deep_view()),
{
    let n = worktrees.len();
    let mut out: Vec<WorktreeDisplay> = Vec::new();
    let mut i: usize = 0;
    while i < n
        invariant
            i <= n == worktrees@.len(),
            lookups@.len() == worktrees@.len(),
            worktrees.deep_view().len() == worktrees@.len(),
            lookups.deep_view().len() == lookups@.len(),
            out.deep_view().len() == i,
            forall|j: int|
                0 <= j < worktrees@.len() ==> worktrees.deep_view()[j] == worktrees@[j]@,
            forall|j: int|
                0 <= j < i ==> out.deep_view()[j] == (spec_matched(
                    worktrees.deep_view(),
                    lookups.deep_view(),
                ))[j],
        decreases n - i,
    {
        let branch = get_branch_display(&worktrees[i]);
        let info: Option<PullRequestInfo> = match &lookups[i] {
            Some(p) => Some(clone_pr_info(p)),
            None => None,
        };
        proof {
            assert(lookups.deep_view()[i as int] == lookups@[i as int].deep_view());
        }
        let row = WorktreeDisplay { branch, pr_info: info };
        proof {
            assert(row@ == (spec_matched(worktrees.deep_view(), lookups.deep_view()))[i as int]);
        }
        let ghost old_dv = out.deep_view();
        out.push(row);
        proof {
            assert(out.deep_view() =~= old_dv.push(row@));
        }
        i += 1;
    }
    proof {
        assert(out.deep_view() =~= spec_matched(worktrees.deep_view(), lookups.deep_view()));
    }
    out
}

/// The status label of an entry of the open-pull-request listing: every
/// entry there is open, so only the draft flag matters.
pub open spec fn spec_remote_status(draft: bool) -> Seq<char> {
    if draft {
        "DRAFT"@
    } else {
        "OPEN"@
    }
}

/// The remote-only rows: the open pull requests, in provider order,
/// whose source branch is not a cleaned local branch name.
pub open spec fn spec_unmatched(prs: Seq<(PullRequest, String)>, locals: Seq<Seq<char>>) -> Seq<
    RemotePrView,
>
    decreases prs.len(),
{
    if prs.len() == 0 {
        Seq::<RemotePrView>::empty()
    } else {
        (if !locals.contains(prs[0].1@) {
            seq![
                RemotePrView {
                    branch: prs[0].1@,
                    pr_info: PrInfoView {
                        url: prs[0].0.html_url@,
                        status: spec_remote_status(prs[0].0.draft),
                        title: prs[0].0.title@,
                    },
                },
            ]
        } else {
            Seq::<RemotePrView>::empty()
        }) + spec_unmatched(prs.subrange(1, prs.len() as int), locals)
    }
}

proof fn lemma_unmatched_snoc(prs: Seq<(PullRequest, String)>, p: (PullRequest, String), locals: Seq<Seq<char>>)
    ensures
        spec_unmatched(prs.push(p), locals) == spec_unmatched(prs, locals) + (if !locals.contains(
            p.1@,
        ) {
            seq![
                RemotePrView {
                    branch: p.1@,
                    pr_info: PrInfoView {
                        url: p.0.html_url@,
                        status: spec_remote_status(p.0.draft),
                        title: p.0.title@,
                    },
                },
            ]
        } else {
            Seq::<RemotePrView>::empty()
        }),
    decreases prs.len(),
{
    let tailpart = (if !locals.contains(p.1@) {
        seq![
            RemotePrView {
                branch: p.1@,
                pr_info: PrInfoView {
                    url: p.0.html_url@,
                    status: spec_remote_status(p.0.draft),
                    title: p.0.title@,
                },
            },
        ]
    } else {
        Seq::<RemotePrView>::empty()
    });
    if prs.len() == 0 {
        reveal_with_fuel(spec_unmatched, 3);
        assert(prs.push(p).subrange(1, 1) =~= Seq::<(PullRequest, String)>::empty());
        assert(prs.push(p)[0] == p);
        assert(prs =~= Seq::<(PullRequest, String)>::empty());
        assert(spec_unmatched(prs.push(p), locals) =~= spec_unmatched(prs, locals) + tailpart);
    } else {
        let tail = prs.subrange(1, prs.len() as int);
        lemma_unmatched_snoc(tail, p, locals);
        assert(prs.push(p).subrange(1, prs.len() as int + 1) =~= tail.push(p));
        assert(prs.push(p)[0] == prs[0]);
        assert(spec_unmatched(prs.push(p), locals) =~= spec_unmatched(prs, locals) + tailpart);
    }
}

/// Whether `s` is one of the strings of `v`.
fn contains_string(v: &Vec<String>, s: &str) -> (r: bool)
    ensures
        r == v.deep_view().contains(s@),
{
    let n = v.len();
    let mut i: usize = 0;
    while i < n
        invariant
            i <= n == v@.len(),
            v.deep_view().len() == v@.len(),
            forall|j: int| 0 <= j < v@.len() ==> v.deep_view()[j] == v@[j]@,
            forall|j: int| 0 <= j < i ==> v.deep_view()[j] != s@,
        decreases n - i,
    {
        if crate::text::str_eq(v[i].as_str(), s) {
            assert(v.deep_view()[i as int] == s@);
            return true;
        }
        i += 1;
    }
    false
}

/// Filter the provider's full open-pull-request listing down to the
/// entries whose source branch has no local worktree.
pub fn filter_remote_prs(
    all_prs: &Vec<(PullRequest, String)>,
    local_branches: &Vec<String>,
) -> (r: Vec<RemotePullRequest>)
    ensures
        r.deep_view() == spec_unmatched(all_prs@, local_branches.deep_view()),
{
    let n = all_prs.len();
    let mut out: Vec<RemotePullRequest> = Vec::new();
    let mut i: usize = 0;
    proof {
        assert(all_prs@.subrange(0, 0) =~= Seq::<(PullRequest, String)>::empty());
        assert(out.deep_view() =~= spec_unmatched(
            all_prs@.subrange(0, 0),
            local_branches.deep_view(),
        ));
    }
    while i < n
        invariant
            i <= n == all_prs@.len(),
            out.deep_view() == spec_unmatched(
                all_prs@.subrange(0, i as int),
                local_branches.deep_view(),
            ),
        decreases n - i,
    {
        let ghost old_dv = out.deep_view();
        let entry = &all_prs[i];
        if !contains_string(local_branches, entry.1.as_str()) {
            let status = if entry.0.draft {
                String::from_str("DRAFT")
            } else {
                String::from_str("OPEN")
            };
            out.push(
                RemotePullRequest {
                    branch: entry.1.clone(),
                    pr_info: PullRequestInfo {
                        url: entry.0.html_url.clone(),
                        status,
                        title: entry.0.title.clone(),
                    },
                },
            );
            proof {
                assert(out.deep_view() =~= old_dv + seq![
                    RemotePrView {
                        branch: all_prs@[i as int].1@,
                        pr_info: PrInfoView {
                            url: all_prs@[i as int].0.html_url@,
                            status: spec_remote_status(all_prs@[i as int].0.draft),
                            title: all_prs@[i as int].0.title@,
                        },
                    },
                ]);
            }
        }
        proof {
            let pre = all_prs@.subrange(0, i as int);
            lemma_unmatched_snoc(pre, all_prs@[i as int], local_branches.deep_view());
            assert(all_prs@.subrange(0, i + 1) =~= pre.push(all_prs@[i as int]));
            assert(out.deep_view() =~= spec_unmatched(
                all_prs@.subrange(0, i + 1),
                local_branches.deep_view(),
            ));
        }
        i += 1;
    }
    proof {
        assert(all_prs@.subrange(0, n as int) =~= all_prs@);
    }
    out
}

/// Partition invariant: a branch name in the remote-only rows is never a
/// cleaned local branch name, whatever the inputs.
pub proof fn lemma_reconciliation_partition(
    prs: Seq<(PullRequest, String)>,
    locals: Seq<Seq<char>>,
)
    ensures
        forall|k: int|
            0 <= k < spec_unmatched(prs, locals).len() ==> !locals.contains(
                (#[trigger] spec_unmatched(prs, locals)[k]).branch,
            ),
    decreases prs.len(),
{
    if prs.len() > 0 {
        let tail = prs.subrange(1, prs.len() as int);
        lemma_reconciliation_partition(tail, locals);
        let hd = (if !locals.contains(prs[0].1@) {
            seq![
                RemotePrView {
                    branch: prs[0].1@,
                    pr_info: PrInfoView {
                        url: prs[0].0.html_url@,
                        status: spec_remote_status(prs[0].0.draft),
                        title: prs[0].0.title@,
                    },
                },
            ]
        } else {
            Seq::<RemotePrView>::empty()
        });
        assert(spec_unmatched(prs, locals) == hd + spec_unmatched(tail, locals));
        assert forall|k: int| 0 <= k < spec_unmatched(prs, locals).len() implies !locals.contains(
            (#[trigger] spec_unmatched(prs, locals)[k]).branch,
        ) by {
            if k < hd.len() {
                assert(spec_unmatched(prs, locals)[k] == hd[0]);
            } else {
                assert(spec_unmatched(prs, locals)[k] == spec_unmatched(tail, locals)[k - hd.len()]);
            }
        }
    }
}

/// Isolated lookup failure: the local rows at every position other than
/// `b` agree whenever the lookup outcomes at those positions agree, so a
/// failure for one branch cannot disturb any other row.
pub proof fn lemma_isolated_lookup_failure(
    ws: Seq<WorktreeView>,
    lk1: Seq<Option<PrInfoView>>,
    lk2: Seq<Option<PrInfoView>>,
    b: int,
)
    requires
        lk1.len() == ws.len(),
        lk2.len() == ws.len(),
        forall|i: int| 0 <= i < ws.len() && i != b ==> lk1[i] == lk2[i],
    ensures
        spec_matched(ws, lk1).len() == spec_matched(ws, lk2).len(),
        forall|i: int|
            0 <= i < ws.len() && i != b ==> spec_matched(ws, lk1)[i] == spec_matched(ws, lk2)[i],
{
}

/// Assemble the unified view.  When pull-request information is not
/// available the local rows carry no pull-request data and the
/// remote-only list is empty, never an error: enrichment is optional.
pub fn reconcile(
    pr_info_available: bool,
    worktrees: &Vec<Worktree>,
    lookups: &Vec<Option<PullRequestInfo>>,
    all_open_prs: &Vec<(PullRequest, String)>,
) -> (r: ReconciliationResult)
    requires
        pr_info_available ==> worktrees@.len() == lookups@.len(),
    ensures
        r.pr_info_available == pr_info_available,
        pr_info_available ==> r.matched.deep_view() == spec_matched(
            worktrees.deep_view(),
            lookups.deep_view(),
        ),
        pr_info_available ==> r.unmatched_remote.deep_view() == spec_unmatched(
            all_open_prs@,
            spec_local_branches(worktrees.deep_view()),
        ),
        !pr_info_available ==> r.matched.deep_view() == spec_matched(
            worktrees.deep_view(),
            Seq::new(worktrees.deep_view().len(), |i: int| Option::<PrInfoView>::None),
        ),
        !pr_info_available ==> r.unmatched_remote.deep_view().len() == 0,
{
    if pr_info_available {
        let locals = local_branch_names(worktrees);
        let matched = assemble_matched(worktrees, lookups);
        let unmatched_remote = filter_remote_prs(all_open_prs, &locals);
        ReconciliationResult { matched, unmatched_remote, pr_info_available: true }
    } else {
        let n = worktrees.len();
        let mut empty_lookups: Vec<Option<PullRequestInfo>> = Vec::new();
        let mut i: usize = 0;
        while i < n
            invariant
                i <= n,
                empty_lookups@.len() == i,
                forall|j: int| 0 <= j < i ==> empty_lookups@[j] is None,
            decreases n - i,
        {
            empty_lookups.push(None);
            i += 1;
        }
        let matched = assemble_matched(worktrees, &empty_lookups);
        proof {
            assert(empty_lookups.deep_view() =~= Seq::new(
                worktrees.deep_view().len(),
                |i: int| Option::<PrInfoView>::None,
            ));
        }
        ReconciliationResult {
            matched,
            unmatched_remote: Vec::new(),
            pr_info_available: false,
        }
    }
}

} // verus!
