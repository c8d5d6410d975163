use gwt::git::Worktree;
use gwt::github::PullRequest;
use gwt::list_helpers::{
    PullRequestInfo, normalize_github_status, select_github_pr, select_bitbucket_cloud_pr,
    select_bitbucket_data_center_pr, extract_bitbucket_cloud_url,
    extract_bitbucket_data_center_url, format_pr_display,
};
use gwt::bitbucket_api::{
    BitbucketPullRequest, BitbucketUser, BitbucketRepository, BitbucketBranch, BitbucketSource,
    BitbucketDestination,
};
use gwt::bitbucket_data_center_api::{
    BitbucketDataCenterPullRequest, BitbucketDataCenterUser, BitbucketDataCenterProject,
    BitbucketDataCenterRepository, BitbucketDataCenterPullRequestRef,
};
use gwt::reconcile::{local_branch_names, assemble_matched, filter_remote_prs, reconcile};
use gwt::text::u64_to_string;

fn wt(path: &str, branch: Option<&str>, bare: bool) -> Worktree {
    Worktree {
        path: path.to_string(),
        head: "0123456789abcdef".to_string(),
        branch: branch.map(|b| b.to_string()),
        bare,
    }
}

fn gh_pr(state: &str, url: &str, title: &str, draft: bool) -> PullRequest {
    PullRequest {
        number: 5,
        title: title.to_string(),
        state: state.to_string(),
        html_url: url.to_string(),
        draft,
    }
}

fn info(url: &str, status: &str, title: &str) -> PullRequestInfo {
    PullRequestInfo {
        url: url.to_string(),
        status: status.to_string(),
        title: title.to_string(),
    }
}

#[test]
fn github_status_normalization() {
    assert_eq!(normalize_github_status("open", true), "DRAFT");
    assert_eq!(normalize_github_status("OPEN", false), "OPEN");
    assert_eq!(normalize_github_status("Closed", false), "CLOSED");
    assert_eq!(normalize_github_status("merged", false), "MERGED");
    assert_eq!(normalize_github_status("superseded", false), "SUPERSEDED");
}

#[test]
fn github_selection_takes_the_first_entry() {
    assert!(select_github_pr(&Vec::new()).is_none());
    let prs = vec![
        gh_pr("open", "https://github.com/o/r/pull/5", "First", false),
        gh_pr("closed", "https://github.com/o/r/pull/4", "Second", false),
    ];
    let picked = select_github_pr(&prs).unwrap();
    assert_eq!(picked.url, "https://github.com/o/r/pull/5");
    assert_eq!(picked.status, "OPEN");
    assert_eq!(picked.title, "First");
}

fn bb_pr(branch: &str, state: &str, href: Option<&str>) -> BitbucketPullRequest {
    let repo = BitbucketRepository {
        name: "r".to_string(),
        full_name: "ws/r".to_string(),
        uuid: "u".to_string(),
    };
    BitbucketPullRequest {
        id: 7,
        title: "A title".to_string(),
        state: state.to_string(),
        author: BitbucketUser {
            display_name: "Dev".to_string(),
            uuid: "u2".to_string(),
            nickname: None,
        },
        source: BitbucketSource {
            branch: BitbucketBranch { name: branch.to_string() },
            repository: repo.clone(),
        },
        destination: BitbucketDestination {
            branch: BitbucketBranch { name: "main".to_string() },
            repository: repo,
        },
        created_on: "2024-01-01".to_string(),
        updated_on: "2024-01-02".to_string(),
        html_href: href.map(|h| h.to_string()),
    }
}

#[test]
fn cloud_selection_matches_the_source_branch() {
    let prs = vec![bb_pr("other", "OPEN", None), bb_pr("feature/x", "open", Some("https://bb/pr/7"))];
    let picked = select_bitbucket_cloud_pr(&prs, "feature/x").unwrap();
    assert_eq!(picked.url, "https://bb/pr/7");
    assert_eq!(picked.status, "OPEN");
    assert!(select_bitbucket_cloud_pr(&prs, "feature/y").is_none());
}

#[test]
fn cloud_url_falls_back_to_the_id() {
    assert_eq!(extract_bitbucket_cloud_url(&bb_pr("b", "OPEN", None)), "PR #7");
    assert_eq!(u64_to_string(0), "0");
    assert_eq!(u64_to_string(12345), "12345");
}

fn dc_pr(branch: &str, state: &str, href: Option<&str>) -> BitbucketDataCenterPullRequest {
    let repo = BitbucketDataCenterRepository {
        slug: "r".to_string(),
        name: "r".to_string(),
        id: 1,
        project: BitbucketDataCenterProject {
            key: "P".to_string(),
            name: "P".to_string(),
            id: 2,
        },
    };
    let mk_ref = |b: &str| BitbucketDataCenterPullRequestRef {
        id: format!("refs/heads/{}", b),
        display_id: b.to_string(),
        latest_commit: "c".to_string(),
        repository: repo.clone(),
    };
    BitbucketDataCenterPullRequest {
        id: 9,
        version: 1,
        title: "DC title".to_string(),
        description: None,
        state: state.to_string(),
        open: true,
        closed: false,
        author: BitbucketDataCenterUser {
            name: "dev".to_string(),
            display_name: "Dev".to_string(),
            email_address: None,
            id: 3,
            slug: "dev".to_string(),
        },
        from_ref: mk_ref(branch),
        to_ref: mk_ref("main"),
        created_date: 1,
        updated_date: 2,
        self_href: href.map(|h| h.to_string()),
    }
}

#[test]
fn data_center_selection_matches_the_from_ref() {
    let prs = vec![dc_pr("feature/x", "open", Some("https://dc/pr/9"))];
    let picked = select_bitbucket_data_center_pr(&prs, "feature/x").unwrap();
    assert_eq!(picked.url, "https://dc/pr/9");
    assert_eq!(picked.status, "OPEN");
    assert_eq!(picked.title, "DC title");
    assert!(select_bitbucket_data_center_pr(&prs, "other").is_none());
    assert_eq!(extract_bitbucket_data_center_url(&dc_pr("b", "OPEN", None)), "PR #9");
}

#[test]
fn pr_display_formatting() {
    let (line, title) = format_pr_display(Some(info("https://x/pr/1", "OPEN", "T")));
    assert_eq!(line, "https://x/pr/1 (OPEN)");
    assert_eq!(title, "T");
    let (line, title) = format_pr_display(None);
    assert_eq!(line, "-");
    assert_eq!(title, "");
}

#[test]
fn local_branches_skip_bare_and_detached() {
    let wts = vec![
        wt("/r/.bare", None, true),
        wt("/r/main", Some("refs/heads/main"), false),
        wt("/r/det", None, false),
        wt("/r/fx", Some("refs/heads/feature/x"), false),
    ];
    assert_eq!(local_branch_names(&wts), vec!["main", "feature/x"]);
}

#[test]
fn remote_filter_keeps_only_unknown_branches() {
    let all = vec![
        (gh_pr("OPEN", "https://g/p/1", "one", false), "main".to_string()),
        (gh_pr("OPEN", "https://g/p/2", "two", true), "feature/z".to_string()),
    ];
    let locals = vec!["main".to_string(), "feature/x".to_string()];
    let kept = filter_remote_prs(&all, &locals);
    assert_eq!(kept.len(), 1);
    assert_eq!(kept[0].branch, "feature/z");
    assert_eq!(kept[0].pr_info.status, "DRAFT");
    assert_eq!(kept[0].pr_info.url, "https://g/p/2");
    // partition invariant on this input: nothing kept is local
    for k in &kept {
        assert!(!locals.contains(&k.branch));
    }
}

#[test]
fn lookup_failures_stay_isolated() {
    let wts = vec![
        wt("/r/a", Some("refs/heads/a"), false),
        wt("/r/b", Some("refs/heads/b"), false),
        wt("/r/c", Some("refs/heads/c"), false),
    ];
    let ok = vec![
        Some(info("https://g/p/1", "OPEN", "one")),
        Some(info("https://g/p/2", "OPEN", "two")),
        Some(info("https://g/p/3", "OPEN", "three")),
    ];
    // the lookup for branch b failed and degraded to None
    let with_failure = vec![
        Some(info("https://g/p/1", "OPEN", "one")),
        None,
        Some(info("https://g/p/3", "OPEN", "three")),
    ];
    let rows_ok = assemble_matched(&wts, &ok);
    let rows_deg = assemble_matched(&wts, &with_failure);
    assert_eq!(rows_deg[0].branch, rows_ok[0].branch);
    assert_eq!(
        rows_deg[0].pr_info.as_ref().unwrap().url,
        rows_ok[0].pr_info.as_ref().unwrap().url
    );
    assert!(rows_deg[1].pr_info.is_none());
    assert_eq!(
        rows_deg[2].pr_info.as_ref().unwrap().url,
        rows_ok[2].pr_info.as_ref().unwrap().url
    );
}

#[test]
fn three_worktree_scenario() {
    let wts = vec![
        wt("/r/main", Some("refs/heads/main"), false),
        wt("/r/fx", Some("refs/heads/feature/x"), false),
        wt("/r/fy", Some("refs/heads/feature/y"), false),
    ];
    let lookups = vec![
        None,
        Some(info("https://github.com/o/r/pull/5", "OPEN", "Feature X")),
        None,
    ];
    let all_open = vec![
        (gh_pr("OPEN", "https://github.com/o/r/pull/5", "Feature X", false), "feature/x".to_string()),
        (gh_pr("OPEN", "https://github.com/o/r/pull/9", "Feature Z", false), "feature/z".to_string()),
    ];
    let result = reconcile(true, &wts, &lookups, &all_open);
    assert!(result.pr_info_available);
    assert_eq!(result.matched.len(), 3);
    assert_eq!(result.matched[0].branch, "main");
    assert!(result.matched[0].pr_info.is_none());
    assert_eq!(result.matched[1].branch, "feature/x");
    let fx = result.matched[1].pr_info.as_ref().unwrap();
    assert_eq!(fx.url, "https://github.com/o/r/pull/5");
    assert_eq!(fx.status, "OPEN");
    assert_eq!(result.matched[2].branch, "feature/y");
    assert!(result.matched[2].pr_info.is_none());
    assert_eq!(result.unmatched_remote.len(), 1);
    assert_eq!(result.unmatched_remote[0].branch, "feature/z");
    assert_eq!(result.unmatched_remote[0].pr_info.status, "OPEN");
}

#[test]
fn reconcile_without_pr_info_degrades_quietly() {
    let wts = vec![wt("/r/main", Some("refs/heads/main"), false)];
    let result = reconcile(false, &wts, &Vec::new(), &Vec::new());
    assert!(!result.pr_info_available);
    assert_eq!(result.matched.len(), 1);
    assert_eq!(result.matched[0].branch, "main");
    assert!(result.matched[0].pr_info.is_none());
    assert!(result.unmatched_remote.is_empty());
}
