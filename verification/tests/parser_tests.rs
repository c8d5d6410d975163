use gwt::git::{
    parse_worktree_list, list_worktrees, branch_exists, branch_query_args,
    choose_creation_strategy, worktree_add_args, add_worktree, remove_worktree, delete_branch,
    CreationStrategy, Worktree, get_branch_display, find_by_branch_name, find_by_path_name,
    find_worktree_by_branch, find_current_worktree, find_target_worktree,
};
use gwt::utils::clean_branch_name;
use gwt::bitbucket_api::{classify_http_status, ApiOutcome};

#[test]
fn parses_a_full_listing_in_order() {
    let listing = "worktree /repo/main\nHEAD 1111111111111111111111111111111111111111\nbranch refs/heads/main\n\nworktree /repo/feature-x\nHEAD 2222222222222222222222222222222222222222\nbranch refs/heads/feature/x\n";
    let wts = parse_worktree_list(listing);
    assert_eq!(wts.len(), 2);
    assert_eq!(wts[0].path, "/repo/main");
    assert_eq!(wts[0].head, "1111111111111111111111111111111111111111");
    assert_eq!(wts[0].branch, Some("refs/heads/main".to_string()));
    assert!(!wts[0].bare);
    assert_eq!(wts[1].path, "/repo/feature-x");
    assert_eq!(wts[1].branch, Some("refs/heads/feature/x".to_string()));
}

#[test]
fn parses_bare_and_detached_entries() {
    let listing = "worktree /repo/.bare\nHEAD 3333333333333333333333333333333333333333\nbare\nworktree /repo/detached\nHEAD 4444444444444444444444444444444444444444\n";
    let wts = parse_worktree_list(listing);
    assert_eq!(wts.len(), 2);
    assert!(wts[0].bare);
    assert_eq!(wts[0].branch, None);
    assert!(!wts[1].bare);
    // a missing branch line stays absent, never an empty string
    assert_eq!(wts[1].branch, None);
}

#[test]
fn drops_a_block_missing_its_head_line() {
    let listing = "worktree /repo/broken\nbranch refs/heads/lost\nworktree /repo/ok\nHEAD 5555555555555555555555555555555555555555\nbranch refs/heads/kept\n";
    let wts = parse_worktree_list(listing);
    assert_eq!(wts.len(), 1);
    assert_eq!(wts[0].path, "/repo/ok");
    assert_eq!(wts[0].branch, Some("refs/heads/kept".to_string()));
}

#[test]
fn ignores_unknown_porcelain_fields_and_empty_input() {
    assert_eq!(parse_worktree_list("").len(), 0);
    let listing = "worktree /w\nHEAD 6666666666666666666666666666666666666666\nlocked reason\nprunable gone\n";
    let wts = list_worktrees(listing);
    assert_eq!(wts.len(), 1);
    assert_eq!(wts[0].path, "/w");
}

#[test]
fn round_trips_synthetic_blocks() {
    let rendered = "worktree /a\nHEAD aaaa\nbranch refs/heads/one\nbare\nworktree /b\nHEAD bbbb";
    let wts = parse_worktree_list(rendered);
    assert_eq!(wts.len(), 2);
    assert_eq!(
        (wts[0].path.as_str(), wts[0].head.as_str(), wts[0].bare),
        ("/a", "aaaa", true)
    );
    assert_eq!(wts[0].branch.as_deref(), Some("refs/heads/one"));
    assert_eq!(
        (wts[1].path.as_str(), wts[1].head.as_str(), wts[1].branch.clone(), wts[1].bare),
        ("/b", "bbbb", None, false)
    );
}

#[test]
fn branch_existence_reads_the_two_listings() {
    assert_eq!(
        branch_exists(&Some("  feature/x\n".to_string()), &Some("".to_string())),
        (true, false)
    );
    assert_eq!(branch_exists(&None, &Some("origin/feature/x".to_string())), (false, true));
    assert_eq!(branch_exists(&None, &None), (false, false));
}

#[test]
fn branch_queries_use_the_conventional_remote() {
    let (local, remote) = branch_query_args("feature/x");
    assert_eq!(local, vec!["branch", "--list", "feature/x"]);
    assert_eq!(remote, vec!["branch", "-r", "--list", "origin/feature/x"]);
}

#[test]
fn creation_strategy_priority() {
    assert_eq!(choose_creation_strategy(true, false), CreationStrategy::CheckoutLocal);
    assert_eq!(choose_creation_strategy(true, true), CreationStrategy::CheckoutLocal);
    assert_eq!(choose_creation_strategy(false, true), CreationStrategy::TrackRemote);
    assert_eq!(choose_creation_strategy(false, false), CreationStrategy::BranchFromDefault);
}

#[test]
fn creation_argument_vectors() {
    assert_eq!(
        worktree_add_args(CreationStrategy::CheckoutLocal, "/p/b", "b", "main"),
        vec!["worktree", "add", "/p/b", "b"]
    );
    assert_eq!(
        worktree_add_args(CreationStrategy::TrackRemote, "/p/b", "b", "main"),
        vec!["worktree", "add", "/p/b", "-b", "b", "origin/b"]
    );
    assert_eq!(
        worktree_add_args(CreationStrategy::BranchFromDefault, "/p/b", "b", "main"),
        vec!["worktree", "add", "--no-track", "/p/b", "-b", "b", "origin/main"]
    );
}

#[test]
fn maintenance_argument_vectors() {
    assert_eq!(add_worktree("/p/b", "b", "origin/main"), vec![
        "worktree", "add", "/p/b", "-b", "b", "origin/main"
    ]);
    assert_eq!(remove_worktree("/p/b"), vec!["worktree", "remove", "/p/b", "--force"]);
    assert_eq!(delete_branch("b", false), vec!["branch", "-d", "b"]);
    assert_eq!(delete_branch("b", true), vec!["branch", "-D", "b"]);
}

#[test]
fn cleans_the_heads_namespace_prefix() {
    assert_eq!(clean_branch_name("refs/heads/feature/x"), "feature/x");
    assert_eq!(clean_branch_name("feature/x"), "feature/x");
    assert_eq!(gwt::list_helpers::clean_branch_name("refs/heads/main"), "main");
}

fn sample_worktrees() -> Vec<Worktree> {
    vec![
        Worktree {
            path: "/repo/.bare".to_string(),
            head: "000000000000".to_string(),
            branch: None,
            bare: true,
        },
        Worktree {
            path: "/repo/main".to_string(),
            head: "111111111111".to_string(),
            branch: Some("refs/heads/main".to_string()),
            bare: false,
        },
        Worktree {
            path: "/repo/feature-x".to_string(),
            head: "abcdef012345".to_string(),
            branch: Some("refs/heads/feature/x".to_string()),
            bare: false,
        },
        Worktree {
            path: "/repo/detached".to_string(),
            head: "fedcba987654".to_string(),
            branch: None,
            bare: false,
        },
    ]
}

#[test]
fn branch_display_names() {
    let wts = sample_worktrees();
    assert_eq!(get_branch_display(&wts[0]), "(bare)");
    assert_eq!(get_branch_display(&wts[1]), "main");
    assert_eq!(get_branch_display(&wts[2]), "feature/x");
    assert_eq!(get_branch_display(&wts[3]), "fedcba98");
}

#[test]
fn worktree_lookup_by_branch_and_path() {
    let wts = sample_worktrees();
    assert_eq!(find_by_branch_name(&wts, "feature/x"), Some(2));
    assert_eq!(find_by_branch_name(&wts, "nope"), None);
    assert_eq!(find_by_path_name(&wts, "feature-x"), Some(2));
    assert_eq!(find_by_path_name(&wts, "nope"), None);
    // branch name wins over directory name
    assert_eq!(find_worktree_by_branch(&wts, "main"), Some(1));
    assert_eq!(find_worktree_by_branch(&wts, "detached"), Some(3));
    assert_eq!(find_worktree_by_branch(&wts, "nope"), None);
}

#[test]
fn worktree_lookup_by_current_directory() {
    let wts = sample_worktrees();
    assert_eq!(find_current_worktree(&wts, "/repo/main/src/lib"), Some(1));
    assert_eq!(find_current_worktree(&wts, "/repo/mainline"), None);
    assert_eq!(find_target_worktree(&wts, None, "/repo/feature-x"), Some(2));
    assert_eq!(find_target_worktree(&wts, Some("main"), "/elsewhere"), Some(1));
    assert_eq!(find_target_worktree(&wts, Some("nope"), "/elsewhere"), None);
}

#[test]
fn default_branch_comes_trimmed() {
    assert_eq!(gwt::git::get_default_branch("main\n"), "main");
    assert_eq!(gwt::git::get_default_branch("  feature/x \t\n"), "feature/x");
    assert_eq!(gwt::git::get_default_branch(" \n\t "), "");
    assert_eq!(gwt::git::get_default_branch("develop"), "develop");
}

#[test]
fn ascii_case_mapping() {
    assert_eq!(gwt::text::ascii_uppercase("mixed Case-42"), "MIXED CASE-42");
    assert_eq!(gwt::text::ascii_lowercase("Mixed Case-42"), "mixed case-42");
}


#[test]
fn pr_lookup_needed_only_for_checked_out_rows() {
    let wts = sample_worktrees();
    assert!(!gwt::git::needs_pr_lookup(&wts[0]));
    assert!(gwt::git::needs_pr_lookup(&wts[1]));
    assert!(gwt::git::needs_pr_lookup(&wts[2]));
    assert!(gwt::git::needs_pr_lookup(&wts[3]));
}

#[test]
fn main_line_branches_are_preserved() {
    assert!(gwt::git::is_main_branch("main"));
    assert!(gwt::git::is_main_branch("master"));
    assert!(gwt::git::is_main_branch("dev"));
    assert!(gwt::git::is_main_branch("develop"));
    assert!(!gwt::git::is_main_branch("feature/x"));
}

#[test]
fn only_unmerged_failures_offer_a_forced_delete() {
    assert!(gwt::git::is_unmerged_delete_error(
        "error: the branch 'feature/x' is not fully merged"
    ));
    assert!(!gwt::git::is_unmerged_delete_error("error: branch 'x' not found"));
}

#[test]
fn http_statuses_sort_into_the_three_failures() {
    assert_eq!(classify_http_status(200), ApiOutcome::Success);
    assert_eq!(classify_http_status(204), ApiOutcome::Success);
    assert_eq!(classify_http_status(401), ApiOutcome::AuthFailure);
    assert_eq!(classify_http_status(404), ApiOutcome::NotFound);
    assert_eq!(classify_http_status(500), ApiOutcome::Failure);
    assert_eq!(classify_http_status(302), ApiOutcome::Failure);
}
