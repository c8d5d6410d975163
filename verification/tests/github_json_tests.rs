use gwt::github::{parse_gh_pr_list, parse_gh_all_pr_list, GitHubClient};

#[test]
fn blank_listing_output_is_an_empty_list() {
    assert_eq!(parse_gh_pr_list("").unwrap().len(), 0);
    assert_eq!(parse_gh_pr_list("  \n\t ").unwrap().len(), 0);
    assert_eq!(parse_gh_all_pr_list("\n").unwrap().len(), 0);
}

#[test]
fn malformed_listing_output_is_rejected() {
    assert!(parse_gh_pr_list("not json").is_none());
    assert!(parse_gh_pr_list("{\"a\": 1}").is_none());
    assert!(parse_gh_all_pr_list("42").is_none());
}

#[test]
fn parses_the_per_branch_listing() {
    let stdout = "[{\"number\": 5, \"title\": \"Add widgets\", \"state\": \"OPEN\", \"url\": \"https://github.com/o/r/pull/5\", \"isDraft\": false}]";
    let prs = parse_gh_pr_list(stdout).unwrap();
    assert_eq!(prs.len(), 1);
    assert_eq!(prs[0].number, 5);
    assert_eq!(prs[0].title, "Add widgets");
    assert_eq!(prs[0].state, "OPEN");
    assert_eq!(prs[0].html_url, "https://github.com/o/r/pull/5");
    assert!(!prs[0].draft);
}

#[test]
fn absent_fields_fall_back_to_defaults() {
    let prs = parse_gh_pr_list("[{}]").unwrap();
    assert_eq!(prs.len(), 1);
    assert_eq!(prs[0].number, 0);
    assert_eq!(prs[0].title, "");
    assert!(!prs[0].draft);
}

#[test]
fn parses_the_full_open_listing_with_branches() {
    let stdout = "[{\"number\": 9, \"title\": \"Z\", \"state\": \"OPEN\", \"url\": \"https://github.com/o/r/pull/9\", \"isDraft\": true, \"headRefName\": \"feature/z\"}]";
    let prs = parse_gh_all_pr_list(stdout).unwrap();
    assert_eq!(prs.len(), 1);
    assert_eq!(prs[0].0.number, 9);
    assert!(prs[0].0.draft);
    assert_eq!(prs[0].1, "feature/z");
}

#[test]
fn client_reports_auth_from_its_token() {
    let c = GitHubClient::new(Some("t".to_string()));
    assert!(c.has_auth());
    let c = GitHubClient::new(None);
    assert!(!c.has_auth());
}
