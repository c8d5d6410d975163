use gwt::github::GitHubClient;
use gwt::bitbucket_api::{extract_bitbucket_info_from_url, is_bitbucket_repository};
use gwt::bitbucket_data_center_api::extract_bitbucket_data_center_info_from_url;
use gwt::bitbucket_data_center_auth::derive_api_base_url_from_repo_url;
use gwt::cli::Provider;
use gwt::provider::{
    detect, detect_provider_from_url, detect_repository_provider, providers_match,
    create_provider_error, extract_repo_name, DetectError,
};

#[test]
fn test_parse_github_url() {
    let test_cases = vec![
        (
            "https://github.com/owner/repo.git",
            Some(("owner".to_string(), "repo".to_string())),
        ),
        (
            "https://github.com/owner/repo",
            Some(("owner".to_string(), "repo".to_string())),
        ),
        (
            "git@github.com:owner/repo.git",
            Some(("owner".to_string(), "repo".to_string())),
        ),
        (
            "git@github.com:owner/repo",
            Some(("owner".to_string(), "repo".to_string())),
        ),
        ("https://gitlab.com/owner/repo", None),
    ];

    for (url, expected) in test_cases {
        assert_eq!(GitHubClient::parse_github_url(url), expected);
    }
}

#[test]
fn test_extract_bitbucket_info_https() {
    let url = "https://bitbucket.org/myworkspace/myrepo";
    let result = extract_bitbucket_info_from_url(url);
    assert_eq!(result, Some(("myworkspace".to_string(), "myrepo".to_string())));
}

#[test]
fn test_extract_bitbucket_info_https_git() {
    let url = "https://bitbucket.org/myworkspace/myrepo.git";
    let result = extract_bitbucket_info_from_url(url);
    assert_eq!(result, Some(("myworkspace".to_string(), "myrepo".to_string())));
}

#[test]
fn test_extract_bitbucket_info_ssh() {
    let url = "git@bitbucket.org:myworkspace/myrepo.git";
    let result = extract_bitbucket_info_from_url(url);
    assert_eq!(result, Some(("myworkspace".to_string(), "myrepo".to_string())));
}

#[test]
fn test_extract_bitbucket_info_invalid() {
    let url = "https://github.com/user/repo";
    let result = extract_bitbucket_info_from_url(url);
    assert_eq!(result, None);
}

#[test]
fn test_is_bitbucket_repository() {
    assert!(is_bitbucket_repository("https://bitbucket.org/workspace/repo"));
    assert!(is_bitbucket_repository("git@bitbucket.org:workspace/repo.git"));
    assert!(!is_bitbucket_repository("https://github.com/user/repo"));
}

#[test]
fn test_extract_bitbucket_data_center_info_scm() {
    let url = "https://git.acmeorg.com/scm/PROJ/repo";
    let result = extract_bitbucket_data_center_info_from_url(url);
    assert_eq!(result, Some((
        "https://git.acmeorg.com".to_string(),
        "PROJ".to_string(),
        "repo".to_string()
    )));
}

#[test]
fn test_extract_bitbucket_data_center_info_scm_git() {
    let url = "https://git.acmeorg.com/scm/PROJ/repo.git";
    let result = extract_bitbucket_data_center_info_from_url(url);
    assert_eq!(result, Some((
        "https://git.acmeorg.com".to_string(),
        "PROJ".to_string(),
        "repo".to_string()
    )));
}

#[test]
fn test_extract_bitbucket_data_center_info_projects() {
    let url = "https://git.acmeorg.com/projects/PROJ/repos/repo";
    let result = extract_bitbucket_data_center_info_from_url(url);
    assert_eq!(result, Some((
        "https://git.acmeorg.com".to_string(),
        "PROJ".to_string(),
        "repo".to_string()
    )));
}

#[test]
fn test_extract_bitbucket_data_center_info_ssh() {
    let url = "git@git.acmeorg.com:PROJ/repo.git";
    let result = extract_bitbucket_data_center_info_from_url(url);
    assert_eq!(result, Some((
        "https://git.acmeorg.com".to_string(),
        "PROJ".to_string(),
        "repo".to_string()
    )));
}

#[test]
fn test_extract_bitbucket_data_center_info_ssh_protocol() {
    let url = "ssh://git@git.acmeorg.com/PROJECT_ID/REPO_ID.git";
    let result = extract_bitbucket_data_center_info_from_url(url);
    assert_eq!(result, Some((
        "https://git.acmeorg.com".to_string(),
        "PROJECT_ID".to_string(),
        "REPO_ID".to_string()
    )));
}

#[test]
fn test_extract_bitbucket_data_center_info_invalid() {
    let url = "https://github.com/user/repo";
    let result = extract_bitbucket_data_center_info_from_url(url);
    assert_eq!(result, None);
}

#[test]
fn detection_is_deterministic_for_fixed_inputs() {
    let id = detect("https://github.com/acme/widgets.git", None).unwrap();
    assert_eq!(id.platform, Provider::Github);
    assert_eq!(id.primary_scope, "acme");
    assert_eq!(id.repo_slug, "widgets");
    assert_eq!(id.api_base, "https://api.github.com");

    let id = detect("git@bitbucket.org:acme/widgets.git", None).unwrap();
    assert_eq!(id.platform, Provider::BitbucketCloud);
    assert_eq!(id.primary_scope, "acme");
    assert_eq!(id.repo_slug, "widgets");
    assert_eq!(id.api_base, "https://api.bitbucket.org");

    let id = detect("https://git.acme.com/scm/WID/widgets.git", None).unwrap();
    assert_eq!(id.platform, Provider::BitbucketDataCenter);
    assert_eq!(id.primary_scope, "WID");
    assert_eq!(id.repo_slug, "widgets");
    assert_eq!(id.api_base, "https://git.acme.com");

    let err = detect("https://gitlab.com/acme/widgets", None).unwrap_err();
    assert_eq!(
        err,
        DetectError::Unrecognized { url: "https://gitlab.com/acme/widgets".to_string() }
    );
}

#[test]
fn detection_with_explicit_platform() {
    // An explicit platform wins over the URL-derived guess.
    let id = detect("https://github.com/acme/widgets.git", Some("github")).unwrap();
    assert_eq!(id.platform, Provider::Github);

    // Data Center resolution still derives its API base from the literal
    // Data Center URL shape when present.
    let id = detect(
        "https://git.acme.com/projects/WID/repos/widgets",
        Some("bitbucket-data-center"),
    )
    .unwrap();
    assert_eq!(id.platform, Provider::BitbucketDataCenter);
    assert_eq!(id.primary_scope, "WID");
    assert_eq!(id.repo_slug, "widgets");
    assert_eq!(id.api_base, "https://git.acme.com");

    // ... and falls back to generic host extraction for a GitHub-shaped
    // URL when the platform was explicitly configured.
    let id = detect("https://github.com/acme/widgets.git", Some("bitbucket-data-center"))
        .unwrap();
    assert_eq!(id.platform, Provider::BitbucketDataCenter);
    assert_eq!(id.primary_scope, "acme");
    assert_eq!(id.repo_slug, "widgets");
    assert_eq!(id.api_base, "https://github.com");
}

#[test]
fn detection_mismatch_is_a_hard_error() {
    // Cloud URL with a Data Center claim.
    let err = detect("https://bitbucket.org/acme/widgets", Some("bitbucket-data-center"))
        .unwrap_err();
    assert!(matches!(err, DetectError::PlatformMismatch { requested: Provider::BitbucketDataCenter, .. }));

    // Data-Center-shaped URL with a cloud claim.
    let err = detect("https://git.acme.com/scm/WID/widgets", Some("bitbucket-cloud"))
        .unwrap_err();
    assert!(matches!(err, DetectError::PlatformMismatch { requested: Provider::BitbucketCloud, .. }));
}

#[test]
fn provider_from_url_priority() {
    assert_eq!(
        detect_provider_from_url("https://github.com/a/b"),
        Some(Provider::Github)
    );
    assert_eq!(
        detect_provider_from_url("https://bitbucket.org/a/b"),
        Some(Provider::BitbucketCloud)
    );
    assert_eq!(
        detect_provider_from_url("https://git.acme.com/scm/WID/widgets.git"),
        Some(Provider::BitbucketDataCenter)
    );
    assert_eq!(
        detect_provider_from_url("https://git.acme.com/projects/WID/repos/widgets"),
        Some(Provider::BitbucketDataCenter)
    );
    assert_eq!(detect_provider_from_url("https://gitlab.com/a/b"), None);
}

#[test]
fn init_detection_recognizes_data_center_shapes() {
    let r = detect_repository_provider("https://git.acme.com/scm/WID/widgets.git", None);
    assert_eq!(r.unwrap(), Provider::BitbucketDataCenter);
}

#[test]
fn unrecognized_discriminator_falls_back_to_github_semantics() {
    // a garbage discriminator means GitHub semantics, so a cloud URL is
    // not resolved and enrichment degrades
    let err = detect("https://bitbucket.org/acme/widgets", Some("subversion")).unwrap_err();
    assert_eq!(
        err,
        DetectError::Unrecognized { url: "https://bitbucket.org/acme/widgets".to_string() }
    );
    let id = detect("https://github.com/acme/widgets.git", Some("subversion")).unwrap();
    assert_eq!(id.platform, Provider::Github);
    assert_eq!(id.primary_scope, "acme");
}

#[test]
fn explicit_provider_wins_in_init_detection() {
    let r = detect_repository_provider("https://github.com/a/b", Some(Provider::BitbucketCloud));
    assert_eq!(r.unwrap(), Provider::BitbucketCloud);
    let r = detect_repository_provider("https://gitlab.com/a/b", None);
    assert_eq!(
        r.unwrap_err(),
        create_provider_error("https://gitlab.com/a/b")
    );
    assert!(providers_match(&Provider::Github, &Provider::Github));
    assert!(!providers_match(&Provider::Github, &Provider::BitbucketCloud));
}

#[test]
fn repo_name_comes_from_the_last_segment() {
    assert_eq!(extract_repo_name("https://github.com/acme/widgets.git"), "widgets");
    assert_eq!(extract_repo_name("https://github.com/acme/widgets"), "widgets");
    assert_eq!(extract_repo_name("widgets.git"), "widgets");
}

#[test]
fn api_base_derivation_shapes() {
    assert_eq!(
        derive_api_base_url_from_repo_url("https://github.com/owner/repo.git"),
        Some("https://github.com".to_string())
    );
    assert_eq!(
        derive_api_base_url_from_repo_url("git@github.com:owner/repo.git"),
        Some("https://github.com".to_string())
    );
    assert_eq!(
        derive_api_base_url_from_repo_url("ssh://git@git.acme.com/owner/repo"),
        Some("https://git.acme.com".to_string())
    );
    assert_eq!(derive_api_base_url_from_repo_url("plain-text"), None);
}
