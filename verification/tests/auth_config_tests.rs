use gwt::bitbucket_data_center_auth::{
    BitbucketDataCenterAuth, DataCenterAuthConfigError,
};
use gwt::bitbucket_auth::BitbucketAuthConfigError;
use gwt::config::GitWorktreeConfig;

fn config_with(url: &str, source_control: &str) -> GitWorktreeConfig {
    GitWorktreeConfig {
        repository_url: url.to_string(),
        main_branch: "main".to_string(),
        source_control: source_control.to_string(),
        bitbucket_email: Some("test@example.com".to_string()),
        hooks: None,
    }
}

#[test]
fn test_bitbucket_data_center_auth_creation() {
    let auth = BitbucketDataCenterAuth::new(
        "PROJECT".to_string(),
        "repository".to_string(),
        "https://git.acmeorg.com".to_string(),
    );
    assert!(auth.is_ok());
}

#[test]
fn test_auth_structure() {
    let auth = BitbucketDataCenterAuth::new(
        "PROJ".to_string(),
        "repo".to_string(),
        "https://git.example.com".to_string(),
    );
    assert!(auth.is_ok());
}

#[test]
fn test_config_creation() {
    let config = GitWorktreeConfig::new(
        "git@github.com:test/repo.git".to_string(),
        "main".to_string(),
    );

    assert_eq!(config.repository_url, "git@github.com:test/repo.git");
    assert_eq!(config.main_branch, "main");
    assert!(config.hooks.is_some());

    let hooks = config.hooks.unwrap();
    assert!(hooks.post_add.is_some());
    assert!(hooks.post_remove.is_some());
    assert!(hooks.post_init.is_some());
}

#[test]
fn cloud_auth_resolution_from_config() {
    let c = config_with("https://bitbucket.org/ws/repo.git", "bitbucket-cloud");
    let (ws, repo, email) = gwt::bitbucket_auth::get_auth_from_config(Some(&c)).unwrap();
    assert_eq!(ws, "ws");
    assert_eq!(repo, "repo");
    assert_eq!(email, Some("test@example.com".to_string()));
}

#[test]
fn cloud_auth_resolution_errors() {
    assert_eq!(
        gwt::bitbucket_auth::get_auth_from_config(None),
        Err(BitbucketAuthConfigError::NoConfig)
    );
    let c = config_with("https://github.com/a/b", "bitbucket-cloud");
    assert_eq!(
        gwt::bitbucket_auth::get_auth_from_config(Some(&c)),
        Err(BitbucketAuthConfigError::NotBitbucket)
    );
    let c = config_with("https://bitbucket.org", "bitbucket-cloud");
    assert_eq!(
        gwt::bitbucket_auth::get_auth_from_config(Some(&c)),
        Err(BitbucketAuthConfigError::UrlParse)
    );
}

#[test]
fn data_center_auth_resolution_from_config() {
    let c = config_with("https://git.acmeorg.com/scm/PROJ/repo.git", "bitbucket-data-center");
    let (base, project, repo) =
        gwt::bitbucket_data_center_auth::get_auth_from_config(Some(&c)).unwrap();
    assert_eq!(base, "https://git.acmeorg.com");
    assert_eq!(project, "PROJ");
    assert_eq!(repo, "repo");

    // A GitHub-shaped URL is legal when the platform is explicitly
    // configured: the API base is derived from the domain instead.
    let c = config_with("https://github.com/acme/widgets.git", "bitbucket-data-center");
    let (base, project, repo) =
        gwt::bitbucket_data_center_auth::get_auth_from_config(Some(&c)).unwrap();
    assert_eq!(base, "https://github.com");
    assert_eq!(project, "acme");
    assert_eq!(repo, "widgets");
}

#[test]
fn data_center_auth_resolution_errors() {
    assert_eq!(
        gwt::bitbucket_data_center_auth::get_auth_from_config(None),
        Err(DataCenterAuthConfigError::NoConfig)
    );
    let c = config_with("https://git.acmeorg.com/scm/PROJ/repo", "github");
    assert_eq!(
        gwt::bitbucket_data_center_auth::get_auth_from_config(Some(&c)),
        Err(DataCenterAuthConfigError::WrongSourceControl)
    );
    let c = config_with("ftp:!!nonsense", "bitbucket-data-center");
    assert_eq!(
        gwt::bitbucket_data_center_auth::get_auth_from_config(Some(&c)),
        Err(DataCenterAuthConfigError::UrlParse)
    );
}

#[test]
fn main_branch_falls_back_in_order() {
    let c = config_with("https://github.com/a/b", "github");
    assert_eq!(gwt::config::get_main_branch(Some(&c), Some("master")), "main");
    assert_eq!(gwt::config::get_main_branch(None, Some("master")), "master");
    assert_eq!(gwt::config::get_main_branch(None, None), "main");
}
