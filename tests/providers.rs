use foreman::auth_store::AuthStore;
use foreman::tool_provider::artifactory::releases_url;
use foreman::tool_provider::{github_releases_url_of, gitlab_releases_url_of, next_page_url, Provider};

#[test]
fn forge_endpoints() {
    assert_eq!(
        github_releases_url_of("owner/tool"),
        "https://api.github.com/repos/owner/tool/releases?per_page=100"
    );
    assert_eq!(
        gitlab_releases_url_of("https://gitlab.com/", "group/project"),
        "https://gitlab.com/api/v4/projects/group%2Fproject/releases"
    );
    assert_eq!(
        releases_url("https://art.example.com/", "repo/tool"),
        "https://art.example.com/artifactory/api/storage/repo/tool"
    );
}

#[test]
fn provider_names() {
    assert_eq!(Provider::Github.to_string(), "GitHub");
    assert_eq!(Provider::Artifactory.to_string(), "Artifactory");
}

#[test]
fn auth_token_edit_keeps_comments() {
    let contents = "# my tokens\ngitlab = \"old\"\n";
    let updated = AuthStore::set_github_token(Some(contents), "abc").unwrap();
    assert!(updated.contains("# my tokens"));
    assert!(updated.contains("github = \"abc\""));
    assert!(updated.contains("gitlab = \"old\""));
    let fresh = AuthStore::set_gitlab_token(None, "xyz").unwrap();
    assert!(fresh.contains("gitlab = \"xyz\""));
    assert!(AuthStore::set_github_token(Some("not [valid"), "abc").is_err());
}

#[test]
fn link_header_next_page() {
    let header = "<https://api.github.com/repositories/1/releases?per_page=100&page=1>; rel=\"prev\", <https://api.github.com/repositories/1/releases?per_page=100&page=3>; rel=\"next\", <https://api.github.com/repositories/1/releases?per_page=100&page=5>; rel=\"last\"";
    assert_eq!(
        next_page_url(header),
        Some("https://api.github.com/repositories/1/releases?per_page=100&page=3".to_string())
    );
    let last_page = "<https://x/releases?page=1>; rel=\"first\", <https://x/releases?page=4>; rel=\"prev\"";
    assert_eq!(next_page_url(last_page), None);
    assert_eq!(next_page_url(""), None);
    assert_eq!(next_page_url("<https://x/2>; rel=\"next\""), Some("https://x/2".to_string()));
}
