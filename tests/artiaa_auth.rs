use foreman::artifactory_auth_store::{ArtifactoryAuthStore, Credentials, Tokens};

fn example_tokens() -> Tokens {
    Tokens {
        tokens: vec![
            (
                "example.com".to_string(),
                Credentials {
                    username: "example_user".to_string(),
                    token: "123456".to_string(),
                },
            ),
            (
                "artifactory.example.com".to_string(),
                Credentials {
                    username: "artifactory_user".to_string(),
                    token: "abcdef".to_string(),
                },
            ),
        ],
    }
}

#[test]
fn read_credential() {
    let tokens = example_tokens();

    assert_eq!(
        tokens.get_credentials("https://example.com").unwrap(),
        &Credentials {
            username: "example_user".to_string(),
            token: "123456".to_string(),
        }
    );
    assert_eq!(
        tokens.get_credentials("https://artifactory.example.com").unwrap(),
        &Credentials {
            username: "artifactory_user".to_string(),
            token: "abcdef".to_string(),
        }
    );
}

#[test]
fn read_with_domain() {
    let tokens = example_tokens();

    assert_eq!(
        tokens.get_credentials("https://example.com").unwrap(),
        &Credentials {
            username: "example_user".to_string(),
            token: "123456".to_string(),
        }
    )
}

#[test]
fn read_url_not_found() {
    let tokens = example_tokens();

    assert!(tokens.get_credentials("https://other-example.com").is_none())
}

#[test]
fn read_invalid_domain() {
    let tokens = example_tokens();

    assert!(tokens.get_credentials("file://path/to/file").is_none())
}

#[test]
fn set_token_replaces_and_adds() {
    let mut store = ArtifactoryAuthStore::default();
    store.set_token("https://a.example.com", "one");
    store.set_token("https://b.example.com", "two");
    store.set_token("https://a.example.com", "three");
    assert_eq!(store.tokens.len(), 2);
    assert_eq!(store.tokens[0].1.token, "three");
    assert_eq!(store.tokens[0].1.username, "");
    assert_eq!(store.tokens[1].1.token, "two");
}
