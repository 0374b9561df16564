use foreman::artifactory_path::generate_artifactory_path;

#[test]
fn simple_path() {
    let path = generate_artifactory_path("repo", "tool_name", "v0.1.0", "macos", None).unwrap();
    assert_eq!(
        path,
        "artifactory/repo/tool_name/v0.1.0/tool_name-v0.1.0-macos.zip"
    );
}

#[test]
fn simple_path_with_arch() {
    let path = generate_artifactory_path("repo", "tool_name", "v0.1.0", "macos", Some("arm64"))
        .unwrap();
    assert_eq!(
        path,
        "artifactory/repo/tool_name/v0.1.0/tool_name-v0.1.0-macos-arm64.zip"
    );
}

#[test]
fn invalid_version_no_v() {
    let path = generate_artifactory_path("repo", "tool_name", "0.1.0", "macos", Some("arm64"))
        .unwrap_err();
    assert_eq!(
        path.to_string(),
        "Invalid version: 0.1.0. Versions must start with a v: Invalid Argument".to_string()
    );
}

#[test]
fn invalid_version_incomplete() {
    let path = generate_artifactory_path("repo", "tool_name", "v0.1", "macos", Some("arm64"))
        .unwrap_err();
    assert_eq!(
        path.to_string(),
        "Invalid version: v0.1. Error: unexpected end of input while parsing minor version number: Invalid Argument".to_string()
    );
}

#[test]
fn invalid_operating_system() {
    let path =
        generate_artifactory_path("repo", "tool_name", "v0.1.0", "fake_os", Some("arm64"))
            .unwrap_err();
    assert_eq!(
        path.to_string(),
        "Invalid operating system: fake_os. Please input a valid operating system: windows, macos, linux: Invalid Argument".to_string()
    );
}

#[test]
fn invalid_architecture() {
    let path =
        generate_artifactory_path("repo", "tool_name", "v0.1.0", "macos", Some("fake_arch"))
            .unwrap_err();
    assert_eq!(
        path.to_string(),
        "Invalid architecture: fake_arch. Please input a valid architecture: x86_64, arm64, aarch64, i686: Invalid Argument".to_string()
    );
}

#[test]
fn path_generator_scenario() {
    assert_eq!(
        generate_artifactory_path("repo", "t", "v0.1.0", "macos", Some("arm64")).unwrap(),
        "artifactory/repo/t/v0.1.0/t-v0.1.0-macos-arm64.zip"
    );
    assert!(generate_artifactory_path("repo", "t", "0.1.0", "macos", Some("arm64")).is_err());
    assert!(generate_artifactory_path("repo", "t", "v0.1", "macos", Some("arm64")).is_err());
    let err = generate_artifactory_path("repo", "t", "v0.1.0", "fake_os", Some("arm64")).unwrap_err();
    assert!(err.to_string().contains("windows, macos, linux"));
}
