use foreman::config::{
    ConfigFile, ConfigFileParseError, Host, Protocol, TomlDocument, TomlItem, TomlScalar,
    TomlSection, TomlValue, ToolSpec,
};

const GITHUB: &str = "https://github.com/";
const GITLAB: &str = "https://gitlab.com/";
const ARTIFACTORY: &str = "https://artifactory.com/";

fn item(value: &toml::Value) -> TomlItem {
    let model = match value {
        toml::Value::String(s) => TomlValue::Str(s.clone()),
        toml::Value::Table(t) => TomlValue::Table(
            t.iter()
                .map(|(k, v)| {
                    let scalar = match v {
                        toml::Value::String(s) => TomlScalar::Str(s.clone()),
                        _ => TomlScalar::Other,
                    };
                    (k.clone(), scalar)
                })
                .collect(),
        ),
        _ => TomlValue::Other,
    };
    TomlItem { value: model, text: value.to_string() }
}

fn document(value: &toml::Value) -> TomlDocument {
    let sections = match value {
        toml::Value::Table(t) => t
            .iter()
            .map(|(k, v)| {
                let section = match v {
                    toml::Value::Table(entries) => {
                        TomlSection::Table(entries.iter().map(|(k, v)| (k.clone(), item(v))).collect())
                    }
                    _ => TomlSection::Other,
                };
                (k.clone(), section)
            })
            .collect(),
        _ => Vec::new(),
    };
    TomlDocument { sections, text: value.to_string() }
}

fn table(entries: &[(&str, &str)]) -> TomlItem {
    let text: Vec<String> = entries.iter().map(|(k, v)| format!("{} = \"{}\"", k, v)).collect();
    let value: toml::Value = toml::from_str(&text.join("\n")).unwrap();
    item(&value)
}

fn spec(host: &str, path: &str, version: &str, protocol: Protocol) -> ToolSpec {
    ToolSpec {
        host: host.to_string(),
        path: path.to_string(),
        version: version.to_string(),
        protocol,
    }
}

fn default_hosts() -> Vec<(String, Host)> {
    ConfigFile::new_with_defaults().hosts
}

fn artifactory_host() -> Vec<(String, Host)> {
    let mut hosts = default_hosts();
    hosts.push((
        "artifactory".to_string(),
        Host::new(ARTIFACTORY.to_string(), Protocol::Artifactory),
    ));
    hosts
}

fn host_of<'a>(config: &'a ConfigFile, key: &str) -> Option<&'a Host> {
    config.hosts.iter().find(|(k, _)| k == key).map(|(_, h)| h)
}

fn tool_of<'a>(config: &'a ConfigFile, alias: &str) -> Option<&'a ToolSpec> {
    config.tools.iter().find(|(k, _)| k == alias).map(|(_, t)| t)
}

#[test]
fn github_from_source_field() {
    let value = table(&[("source", "user/repo"), ("version", "0.1.0")]);
    let github = ToolSpec::from_value(&value, &default_hosts()).unwrap();
    assert_eq!(github, spec(GITHUB, "user/repo", "^0.1.0", Protocol::Github));
}

#[test]
fn github_from_github_field() {
    let value = table(&[("github", "user/repo"), ("version", "0.1.0")]);
    let github = ToolSpec::from_value(&value, &default_hosts()).unwrap();
    assert_eq!(github, spec(GITHUB, "user/repo", "^0.1.0", Protocol::Github));
}

#[test]
fn gitlab_from_gitlab_field() {
    let value = table(&[("gitlab", "user/repo"), ("version", "0.1.0")]);
    let gitlab = ToolSpec::from_value(&value, &default_hosts()).unwrap();
    assert_eq!(gitlab, spec(GITLAB, "user/repo", "^0.1.0", Protocol::Gitlab));
}

#[test]
fn artifactory_from_artifactory_field() {
    let value = table(&[
        ("artifactory", "generic-rbx-local-tools/rotriever/"),
        ("version", "0.5.4"),
    ]);
    let artifactory = ToolSpec::from_value(&value, &artifactory_host()).unwrap();
    assert_eq!(
        artifactory,
        spec(
            "https://artifactory.com/",
            "generic-rbx-local-tools/rotriever/",
            "^0.5.4",
            Protocol::Artifactory
        )
    );
}

#[test]
fn host_artifactory() {
    let value = table(&[
        ("source", "https://artifactory.com"),
        ("protocol", "artifactory"),
    ]);
    let host = Host::from_value(&value).unwrap();
    assert_eq!(
        host,
        Host::new("https://artifactory.com/".to_string(), Protocol::Artifactory)
    );
}

#[test]
fn extraneous_fields_tools() {
    let value = table(&[
        ("rbx_artifactory", "generic-rbx-local-tools/rotriever/"),
        ("path", "generic-rbx-local-tools/rotriever/"),
        ("version", "0.5.4"),
    ]);
    let artifactory = ToolSpec::from_value(&value, &artifactory_host()).unwrap_err();
    assert_eq!(
        artifactory,
        ConfigFileParseError::Tool {
            tool: [
                r#"path = "generic-rbx-local-tools/rotriever/""#,
                r#"rbx_artifactory = "generic-rbx-local-tools/rotriever/""#,
                r#"version = "0.5.4""#,
                r#""#,
            ]
            .join("\n")
            .to_string()
        }
    )
}

#[test]
fn extraneous_fields_host() {
    let value = table(&[
        ("source", "https://artifactory.com"),
        ("protocol", "artifactory"),
        ("extra", "field"),
    ]);
    let err = Host::from_value(&value).unwrap_err();
    assert_eq!(
        err,
        ConfigFileParseError::Host {
            host: [
                r#"extra = "field""#,
                r#"protocol = "artifactory""#,
                r#"source = "https://artifactory.com""#,
                r#""#,
            ]
            .join("\n")
            .to_string()
        }
    )
}

#[test]
fn config_file_with_hosts() {
    let value: toml::Value = toml::from_str(&[
        r#"[hosts]"#,
        r#"artifactory = {source = "https://artifactory.com", protocol = "artifactory"}"#,
        r#""#,
        r#"[tools]"#,
        r#"tool = {artifactory = "path/to/tool", version = "1.0.0"}"#,
    ].join("\n"))
    .unwrap();
    let value = document(&value);

    let config = ConfigFile::from_value(&value).unwrap();
    assert_eq!(
        config.tools,
        vec![(
            "tool".to_string(),
            spec(
                "https://artifactory.com/",
                "path/to/tool",
                "^1.0.0",
                Protocol::Artifactory
            )
        )]
    );
    assert_eq!(
        host_of(&config, "artifactory"),
        Some(&Host::new(
            "https://artifactory.com/".to_string(),
            Protocol::Artifactory
        ))
    );
    assert_eq!(
        host_of(&config, "github"),
        Some(&Host::new(GITHUB.to_string(), Protocol::Github))
    );
}

#[test]
fn tool_cache_entry_is_backward_compatible() {
    let github = spec(GITHUB, "user/repo", "^7.0.0", Protocol::Github);
    assert_eq!(github.cache_key(), foreman::ci_string::CiString::new("user/repo"));
    assert_eq!(github.cache_key().0, "user/repo");
}

#[test]
fn tool_cache_entry_is_different_for_github_and_gitlab_identical_projects() {
    let github = spec(GITHUB, "user/repo", "^7.0.0", Protocol::Github);
    let gitlab = spec(GITLAB, "user/repo", "^7.0.0", Protocol::Gitlab);
    assert_ne!(github.cache_key(), gitlab.cache_key());
}

#[test]
fn cache_keys_of_the_three_protocols() {
    let artifactory = spec(ARTIFACTORY, "repo/tool", "^1.0.0", Protocol::Artifactory);
    assert_eq!(artifactory.cache_key().0, "https://artifactory.com/@repo/tool");
    let gitlab = spec(GITLAB, "User/Repo", "^1.0.0", Protocol::Gitlab);
    assert_eq!(gitlab.cache_key().0, "gitlab@User/Repo");
}

#[test]
fn cache_keys_ignore_case_only() {
    let upper = spec(GITHUB, "User/Repo", "^1.0.0", Protocol::Github);
    let lower = spec(GITHUB, "user/repo", "^1.0.0", Protocol::Github);
    assert_eq!(upper.cache_key(), lower.cache_key());
    let gitlab = spec(GITLAB, "user/repo", "^1.0.0", Protocol::Gitlab);
    assert_ne!(upper.cache_key(), gitlab.cache_key());
}

#[test]
fn tool_spec_display() {
    let github = spec(GITHUB, "user/repo", "^0.1.0", Protocol::Github);
    assert_eq!(github.to_string(), "github.com/user/repo@^0.1.0");
}

#[test]
fn missing_version_is_refused() {
    let value = table(&[("github", "user/repo")]);
    assert_eq!(
        ToolSpec::from_value(&value, &default_hosts()).unwrap_err(),
        ConfigFileParseError::Tool {
            tool: "github = \"user/repo\"\n".to_string()
        }
    );
}

#[test]
fn unknown_protocol_is_named() {
    let value = table(&[("source", "https://example.com"), ("protocol", "svn")]);
    assert_eq!(
        Host::from_value(&value).unwrap_err(),
        ConfigFileParseError::InvalidProtocol {
            protocol: "svn".to_string()
        }
    );
}

#[test]
fn manifest_without_tools_is_refused() {
    let value = TomlDocument { sections: vec![], text: String::new() };
    assert_eq!(
        ConfigFile::from_value(&value).unwrap_err(),
        ConfigFileParseError::MissingField {
            field: "tools".to_string()
        }
    );
}

fn manifest_with_stylua(version: &str) -> ConfigFile {
    let text = format!("[tools]\nstylua = {{ github = \"x/y\", version = \"{}\" }}\n", version);
    let value: toml::Value = toml::from_str(&text).unwrap();
    ConfigFile::from_value(&document(&value)).unwrap()
}

#[test]
fn failing_tool_reports_the_manifest() {
    let value: toml::Value =
        toml::from_str("[tools]\ntool = { invalid = \"roblox/tooling\", version = \"0.0.0\" }\n").unwrap();
    let err = ConfigFile::from_value(&document(&value)).unwrap_err();
    assert_eq!(err, ConfigFileParseError::Tool { tool: value.to_string() });
}

#[test]
fn failing_host_reports_the_manifest() {
    let value: toml::Value = toml::from_str(
        "[hosts]\nbad = { source = \"https://x.com\" }\n[tools]\n",
    )
    .unwrap();
    let err = ConfigFile::from_value(&document(&value)).unwrap_err();
    assert_eq!(err, ConfigFileParseError::Tool { tool: value.to_string() });
}

#[test]
fn custom_host_overrides_a_default_key() {
    let value: toml::Value = toml::from_str(
        "[hosts]\ngithub = { source = \"https://gitlab.example.com\", protocol = \"gitlab\" }\n[tools]\nt = { github = \"a/b\", version = \"1\" }\n",
    )
    .unwrap();
    let config = ConfigFile::from_value(&document(&value)).unwrap();
    let t = tool_of(&config, "t").unwrap();
    assert_eq!(t.protocol, Protocol::Gitlab);
    assert_eq!(t.host, "https://gitlab.example.com/");
    assert_eq!(config.hosts.len(), 3);
}

#[test]
fn manifest_precedence() {
    let chain = vec![
        manifest_with_stylua("0.1"),
        manifest_with_stylua("0.2"),
        manifest_with_stylua("0.3"),
    ];
    let config = ConfigFile::aggregate(chain);
    let stylua = tool_of(&config, "stylua").unwrap();
    assert_eq!(stylua.version(), "^0.1");
    assert_eq!(config.tools.len(), 1);
}

#[test]
fn fill_from_keeps_existing_and_adds_missing() {
    let mut config = manifest_with_stylua("0.1");
    let other = ConfigFile {
        tools: vec![
            (
                "stylua".to_string(),
                spec(GITHUB, "x/y", "^0.9", Protocol::Github),
            ),
            (
                "selene".to_string(),
                spec(GITHUB, "k/selene", "^0.2", Protocol::Github),
            ),
        ],
        hosts: vec![],
    };
    config.fill_from(other);
    assert_eq!(tool_of(&config, "stylua").unwrap().version(), "^0.1");
    assert_eq!(tool_of(&config, "selene").unwrap().version(), "^0.2");
}
