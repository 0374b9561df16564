use foreman::artifact_choosing::{choose_asset, platform_keywords};
use foreman::ci_string::CiString;
use foreman::config::{Protocol, ToolSpec};
use foreman::paths::ForemanPaths;
use foreman::release::{Release, ReleaseAsset};
use foreman::tool_cache::{
    select_release, sort_descending, tool_identifier_to_exe_name, ToolCache, ToolEntry,
};
use foreman::tool_provider::artifactory::{get_version_and_asset_name, group_releases};
use foreman::version::{parse_tag, Version};

fn asset(name: &str, url: &str) -> ReleaseAsset {
    ReleaseAsset {
        name: name.to_string(),
        url: url.to_string(),
    }
}

fn release(tag: &str, assets: Vec<ReleaseAsset>) -> Release {
    Release {
        tag_name: tag.to_string(),
        prerelease: false,
        assets,
    }
}

fn tool(path: &str, req: &str) -> ToolSpec {
    ToolSpec {
        host: "https://github.com/".to_string(),
        path: path.to_string(),
        version: req.to_string(),
        protocol: Protocol::Github,
    }
}

fn version(text: &str) -> Version {
    parse_tag(text).unwrap()
}

#[test]
fn select_correct_asset() {
    let release = Release {
        prerelease: false,
        tag_name: "v0.5.2".to_string(),
        assets: vec![
            ReleaseAsset {
                name: "tool-linux.zip".to_string(),
                url: "https://example.com/some/repo/releases/assets/1".to_string(),
            },
            ReleaseAsset {
                name: "tool-macos-arm64.zip".to_string(),
                url: "https://example.com/some/repo/releases/assets/2".to_string(),
            },
            ReleaseAsset {
                name: "tool-macos-x86_64.zip".to_string(),
                url: "https://example.com/some/repo/releases/assets/3".to_string(),
            },
            ReleaseAsset {
                name: "tool-win64.zip".to_string(),
                url: "https://example.com/some/repo/releases/assets/4".to_string(),
            },
        ],
    };
    assert_eq!(
        choose_asset(&release, &["win32", "win64", "windows"]),
        Some(3)
    );
    assert_eq!(
        choose_asset(
            &release,
            &["macos-x86_64", "darwin-x86_64", "macos", "darwin"]
        ),
        Some(2)
    );
    assert_eq!(
        choose_asset(
            &release,
            &[
                "macos-arm64",
                "darwin-arm64",
                "macos-x86_64",
                "darwin-x86_64",
                "macos",
                "darwin",
            ]
        ),
        Some(1)
    );
    assert_eq!(choose_asset(&release, &["linux"]), Some(0));
}

#[test]
fn platform_matcher_falls_back_to_x86_64_on_macos_arm64() {
    let release = release("v1.0.0", vec![asset("tool-macos-x86_64.zip", "u")]);
    let keywords = platform_keywords("macos", "aarch64");
    assert_eq!(choose_asset(&release, &keywords), Some(0));
    assert_eq!(choose_asset(&release, &platform_keywords("windows", "x86_64")), None);
}

#[test]
fn platform_tables() {
    assert_eq!(platform_keywords("windows", "x86_64"), vec!["win64", "windows-x86_64", "windows"]);
    assert_eq!(platform_keywords("linux", "x86_64"), vec!["linux-x86_64", "linux"]);
    assert_eq!(platform_keywords("linux", "aarch64"), vec!["linux-arm64", "linux-aarch64"]);
    assert_eq!(platform_keywords("linux", "riscv64"), vec!["linux"]);
    assert!(platform_keywords("plan9", "x86_64").is_empty());
}

#[test]
fn tags_with_and_without_v() {
    assert_eq!(parse_tag("1.2.3").unwrap().text, "1.2.3");
    let v = parse_tag("v1.2.3").unwrap();
    assert_eq!((v.major, v.minor, v.patch), (1, 2, 3));
    assert_eq!(v.text, "1.2.3");
    assert!(parse_tag("release-1.2.3").is_none());
    assert!(parse_tag("v1.2").is_none());
}

#[test]
fn executable_name_replaces_separators() {
    let t = tool("owner/toolA", "^1.0");
    assert_eq!(tool_identifier_to_exe_name(&t, &version("1.1.0"), ""), "owner__toolA-1.1.0");
    assert_eq!(tool_identifier_to_exe_name(&t, &version("1.1.0"), ".exe"), "owner__toolA-1.1.0.exe");
    let b = tool("a\\b", "^1.0");
    assert_eq!(tool_identifier_to_exe_name(&b, &version("2.0.0"), ""), "a__b-2.0.0");
}

#[test]
fn executable_path_is_under_tools() {
    let paths = ForemanPaths::new("/root".to_string());
    let cache = ToolCache::new(&paths);
    let t = tool("owner/toolA", "^1.0");
    assert_eq!(
        cache.get_tool_exe_path(&t, &version("1.1.0"), ""),
        "/root/tools/owner__toolA-1.1.0"
    );
}

fn linux_releases(tags: &[&str]) -> Vec<Release> {
    tags.iter()
        .map(|t| release(t, vec![asset("tool-linux.zip", &format!("https://x/{}", t))]))
        .collect()
}

#[test]
fn fresh_install_picks_greatest_matching() {
    let releases = linux_releases(&["v1.1.0", "v1.0.0", "v0.9.0"]);
    let keywords = platform_keywords("linux", "x86_64");
    let sel = select_release(&tool("owner/toolA", "^1.0"), &releases, &keywords).unwrap();
    assert_eq!(sel.version.text, "1.1.0");
    assert_eq!(sel.release_index, 0);
    assert_eq!(sel.asset_index, 0);
}

#[test]
fn server_order_is_not_trusted() {
    let releases = linux_releases(&["v1.0.0", "v0.9.0", "v1.1.0"]);
    let keywords = platform_keywords("linux", "x86_64");
    let sel = select_release(&tool("owner/toolA", "^1.0"), &releases, &keywords).unwrap();
    assert_eq!(sel.version.text, "1.1.0");
    assert_eq!(sel.release_index, 2);
}

#[test]
fn no_matching_version_lists_candidates() {
    let releases = linux_releases(&["v1.0.0", "v1.1.0"]);
    let keywords = platform_keywords("linux", "x86_64");
    let err = select_release(&tool("owner/toolA", "^2.0"), &releases, &keywords).unwrap_err();
    let texts: Vec<String> = err.into_iter().map(|v| v.text).collect();
    assert_eq!(texts, vec!["1.1.0", "1.0.0"]);
}

#[test]
fn releases_without_platform_asset_or_version_are_dropped() {
    let mut releases = linux_releases(&["v1.0.0", "nightly"]);
    releases.push(release("v1.5.0", vec![asset("tool-win64.zip", "u")]));
    let keywords = platform_keywords("linux", "x86_64");
    let err = select_release(&tool("owner/toolA", "^2.0"), &releases, &keywords).unwrap_err();
    let texts: Vec<String> = err.into_iter().map(|v| v.text).collect();
    assert_eq!(texts, vec!["1.0.0"]);
}

#[test]
fn sort_is_descending_and_stable() {
    let sorted = sort_descending(vec![version("0.9.0"), version("1.1.0"), version("1.0.0"), version("1.1.0")]);
    let texts: Vec<String> = sorted.into_iter().map(|v| v.text).collect();
    assert_eq!(texts, vec!["1.1.0", "1.1.0", "1.0.0", "0.9.0"]);
}

#[test]
fn cached_run_uses_greatest_installed_version() {
    let paths = ForemanPaths::new("/root".to_string());
    let mut cache = ToolCache::new(&paths);
    let t = tool("owner/toolA", "^1.0");
    assert!(cache.installed_version(&t).is_none());
    cache.record_install(&t, version("1.0.0"));
    cache.record_install(&t, version("1.1.0"));
    cache.record_install(&t, version("2.0.0"));
    cache.record_install(&t, version("1.1.0"));
    assert_eq!(cache.tools.len(), 1);
    assert_eq!(cache.tools[0].1.versions.len(), 3);
    assert_eq!(cache.installed_version(&t).unwrap().text, "1.1.0");
    let upper = tool("Owner/ToolA", "^2.0");
    assert_eq!(cache.installed_version(&upper).unwrap().text, "2.0.0");
    assert!(cache.installed_version(&tool("owner/toolA", "^3.0")).is_none());
}

#[test]
fn index_entries_are_found_up_to_case() {
    let paths = ForemanPaths::new("/root".to_string());
    let cache = ToolCache::from_entries(
        &paths,
        vec![(
            CiString::new("username/toolname"),
            ToolEntry {
                versions: vec![version("0.1.0")],
            },
        )],
    );
    assert_eq!(cache.find_tool(&CiString::new("UserName/ToolName")), Some(0));
    assert_eq!(cache.find_tool(&CiString::new("other/tool")), None);
}

#[test]
fn artifactory_uris_with_two_segments() {
    assert_eq!(
        get_version_and_asset_name("/1.0.0/tool-linux.zip"),
        Some(("1.0.0".to_string(), "tool-linux.zip".to_string()))
    );
    assert_eq!(get_version_and_asset_name("/1.0.0/sub/tool.zip"), None);
    assert_eq!(get_version_and_asset_name("/tool.zip"), None);
    assert_eq!(get_version_and_asset_name("1.0.0/tool.zip"), None);
}

#[test]
fn artifactory_listing_is_grouped_by_version() {
    let uris: Vec<String> = vec![
        "/1.0.0/tool-linux.zip".to_string(),
        "/1.0.0/tool-macos.zip".to_string(),
        "/bad".to_string(),
        "/2.0.0/tool-linux.zip".to_string(),
        "/2.0.0/extra/tool.zip".to_string(),
    ];
    let releases = group_releases("https://art.example.com/", "repo/tool", &uris);
    assert_eq!(releases.len(), 2);
    assert_eq!(releases[0].tag_name, "1.0.0");
    assert!(!releases[0].prerelease);
    assert_eq!(releases[0].assets.len(), 2);
    assert_eq!(
        releases[0].assets[1].url,
        "https://art.example.com/artifactory/repo/tool/1.0.0/tool-macos.zip"
    );
    assert_eq!(releases[1].tag_name, "2.0.0");
    assert_eq!(releases[1].assets.len(), 1);
}

#[test]
fn use_default_when_tool_cache_file_does_not_exist() {
    let paths = ForemanPaths::new("/foreman".to_string());

    let cache = ToolCache::load(&paths, None);

    assert_eq!(cache, ToolCache::new(&paths));
}

#[test]
fn reads_the_content_from_the_cache_file() {
    let paths = ForemanPaths::new("/foreman".to_string());

    let cache = ToolCache::load(
        &paths,
        Some(vec![(
            CiString::new("username/toolname"),
            ToolEntry {
                versions: vec![version("0.1.0")],
            },
        )]),
    );

    let mut expected_cache = ToolCache::new(&paths);
    expected_cache.tools.push((
        CiString("username/toolname".to_string()),
        ToolEntry {
            versions: vec![version("0.1.0")],
        },
    ));

    assert_eq!(cache, expected_cache);
}

#[test]
fn release_outranks_its_prereleases() {
    let releases = linux_releases(&["v1.0.0", "v1.0.0-beta.1"]);
    let keywords = platform_keywords("linux", "x86_64");
    let sel = select_release(&tool("owner/toolA", ">=1.0.0-beta.1"), &releases, &keywords).unwrap();
    assert_eq!(sel.version.text, "1.0.0");
    assert!(!sel.version.prerelease);
    let sorted = sort_descending(vec![version("1.0.0-rc.1"), version("1.0.0"), version("0.9.0")]);
    let texts: Vec<String> = sorted.into_iter().map(|v| v.text).collect();
    assert_eq!(texts, vec!["1.0.0", "1.0.0-rc.1", "0.9.0"]);
}

#[test]
fn fresh_install_then_cached_rerun() {
    let paths = ForemanPaths::new("/root".to_string());
    let mut cache = ToolCache::load(&paths, None);
    let t = tool("owner/toolA", "^1.0");
    assert!(cache.installed_version(&t).is_none());

    let releases = linux_releases(&["v1.1.0", "v1.0.0", "v0.9.0"]);
    let keywords = platform_keywords("linux", "x86_64");
    let sel = select_release(&t, &releases, &keywords).unwrap();
    assert_eq!(
        cache.get_tool_exe_path(&t, &sel.version, ""),
        "/root/tools/owner__toolA-1.1.0"
    );
    cache.record_install(&t, sel.version);

    assert_eq!(cache.tools.len(), 1);
    assert_eq!(cache.tools[0].0 .0, "owner/toolA");
    let texts: Vec<&str> = cache.tools[0].1.versions.iter().map(|v| v.text.as_str()).collect();
    assert_eq!(texts, vec!["1.1.0"]);

    assert_eq!(cache.installed_version(&t).unwrap().text, "1.1.0");
}

#[test]
fn macos_arm64_keywords_fall_back_to_x86_64() {
    assert_eq!(
        platform_keywords("macos", "aarch64"),
        vec!["macos-arm64", "darwin-arm64", "macos-x86_64", "darwin-x86_64", "macos", "darwin"]
    );
}

#[test]
fn prereleases_follow_semver_order() {
    let releases = linux_releases(&["v1.0.0-alpha", "v1.0.0-beta.11", "v1.0.0-beta.2"]);
    let keywords = platform_keywords("linux", "x86_64");
    let sel = select_release(&tool("owner/toolA", ">=1.0.0-alpha"), &releases, &keywords).unwrap();
    assert_eq!(sel.version.text, "1.0.0-beta.11");
    let sorted = sort_descending(vec![
        version("1.0.0-alpha"),
        version("1.0.0-beta.2"),
        version("1.0.0-beta.11"),
    ]);
    let texts: Vec<String> = sorted.into_iter().map(|v| v.text).collect();
    assert_eq!(texts, vec!["1.0.0-beta.11", "1.0.0-beta.2", "1.0.0-alpha"]);
}
