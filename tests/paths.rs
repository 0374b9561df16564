use std::path::PathBuf;

use foreman::paths::ForemanPaths;

#[test]
fn root_dir() {
    let root = PathBuf::from("/foreman");
    let paths = ForemanPaths::new(root.to_str().unwrap().to_string());

    assert_eq!(PathBuf::from(paths.root_dir()), root);
}

#[test]
fn tools_dir() {
    let mut directory = PathBuf::from("/foreman");
    let paths = ForemanPaths::new(directory.to_str().unwrap().to_string());
    directory.push("tools");

    assert_eq!(directory, PathBuf::from(paths.tools_dir()));
}

#[test]
fn bin_dir() {
    let mut directory = PathBuf::from("/foreman");
    let paths = ForemanPaths::new(directory.to_str().unwrap().to_string());
    directory.push("bin");

    assert_eq!(directory, PathBuf::from(paths.bin_dir()));
}

#[test]
fn auth_store() {
    let mut directory = PathBuf::from("/foreman");
    let paths = ForemanPaths::new(directory.to_str().unwrap().to_string());
    directory.push("auth.toml");

    assert_eq!(directory, PathBuf::from(paths.auth_store()));
}

#[test]
fn user_config() {
    let mut directory = PathBuf::from("/foreman");
    let paths = ForemanPaths::new(directory.to_str().unwrap().to_string());
    directory.push("foreman.toml");

    assert_eq!(directory, PathBuf::from(paths.user_config()));
}

#[test]
fn index_file() {
    let mut directory = PathBuf::from("/foreman");
    let paths = ForemanPaths::new(directory.to_str().unwrap().to_string());
    directory.push("tool-cache.json");

    assert_eq!(directory, PathBuf::from(paths.index_file()));
}

#[test]
fn root_with_trailing_separator_gets_no_second_one() {
    let paths = ForemanPaths::new("/foreman/".to_string());
    assert_eq!(paths.tools_dir(), "/foreman/tools");
}

#[test]
fn create_all_lists_directories_and_default_files() {
    let paths = ForemanPaths::new("/foreman".to_string());
    let plan = paths.create_all();
    assert_eq!(plan.directories, vec!["/foreman", "/foreman/bin", "/foreman/tools"]);
    assert_eq!(plan.files_if_absent.len(), 2);
    assert_eq!(plan.files_if_absent[0].0, "/foreman/foreman.toml");
    assert_eq!(plan.files_if_absent[1].0, "/foreman/auth.toml");
}
