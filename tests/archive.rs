use std::io::Write;

use foreman::archive::extract_executable;
use foreman::config::{Protocol, ToolSpec};
use foreman::error::ForemanError;
use foreman::version::{parse_version, Version};

fn tool() -> ToolSpec {
    ToolSpec {
        host: "https://github.com/".to_string(),
        path: "owner/toolA".to_string(),
        version: "^1.0".to_string(),
        protocol: Protocol::Github,
    }
}

fn version() -> Version {
    parse_version("1.1.0").unwrap()
}

#[test]
fn first_entry_is_the_executable() {
    let mut writer = zip::ZipWriter::new(std::io::Cursor::new(Vec::new()));
    let options = zip::write::SimpleFileOptions::default();
    writer.start_file("toolA", options).unwrap();
    writer.write_all(b"binary contents").unwrap();
    writer.start_file("LICENSE", options).unwrap();
    writer.write_all(b"license").unwrap();
    let archive = writer.finish().unwrap().into_inner();

    let executable = extract_executable(&tool(), &version(), &archive).unwrap();
    assert_eq!(executable, b"binary contents".to_vec());
}

#[test]
fn bytes_that_are_no_archive_are_an_invalid_asset() {
    let err = extract_executable(&tool(), &version(), &b"not a zip".to_vec()).unwrap_err();
    match err {
        ForemanError::InvalidReleaseAsset { tool: t, version: v, message } => {
            assert_eq!(t, tool());
            assert_eq!(v.text, "1.1.0");
            assert!(message.starts_with("unable to open zip archive ("));
            assert!(message.ends_with(')'));
        }
        other => panic!("unexpected error {:?}", other),
    }
}

#[test]
fn index_versions_are_read_strictly() {
    assert_eq!(parse_version("1.2.3").unwrap().text, "1.2.3");
    assert!(parse_version("v1.2.3").is_err());
    assert!(parse_version("1.2").is_err());
}
