//! The canonical path of a tool's archive in an artifact repository.

use vstd::prelude::*;
use vstd::string::*;

use crate::error::ForemanError;
use crate::text::{concat, concat3, has_prefix, str_equal, str_starts_with};
use crate::version::{parse_semver, semver_parse};

verus! {

/// The description of the I/O error that every refusal carries.
pub const INVALID_ARGUMENT: &'static str = "Invalid Argument";

/// The operating systems a path may name.
pub open spec fn valid_os(os: Seq<char>) -> bool {
    os == "windows"@ || os == "macos"@ || os == "linux"@
}

/// The architectures a path may name.
pub open spec fn valid_arch(arch: Seq<char>) -> bool {
    arch == "x86_64"@ || arch == "arm64"@ || arch == "aarch64"@ || arch == "i686"@
}

/// The message that refuses an operating system.
pub open spec fn os_message(os: Seq<char>) -> Seq<char> {
    "Invalid operating system: "@ + os + ". Please input a valid operating system: windows, macos, linux"@
}

/// The message that refuses an architecture.
pub open spec fn arch_message(arch: Seq<char>) -> Seq<char> {
    "Invalid architecture: "@ + arch + ". Please input a valid architecture: x86_64, arm64, aarch64, i686"@
}

/// The message that refuses a version without a leading `v`.
pub open spec fn no_v_message(version: Seq<char>) -> Seq<char> {
    "Invalid version: "@ + version + ". Versions must start with a v"@
}

/// The message that refuses a version that semver does not read.
pub open spec fn bad_version_message(version: Seq<char>, err: Seq<char>) -> Seq<char> {
    "Invalid version: "@ + version + ". Error: "@ + err
}

/// The path itself: `artifactory/<repo>/<tool>/<version>/<tool>-<version>-<os>[-<arch>].zip`.
pub open spec fn artifact_path(
    repo: Seq<char>,
    tool: Seq<char>,
    version: Seq<char>,
    os: Seq<char>,
    arch: Option<Seq<char>>,
) -> Seq<char> {
    "artifactory/"@ + repo + "/"@ + tool + "/"@ + version + "/"@ + tool + "-"@ + version + "-"@ + os
        + match arch {
        Some(a) => "-"@ + a,
        None => Seq::empty(),
    } + ".zip"@
}

/// The message of the first check that the arguments fail, in the order
/// operating system, version, architecture; none where all pass.
pub open spec fn path_refusal(version: Seq<char>, os: Seq<char>, arch: Option<Seq<char>>) -> Option<Seq<char>> {
    if !valid_os(os) {
        Some(os_message(os))
    } else if !has_prefix(version, seq!['v']) {
        Some(no_v_message(version))
    } else if semver_parse(version.drop_first()) is Err {
        Some(bad_version_message(version, semver_parse(version.drop_first())->Err_0))
    } else {
        match arch {
            Some(a) => if !valid_arch(a) {
                Some(arch_message(a))
            } else {
                None
            },
            None => None,
        }
    }
}

fn refusal(message: String) -> (r: ForemanError)
    ensures
        r matches ForemanError::IO { source, message: Some(m) } && source@ == INVALID_ARGUMENT@
            && m@ == message@,
{
    ForemanError::io_error_with_context(String::from_str(INVALID_ARGUMENT), message)
}

/// The canonical path of a tool's archive, after checking the operating
/// system, the version (a `v` and then a semantic version) and the optional
/// architecture.
pub fn generate_artifactory_path(
    repo: &str,
    tool_name: &str,
    version: &str,
    operating_system: &str,
    architecture: Option<&str>,
) -> (r: Result<String, ForemanError>)
    ensures
        match (r, path_refusal(version@, operating_system@, match architecture {
            Some(a) => Some(a@),
            None => None,
        })) {
            (Ok(p), None) => p@ == artifact_path(repo@, tool_name@, version@, operating_system@, match architecture {
                Some(a) => Some(a@),
                None => None,
            }),
            (Err(e), Some(m)) => e matches ForemanError::IO { source, message: Some(msg) } && source@
                == INVALID_ARGUMENT@ && msg@ == m,
            _ => false,
        },
{
    proof {
        reveal_strlit("v");
    }
    assert("v"@ =~= seq!['v']);
    if !(str_equal(operating_system, "windows") || str_equal(operating_system, "macos") || str_equal(
        operating_system,
        "linux",
    )) {
        let m = concat3("Invalid operating system: ", operating_system, ". Please input a valid operating system: windows, macos, linux");
        return Err(refusal(m));
    }
    if !str_starts_with(version, "v") {
        let m = concat3("Invalid version: ", version, ". Versions must start with a v");
        return Err(refusal(m));
    }
    let rest = version.substring_char(1, version.unicode_len());
    assert(rest@ =~= version@.drop_first());
    match parse_semver(rest) {
        Ok(_) => {},
        Err(e) => {
            let head = concat3("Invalid version: ", version, ". Error: ");
            let m = concat(head.as_str(), e.as_str());
            return Err(refusal(m));
        },
    }
    let head = concat3("artifactory/", repo, "/");
    let head = concat3(head.as_str(), tool_name, "/");
    let head = concat3(head.as_str(), version, "/");
    let head = concat3(head.as_str(), tool_name, "-");
    let head = concat3(head.as_str(), version, "-");
    let mut path = concat(head.as_str(), operating_system);
    match architecture {
        Some(a) => {
            if !(str_equal(a, "x86_64") || str_equal(a, "arm64") || str_equal(a, "aarch64") || str_equal(a, "i686")) {
                let m = concat3("Invalid architecture: ", a, ". Please input a valid architecture: x86_64, arm64, aarch64, i686");
                return Err(refusal(m));
            }
            path = concat3(path.as_str(), "-", a);
        },
        None => {},
    }
    let path = concat(path.as_str(), ".zip");
    proof {
        let arch_part: Seq<char> = match architecture {
            Some(a) => "-"@ + a@,
            None => Seq::empty(),
        };
        assert(path@ =~= artifact_path(repo@, tool_name@, version@, operating_system@, match architecture {
            Some(a) => Some(a@),
            None => None,
        }));
    }
    Ok(path)
}

} // verus!
