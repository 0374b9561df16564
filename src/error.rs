//! The errors of the tool manager.

use vstd::prelude::*;

use crate::config::ToolSpec;
use crate::text::concat3;
use crate::version::Version;

verus! {

/// A failure, with the path or the value that it concerns.
#[derive(Debug, Clone, PartialEq, Eq)]
pub enum ForemanError {
    /// An I/O failure, with the error's description and an optional message.
    IO { source: String, message: Option<String> },
    Read { source: String, path: String },
    CreateFile { source: String, path: String },
    Write { source: String, path: String },
    Copy { source: String, source_path: String, destination_path: String },
    SetPermissions { source: String, path: String },
    ConfigFileParse { source: String, path: String },
    AuthFileParse { source: String, path: String },
    ToolCacheParse { source: String, path: String },
    RequestFailed { source: String },
    UnexpectedResponseBody { source: String, response_body: String, url: String },
    NoCompatibleVersionFound { tool: ToolSpec, available_versions: Vec<Version> },
    InvalidReleaseAsset { tool: ToolSpec, version: Version, message: String },
    ToolNotInstalled { name: String, current_path: String },
    ToolsNotDownloaded { tools: Vec<String> },
}

impl ForemanError {
    pub fn io_error_with_context(source: String, message: String) -> (r: Self)
        ensures
            r == (ForemanError::IO { source, message: Some(message) }),
    {
        ForemanError::IO { source, message: Some(message) }
    }

    pub fn config_parsing(path: String, source: String) -> (r: Self)
        ensures
            r == (ForemanError::ConfigFileParse { source, path }),
    {
        ForemanError::ConfigFileParse { source, path }
    }

    pub fn auth_parsing(path: String, source: String) -> (r: Self)
        ensures
            r == (ForemanError::AuthFileParse { source, path }),
    {
        ForemanError::AuthFileParse { source, path }
    }

    pub fn tool_cache_parsing(path: String, source: String) -> (r: Self)
        ensures
            r == (ForemanError::ToolCacheParse { source, path }),
    {
        ForemanError::ToolCacheParse { source, path }
    }

    /// A one-line description: for an I/O failure `<message>: <source>` (or
    /// `io error: <source>`), for the others their first text field, or a
    /// fixed phrase where they have none.
    pub fn to_string(&self) -> (r: String)
        ensures
            r@ == error_text(*self),
    {
        match self {
            ForemanError::IO { source, message: Some(m) } => concat3(m.as_str(), ": ", source.as_str()),
            ForemanError::IO { source, message: None } => concat3("io error", ": ", source.as_str()),
            ForemanError::Read { source, .. } | ForemanError::CreateFile { source, .. }
            | ForemanError::Write { source, .. } | ForemanError::Copy { source, .. }
            | ForemanError::SetPermissions { source, .. } | ForemanError::ConfigFileParse {
                source,
                ..
            } | ForemanError::AuthFileParse { source, .. } | ForemanError::ToolCacheParse {
                source,
                ..
            } | ForemanError::RequestFailed { source } | ForemanError::UnexpectedResponseBody {
                source,
                ..
            } => String::from_str(source.as_str()),
            ForemanError::NoCompatibleVersionFound { .. } => String::from_str(
                "no compatible version found",
            ),
            ForemanError::InvalidReleaseAsset { message, .. } => String::from_str(message.as_str()),
            ForemanError::ToolNotInstalled { name, .. } => String::from_str(name.as_str()),
            ForemanError::ToolsNotDownloaded { .. } => String::from_str("tools not downloaded"),
        }
    }
}

/// The one-line description of a failure.
pub open spec fn error_text(e: ForemanError) -> Seq<char> {
    match e {
        ForemanError::IO { source, message: Some(m) } => m@ + ": "@ + source@,
        ForemanError::IO { source, message: None } => "io error"@ + ": "@ + source@,
        ForemanError::Read { source, .. } => source@,
        ForemanError::CreateFile { source, .. } => source@,
        ForemanError::Write { source, .. } => source@,
        ForemanError::Copy { source, .. } => source@,
        ForemanError::SetPermissions { source, .. } => source@,
        ForemanError::ConfigFileParse { source, .. } => source@,
        ForemanError::AuthFileParse { source, .. } => source@,
        ForemanError::ToolCacheParse { source, .. } => source@,
        ForemanError::RequestFailed { source } => source@,
        ForemanError::UnexpectedResponseBody { source, .. } => source@,
        ForemanError::NoCompatibleVersionFound { .. } => "no compatible version found"@,
        ForemanError::InvalidReleaseAsset { message, .. } => message@,
        ForemanError::ToolNotInstalled { name, .. } => name@,
        ForemanError::ToolsNotDownloaded { .. } => "tools not downloaded"@,
    }
}

} // verus!
