//! A per-project version manager for command-line tools: manifests, release
//! selection, the tool index and the naming of installed executables.

pub mod archive;
pub mod artifact_choosing;
pub mod artifactory_auth_store;
pub mod artifactory_path;
pub mod auth_store;
pub mod ci_string;
pub mod config;
pub mod entries;
pub mod error;
pub mod paths;
pub mod release;
pub mod text;
pub mod tool_provider;
pub mod tool_cache;
pub mod version;
