//! Credentials for the two forges, kept in a TOML file that edits preserve.

use vstd::prelude::*;
use vstd::string::*;

use crate::paths::DEFAULT_AUTH_CONFIG;

verus! {

/// The tokens for the two forges.
#[derive(Debug, Clone, Default, PartialEq, Eq)]
pub struct AuthStore {
    pub github: Option<String>,
    pub gitlab: Option<String>,
}

/// The TOML text `doc` with `key` set to the string `value`, comments, order
/// and formatting of the rest kept, per toml_edit; or the text of its parse
/// error.
pub uninterp spec fn toml_with_key(doc: Seq<char>, key: Seq<char>, value: Seq<char>) -> Result<Seq<char>, Seq<char>>;

/// Relies on toml_edit: parsing a `Document`, setting `doc[key] = value(token)`,
/// and printing the document back.
#[verifier::external_body]
fn set_toml_key(doc: &str, key: &str, value: &str) -> (r: Result<String, String>)
    ensures
        match (r, toml_with_key(doc@, key@, value@)) {
            (Ok(s), Ok(m)) => s@ == m,
            (Err(e), Err(m)) => e@ == m,
            _ => false,
        },
{
    match doc.parse::<toml_edit::Document>() {
        Ok(mut document) => {
            document[key] = toml_edit::value(value);
            Ok(document.to_string())
        },
        Err(e) => Err(e.to_string()),
    }
}

/// The credentials file with `key` set to `token`, starting from `contents`,
/// or from the default file where there is none.
pub open spec fn with_token(contents: Option<Seq<char>>, key: Seq<char>, token: Seq<char>) -> Result<Seq<char>, Seq<char>> {
    toml_with_key(
        match contents {
            Some(c) => c,
            None => DEFAULT_AUTH_CONFIG@,
        },
        key,
        token,
    )
}

impl AuthStore {
    /// The new text of the credentials file, now currently `contents`, with
    /// GitHub's token set to `token`; or the parse error.
    pub fn set_github_token(contents: Option<&str>, token: &str) -> (r: Result<String, String>)
        ensures
            match (r, with_token(match contents {
                Some(c) => Some(c@),
                None => None,
            }, "github"@, token@)) {
                (Ok(s), Ok(m)) => s@ == m,
                (Err(e), Err(m)) => e@ == m,
                _ => false,
            },
    {
        Self::set_token(contents, "github", token)
    }

    /// As `set_github_token`, for GitLab's token.
    pub fn set_gitlab_token(contents: Option<&str>, token: &str) -> (r: Result<String, String>)
        ensures
            match (r, with_token(match contents {
                Some(c) => Some(c@),
                None => None,
            }, "gitlab"@, token@)) {
                (Ok(s), Ok(m)) => s@ == m,
                (Err(e), Err(m)) => e@ == m,
                _ => false,
            },
    {
        Self::set_token(contents, "gitlab", token)
    }

    fn set_token(contents: Option<&str>, key: &str, token: &str) -> (r: Result<String, String>)
        ensures
            match (r, with_token(match contents {
                Some(c) => Some(c@),
                None => None,
            }, key@, token@)) {
                (Ok(s), Ok(m)) => s@ == m,
                (Err(e), Err(m)) => e@ == m,
                _ => false,
            },
    {
        match contents {
            Some(c) => set_toml_key(c, key, token),
            None => set_toml_key(DEFAULT_AUTH_CONFIG, key, token),
        }
    }
}

} // verus!
