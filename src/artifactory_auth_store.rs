//! Credentials for artifact repositories, keyed by the repository's domain.

use vstd::prelude::*;
use vstd::string::*;

use crate::entries::{find_key, insert_or_replace, lookup};

verus! {

/// A user name and token for one repository.
#[derive(Debug, Clone, Default, PartialEq, Eq)]
pub struct Credentials {
    pub username: String,
    pub token: String,
}

/// Why the repository credentials file could not be used.
#[derive(Debug, Clone, PartialEq, Eq)]
pub enum ArtifactoryAuthError {
    FileParse { source: String, path: String },
    Read { source: String, path: String },
    Write { source: String, path: String },
}

impl ArtifactoryAuthError {
    pub fn auth_parsing(auth_path: String, source: String) -> (r: Self)
        ensures
            r == (ArtifactoryAuthError::FileParse { source, path: auth_path }),
    {
        ArtifactoryAuthError::FileParse { source, path: auth_path }
    }

    pub fn read_error(source: String, path: String) -> (r: Self)
        ensures
            r == (ArtifactoryAuthError::Read { source, path }),
    {
        ArtifactoryAuthError::Read { source, path }
    }

    pub fn write_error(source: String, path: String) -> (r: Self)
        ensures
            r == (ArtifactoryAuthError::Write { source, path }),
    {
        ArtifactoryAuthError::Write { source, path }
    }
}

/// The domain of the URL written `s`, per the url crate: none where it does
/// not parse or names no domain (an IP address, a file path).
pub uninterp spec fn url_domain(s: Seq<char>) -> Option<Seq<char>>;

/// Relies on `url::Url::parse` and `Url::domain`.
#[verifier::external_body]
fn domain_of(url: &str) -> (r: Option<String>)
    ensures
        match (r, url_domain(url@)) {
            (Some(d), Some(m)) => d@ == m,
            (None, None) => true,
            _ => false,
        },
{
    match url::Url::parse(url) {
        Ok(u) => u.domain().map(|d| d.to_string()),
        Err(_) => None,
    }
}

/// The stored repository credentials, by domain.
#[derive(Debug, Clone, Default, PartialEq, Eq)]
pub struct Tokens {
    pub tokens: Vec<(String, Credentials)>,
}

impl Tokens {
    /// The credentials stored for the domain of `url`.
    pub fn get_credentials(&self, url: &str) -> (r: Option<&Credentials>)
        ensures
            match url_domain(url@) {
                Some(d) => match (r, lookup(self.tokens@, d)) {
                    (Some(c), Some(m)) => *c == m,
                    (None, None) => true,
                    _ => false,
                },
                None => r is None,
            },
    {
        match domain_of(url) {
            Some(domain) => match find_key(&self.tokens, domain.as_str()) {
                Some(i) => Some(&self.tokens[i].1),
                None => None,
            },
            None => None,
        }
    }
}

/// The repository credentials that the manager writes.
#[derive(Debug, Clone, Default, PartialEq, Eq)]
pub struct ArtifactoryAuthStore {
    pub tokens: Vec<(String, Credentials)>,
}

impl ArtifactoryAuthStore {
    /// Stores `token`, with an empty user name, for the repository `key`;
    /// other repositories keep theirs.
    pub fn set_token(&mut self, key: &str, token: &str)
        ensures
            forall|k: Seq<char>|
                #[trigger] lookup(final(self).tokens@, k) == if k == key@ {
                    lookup(final(self).tokens@, key@)
                } else {
                    lookup(old(self).tokens@, k)
                },
            lookup(final(self).tokens@, key@) matches Some(c) && c.username@.len() == 0 && c.token@
                == token@,
    {
        let credentials = Credentials { username: String::new(), token: String::from_str(token) };
        insert_or_replace(&mut self.tokens, String::from_str(key), credentials);
    }
}

} // verus!
