//! The directories and files under the tool root.

use vstd::prelude::*;
use vstd::string::*;

use crate::text::{concat, concat3};

verus! {

/// The manifest written under the root when none is there.
pub const DEFAULT_USER_CONFIG: &'static str = "# This file lists tools managed by Foreman, a version manager for command-line tools.\n# For more information, see https://github.com/Roblox/foreman\n\n# This is an example tool definition, which will install StyLua.\n# stylua = { github = \"JohnnyMorganz/StyLua\", version = \"0.11.3\" }\n\n[tools]\n";

/// The forge credentials file written under the root when none is there.
pub const DEFAULT_AUTH_CONFIG: &'static str = "# For authenticating with GitHub.com, put a personal access token here under the\n# `github` key. This is useful if you hit API rate limits or if you need to\n# access private tools.\n\n# github = \"YOUR_TOKEN_HERE\"\n\n# For authenticating with GitLab.com, put a personal access token here under the\n# `gitlab` key. This is useful if you hit API rate limits or if you need to\n# access private tools.\n\n# gitlab = \"YOUR_TOKEN_HERE\"\n";

/// The name of the variable that overrides the root directory.
pub const FOREMAN_PATH_ENV_VARIABLE: &'static str = "FOREMAN_HOME";

/// Relies on `std::path::MAIN_SEPARATOR_STR`, the host's path separator.
#[verifier::external_body]
fn main_separator() -> (r: &'static str)
    ensures
        r@ == seq!['/'] || r@ == seq!['\\'],
{
    std::path::MAIN_SEPARATOR_STR
}

/// The path of `name` inside the directory `dir`, as `PathBuf::push` forms it
/// for a relative `name`: the separator `sep` goes between the two unless
/// `dir` is empty or already ends with `/` or `sep`.
pub open spec fn child_path(dir: Seq<char>, name: Seq<char>, sep: Seq<char>) -> Seq<char> {
    if dir.len() == 0 || dir.last() == '/' || seq![dir.last()] == sep {
        dir + name
    } else {
        dir + sep + name
    }
}

/// The root directory of the tool manager and the paths derived from it.
#[derive(Debug, Clone, PartialEq, Eq)]
pub struct ForemanPaths {
    root_dir: String,
    separator: &'static str,
}

/// What `create_all` puts on disk: directories to create, then files to write
/// where no file exists yet.
#[derive(Debug, Clone, PartialEq, Eq)]
pub struct CreationPlan {
    pub directories: Vec<String>,
    pub files_if_absent: Vec<(String, String)>,
}

impl ForemanPaths {
    /// The root directory.
    pub closed spec fn root(&self) -> Seq<char> {
        self.root_dir@
    }

    /// The host's path separator.
    pub closed spec fn sep(&self) -> Seq<char> {
        self.separator@
    }

    /// The path of `name` under the root.
    pub open spec fn under_root(&self, name: Seq<char>) -> Seq<char> {
        child_path(self.root(), name, self.sep())
    }

    pub fn new(root_dir: String) -> (r: Self)
        ensures
            r.root() == root_dir@,
            r.sep() == seq!['/'] || r.sep() == seq!['\\'],
    {
        let separator = main_separator();
        ForemanPaths { root_dir, separator }
    }

    /// A copy of these paths.
    pub fn duplicate(&self) -> (r: ForemanPaths)
        ensures
            r == *self,
    {
        ForemanPaths { root_dir: self.root_dir.clone(), separator: self.separator }
    }

    pub fn root_dir(&self) -> (r: String)
        ensures
            r@ == self.root(),
    {
        owned_copy(&self.root_dir)
    }

    /// The path of `name` inside the directory `dir`.
    pub fn child_of(&self, dir: &str, name: &str) -> (r: String)
        ensures
            r@ == child_path(dir@, name@, self.sep()),
    {
        let n = dir.unicode_len();
        if n == 0 {
            return String::from_str(name);
        }
        let last = dir.get_char(n - 1);
        let ends_with_sep = self.separator.unicode_len() == 1 && self.separator.get_char(0) == last;
        assert(ends_with_sep == (seq![dir@.last()] == self.sep())) by {
            if self.sep().len() == 1 {
                assert(seq![dir@.last()][0] == dir@.last());
                if self.sep()[0] == last {
                    assert(seq![dir@.last()] =~= self.sep());
                }
            }
        }
        if last == '/' || ends_with_sep {
            concat(dir, name)
        } else {
            concat3(dir, self.separator, name)
        }
    }

    /// The path of `path` under the root.
    pub fn from_root(&self, path: &str) -> (r: String)
        ensures
            r@ == self.under_root(path@),
    {
        self.child_of(self.root_dir.as_str(), path)
    }

    pub fn tools_dir(&self) -> (r: String)
        ensures
            r@ == self.under_root("tools"@),
    {
        self.from_root("tools")
    }

    pub fn bin_dir(&self) -> (r: String)
        ensures
            r@ == self.under_root("bin"@),
    {
        self.from_root("bin")
    }

    pub fn auth_store(&self) -> (r: String)
        ensures
            r@ == self.under_root("auth.toml"@),
    {
        self.from_root("auth.toml")
    }

    pub fn user_config(&self) -> (r: String)
        ensures
            r@ == self.under_root("foreman.toml"@),
    {
        self.from_root("foreman.toml")
    }

    pub fn index_file(&self) -> (r: String)
        ensures
            r@ == self.under_root("tool-cache.json"@),
    {
        self.from_root("tool-cache.json")
    }

    pub fn artiaa_path(&self) -> (r: String)
        ensures
            r@ == self.under_root("artifactory-auth.json"@),
    {
        self.from_root("artifactory-auth.json")
    }

    /// The directories and default files that make up a fresh root: the root,
    /// `bin/` and `tools/`, then the default manifest and the default
    /// credentials file, each to be written only where absent.
    pub fn create_all(&self) -> (r: CreationPlan)
        ensures
            r.directories@.len() == 3,
            r.directories@[0]@ == self.root(),
            r.directories@[1]@ == self.under_root("bin"@),
            r.directories@[2]@ == self.under_root("tools"@),
            r.files_if_absent@.len() == 2,
            r.files_if_absent@[0].0@ == self.under_root("foreman.toml"@),
            r.files_if_absent@[0].1@ == DEFAULT_USER_CONFIG@,
            r.files_if_absent@[1].0@ == self.under_root("auth.toml"@),
            r.files_if_absent@[1].1@ == DEFAULT_AUTH_CONFIG@,
    {
        let mut directories: Vec<String> = Vec::new();
        directories.push(self.root_dir());
        directories.push(self.bin_dir());
        directories.push(self.tools_dir());
        let mut files_if_absent: Vec<(String, String)> = Vec::new();
        files_if_absent.push((self.user_config(), String::from_str(DEFAULT_USER_CONFIG)));
        files_if_absent.push((self.auth_store(), String::from_str(DEFAULT_AUTH_CONFIG)));
        CreationPlan { directories, files_if_absent }
    }
}

/// A copy of a string.
pub fn owned_copy(s: &String) -> (r: String)
    ensures
        r@ == s@,
{
    String::from_str(s.as_str())
}

} // verus!
