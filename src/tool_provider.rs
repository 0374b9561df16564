//! The backends that releases are fetched from, and what the library
//! computes for them: endpoints and the grouping of listings.

use vstd::prelude::*;
use vstd::string::*;

use crate::config::{Protocol, ToolSpec};
use crate::paths::ForemanPaths;
use crate::text::{concat, concat3, contains, str_contains};

pub mod artifactory;

verus! {

/// The user agent that every request carries.
pub const USER_AGENT: &'static str = "Roblox/foreman";

/// The kind of backend a tool is fetched from.
#[derive(Debug, Clone, Copy, PartialEq, Eq, Hash, Structural)]
pub enum Provider {
    Github,
    Gitlab,
    Artifactory,
}

impl Provider {
    /// The provider's display name.
    pub fn to_string(&self) -> (r: &'static str)
        ensures
            r@ == match self {
                Provider::Github => "GitHub"@,
                Provider::Gitlab => "GitLab"@,
                Provider::Artifactory => "Artifactory"@,
            },
    {
        match self {
            Provider::Github => "GitHub",
            Provider::Gitlab => "GitLab",
            Provider::Artifactory => "Artifactory",
        }
    }
}

impl ToolSpec {
    /// The backend that serves the tool's protocol.
    pub fn provider(&self) -> (r: Provider)
        ensures
            r == match self@.protocol {
                Protocol::Github => Provider::Github,
                Protocol::Gitlab => Provider::Gitlab,
                Protocol::Artifactory => Provider::Artifactory,
            },
    {
        match self.protocol {
            Protocol::Github => Provider::Github,
            Protocol::Gitlab => Provider::Gitlab,
            Protocol::Artifactory => Provider::Artifactory,
        }
    }
}

/// Fetches tools from GitHub.
#[derive(Debug, Clone)]
pub struct GithubProvider {
    pub paths: ForemanPaths,
}

impl GithubProvider {
    pub fn new(paths: ForemanPaths) -> (r: Self)
        ensures
            r.paths == paths,
    {
        GithubProvider { paths }
    }
}

/// The endpoint that lists the releases of `repo` on GitHub, a hundred per
/// page.
pub open spec fn github_releases_url(repo: Seq<char>) -> Seq<char> {
    "https://api.github.com/repos/"@ + repo + "/releases?per_page=100"@
}

/// The URL of the first page of the release listing of `repo` on GitHub.
pub fn github_releases_url_of(repo: &str) -> (r: String)
    ensures
        r@ == github_releases_url(repo@),
{
    concat3("https://api.github.com/repos/", repo, "/releases?per_page=100")
}

/// The position of the first `c` in `s` from position `j` on.
pub open spec fn first_char_from(s: Seq<char>, c: char, j: int) -> Option<int>
    decreases s.len() - j,
{
    if j < 0 || j >= s.len() {
        None
    } else if s[j] == c {
        Some(j)
    } else {
        first_char_from(s, c, j + 1)
    }
}

/// The URL of one segment of a `Link` header, if its relation is `next`: the
/// text between its first `<` and the first `>` after it.
pub open spec fn next_link_of(segment: Seq<char>) -> Option<Seq<char>> {
    if !contains(segment, "rel=\"next\""@) {
        None
    } else {
        match first_char_from(segment, '<', 0) {
            None => None,
            Some(a) => match first_char_from(segment, '>', a + 1) {
                None => None,
                Some(b) => Some(segment.subrange(a + 1, b)),
            },
        }
    }
}

/// The next-page link of the comma-separated segments of `header` whose
/// current segment starts at `start`, scanning from position `i`.
pub open spec fn next_link_from(header: Seq<char>, start: int, i: int) -> Option<Seq<char>>
    decreases header.len() - i,
{
    if i >= header.len() || i < start || start < 0 {
        if 0 <= start <= header.len() {
            next_link_of(header.subrange(start, header.len() as int))
        } else {
            None
        }
    } else if header[i] == ',' {
        match next_link_of(header.subrange(start, i)) {
            Some(u) => Some(u),
            None => next_link_from(header, i + 1, i + 1),
        }
    } else {
        next_link_from(header, start, i + 1)
    }
}

/// The URL of the next page named by a `Link` header: that of the first
/// comma-separated segment with `rel="next"`.
pub open spec fn next_page(header: Seq<char>) -> Option<Seq<char>> {
    next_link_from(header, 0, 0)
}

fn find_char_from(s: &str, c: char, j: usize) -> (r: Option<usize>)
    requires
        j <= s@.len(),
    ensures
        match r {
            Some(k) => first_char_from(s@, c, j as int) == Some(k as int) && k < s@.len(),
            None => first_char_from(s@, c, j as int) is None,
        },
{
    let n = s.unicode_len();
    let mut k = j;
    while k < n
        invariant
            n == s@.len(),
            j <= k <= n,
            first_char_from(s@, c, j as int) == first_char_from(s@, c, k as int),
        decreases n - k,
    {
        if s.get_char(k) == c {
            return Some(k);
        }
        k = k + 1;
    }
    None
}

/// The next-page URL of one segment of a `Link` header.
fn next_link_of_segment(segment: &str) -> (r: Option<String>)
    ensures
        match (r, next_link_of(segment@)) {
            (Some(u), Some(m)) => u@ == m,
            (None, None) => true,
            _ => false,
        },
{
    if !str_contains(segment, "rel=\"next\"") {
        return None;
    }
    let n = segment.unicode_len();
    let a = match find_char_from(segment, '<', 0) {
        Some(a) => a,
        None => return None,
    };
    assert(a < n);
    let b = match find_char_from(segment, '>', a + 1) {
        Some(b) => b,
        None => return None,
    };
    proof {
        lemma_first_char_at_least(segment@, '>', a + 1);
    }
    Some(String::from_str(segment.substring_char(a + 1, b)))
}

proof fn lemma_first_char_at_least(s: Seq<char>, c: char, j: int)
    ensures
        first_char_from(s, c, j) matches Some(k) ==> j <= k,
    decreases s.len() - j,
{
    if 0 <= j < s.len() && s[j] != c {
        lemma_first_char_at_least(s, c, j + 1);
    }
}

/// The URL of the next page named by a `Link` header: the segments are split
/// at commas, and the first whose relation is `next` gives the URL between
/// its angle brackets.
pub fn next_page_url(header: &str) -> (r: Option<String>)
    ensures
        match (r, next_page(header@)) {
            (Some(u), Some(m)) => u@ == m,
            (None, None) => true,
            _ => false,
        },
{
    let n = header.unicode_len();
    let mut start: usize = 0;
    let mut i: usize = 0;
    while i < n
        invariant
            n == header@.len(),
            start <= i <= n,
            next_page(header@) == next_link_from(header@, start as int, i as int),
        decreases n - i,
    {
        if header.get_char(i) == ',' {
            let segment = header.substring_char(start, i);
            match next_link_of_segment(segment) {
                Some(u) => return Some(u),
                None => {},
            }
            start = i + 1;
        }
        i = i + 1;
    }
    let segment = header.substring_char(start, n);
    next_link_of_segment(segment)
}

/// Fetches tools from GitLab.
#[derive(Debug, Clone)]
pub struct GitlabProvider {
    pub paths: ForemanPaths,
}

impl GitlabProvider {
    pub fn new(paths: ForemanPaths) -> (r: Self)
        ensures
            r.paths == paths,
    {
        GitlabProvider { paths }
    }
}

/// `s` percent-encoded, every byte but ASCII alphanumerics and `-_.~` escaped.
pub uninterp spec fn url_encoded(s: Seq<char>) -> Seq<char>;

/// Relies on `urlencoding::encode`: the percent-encoding of `s`.
#[verifier::external_body]
fn encode_component(s: &str) -> (r: String)
    ensures
        r@ == url_encoded(s@),
{
    urlencoding::encode(s).into_owned()
}

/// The endpoint that lists the releases of project `repo` on the GitLab
/// instance at `host` (a URL ending in `/`).
pub open spec fn gitlab_releases_url(host: Seq<char>, repo: Seq<char>) -> Seq<char> {
    host + "api/v4/projects/"@ + url_encoded(repo) + "/releases"@
}

/// The URL of the release listing of `repo` on the GitLab instance at `host`.
pub fn gitlab_releases_url_of(host: &str, repo: &str) -> (r: String)
    ensures
        r@ == gitlab_releases_url(host@, repo@),
{
    let encoded = encode_component(repo);
    let head = concat(host, "api/v4/projects/");
    concat3(head.as_str(), encoded.as_str(), "/releases")
}

} // verus!
