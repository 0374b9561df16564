//! Semantic versions and requirements, as this library holds them.
//!
//! Parsing, printing, requirement matching and the order of versions are
//! semver's.

use vstd::prelude::*;
use vstd::string::*;

use crate::text::{has_prefix, str_starts_with};

verus! {

/// A semantic version: its numeric triple, whether it is a pre-release, and
/// its canonical text.
#[derive(Debug, Clone, PartialEq, Eq)]
pub struct Version {
    pub major: u64,
    pub minor: u64,
    pub patch: u64,
    pub prerelease: bool,
    /// The canonical rendering, pre-release and build metadata included.
    pub text: String,
}

/// The mathematical model of a version.
pub struct VersionModel {
    pub major: u64,
    pub minor: u64,
    pub patch: u64,
    pub prerelease: bool,
    pub text: Seq<char>,
}

impl Version {
    /// A copy of this version.
    pub fn duplicate(&self) -> (r: Version)
        ensures
            r == *self,
    {
        Version {
            major: self.major,
            minor: self.minor,
            patch: self.patch,
            prerelease: self.prerelease,
            text: self.text.clone(),
        }
    }
}

impl View for Version {
    type V = VersionModel;

    open spec fn view(&self) -> VersionModel {
        VersionModel {
            major: self.major,
            minor: self.minor,
            patch: self.patch,
            prerelease: self.prerelease,
            text: self.text@,
        }
    }
}

/// What semver makes of a version string: the numeric triple, whether it has
/// pre-release identifiers, and the canonical text; or the text of its parse
/// error.
pub uninterp spec fn semver_parse(s: Seq<char>) -> Result<(u64, u64, u64, bool, Seq<char>), Seq<char>>;

/// What semver makes of a requirement string: its canonical text, or the text of
/// its parse error.
pub uninterp spec fn semver_requirement(s: Seq<char>) -> Result<Seq<char>, Seq<char>>;

/// Whether the requirement written `req` accepts the version written `version`,
/// per semver; false where either does not parse.
pub uninterp spec fn semver_matches(req: Seq<char>, version: Seq<char>) -> bool;

/// The model of a parsed version as semver reports it.
pub open spec fn model_of(p: (u64, u64, u64, bool, Seq<char>)) -> VersionModel {
    VersionModel { major: p.0, minor: p.1, patch: p.2, prerelease: p.3, text: p.4 }
}

/// Relies on `semver::Version::parse`, its public numeric fields, whether its
/// `pre` is empty, its `Display` (for the canonical text), and on the
/// `Display` of its error.
#[verifier::external_body]
pub(crate) fn parse_semver(s: &str) -> (r: Result<Version, String>)
    ensures
        match (r, semver_parse(s@)) {
            (Ok(v), Ok(p)) => v@ == model_of(p),
            (Err(e), Err(m)) => e@ == m,
            _ => false,
        },
{
    match semver::Version::parse(s) {
        Ok(v) => Ok(Version {
            major: v.major,
            minor: v.minor,
            patch: v.patch,
            prerelease: !v.pre.is_empty(),
            text: v.to_string(),
        }),
        Err(e) => Err(e.to_string()),
    }
}

/// Relies on `semver::VersionReq::parse` and the `Display` of the requirement
/// and of the error.
#[verifier::external_body]
pub(crate) fn parse_requirement(s: &str) -> (r: Result<String, String>)
    ensures
        match (r, semver_requirement(s@)) {
            (Ok(t), Ok(m)) => t@ == m,
            (Err(e), Err(m)) => e@ == m,
            _ => false,
        },
{
    match semver::VersionReq::parse(s) {
        Ok(req) => Ok(req.to_string()),
        Err(e) => Err(e.to_string()),
    }
}

/// Relies on `semver::VersionReq::matches`, on the parsed requirement and
/// version.
#[verifier::external_body]
pub(crate) fn requirement_matches(req: &str, version: &str) -> (r: bool)
    ensures
        r == semver_matches(req@, version@),
{
    match (semver::VersionReq::parse(req), semver::Version::parse(version)) {
        (Ok(req), Ok(v)) => req.matches(&v),
        _ => false,
    }
}

/// Reads a version exactly as semver writes it, without a leading `v`.
pub fn parse_version(text: &str) -> (r: Result<Version, String>)
    ensures
        match (r, semver_parse(text@)) {
            (Ok(v), Ok(p)) => v@ == model_of(p),
            (Err(e), Err(m)) => e@ == m,
            _ => false,
        },
{
    parse_semver(text)
}

/// The version that a release tag names: the tag itself if it parses,
/// otherwise the tag without a leading `v` if it has one and that parses.
pub open spec fn tag_version(tag: Seq<char>) -> Option<VersionModel> {
    match semver_parse(tag) {
        Ok(p) => Some(model_of(p)),
        Err(_) => if has_prefix(tag, seq!['v']) {
            match semver_parse(tag.drop_first()) {
                Ok(p) => Some(model_of(p)),
                Err(_) => None,
            }
        } else {
            None
        },
    }
}

/// Reads a release tag as a version, accepting an optional leading `v`.
pub fn parse_tag(tag: &str) -> (r: Option<Version>)
    ensures
        match (r, tag_version(tag@)) {
            (Some(v), Some(m)) => v@ == m,
            (None, None) => true,
            _ => false,
        },
{
    match parse_semver(tag) {
        Ok(v) => Some(v),
        Err(_) => {
            proof {
                reveal_strlit("v");
            }
            if str_starts_with(tag, "v") {
                assert("v"@ =~= seq!['v']);
                let rest = tag.substring_char(1, tag.unicode_len());
                assert(rest@ =~= tag@.drop_first());
                match parse_semver(rest) {
                    Ok(v) => Some(v),
                    Err(_) => None,
                }
            } else {
                assert("v"@ =~= seq!['v']);
                None
            }
        },
    }
}

/// Whether the version written `a` comes after the version written `b` in
/// semver's order (false where either does not parse).
pub uninterp spec fn semver_gt(a: Seq<char>, b: Seq<char>) -> bool;

/// Relies on `semver::Version::parse` and `Ord for semver::Version`, a total
/// order: `>` is asymmetric and transitive.
#[verifier::external_body]
pub(crate) fn version_gt(a: &Version, b: &Version) -> (r: bool)
    ensures
        r == semver_gt(a.text@, b.text@),
        r ==> !semver_gt(b.text@, a.text@),
        r ==> forall|x: Seq<char>| #[trigger] semver_gt(x, a.text@) ==> semver_gt(x, b.text@),
{
    match (semver::Version::parse(&a.text), semver::Version::parse(&b.text)) {
        (Ok(a), Ok(b)) => a > b,
        _ => false,
    }
}

/// Whether `version` meets the requirement written `req`.
pub fn version_matches(req: &str, version: &Version) -> (r: bool)
    ensures
        r == semver_matches(req@, version.text@),
{
    requirement_matches(req, version.text.as_str())
}

} // verus!
