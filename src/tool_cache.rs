//! The index of installed tools, version resolution against it, release
//! selection, and the naming of installed executables.

use vstd::prelude::*;
use vstd::string::*;

use crate::artifact_choosing::{choose_asset, chosen_asset, keyword_views};
use crate::ci_string::{ci_eq, folded, CiString};
use crate::config::{cache_key_text, ToolSpec, ToolSpecModel};
use crate::paths::{child_path, ForemanPaths};
use crate::release::{asset_names, Release};
use crate::text::concat3;
use crate::version::{version_matches, parse_tag, semver_gt, semver_matches, tag_version, version_gt, Version, VersionModel};

verus! {

/// `s` with every `/` and `\` replaced by `__`.
pub open spec fn replace_separators(s: Seq<char>) -> Seq<char>
    decreases s.len(),
{
    if s.len() == 0 {
        Seq::empty()
    } else if s.last() == '/' || s.last() == '\\' {
        replace_separators(s.drop_last()) + seq!['_', '_']
    } else {
        replace_separators(s.drop_last()).push(s.last())
    }
}

fn replace_separators_exec(s: &str) -> (r: String)
    ensures
        r@ == replace_separators(s@),
{
    let n = s.unicode_len();
    let mut r = String::from_str("");
    proof {
        reveal_strlit("");
        reveal_strlit("__");
    }
    let mut i: usize = 0;
    while i < n
        invariant
            n == s@.len(),
            i <= n,
            r@ == replace_separators(s@.subrange(0, i as int)),
        decreases n - i,
    {
        let c = s.get_char(i);
        assert(s@.subrange(0, i + 1).drop_last() =~= s@.subrange(0, i as int));
        proof {
            reveal_strlit("__");
        }
        if c == '/' || c == '\\' {
            r.append("__");
            assert("__"@ =~= seq!['_', '_']);
        } else {
            let piece = s.substring_char(i, i + 1);
            assert(piece@ =~= seq![c]);
            r.append(piece);
            assert(r@ =~= replace_separators(s@.subrange(0, i as int)).push(c));
        }
        i = i + 1;
    }
    assert(s@.subrange(0, n as int) =~= s@);
    r
}

/// The file name of an installed executable: the cache key, `-`, the version
/// and the host's executable suffix, with path separators replaced by `__`.
pub open spec fn exe_name(tool: ToolSpecModel, version: Seq<char>, exe_suffix: Seq<char>) -> Seq<char> {
    replace_separators(cache_key_text(tool) + "-"@ + version + exe_suffix)
}

/// The file name that version `version` of `tool` is installed under.
pub fn tool_identifier_to_exe_name(tool: &ToolSpec, version: &Version, exe_suffix: &str) -> (r: String)
    ensures
        r@ == exe_name(tool@, version.text@, exe_suffix@),
{
    let key = tool.cache_key();
    let joined = concat3(key.0.as_str(), "-", version.text.as_str());
    let full = crate::text::concat(joined.as_str(), exe_suffix);
    replace_separators_exec(full.as_str())
}

/// The installed versions of one tool.
#[derive(Debug, Clone, PartialEq, Eq)]
pub struct ToolEntry {
    pub versions: Vec<Version>,
}

/// The position of the first tool, from `j` on, whose key folds to `key`.
pub open spec fn tool_index_from(tools: Seq<(CiString, ToolEntry)>, key: Seq<char>, j: int) -> Option<int>
    decreases tools.len() - j,
{
    if j < 0 || j >= tools.len() {
        None
    } else if tools[j].0.key() == key {
        Some(j)
    } else {
        tool_index_from(tools, key, j + 1)
    }
}

/// Some version of `versions` has the text `text`.
pub open spec fn has_text(versions: Seq<Version>, text: Seq<char>) -> bool {
    exists|m: int| 0 <= m < versions.len() && #[trigger] versions[m].text@ == text
}

/// Where the index finds a tool, there is an entry.
pub proof fn lemma_tool_index_bounds(tools: Seq<(CiString, ToolEntry)>, key: Seq<char>, j: int)
    ensures
        tool_index_from(tools, key, j) matches Some(t) ==> 0 <= j <= t < tools.len()
            && tools[t].0.key() == key,
    decreases tools.len() - j,
{
    if 0 <= j < tools.len() && tools[j].0.key() != key {
        lemma_tool_index_bounds(tools, key, j + 1);
    }
}

/// The index finds the same entry in two lists whose keys agree.
pub proof fn lemma_tool_index_same_keys(a: Seq<(CiString, ToolEntry)>, b: Seq<(CiString, ToolEntry)>, key: Seq<char>, j: int)
    requires
        a.len() == b.len(),
        forall|k: int| 0 <= k < a.len() ==> (#[trigger] a[k]).0.key() == b[k].0.key(),
    ensures
        tool_index_from(a, key, j) == tool_index_from(b, key, j),
    decreases a.len() - j,
{
    if 0 <= j < a.len() {
        lemma_tool_index_same_keys(a, b, key, j + 1);
    }
}

/// A missing key is found at the end once an entry with it is added there.
pub proof fn lemma_tool_index_push(a: Seq<(CiString, ToolEntry)>, e: (CiString, ToolEntry), key: Seq<char>, j: int)
    requires
        0 <= j <= a.len(),
        tool_index_from(a, key, j) is None,
        e.0.key() == key,
    ensures
        tool_index_from(a.push(e), key, j) == Some(a.len() as int),
    decreases a.len() - j,
{
    if j < a.len() {
        assert(a.push(e)[j] == a[j]);
        lemma_tool_index_push(a, e, key, j + 1);
    } else {
        assert(a.push(e)[j] == e);
    }
}

/// `a` comes after `b` in semver's order.
pub open spec fn after(a: VersionModel, b: VersionModel) -> bool {
    semver_gt(a.text, b.text)
}

/// Version `i` of `versions` meets `req`, and no other version that meets it
/// comes after it.
pub open spec fn is_best_match(versions: Seq<Version>, req: Seq<char>, i: int) -> bool {
    &&& 0 <= i < versions.len()
    &&& semver_matches(req, versions[i].text@)
    &&& forall|j: int|
        0 <= j < versions.len() && semver_matches(req, #[trigger] versions[j].text@)
            && versions[j].text@ != versions[i].text@ ==> !after(versions[j]@, versions[i]@)
}

/// A tool installed once, at a version that meets the requirement, is run at
/// that version: it is the only best match of its entry.
pub proof fn lemma_single_install_is_found(versions: Seq<Version>, req: Seq<char>, v: Version)
    requires
        versions == seq![v],
        semver_matches(req, v.text@),
    ensures
        is_best_match(versions, req, 0),
        forall|i: int| is_best_match(versions, req, i) ==> i == 0,
{
}

/// No version of `versions` meets `req`.
pub open spec fn none_matches(versions: Seq<Version>, req: Seq<char>) -> bool {
    forall|j: int| 0 <= j < versions.len() ==> !semver_matches(req, #[trigger] versions[j].text@)
}

/// The greatest version that meets `req`, the first of equal ones.
pub fn best_matching_version(versions: &Vec<Version>, req: &str) -> (r: Option<usize>)
    ensures
        match r {
            Some(i) => is_best_match(versions@, req@, i as int),
            None => none_matches(versions@, req@),
        },
{
    let mut best: Option<usize> = None;
    let mut i: usize = 0;
    while i < versions.len()
        invariant
            i <= versions@.len(),
            match best {
                Some(b) => b < i && semver_matches(req@, versions@[b as int].text@) && forall|j: int|
                    0 <= j < i && semver_matches(req@, #[trigger] versions@[j].text@)
                        && versions@[j].text@ != versions@[b as int].text@ ==> !after(
                        versions@[j]@,
                        versions@[b as int]@,
                    ),
                None => forall|j: int| 0 <= j < i ==> !semver_matches(req@, #[trigger] versions@[j].text@),
            },
        decreases versions@.len() - i,
    {
        if version_matches(req, &versions[i]) {
            match best {
                Some(b) => {
                    if version_gt(&versions[i], &versions[b]) {
                        proof {
                            let ti = versions@[i as int].text@;
                            let tb = versions@[b as int].text@;
                            assert forall|j: int|
                                0 <= j < i + 1 && semver_matches(req@, #[trigger] versions@[j].text@)
                                    && versions@[j].text@ != ti implies !after(
                                    versions@[j]@,
                                    versions@[i as int]@,
                                ) by {
                                let tj = versions@[j].text@;
                                if tj == tb {
                                    assert(!semver_gt(tb, ti));
                                } else if semver_gt(tj, ti) {
                                    assert(semver_gt(tj, tb));
                                }
                            }
                        }
                        best = Some(i);
                    }
                },
                None => {
                    best = Some(i);
                },
            }
        }
        i = i + 1;
    }
    best
}

/// Release `r` is a candidate: its tag names a version and one of its assets
/// fits the platform keywords `kws`.
pub open spec fn is_candidate(releases: Seq<Release>, kws: Seq<Seq<char>>, r: int) -> bool {
    &&& 0 <= r < releases.len()
    &&& tag_version(releases[r].tag_name@) is Some
    &&& chosen_asset(asset_names(releases[r].assets@), kws) is Some
}

/// The version that candidate release `r` names.
pub open spec fn candidate_version(releases: Seq<Release>, r: int) -> VersionModel {
    tag_version(releases[r].tag_name@)->Some_0
}

/// The versions of the candidates among the first `n` releases, in order.
pub open spec fn candidate_versions(releases: Seq<Release>, kws: Seq<Seq<char>>, n: int) -> Seq<VersionModel>
    decreases n,
{
    if n <= 0 {
        Seq::empty()
    } else if is_candidate(releases, kws, n - 1) {
        candidate_versions(releases, kws, n - 1).push(candidate_version(releases, n - 1))
    } else {
        candidate_versions(releases, kws, n - 1)
    }
}

/// The models of a list of versions.
pub open spec fn models(vs: Seq<Version>) -> Seq<VersionModel> {
    vs.map_values(|v: Version| v@)
}

/// No version of the list comes after one before it.
pub open spec fn sorted_descending(vs: Seq<VersionModel>) -> bool {
    forall|a: int, b: int| 0 <= a < b < vs.len() ==> !after(#[trigger] vs[b], #[trigger] vs[a])
}

/// Sorts versions from greatest to least; equal ones keep their order.
pub fn sort_descending(versions: Vec<Version>) -> (r: Vec<Version>)
    ensures
        sorted_descending(models(r@)),
        models(r@).to_multiset() == models(versions@).to_multiset(),
{
    let ghost orig = versions@;
    let mut rest = versions;
    let mut out: Vec<Version> = Vec::new();
    let ghost mut i: int = 0;
    assert(models(out@) =~= models(orig.subrange(0, 0)));
    while rest.len() > 0
        invariant
            0 <= i <= orig.len(),
            rest@ == orig.subrange(i, orig.len() as int),
            sorted_descending(models(out@)),
            models(out@).to_multiset() == models(orig.subrange(0, i)).to_multiset(),
        decreases rest@.len(),
    {
        assert(rest@.len() == orig.len() - i);
        let v = rest.remove(0);
        assert(v == orig[i]);
        let mut p: usize = 0;
        while p < out.len()
            invariant
                p <= out@.len(),
                forall|k: int| 0 <= k < p ==> !after(v@, #[trigger] out@[k]@),
            ensures
                p <= out@.len(),
                forall|k: int| 0 <= k < p ==> !after(v@, #[trigger] out@[k]@),
                p < out@.len() ==> after(v@, out@[p as int]@),
                p < out@.len() ==> !semver_gt(out@[p as int].text@, v.text@),
                p < out@.len() ==> forall|x: Seq<char>|
                    #[trigger] semver_gt(x, v.text@) ==> semver_gt(x, out@[p as int].text@),
            decreases out@.len() - p,
        {
            if version_gt(&v, &out[p]) {
                break;
            }
            p = p + 1;
        }
        let ghost before = out@;
        let ghost vm = v@;
        out.insert(p, v);
        proof {
            assert(models(out@) =~= models(before).insert(p as int, vm));
            vstd::seq_lib::to_multiset_insert(models(before), p as int, vm);
            assert(orig.subrange(0, i + 1) =~= orig.subrange(0, i).push(orig[i]));
            assert(models(orig.subrange(0, i + 1)) =~= models(orig.subrange(0, i)).push(vm));
            vstd::seq_lib::to_multiset_build(models(orig.subrange(0, i)), vm);
            assert forall|a: int, b: int|
                0 <= a < b < out@.len() implies !after(
                    #[trigger] models(out@)[b],
                    #[trigger] models(out@)[a],
                ) by {
                assert(models(before)[0] == before[0]@ || before.len() == 0);
                if b < p {
                    assert(models(before)[b] == models(out@)[b]);
                    assert(models(before)[a] == models(out@)[a]);
                } else if b == p {
                    assert(out@[b]@ == vm);
                    assert(out@[a] == before[a]);
                } else if a < p {
                    assert(out@[b] == before[b - 1]);
                    assert(out@[a] == before[a]);
                    assert(models(before)[b - 1] == before[b - 1]@);
                    assert(models(before)[a] == before[a]@);
                } else if a == p {
                    assert(out@[b] == before[b - 1]);
                    assert(models(before)[b - 1] == before[b - 1]@);
                    assert(models(before)[p as int] == before[p as int]@);
                    assert(out@[a]@ == vm);
                    if b - 1 > p {
                        assert(!after(models(before)[b - 1], models(before)[p as int]));
                        if semver_gt(before[b - 1].text@, vm.text) {
                            assert(semver_gt(before[b - 1].text@, before[p as int].text@));
                        }
                    }
                } else {
                    assert(out@[b] == before[b - 1]);
                    assert(out@[a] == before[a - 1]);
                    assert(models(before)[b - 1] == before[b - 1]@);
                    assert(models(before)[a - 1] == before[a - 1]@);
                }
            }
            i = i + 1;
        }
        assert(rest@ =~= orig.subrange(i, orig.len() as int));
    }
    assert(orig.subrange(0, i) =~= orig);
    out
}

/// The release chosen for a tool: its version, its position and the position
/// of the asset to download.
#[derive(Debug, Clone, PartialEq, Eq)]
pub struct Selection {
    pub version: Version,
    pub release_index: usize,
    pub asset_index: usize,
}

/// Chooses among `releases` the one to install for `tool`: of the releases
/// whose tag names a version and which have an asset for the platform
/// keywords, the greatest version that meets the tool's requirement (the
/// first of equal ones). Where none meets it, the error lists the candidate
/// versions from greatest to least.
pub fn select_release(tool: &ToolSpec, releases: &Vec<Release>, platform_keywords: &[&str]) -> (r: Result<Selection, Vec<Version>>)
    ensures
        match r {
            Ok(sel) => {
                &&& is_candidate(releases@, keyword_views(platform_keywords@), sel.release_index as int)
                &&& sel.version@ == candidate_version(releases@, sel.release_index as int)
                &&& chosen_asset(asset_names(releases@[sel.release_index as int].assets@), keyword_views(platform_keywords@))
                    == Some(sel.asset_index as int)
                &&& semver_matches(tool@.version, sel.version.text@)
                &&& forall|j: int|
                    is_candidate(releases@, keyword_views(platform_keywords@), j) && semver_matches(
                        tool@.version,
                        #[trigger] candidate_version(releases@, j).text,
                    ) && candidate_version(releases@, j).text != sel.version.text@ ==> !after(
                        candidate_version(releases@, j),
                        sel.version@,
                    )
            },
            Err(list) => {
                &&& forall|j: int|
                    is_candidate(releases@, keyword_views(platform_keywords@), j) ==> !semver_matches(
                        tool@.version,
                        #[trigger] candidate_version(releases@, j).text,
                    )
                &&& sorted_descending(models(list@))
                &&& models(list@).to_multiset() == candidate_versions(
                    releases@,
                    keyword_views(platform_keywords@),
                    releases@.len() as int,
                ).to_multiset()
            },
        },
{
    let ghost kws = keyword_views(platform_keywords@);
    let mut versions: Vec<Version> = Vec::new();
    let mut release_of: Vec<usize> = Vec::new();
    let mut asset_of: Vec<usize> = Vec::new();
    let mut i: usize = 0;
    while i < releases.len()
        invariant
            kws == keyword_views(platform_keywords@),
            i <= releases@.len(),
            versions@.len() == release_of@.len(),
            versions@.len() == asset_of@.len(),
            models(versions@) == candidate_versions(releases@, kws, i as int),
            forall|k: int|
                0 <= k < versions@.len() ==> {
                    &&& release_of@[k] < i
                    &&& is_candidate(releases@, kws, #[trigger] release_of@[k] as int)
                    &&& versions@[k]@ == candidate_version(releases@, release_of@[k] as int)
                    &&& chosen_asset(asset_names(releases@[release_of@[k] as int].assets@), kws) == Some(
                        asset_of@[k] as int,
                    )
                },
            forall|j: int|
                0 <= j < i && is_candidate(releases@, kws, j) ==> exists|k: int|
                    0 <= k < versions@.len() && #[trigger] release_of@[k] == j,
        decreases releases@.len() - i,
    {
        let release = &releases[i];
        let tag = parse_tag(release.tag_name.as_str());
        let asset = choose_asset(release, platform_keywords);
        assert(is_candidate(releases@, kws, i as int) == (tag is Some && asset is Some));
        let ghost before = versions@;
        let ghost before_rel = release_of@;
        let ghost before_asset = asset_of@;
        match (tag, asset) {
            (Some(version), Some(asset_index)) => {
                versions.push(version);
                release_of.push(i);
                asset_of.push(asset_index);
                proof {
                    assert(models(versions@) =~= models(before).push(versions@.last()@));
                    assert(release_of@[release_of@.len() - 1] == i);
                    assert forall|k: int|
                        0 <= k < versions@.len() implies {
                            &&& release_of@[k] < i + 1
                            &&& is_candidate(releases@, kws, #[trigger] release_of@[k] as int)
                            &&& versions@[k]@ == candidate_version(releases@, release_of@[k] as int)
                            &&& chosen_asset(asset_names(releases@[release_of@[k] as int].assets@), kws) == Some(
                                asset_of@[k] as int,
                            )
                        } by {
                        if k < before.len() {
                            assert(release_of@[k] == before_rel[k]);
                            assert(asset_of@[k] == before_asset[k]);
                            assert(versions@[k] == before[k]);
                        }
                    }
                    assert forall|j: int|
                        0 <= j < i + 1 && is_candidate(releases@, kws, j) implies exists|k: int|
                            0 <= k < versions@.len() && #[trigger] release_of@[k] == j by {
                        if j == i {
                            assert(release_of@[release_of@.len() - 1] == i);
                        } else {
                            let k = choose|k: int| 0 <= k < before_rel.len() && #[trigger] before_rel[k] == j;
                            assert(release_of@[k] == before_rel[k]);
                        }
                    }
                }
            },
            _ => {
                assert(!is_candidate(releases@, kws, i as int));
            },
        }
        i = i + 1;
    }
    match best_matching_version(&versions, tool.version()) {
        Some(b) => {
            let release_index = release_of[b];
            let asset_index = asset_of[b];
            proof {
                assert forall|j: int|
                    is_candidate(releases@, kws, j) && semver_matches(
                        tool@.version,
                        #[trigger] candidate_version(releases@, j).text,
                    ) && candidate_version(releases@, j).text != versions@[b as int].text@ implies !after(
                        candidate_version(releases@, j),
                        versions@[b as int]@,
                    ) by {
                    let k = choose|k: int| 0 <= k < versions@.len() && #[trigger] release_of@[k] == j;
                    assert(versions@[k]@ == candidate_version(releases@, j));
                }
            }
            Ok(Selection { version: versions[b].duplicate(), release_index, asset_index })
        },
        None => {
            proof {
                assert forall|j: int|
                    is_candidate(releases@, kws, j) implies !semver_matches(
                        tool@.version,
                        #[trigger] candidate_version(releases@, j).text,
                    ) by {
                    let k = choose|k: int| 0 <= k < versions@.len() && #[trigger] release_of@[k] == j;
                    assert(versions@[k]@ == candidate_version(releases@, j));
                }
            }
            Err(sort_descending(versions))
        },
    }
}

/// The state of all tools this manager has installed.
#[derive(Debug, Clone, PartialEq)]
pub struct ToolCache {
    pub tools: Vec<(CiString, ToolEntry)>,
    pub paths: ForemanPaths,
}

impl ToolCache {
    /// An empty cache for the root `paths`.
    pub fn new(paths: &ForemanPaths) -> (r: ToolCache)
        ensures
            r.tools@.len() == 0,
            r.paths == *paths,
    {
        ToolCache { tools: Vec::new(), paths: paths.duplicate() }
    }

    /// The cache read from the index file: the index's entries where the file
    /// exists and parsed, an empty cache where there is no file.
    pub fn load(paths: &ForemanPaths, index: Option<Vec<(CiString, ToolEntry)>>) -> (r: ToolCache)
        ensures
            r.paths == *paths,
            match index {
                Some(tools) => r.tools@ == tools@,
                None => r.tools@.len() == 0,
            },
    {
        match index {
            Some(tools) => ToolCache::from_entries(paths, tools),
            None => ToolCache::new(paths),
        }
    }

    /// A cache holding `tools`, for the root `paths`.
    pub fn from_entries(paths: &ForemanPaths, tools: Vec<(CiString, ToolEntry)>) -> (r: ToolCache)
        ensures
            r.tools@ == tools@,
            r.paths == *paths,
    {
        ToolCache { tools, paths: paths.duplicate() }
    }

    pub fn paths(&self) -> (r: &ForemanPaths)
        ensures
            *r == self.paths,
    {
        &self.paths
    }

    /// The position of the entry of `tool`, where there is one.
    pub open spec fn installed_index(&self, tool: &ToolSpec) -> int {
        tool_index_from(self.tools@, folded(cache_key_text(tool@)), 0)->Some_0
    }

    /// The path that version `version` of `tool` is installed at:
    /// `tools/<exe name>` under the root.
    pub fn get_tool_exe_path(&self, tool: &ToolSpec, version: &Version, exe_suffix: &str) -> (r: String)
        ensures
            r@ == child_path(
                self.paths.under_root("tools"@),
                exe_name(tool@, version.text@, exe_suffix@),
                self.paths.sep(),
            ),
    {
        let dir = self.paths.tools_dir();
        let name = tool_identifier_to_exe_name(tool, version, exe_suffix);
        self.paths.child_of(dir.as_str(), name.as_str())
    }

    /// Records that version `version` of `tool` is installed: the tool's entry
    /// (created where missing) holds a version with that text, keeps the
    /// versions it had, and no other entry changes.
    pub fn record_install(&mut self, tool: &ToolSpec, version: Version)
        ensures
            final(self).paths == old(self).paths,
            final(self).tools@.len() >= old(self).tools@.len(),
            tool_index_from(final(self).tools@, folded(cache_key_text(tool@)), 0) is Some,
            exists|i: int|
                0 <= i < final(self).tools@[final(self).installed_index(tool)].1.versions@.len()
                    && #[trigger] final(self).tools@[final(self).installed_index(tool)].1.versions@[i].text@
                    == version.text@,
            final(self).installed_index(tool) < old(self).tools@.len() ==> forall|i: int|
                0 <= i < old(self).tools@[final(self).installed_index(tool)].1.versions@.len() ==> exists|k: int|
                    0 <= k < final(self).tools@[final(self).installed_index(tool)].1.versions@.len()
                        && final(self).tools@[final(self).installed_index(tool)].1.versions@[k]
                        == #[trigger] old(self).tools@[final(self).installed_index(tool)].1.versions@[i],
            forall|j: int|
                0 <= j < old(self).tools@.len() && j != final(self).installed_index(tool)
                    ==> #[trigger] final(self).tools@[j] == old(self).tools@[j],
            match tool_index_from(old(self).tools@, folded(cache_key_text(tool@)), 0) {
                None => {
                    &&& final(self).tools@.len() == old(self).tools@.len() + 1
                    &&& final(self).tools@.subrange(0, old(self).tools@.len() as int) == old(self).tools@
                    &&& final(self).tools@.last().0 .0@ == cache_key_text(tool@)
                    &&& final(self).tools@.last().1.versions@ == seq![version]
                },
                Some(t) => {
                    &&& final(self).tools@.len() == old(self).tools@.len()
                    &&& final(self).tools@[t].0 == old(self).tools@[t].0
                    &&& final(self).tools@[t].1.versions@ == if has_text(
                        old(self).tools@[t].1.versions@,
                        version.text@,
                    ) {
                        old(self).tools@[t].1.versions@
                    } else {
                        old(self).tools@[t].1.versions@.push(version)
                    }
                },
            },
    {
        let key = tool.cache_key();
        let ghost fk = folded(cache_key_text(tool@));
        let ghost vt = version.text@;
        assert(key.key() == fk);
        match self.find_tool(&key) {
            Some(t) => {
                let ghost old_tools = self.tools@;
                let (k, mut entry) = self.tools.remove(t);
                let ghost old_versions = entry.versions@;
                let mut present = false;
                let mut i: usize = 0;
                while i < entry.versions.len()
                    invariant
                        i <= entry.versions@.len(),
                        entry.versions@ == old_versions,
                        present == exists|m: int|
                            0 <= m < i && #[trigger] entry.versions@[m].text@ == version.text@,
                    decreases entry.versions@.len() - i,
                {
                    if crate::text::str_equal(entry.versions[i].text.as_str(), version.text.as_str()) {
                        present = true;
                    }
                    i = i + 1;
                }
                assert(present == has_text(old_versions, vt));
                if !present {
                    entry.versions.push(version);
                    assert(entry.versions@[entry.versions@.len() - 1].text@ == vt);
                }
                let ghost new_versions = entry.versions@;
                self.tools.insert(t, (k, entry));
                proof {
                    assert(self.tools@ =~= old_tools.update(t as int, self.tools@[t as int]));
                    assert(self.tools@[t as int].0 == old_tools[t as int].0);
                    lemma_tool_index_same_keys(old_tools, self.tools@, fk, 0);
                    assert(self.tools@[t as int].1.versions@ == new_versions);
                    assert(exists|m: int| 0 <= m < new_versions.len() && #[trigger] new_versions[m].text@ == vt);
                    let m = choose|m: int| 0 <= m < new_versions.len() && #[trigger] new_versions[m].text@ == vt;
                    assert(self.installed_index(tool) == t);
                    assert(self.tools@[self.installed_index(tool)].1.versions@[m].text@ == vt);
                    assert forall|i: int|
                        0 <= i < old_versions.len() implies exists|m: int|
                            0 <= m < new_versions.len() && new_versions[m]
                                == #[trigger] old_versions[i] by {
                        assert(new_versions[i] == old_versions[i]);
                    }
                }
            },
            None => {
                let ghost old_tools = self.tools@;
                let mut versions: Vec<Version> = Vec::new();
                versions.push(version);
                assert(versions@ =~= seq![version]);
                self.tools.push((key, ToolEntry { versions }));
                proof {
                    lemma_tool_index_push(old_tools, self.tools@.last(), fk, 0);
                    assert(self.tools@ =~= old_tools.push(self.tools@.last()));
                    assert(self.installed_index(tool) == old_tools.len());
                    assert(self.tools@[self.installed_index(tool)].1.versions@[0].text@ == vt);
                }
            },
        }
    }

    /// The position of the entry whose key equals `key` up to case.
    pub fn find_tool(&self, key: &CiString) -> (r: Option<usize>)
        ensures
            match r {
                Some(i) => tool_index_from(self.tools@, key.key(), 0) == Some(i as int) && i
                    < self.tools@.len(),
                None => tool_index_from(self.tools@, key.key(), 0) is None,
            },
    {
        let mut i: usize = 0;
        while i < self.tools.len()
            invariant
                i <= self.tools@.len(),
                tool_index_from(self.tools@, key.key(), 0) == tool_index_from(self.tools@, key.key(), i as int),
            decreases self.tools@.len() - i,
        {
            if ci_eq(&self.tools[i].0, key) {
                proof {
                    lemma_tool_index_bounds(self.tools@, key.key(), i as int);
                }
                return Some(i);
            }
            i = i + 1;
        }
        None
    }

    /// The installed version to run for `tool`: the greatest installed version
    /// that meets its requirement. `None` means the tool must be downloaded.
    pub fn installed_version(&self, tool: &ToolSpec) -> (r: Option<Version>)
        ensures
            r is Some ==> tool_index_from(self.tools@, folded(cache_key_text(tool@)), 0) is Some,
            r matches Some(v) ==> exists|t: int, i: int|
                tool_index_from(self.tools@, folded(cache_key_text(tool@)), 0) == Some(t)
                    && is_best_match(self.tools@[t].1.versions@, tool@.version, i) && v
                    == #[trigger] self.tools@[t].1.versions@[i],
            r is None ==> match tool_index_from(self.tools@, folded(cache_key_text(tool@)), 0) {
                Some(t) => none_matches(self.tools@[t].1.versions@, tool@.version),
                None => true,
            },
    {
        let key = tool.cache_key();
        assert(key.key() == folded(cache_key_text(tool@)));
        match self.find_tool(&key) {
            Some(t) => {
                let versions = &self.tools[t].1.versions;
                match best_matching_version(versions, tool.version()) {
                    Some(i) => {
                        let v = versions[i].duplicate();
                        assert(is_best_match(self.tools@[t as int].1.versions@, tool@.version, i as int));
                        assert(v == self.tools@[t as int].1.versions@[i as int]);
                        assert(tool_index_from(self.tools@, folded(cache_key_text(tool@)), 0) == Some(t as int));
                        assert(exists|k: int|
                            is_best_match(self.tools@[t as int].1.versions@, tool@.version, k) && v
                                == #[trigger] self.tools@[t as int].1.versions@[k]);
                        Some(v)
                    },
                    None => None,
                }
            },
            None => None,
        }
    }
}

} // verus!
