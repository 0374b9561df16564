//! The artifact repository backend: its listing endpoint, and the grouping of
//! the files it lists into releases.

use vstd::prelude::*;
use vstd::string::*;

use crate::paths::ForemanPaths;
use crate::release::{Release, ReleaseAsset};
use crate::text::str_equal;
use crate::text::concat3;

verus! {

/// The header that carries the key of the listing request.
pub const ARTIFACTORY_API_KEY_HEADER: &'static str = "X-JFrog-Art-Api";

/// Fetches tools from an artifact repository.
#[derive(Debug, Clone)]
pub struct ArtifactoryProvider {
    pub paths: ForemanPaths,
}

impl ArtifactoryProvider {
    pub fn new(paths: ForemanPaths) -> (r: Self)
        ensures
            r.paths == paths,
    {
        ArtifactoryProvider { paths }
    }
}

/// The URL that lists the files of `repo` on `host`, without its query
/// (`list` and `deep=1`).
pub open spec fn listing_url(host: Seq<char>, repo: Seq<char>) -> Seq<char> {
    host + "artifactory/api/storage/"@ + repo
}

/// The URL of the listing request for `repo` on `host`.
pub fn releases_url(host: &str, repo: &str) -> (r: String)
    ensures
        r@ == listing_url(host@, repo@),
{
    concat3(host, "artifactory/api/storage/", repo)
}

/// `uri` has the shape `/<version>/<asset name>`, its second `/` at `p`.
pub open spec fn two_segments_at(uri: Seq<char>, p: int) -> bool {
    &&& uri.len() > 0
    &&& uri[0] == '/'
    &&& 0 < p < uri.len()
    &&& uri[p] == '/'
    &&& forall|k: int| 0 < k < uri.len() && k != p ==> uri[k] != '/'
}

/// The version and asset name that a listed file's URI names, if it has
/// exactly two segments after its leading `/`.
pub open spec fn version_and_asset(uri: Seq<char>) -> Option<(Seq<char>, Seq<char>)> {
    if exists|p: int| two_segments_at(uri, p) {
        let p = choose|p: int| two_segments_at(uri, p);
        Some((uri.subrange(1, p), uri.subrange(p + 1, uri.len() as int)))
    } else {
        None
    }
}

/// Splits `/<version>/<asset name>`; any other shape gives `None`.
pub fn get_version_and_asset_name(uri: &str) -> (r: Option<(String, String)>)
    ensures
        match (r, version_and_asset(uri@)) {
            (Some((v, a)), Some((mv, ma))) => v@ == mv && a@ == ma,
            (None, None) => true,
            _ => false,
        },
{
    let n = uri.unicode_len();
    if n == 0 || uri.get_char(0) != '/' {
        return None;
    }
    let mut second: Option<usize> = None;
    let mut k: usize = 1;
    while k < n
        invariant
            n == uri@.len(),
            1 <= k <= n,
            uri@[0] == '/',
            match second {
                Some(p) => 0 < p < k && uri@[p as int] == '/' && forall|m: int|
                    0 < m < k && m != p ==> uri@[m] != '/',
                None => forall|m: int| 0 < m < k ==> uri@[m] != '/',
            },
        decreases n - k,
    {
        if uri.get_char(k) == '/' {
            if second.is_some() {
                assert(!exists|p: int| two_segments_at(uri@, p));
                return None;
            }
            second = Some(k);
        }
        k = k + 1;
    }
    match second {
        Some(p) => {
            assert(two_segments_at(uri@, p as int));
            assert forall|q: int| two_segments_at(uri@, q) implies q == p by {}
            let version = uri.substring_char(1, p);
            let asset = uri.substring_char(p + 1, n);
            Some((String::from_str(version), String::from_str(asset)))
        },
        None => {
            assert(!exists|p: int| two_segments_at(uri@, p));
            None
        },
    }
}

/// The download URL of an asset of the repository.
pub open spec fn asset_url(host: Seq<char>, repo: Seq<char>, version: Seq<char>, name: Seq<char>) -> Seq<char> {
    host + "artifactory/"@ + repo + "/"@ + version + "/"@ + name
}

/// The names and download URLs of the files listed for version `v` among the
/// first `n` of `uris`, in listing order.
pub open spec fn files_of(host: Seq<char>, repo: Seq<char>, uris: Seq<String>, n: int, v: Seq<char>) -> Seq<(Seq<char>, Seq<char>)>
    decreases n,
{
    if n <= 0 {
        Seq::empty()
    } else {
        let prev = files_of(host, repo, uris, n - 1, v);
        match version_and_asset(uris[n - 1]@) {
            Some((w, a)) => if w == v {
                prev.push((a, asset_url(host, repo, v, a)))
            } else {
                prev
            },
            None => prev,
        }
    }
}

/// The names and URLs of a list of assets.
pub open spec fn asset_pairs(assets: Seq<ReleaseAsset>) -> Seq<(Seq<char>, Seq<char>)> {
    assets.map_values(|a: ReleaseAsset| (a.name@, a.url@))
}

/// The position of the release tagged `tag`.
fn find_release(releases: &Vec<Release>, tag: &str) -> (r: Option<usize>)
    ensures
        match r {
            Some(i) => i < releases@.len() && releases@[i as int].tag_name@ == tag@ && forall|m: int|
                0 <= m < i ==> (#[trigger] releases@[m]).tag_name@ != tag@,
            None => forall|m: int| 0 <= m < releases@.len() ==> (#[trigger] releases@[m]).tag_name@ != tag@,
        },
{
    let mut i: usize = 0;
    while i < releases.len()
        invariant
            i <= releases@.len(),
            forall|m: int| 0 <= m < i ==> (#[trigger] releases@[m]).tag_name@ != tag@,
        decreases releases@.len() - i,
    {
        if str_equal(releases[i].tag_name.as_str(), tag) {
            return Some(i);
        }
        i = i + 1;
    }
    None
}

/// Adds `asset` to the release tagged `version`, creating that release at the
/// end where there is none.
fn add_asset(releases: &mut Vec<Release>, version: String, asset: ReleaseAsset)
    ensures
        match first_tagged(old(releases)@, version@) {
            Some(i) => {
                &&& final(releases)@.len() == old(releases)@.len()
                &&& forall|j: int|
                    0 <= j < old(releases)@.len() && j != i ==> #[trigger] final(releases)@[j]
                        == old(releases)@[j]
                &&& final(releases)@[i].tag_name == old(releases)@[i].tag_name
                &&& final(releases)@[i].prerelease == old(releases)@[i].prerelease
                &&& final(releases)@[i].assets@ == old(releases)@[i].assets@.push(asset)
            },
            None => {
                &&& final(releases)@.len() == old(releases)@.len() + 1
                &&& forall|j: int|
                    0 <= j < old(releases)@.len() ==> #[trigger] final(releases)@[j] == old(releases)@[j]
                &&& final(releases)@.last().tag_name@ == version@
                &&& !final(releases)@.last().prerelease
                &&& final(releases)@.last().assets@ == seq![asset]
            },
        },
{
    let ghost before = releases@;
    let ghost av = asset;
    match find_release(releases, version.as_str()) {
        Some(i) => {
            proof {
                lemma_first_tagged(before, version@, i as int);
            }
            let mut release = releases.remove(i);
            release.assets.push(asset);
            releases.insert(i, release);
            assert(releases@ =~= before.update(i as int, releases@[i as int]));
        },
        None => {
            assert(first_tagged(before, version@) is None);
            let mut assets: Vec<ReleaseAsset> = Vec::new();
            assets.push(asset);
            assert(assets@ =~= seq![av]);
            releases.push(Release { tag_name: version, prerelease: false, assets });
        },
    }
}

/// The position of the first release tagged `tag`.
pub open spec fn first_tagged(releases: Seq<Release>, tag: Seq<char>) -> Option<int> {
    if exists|i: int| is_first_tagged(releases, tag, i) {
        Some(choose|i: int| is_first_tagged(releases, tag, i))
    } else {
        None
    }
}

/// Release `i` is the first tagged `tag`.
pub open spec fn is_first_tagged(releases: Seq<Release>, tag: Seq<char>, i: int) -> bool {
    0 <= i < releases.len() && releases[i].tag_name@ == tag && forall|k: int|
        0 <= k < i ==> (#[trigger] releases[k]).tag_name@ != tag
}

proof fn lemma_first_tagged(releases: Seq<Release>, tag: Seq<char>, i: int)
    requires
        is_first_tagged(releases, tag, i),
    ensures
        first_tagged(releases, tag) == Some(i),
{
    let j = choose|j: int| is_first_tagged(releases, tag, j);
    if j < i {
        assert(releases[j].tag_name@ != tag);
    } else if i < j {
        assert(releases[i].tag_name@ != tag);
    }
}

/// Groups the files that the repository lists into releases: one release per
/// version that a well-shaped file names, tagged with it and never a
/// pre-release, whose assets are that version's files in listing order.
/// Files of another shape are skipped.
pub fn group_releases(host: &str, repo: &str, uris: &Vec<String>) -> (r: Vec<Release>)
    ensures
        forall|i: int| 0 <= i < r@.len() ==> !(#[trigger] r@[i]).prerelease,
        forall|i: int, j: int|
            0 <= i < j < r@.len() ==> (#[trigger] r@[i]).tag_name@ != (#[trigger] r@[j]).tag_name@,
        forall|i: int|
            0 <= i < r@.len() ==> asset_pairs((#[trigger] r@[i]).assets@) == files_of(
                host@,
                repo@,
                uris@,
                uris@.len() as int,
                r@[i].tag_name@,
            ),
        forall|i: int| 0 <= i < r@.len() ==> (#[trigger] r@[i]).assets@.len() > 0,
        forall|v: Seq<char>|
            #[trigger] files_of(host@, repo@, uris@, uris@.len() as int, v).len() > 0 ==> exists|i: int|
                0 <= i < r@.len() && (#[trigger] r@[i]).tag_name@ == v,
{
    let mut releases: Vec<Release> = Vec::new();
    let mut u: usize = 0;
    while u < uris.len()
        invariant
            u <= uris@.len(),
            forall|i: int| 0 <= i < releases@.len() ==> !(#[trigger] releases@[i]).prerelease,
            forall|i: int, j: int|
                0 <= i < j < releases@.len() ==> (#[trigger] releases@[i]).tag_name@
                    != (#[trigger] releases@[j]).tag_name@,
            forall|i: int|
                0 <= i < releases@.len() ==> asset_pairs((#[trigger] releases@[i]).assets@) == files_of(
                    host@,
                    repo@,
                    uris@,
                    u as int,
                    releases@[i].tag_name@,
                ),
            forall|i: int| 0 <= i < releases@.len() ==> (#[trigger] releases@[i]).assets@.len() > 0,
            forall|v: Seq<char>|
                #[trigger] files_of(host@, repo@, uris@, u as int, v).len() > 0 ==> exists|i: int|
                    0 <= i < releases@.len() && (#[trigger] releases@[i]).tag_name@ == v,
        decreases uris@.len() - u,
    {
        let ghost before = releases@;
        let ghost uu = u as int;
        match get_version_and_asset_name(uris[u].as_str()) {
            Some((version, name)) => {
                let base = concat3(host, "artifactory/", repo);
                let with_version = concat3(base.as_str(), "/", version.as_str());
                let url = concat3(with_version.as_str(), "/", name.as_str());
                let asset = ReleaseAsset { url, name };
                let ghost av = asset;
                let ghost vv = version@;
                proof {
                    reveal_strlit("artifactory/");
                    reveal_strlit("/");
                    assert(av.url@ == asset_url(host@, repo@, vv, av.name@));
                    assert(version_and_asset(uris@[uu]@) == Some((vv, av.name@)));
                }
                add_asset(&mut releases, version, asset);
                proof {
                    assert forall|v: Seq<char>|
                        files_of(host@, repo@, uris@, uu + 1, v) == if v == vv {
                            files_of(host@, repo@, uris@, uu, v).push((av.name@, av.url@))
                        } else {
                            files_of(host@, repo@, uris@, uu, v)
                        } by {}
                    match first_tagged(before, vv) {
                        Some(t) => {
                            assert(is_first_tagged(before, vv, t)) by {
                                let c = choose|c: int| is_first_tagged(before, vv, c);
                            }
                            assert(asset_pairs(releases@[t].assets@) =~= asset_pairs(before[t].assets@).push(
                                (av.name@, av.url@),
                            ));
                            assert forall|i: int|
                                0 <= i < releases@.len() implies asset_pairs(
                                    (#[trigger] releases@[i]).assets@,
                                ) == files_of(host@, repo@, uris@, uu + 1, releases@[i].tag_name@) by {
                                if i != t {
                                    assert(releases@[i] == before[i]);
                                    assert(before[i].tag_name@ != before[t].tag_name@);
                                }
                            }
                            assert forall|v: Seq<char>|
                                #[trigger] files_of(host@, repo@, uris@, uu + 1, v).len() > 0 implies exists|i: int|
                                    0 <= i < releases@.len() && (#[trigger] releases@[i]).tag_name@ == v by {
                                if v == vv {
                                    assert(releases@[t].tag_name@ == v);
                                } else {
                                    assert(files_of(host@, repo@, uris@, uu, v).len() > 0);
                                    let i = choose|i: int| 0 <= i < before.len() && (#[trigger] before[i]).tag_name@ == v;
                                    if i != t {
                                        assert(releases@[i] == before[i]);
                                    }
                                }
                            }
                            assert forall|i: int, j: int|
                                0 <= i < j < releases@.len() implies (#[trigger] releases@[i]).tag_name@
                                    != (#[trigger] releases@[j]).tag_name@ by {
                                assert(releases@[i].tag_name == before[i].tag_name);
                                assert(releases@[j].tag_name == before[j].tag_name);
                            }
                            assert forall|i: int| 0 <= i < releases@.len() implies !(#[trigger] releases@[i]).prerelease by {
                                assert(releases@[i].prerelease == before[i].prerelease);
                            }
                            assert forall|i: int| 0 <= i < releases@.len() implies (#[trigger] releases@[i]).assets@.len() > 0 by {
                                if i != t {
                                    assert(releases@[i] == before[i]);
                                }
                            }
                        },
                        None => {
                            assert forall|i: int| 0 <= i < before.len() implies (#[trigger] before[i]).tag_name@ != vv by {
                                if before[i].tag_name@ == vv {
                                    assert forall|k: int| 0 <= k < i implies (#[trigger] before[k]).tag_name@ != vv by {
                                        assert(before[k].tag_name@ != before[i].tag_name@);
                                    }
                                    assert(is_first_tagged(before, vv, i));
                                }
                            }
                            assert(files_of(host@, repo@, uris@, uu, vv).len() == 0);
                            let last = before.len() as int;
                            assert(asset_pairs(releases@[last].assets@) =~= seq![(av.name@, av.url@)]);
                            assert(files_of(host@, repo@, uris@, uu + 1, vv) =~= seq![(av.name@, av.url@)]);
                            assert forall|i: int|
                                0 <= i < releases@.len() implies asset_pairs(
                                    (#[trigger] releases@[i]).assets@,
                                ) == files_of(host@, repo@, uris@, uu + 1, releases@[i].tag_name@) by {
                                if i < last {
                                    assert(releases@[i] == before[i]);
                                }
                            }
                            assert forall|v: Seq<char>|
                                #[trigger] files_of(host@, repo@, uris@, uu + 1, v).len() > 0 implies exists|i: int|
                                    0 <= i < releases@.len() && (#[trigger] releases@[i]).tag_name@ == v by {
                                if v == vv {
                                    assert(releases@[last].tag_name@ == v);
                                } else {
                                    assert(files_of(host@, repo@, uris@, uu, v).len() > 0);
                                    let i = choose|i: int| 0 <= i < before.len() && (#[trigger] before[i]).tag_name@ == v;
                                    assert(releases@[i] == before[i]);
                                }
                            }
                            assert forall|i: int, j: int|
                                0 <= i < j < releases@.len() implies (#[trigger] releases@[i]).tag_name@
                                    != (#[trigger] releases@[j]).tag_name@ by {
                                assert(releases@[i] == before[i]);
                                if j < last {
                                    assert(releases@[j] == before[j]);
                                }
                            }
                            assert forall|i: int| 0 <= i < releases@.len() implies !(#[trigger] releases@[i]).prerelease by {
                                if i < last {
                                    assert(releases@[i] == before[i]);
                                }
                            }
                            assert forall|i: int| 0 <= i < releases@.len() implies (#[trigger] releases@[i]).assets@.len() > 0 by {
                                if i < last {
                                    assert(releases@[i] == before[i]);
                                }
                            }
                        },
                    }
                }
            },
            None => {
                proof {
                    assert forall|v: Seq<char>|
                        files_of(host@, repo@, uris@, uu + 1, v) == files_of(host@, repo@, uris@, uu, v) by {}
                    assert forall|v: Seq<char>|
                        #[trigger] files_of(host@, repo@, uris@, uu + 1, v).len() > 0 implies exists|i: int|
                            0 <= i < releases@.len() && (#[trigger] releases@[i]).tag_name@ == v by {
                        assert(files_of(host@, repo@, uris@, uu, v).len() > 0);
                    }
                }
            },
        }
        u = u + 1;
    }
    releases
}

} // verus!
