//! Choosing the release asset that fits the host platform.

use vstd::prelude::*;
use vstd::string::*;

use crate::release::{asset_names, Release};
use crate::text::{contains, str_contains, str_equal};

verus! {

/// The keywords that identify assets for an operating system and architecture,
/// most specific first. On macOS for arm64 the x86_64 names follow the native
/// ones, for running under binary translation.
pub open spec fn platform_table(os: Seq<char>, arch: Seq<char>) -> Seq<Seq<char>> {
    if os == "windows"@ {
        if arch == "x86_64"@ {
            seq!["win64"@, "windows-x86_64"@, "windows"@]
        } else if arch == "i686"@ {
            seq!["win32"@, "windows-i686"@]
        } else if arch == "aarch64"@ {
            seq!["windows-aarch64"@]
        } else {
            seq![]
        }
    } else if os == "macos"@ {
        if arch == "x86_64"@ {
            seq!["macos-x86_64"@, "darwin-x86_64"@, "macos"@, "darwin"@]
        } else if arch == "i686"@ {
            seq!["macos-i686"@, "darwin-i686"@]
        } else if arch == "aarch64"@ {
            seq![
                "macos-arm64"@,
                "darwin-arm64"@,
                "macos-x86_64"@,
                "darwin-x86_64"@,
                "macos"@,
                "darwin"@,
            ]
        } else {
            seq![]
        }
    } else if os == "linux"@ {
        if arch == "x86_64"@ {
            seq!["linux-x86_64"@, "linux"@]
        } else if arch == "i686"@ {
            seq!["linux-i686"@]
        } else if arch == "aarch64"@ {
            seq!["linux-arm64"@, "linux-aarch64"@]
        } else {
            seq!["linux"@]
        }
    } else {
        seq![]
    }
}

/// The views of a list of keywords.
pub open spec fn keyword_views(kws: Seq<&str>) -> Seq<Seq<char>> {
    kws.map_values(|k: &str| k@)
}

/// The platform keywords for the operating system `os` and architecture `arch`
/// (as Rust names them, such as `macos` and `aarch64`).
pub fn platform_keywords(os: &str, arch: &str) -> (r: Vec<&'static str>)
    ensures
        keyword_views(r@) == platform_table(os@, arch@),
{
    let r: Vec<&'static str> = if str_equal(os, "windows") {
        if str_equal(arch, "x86_64") {
            vec!["win64", "windows-x86_64", "windows"]
        } else if str_equal(arch, "i686") {
            vec!["win32", "windows-i686"]
        } else if str_equal(arch, "aarch64") {
            vec!["windows-aarch64"]
        } else {
            vec![]
        }
    } else if str_equal(os, "macos") {
        if str_equal(arch, "x86_64") {
            vec!["macos-x86_64", "darwin-x86_64", "macos", "darwin"]
        } else if str_equal(arch, "i686") {
            vec!["macos-i686", "darwin-i686"]
        } else if str_equal(arch, "aarch64") {
            vec!["macos-arm64", "darwin-arm64", "macos-x86_64", "darwin-x86_64", "macos", "darwin"]
        } else {
            vec![]
        }
    } else if str_equal(os, "linux") {
        if str_equal(arch, "x86_64") {
            vec!["linux-x86_64", "linux"]
        } else if str_equal(arch, "i686") {
            vec!["linux-i686"]
        } else if str_equal(arch, "aarch64") {
            vec!["linux-arm64", "linux-aarch64"]
        } else {
            vec!["linux"]
        }
    } else {
        vec![]
    };
    assert(keyword_views(r@) =~= platform_table(os@, arch@));
    r
}

/// The index of the first name, from position `j` on, that contains `kw`.
pub open spec fn first_containing(names: Seq<Seq<char>>, kw: Seq<char>, j: int) -> Option<int>
    decreases names.len() - j,
{
    if j < 0 || j >= names.len() {
        None
    } else if contains(names[j], kw) {
        Some(j)
    } else {
        first_containing(names, kw, j + 1)
    }
}

/// The asset chosen by the keywords from position `k` on: the first asset that
/// contains the first keyword that some asset contains.
pub open spec fn chosen_from(names: Seq<Seq<char>>, kws: Seq<Seq<char>>, k: int) -> Option<int>
    decreases kws.len() - k,
{
    if k < 0 || k >= kws.len() {
        None
    } else {
        match first_containing(names, kws[k], 0) {
            Some(i) => Some(i),
            None => chosen_from(names, kws, k + 1),
        }
    }
}

/// The asset that the keywords `kws` choose among assets named `names`.
pub open spec fn chosen_asset(names: Seq<Seq<char>>, kws: Seq<Seq<char>>) -> Option<int> {
    chosen_from(names, kws, 0)
}

/// Picks the asset of `release` whose name contains the earliest keyword of
/// `platform_keywords` that any asset contains; among assets with that keyword,
/// the first one.
pub fn choose_asset(release: &Release, platform_keywords: &[&str]) -> (r: Option<usize>)
    ensures
        match r {
            Some(i) => i < release.assets@.len() && chosen_asset(
                asset_names(release.assets@),
                keyword_views(platform_keywords@),
            ) == Some(i as int),
            None => chosen_asset(asset_names(release.assets@), keyword_views(platform_keywords@)) is None,
        },
{
    let ghost names = asset_names(release.assets@);
    let ghost kws = keyword_views(platform_keywords@);
    let mut k: usize = 0;
    while k < platform_keywords.len()
        invariant
            k <= platform_keywords@.len(),
            names == asset_names(release.assets@),
            kws == keyword_views(platform_keywords@),
            chosen_from(names, kws, 0) == chosen_from(names, kws, k as int),
        decreases platform_keywords@.len() - k,
    {
        let keyword = platform_keywords[k];
        let mut j: usize = 0;
        while j < release.assets.len()
            invariant
                k < platform_keywords@.len(),
                keyword == platform_keywords@[k as int],
                j <= release.assets@.len(),
                names == asset_names(release.assets@),
                kws == keyword_views(platform_keywords@),
                chosen_from(names, kws, 0) == chosen_from(names, kws, k as int),
                first_containing(names, kws[k as int], 0) == first_containing(names, kws[k as int], j as int),
            decreases release.assets@.len() - j,
        {
            if str_contains(release.assets[j].name.as_str(), keyword) {
                return Some(j);
            }
            j = j + 1;
        }
        k = k + 1;
    }
    None
}

/// Asset selection depends on the asset names and the keywords alone, and
/// honours the keywords' order: when no asset holds any of the first `k`
/// keywords and the `i`-th asset is the first that holds keyword `k`, the
/// `i`-th asset is chosen.
pub proof fn lemma_keyword_order(names: Seq<Seq<char>>, kws: Seq<Seq<char>>, k: int, i: int)
    requires
        0 <= k < kws.len(),
        forall|k2: int| 0 <= k2 < k ==> first_containing(names, #[trigger] kws[k2], 0) is None,
        first_containing(names, kws[k], 0) == Some(i),
    ensures
        chosen_asset(names, kws) == Some(i),
    decreases k,
{
    lemma_chosen_skips(names, kws, 0, k, i);
}

proof fn lemma_chosen_skips(names: Seq<Seq<char>>, kws: Seq<Seq<char>>, m: int, k: int, i: int)
    requires
        0 <= m <= k < kws.len(),
        forall|k2: int| 0 <= k2 < k ==> first_containing(names, #[trigger] kws[k2], 0) is None,
        first_containing(names, kws[k], 0) == Some(i),
    ensures
        chosen_from(names, kws, m) == Some(i),
    decreases k - m,
{
    if m < k {
        lemma_chosen_skips(names, kws, m + 1, k, i);
    }
}

} // verus!
