//! Shared helpers for simple binary/archive plugins.
//!
//! Keeps GitHub release lookup and status checks consistent across the many
//! SDK plugins (Go, CMake, Ninja, Deno, Bun, etc.).
use crate::error::Error;
use crate::json::{array_field, or_default, str_field, Json};
use crate::paths::{fs_has_contents, fs_is_file, FsView};
use crate::plugin::{InstallState, PluginStatus};
use crate::scan::{capture_all, captures};
use crate::text::{chars_of, contains, contains_str, owned};
use crate::version::{is_last_max, last_max_index, version_order_key, version_key_exec};
use vstd::prelude::*;

verus! {

/// The name of a release asset (`""` when missing).
pub open spec fn asset_name(a: Json) -> Seq<char> {
    or_default(str_field(a, "name"@), ""@)
}

/// The download URL of a release asset (`""` when missing).
pub open spec fn asset_url(a: Json) -> Seq<char> {
    or_default(str_field(a, "browser_download_url"@), ""@)
}

/// An asset with a URL whose name holds every needle.
pub open spec fn asset_matches(a: Json, needles: Seq<Seq<char>>) -> bool {
    &&& asset_url(a).len() > 0
    &&& forall|k: int| 0 <= k < needles.len() ==> contains(asset_name(a), #[trigger] needles[k])
}

/// The first matching asset at or after index `i`.
pub open spec fn first_asset_match(assets: Seq<Json>, needles: Seq<Seq<char>>, i: int) -> Option<int>
    decreases assets.len() - i,
{
    if i < 0 || i >= assets.len() {
        None
    } else if asset_matches(assets[i], needles) {
        Some(i)
    } else {
        first_asset_match(assets, needles, i + 1)
    }
}

/// Where the search from index `i` finds an index, it is an index `k >= i` of a
/// matching asset, and no asset between `i` and `k` matches; where it finds
/// none, no asset from `i` on matches.
proof fn lemma_first_asset_match(assets: Seq<Json>, needles: Seq<Seq<char>>, i: int)
    requires
        0 <= i,
    ensures
        match first_asset_match(assets, needles, i) {
            Some(k) => i <= k < assets.len() && asset_matches(assets[k], needles)
                && forall|j: int| i <= j < k ==> !asset_matches(#[trigger] assets[j], needles),
            None => forall|j: int| i <= j < assets.len() ==> !asset_matches(#[trigger] assets[j], needles),
        },
    decreases assets.len() - i,
{
    if i < assets.len() && !asset_matches(assets[i], needles) {
        lemma_first_asset_match(assets, needles, i + 1);
    }
}

/// The first match wins: the asset picked from a release is listed under its
/// `assets`, has a non-empty `browser_download_url` and a `name` that holds every
/// needle, and no asset listed before it has both; where no asset has both,
/// none is picked.
pub proof fn law_release_asset_is_first_match(release: Json, needles: Seq<Seq<char>>)
    ensures
        match picked_asset(release, needles) {
            Some(a) => exists|assets: Seq<Json>, k: int|
                array_field(release, "assets"@) == Some(assets) && 0 <= k < assets.len()
                && #[trigger] assets[k] == a
                && or_default(str_field(a, "browser_download_url"@), ""@).len() > 0
                && (forall|n: int| 0 <= n < needles.len()
                    ==> contains(or_default(str_field(a, "name"@), ""@), #[trigger] needles[n]))
                && forall|j: int| 0 <= j < k ==> !(
                    or_default(str_field(#[trigger] assets[j], "browser_download_url"@), ""@).len() > 0
                    && forall|n: int| 0 <= n < needles.len()
                        ==> contains(or_default(str_field(assets[j], "name"@), ""@), #[trigger] needles[n])),
            None => forall|assets: Seq<Json>, j: int|
                array_field(release, "assets"@) == Some(assets) && 0 <= j < assets.len() ==> !(
                    or_default(str_field(#[trigger] assets[j], "browser_download_url"@), ""@).len() > 0
                    && forall|n: int| 0 <= n < needles.len()
                        ==> contains(or_default(str_field(assets[j], "name"@), ""@), #[trigger] needles[n])),
        },
{
    match array_field(release, "assets"@) {
        Some(assets) => {
            lemma_first_asset_match(assets, needles, 0);
            match first_asset_match(assets, needles, 0) {
                Some(k) => {
                    assert(assets[k] == assets[k]);
                },
                None => {},
            }
        },
        None => {},
    }
}

/// The release tag (`"unknown"` when missing).
pub open spec fn release_tag(release: Json) -> Seq<char> {
    or_default(str_field(release, "tag_name"@), "unknown"@)
}

/// The asset `pick_release_asset` returns, if any.
pub open spec fn picked_asset(release: Json, needles: Seq<Seq<char>>) -> Option<Json> {
    match array_field(release, "assets"@) {
        Some(assets) => match first_asset_match(assets, needles, 0) {
            Some(i) => Some(assets[i]),
            None => None,
        },
        None => None,
    }
}

pub open spec fn strs_view(v: Seq<&str>) -> Seq<Seq<char>> {
    v.map_values(|s: &str| s@)
}

fn all_needles(name: &[char], needles: &[&str]) -> (r: bool)
    ensures
        r == forall|k: int| 0 <= k < needles@.len() ==> contains(name@, #[trigger] strs_view(needles@)[k]),
{
    let mut i: usize = 0;
    while i < needles.len()
        invariant
            i <= needles@.len(),
            forall|k: int| 0 <= k < i ==> contains(name@, #[trigger] strs_view(needles@)[k]),
        decreases needles.len() - i,
    {
        if !contains_str(name, needles[i]) {
            assert(!contains(name@, strs_view(needles@)[i as int]));
            return false;
        }
        i = i + 1;
    }
    true
}

/// Return `(browser_download_url, tag_name)` for the first asset that has a
/// URL and whose name holds every one of `name_substrings`.
pub fn pick_release_asset(release: &Json, name_substrings: &[&str]) -> (r: Result<(String, String), Error>)
    ensures
        match picked_asset(*release, strs_view(name_substrings@)) {
            Some(a) => r matches Ok((url, tag)) && url@ == asset_url(a) && tag@ == release_tag(*release),
            None => r matches Err(Error::NoMatchingAsset { needles, location }) && needles@.map_values(
                |s: String| s@,
            ) == strs_view(name_substrings@) && location@ == or_default(
                str_field(*release, "html_url"@),
                release_tag(*release),
            ),
        },
{
    let ghost nv = strs_view(name_substrings@);
    let tag = match release.str_field("tag_name") {
        Some(t) => owned(t),
        None => owned("unknown"),
    };
    match release.array_field("assets") {
        Some(assets) => {
            let mut i: usize = 0;
            while i < assets.len()
                invariant
                    i <= assets@.len(),
                    array_field(*release, "assets"@) == Some(assets@),
                    nv == strs_view(name_substrings@),
                    tag@ == release_tag(*release),
                    first_asset_match(assets@, nv, 0) == first_asset_match(assets@, nv, i as int),
                decreases assets.len() - i,
            {
                let asset = &assets[i];
                let name = match asset.str_field("name") {
                    Some(n) => chars_of(n),
                    None => chars_of(""),
                };
                proof {
                    reveal_strlit("");
                }
                let url = match asset.str_field("browser_download_url") {
                    Some(u) => owned(u),
                    None => owned(""),
                };
                assert(name@ == asset_name(*asset));
                assert(url@ == asset_url(*asset));
                if !url.as_str().is_empty() && all_needles(name.as_slice(), name_substrings) {
                    assert(*asset == assets@[i as int]);
                    assert(asset_matches(assets@[i as int], nv));
                    return Ok((url, tag));
                }
                i = i + 1;
            }
        },
        None => {},
    }
    let location = match release.str_field("html_url") {
        Some(h) => owned(h),
        None => tag,
    };
    let mut needles: Vec<String> = Vec::new();
    let mut k: usize = 0;
    while k < name_substrings.len()
        invariant
            k <= name_substrings@.len(),
            needles@.map_values(|s: String| s@) == strs_view(name_substrings@).take(k as int),
        decreases name_substrings.len() - k,
    {
        let ghost before = needles@.map_values(|s: String| s@);
        needles.push(owned(name_substrings[k]));
        assert(needles@.map_values(|s: String| s@) =~= before.push(name_substrings@[k as int]@));
        assert(strs_view(name_substrings@).take(k + 1) =~= strs_view(name_substrings@).take(
            k as int,
        ).push(name_substrings@[k as int]@));
        k = k + 1;
    }
    assert(strs_view(name_substrings@).take(k as int) =~= strs_view(name_substrings@));
    Err(Error::NoMatchingAsset { needles, location })
}

/// What `binary_status` reports: installed when the marker binary is a
/// file, partial when the folder exists with contents, else not installed.
pub open spec fn binary_status_spec(
    fs: crate::paths::FsModel,
    binary: Seq<char>,
    install_dir: Seq<char>,
    missing_detail: Seq<char>,
) -> (InstallState, Option<Seq<char>>, Seq<char>) {
    if fs_is_file(fs, binary) {
        (InstallState::Installed, Some(install_dir), binary)
    } else if fs_has_contents(fs, install_dir) {
        (InstallState::Partial, Some(install_dir), missing_detail)
    } else {
        (InstallState::NotInstalled, Some(install_dir), ""@)
    }
}

/// Common installed / partial / not_installed status for a marker binary.
pub fn binary_status(fs: &FsView, binary: &str, install_dir: &str, missing_detail: &str) -> (r:
    PluginStatus)
    ensures
        r@ == binary_status_spec(fs@, binary@, install_dir@, missing_detail@),
{
    if fs.is_file(binary) {
        return PluginStatus::new(InstallState::Installed, Some(owned(install_dir))).with_detail(
            owned(binary),
        );
    }
    if fs.has_contents(install_dir) {
        return PluginStatus::new(InstallState::Partial, Some(owned(install_dir))).with_detail(
            owned(missing_detail),
        );
    }
    proof {
        reveal_strlit("");
    }
    PluginStatus::new(InstallState::NotInstalled, Some(owned(install_dir)))
}

/// The newest of the given versions by their numeric key; of equal keys the
/// last (what `max_by_key` picks).
pub fn newest_version(versions: &Vec<String>) -> (r: Option<String>)
    ensures
        match r {
            Some(v) => exists|i: int|
                {
                    &&& is_last_max(versions@.map_values(|s: String| version_order_key(s@)), i)
                    &&& #[trigger] versions@[i]@ == v@
                },
            None => versions@.len() == 0,
        },
{
    if versions.len() == 0 {
        return None;
    }
    let mut keys: Vec<Vec<u32>> = Vec::new();
    let mut i: usize = 0;
    while i < versions.len()
        invariant
            i <= versions@.len(),
            keys@.len() == i,
            forall|j: int| 0 <= j < i ==> #[trigger] keys@[j]@ == version_order_key(versions@[j]@),
        decreases versions.len() - i,
    {
        keys.push(version_key_exec(chars_of(versions[i].as_str()).as_slice()));
        i = i + 1;
    }
    let best = last_max_index(&keys);
    assert(keys@.map_values(|k: Vec<u32>| k@) =~= versions@.map_values(|s: String| version_order_key(s@)));
    let v = owned(versions[best].as_str());
    assert(versions@[best as int]@ == v@);
    Some(v)
}

/// The pattern of a version folder link in an Apache listing.
pub open spec fn maven_listing_pattern() -> Seq<char> {
    "href=\"(\\d+\\.\\d+\\.\\d+)/\""@
}

/// The listing names at least one `X.Y.Z/` folder.
pub open spec fn maven_listing_has_versions(html: Seq<char>) -> bool {
    match capture_all(maven_listing_pattern(), html, 1) {
        Some(found) => found.len() > 0,
        None => false,
    }
}

/// `v` is the newest version folder of the listing (the last of equal ones).
pub open spec fn is_newest_listed(html: Seq<char>, v: Seq<char>) -> bool {
    match capture_all(maven_listing_pattern(), html, 1) {
        Some(found) => exists|i: int|
            {
                &&& is_last_max(found.map_values(|s: Seq<char>| version_order_key(s)), i)
                &&& #[trigger] found[i] == v
            },
        None => false,
    }
}

/// Pick the newest `X.Y.Z/` directory entry from Apache Maven listing HTML.
pub fn parse_maven_latest_version(html: &str) -> (r: Result<String, Error>)
    ensures
        r is Ok <==> maven_listing_has_versions(html@),
        (r matches Ok(v) ==> is_newest_listed(html@, v@)),
{
    match captures("href=\"(\\d+\\.\\d+\\.\\d+)/\"", html, 1) {
        Some(found) => {
            assert(found@.map_values(|s: String| version_order_key(s@)) =~= found@.map_values(
                |s: String| s@,
            ).map_values(|s: Seq<char>| version_order_key(s)));
            match newest_version(&found) {
                Some(v) => {
                    proof {
                        let i = choose|i: int|
                            is_last_max(found@.map_values(|s: String| version_order_key(s@)), i)
                                && #[trigger] found@[i]@ == v@;
                        assert(found@.map_values(|s: String| s@)[i] == v@);
                    }
                    Ok(v)
                },
                None => Err(
                    Error::NoRelease {
                        tool: "Apache Maven",
                        detail: owned("Could not parse Apache Maven version listing"),
                    },
                ),
            }
        },
        None => Err(
            Error::NoRelease {
                tool: "Apache Maven",
                detail: owned("Could not parse Apache Maven version listing"),
            },
        ),
    }
}


/// `(url, tag)` of the asset `pick_release_asset` returns, if any.
pub open spec fn picked(release: Json, needles: Seq<Seq<char>>) -> Option<(Seq<char>, Seq<char>)> {
    match picked_asset(release, needles) {
        Some(a) => Some((asset_url(a), release_tag(release))),
        None => None,
    }
}

/// The release pick for one needle, as the plugins' resolvers return it.
pub open spec fn picked_one(release: Json, needle: Seq<char>) -> Option<(Seq<char>, Seq<char>)> {
    picked(release, seq![needle])
}

/// Pick the asset whose name holds `needle`.
pub fn pick_one(release: &Json, needle: &str) -> (r: Result<(String, String), Error>)
    ensures
        match picked_one(*release, needle@) {
            Some((u, t)) => r matches Ok((url, tag)) && url@ == u && tag@ == t,
            None => r matches Err(Error::NoMatchingAsset { .. }),
        },
{
    let needles: Vec<&str> = vec![needle];
    assert(strs_view(needles@) =~= seq![needle@]);
    pick_release_asset(release, needles.as_slice())
}

/// An asset named exactly `name` with a non-empty URL.
pub open spec fn is_exact_asset(a: Json, name: Seq<char>) -> bool {
    str_field(a, "name"@) == Some(name) && asset_url(a).len() > 0
}

/// The first asset named exactly `name` (with a URL) from index `i` on.
pub open spec fn first_exact(assets: Seq<Json>, name: Seq<char>, i: int) -> Option<Json>
    decreases assets.len() - i,
{
    if i < 0 || i >= assets.len() {
        None
    } else if is_exact_asset(assets[i], name) {
        Some(assets[i])
    } else {
        first_exact(assets, name, i + 1)
    }
}

/// `(url, tag)` for the first asset named exactly `name`, if any.
pub open spec fn exact_pick(release: Json, name: Seq<char>) -> Option<(Seq<char>, Seq<char>)> {
    match array_field(release, "assets"@) {
        Some(assets) => match first_exact(assets, name, 0) {
            Some(a) => Some((asset_url(a), release_tag(release))),
            None => None,
        },
        None => None,
    }
}

/// The asset named exactly `name` (with a URL), as `(url, tag)`.
pub fn exact_asset(release: &Json, name: &str) -> (r: Option<(String, String)>)
    ensures
        match exact_pick(*release, name@) {
            Some((u, t)) => r matches Some((url, tag)) && url@ == u && tag@ == t,
            None => r is None,
        },
{
    match release.array_field("assets") {
        Some(assets) => {
            let mut i: usize = 0;
            while i < assets.len()
                invariant
                    i <= assets@.len(),
                    array_field(*release, "assets"@) == Some(assets@),
                    first_exact(assets@, name@, 0) == first_exact(assets@, name@, i as int),
                decreases assets.len() - i,
            {
                let a = &assets[i];
                let named = match a.str_field("name") {
                    Some(n) => crate::text::eq_str(chars_of(n).as_slice(), name),
                    None => false,
                };
                if named {
                    let url = match a.str_field("browser_download_url") {
                        Some(u) => owned(u),
                        None => owned(""),
                    };
                    proof {
                        reveal_strlit("");
                    }
                    if !url.as_str().is_empty() {
                        let tag = match release.str_field("tag_name") {
                            Some(t) => owned(t),
                            None => owned("unknown"),
                        };
                        assert(*a == assets@[i as int]);
                        return Some((url, tag));
                    }
                }
                i = i + 1;
            }
            None
        },
        None => None,
    }
}

/// `p` is a file under `root` named `name` and no other such file comes
/// before it (fewer components first, then text order).
pub open spec fn is_first_named(
    os: crate::platform::HostOS,
    fs: crate::paths::FsModel,
    root: Seq<char>,
    name: Seq<char>,
    p: Seq<char>,
) -> bool {
    &&& fs.files.contains(p)
    &&& crate::paths::is_named_under(os, root, name, p)
    &&& forall|q: Seq<char>|
        fs.files.contains(q) && crate::paths::is_named_under(os, root, name, q) ==> !crate::paths::path_before(
            os,
            q,
            p,
        )
}

/// Some file under `root` is named `name`.
pub open spec fn any_named(
    os: crate::platform::HostOS,
    fs: crate::paths::FsModel,
    root: Seq<char>,
    name: Seq<char>,
) -> bool {
    exists|q: Seq<char>| fs.files.contains(q) && crate::paths::is_named_under(os, root, name, q)
}

/// The shallowest file under `root` named `name`.
pub fn first_file_named(os: crate::platform::HostOS, fs: &FsView, root: &str, name: &str) -> (r: Option<String>)
    ensures
        match r {
            Some(p) => is_first_named(os, fs@, root@, name@, p@),
            None => !any_named(os, fs@, root@, name@),
        },
{
    let found = crate::paths::find_files_named(os, fs, root, name);
    if found.len() == 0 {
        proof {
            if any_named(os, fs@, root@, name@) {
                let q = choose|q: Seq<char>|
                    fs@.files.contains(q) && crate::paths::is_named_under(os, root@, name@, q);
                assert(exists|i: int| 0 <= i < found@.len() && #[trigger] found@[i]@ == q);
            }
        }
        return None;
    }
    let first = owned(found[0].as_str());
    proof {
        assert(first@ == found@[0]@);
        crate::paths::lemma_path_order(os);
        assert forall|q: Seq<char>|
            fs@.files.contains(q) && crate::paths::is_named_under(os, root@, name@, q) implies !crate::paths::path_before(
            os,
            q,
            first@,
        ) by {
            let i = choose|i: int| 0 <= i < found@.len() && #[trigger] found@[i]@ == q;
            if i > 0 {
                assert(!crate::paths::path_before(os, found@[i]@, found@[0]@));
            }
        }
    }
    Some(first)
}

/// At most one file is first by name: the order between paths is total.
pub proof fn lemma_first_named_unique(
    os: crate::platform::HostOS,
    fs: crate::paths::FsModel,
    root: Seq<char>,
    name: Seq<char>,
    p: Seq<char>,
)
    requires
        is_first_named(os, fs, root, name, p),
    ensures
        any_named(os, fs, root, name),
        (choose|q: Seq<char>| is_first_named(os, fs, root, name, q)) == p,
{
    let q = choose|q: Seq<char>| is_first_named(os, fs, root, name, q);
    assert(is_first_named(os, fs, root, name, q));
    crate::paths::lemma_path_order_total(os, p, q);
}

/// `v` is the version `max_by_key` picks among `found`: the last of the
/// greatest by numeric key.
pub open spec fn is_last_max_of(found: Seq<Seq<char>>, v: Seq<char>) -> bool {
    exists|i: int|
        {
            &&& is_last_max(found.map_values(|s: Seq<char>| version_order_key(s)), i)
            &&& #[trigger] found[i] == v
        }
}

/// What `newest_version` promises, over the strings' characters.
pub proof fn lemma_newest_is_last_max_of(found: Seq<String>, v: Seq<char>)
    requires
        exists|i: int|
            {
                &&& is_last_max(found.map_values(|s: String| version_order_key(s@)), i)
                &&& #[trigger] found[i]@ == v
            },
    ensures
        is_last_max_of(found.map_values(|s: String| s@), v),
{
    let i = choose|i: int|
        {
            &&& is_last_max(found.map_values(|s: String| version_order_key(s@)), i)
            &&& #[trigger] found[i]@ == v
        };
    assert(found.map_values(|s: String| version_order_key(s@)) =~= found.map_values(|s: String| s@).map_values(
        |s: Seq<char>| version_order_key(s),
    ));
    assert(found.map_values(|s: String| s@)[i] == v);
}

/// A launcher script that runs `exe` with the script's arguments.
pub open spec fn wrapper_script(exe: Seq<char>) -> Seq<char> {
    "#!/usr/bin/env bash\nexec \""@ + exe + "\" \"$@\"\n"@
}

/// A launcher script that runs `exe` with the script's arguments.
pub fn wrapper_script_exec(exe: &str) -> (r: String)
    ensures
        r@ == wrapper_script(exe@),
{
    let mut s = owned("#!/usr/bin/env bash\nexec \"");
    s.append(exe);
    s.append("\" \"$@\"\n");
    s
}

/// The launchers written for a system tool: for each name, the command of
/// that name found on PATH, else (for `primary` only) `system_primary`;
/// names with neither are left out.
pub open spec fn wrapper_plan(
    names: Seq<Seq<char>>,
    found: Seq<Option<Seq<char>>>,
    primary: Seq<char>,
    system_primary: Seq<char>,
) -> Seq<(Seq<char>, Seq<char>)>
    decreases names.len(),
{
    if names.len() == 0 || found.len() != names.len() {
        Seq::empty()
    } else {
        let rest = wrapper_plan(names.drop_last(), found.drop_last(), primary, system_primary);
        match found.last() {
            Some(p) => rest.push((names.last(), wrapper_script(p))),
            None => if names.last() == primary {
                rest.push((names.last(), wrapper_script(system_primary)))
            } else {
                rest
            },
        }
    }
}

pub open spec fn opt_strings_view(v: Seq<Option<String>>) -> Seq<Option<Seq<char>>> {
    v.map_values(|o: Option<String>| match o {
        Some(s) => Some(s@),
        None => None,
    })
}

/// The launcher scripts (file name, contents) for a system tool.
pub fn system_wrappers(names: &[&str], found: &Vec<Option<String>>, primary: &str, system_primary: &str) -> (r: Vec<(String, String)>)
    requires
        found@.len() == names@.len(),
    ensures
        r@.map_values(|e: (String, String)| (e.0@, e.1@)) == wrapper_plan(
            strs_view(names@),
            opt_strings_view(found@),
            primary@,
            system_primary@,
        ),
{
    let ghost nv = strs_view(names@);
    let ghost fv = opt_strings_view(found@);
    let mut out: Vec<(String, String)> = Vec::new();
    let mut i: usize = 0;
    while i < names.len()
        invariant
            i <= names@.len(),
            found@.len() == names@.len(),
            nv == strs_view(names@),
            fv == opt_strings_view(found@),
            out@.map_values(|e: (String, String)| (e.0@, e.1@)) == wrapper_plan(nv.take(i as int), fv.take(i as int), primary@, system_primary@),
        decreases names.len() - i,
    {
        let ghost before = out@.map_values(|e: (String, String)| (e.0@, e.1@));
        assert(nv.take(i + 1).drop_last() =~= nv.take(i as int));
        assert(fv.take(i + 1).drop_last() =~= fv.take(i as int));
        assert(nv.take(i + 1).last() == names@[i as int]@);
        match &found[i] {
            Some(p) => {
                assert(fv.take(i + 1).last() == Some(p@));
                out.push((owned(names[i]), wrapper_script_exec(p.as_str())));
                assert(out@.map_values(|e: (String, String)| (e.0@, e.1@)) =~= before.push((names@[i as int]@, wrapper_script(p@))));
            },
            None => {
                assert(fv.take(i + 1).last() is None);
                if crate::text::eq_str(chars_of(names[i]).as_slice(), primary) {
                    out.push((owned(names[i]), wrapper_script_exec(system_primary)));
                    assert(out@.map_values(|e: (String, String)| (e.0@, e.1@)) =~= before.push((names@[i as int]@, wrapper_script(system_primary@))));
                }
            },
        }
        i = i + 1;
    }
    assert(nv.take(i as int) =~= nv);
    assert(fv.take(i as int) =~= fv);
    out
}

/// The marker text of a system-tool registration.
pub fn system_marker(system_exe: &str) -> (r: String)
    ensures
        r@ == "system-wrapper\n"@ + system_exe@ + "\n"@,
{
    let mut s = owned("system-wrapper\n");
    s.append(system_exe);
    s.append("\n");
    s
}

} // verus!
