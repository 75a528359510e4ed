//! Flutter SDK plugin — download a channel/version into the machine `dev` folder.
use crate::error::Error;
use crate::json::{array_field, array_of, bool_field, field, members_of, member_from, or_default, str_field, Json};
use crate::paths::{fs_canonical, fs_has_contents, fs_is_dir, fs_is_file, join, parent, parent_of, path_join, path_join2, path_join3, FsView};
use crate::platform::{Host, HostOS};
use crate::plugin::{dir_of, env_of, exe, exe_name, resolved_dir, EnvSpec, InstallContext, InstallState, Plugin,
    PluginStatus};
use crate::plugin_utils::{binary_status, binary_status_spec};
use crate::text::{chars_of, contains, eq_str, lowercase, owned, starts_with, trim, trim_end_set};
use vstd::prelude::*;

verus! {

/// The platform name in Flutter's release index for this OS.
pub open spec fn flutter_platform(os: HostOS) -> Option<Seq<char>> {
    match os {
        HostOS::Windows => Some("windows"@),
        HostOS::MacOS => Some("macos"@),
        HostOS::Linux => Some("linux"@),
        HostOS::Other => None,
    }
}

/// The platform name in Flutter's release index for this OS.
pub fn releases_platform(os: HostOS) -> (r: Result<&'static str, Error>)
    ensures
        match flutter_platform(os) {
            Some(p) => r matches Ok(s) && s@ == p,
            None => r matches Err(Error::UnsupportedOs { .. }),
        },
{
    match os {
        HostOS::Windows => Ok("windows"),
        HostOS::MacOS => Ok("macos"),
        HostOS::Linux => Ok("linux"),
        HostOS::Other => Err(Error::UnsupportedOs { tool: "Flutter" }),
    }
}

/// The release index for this OS.
pub fn flutter_index_url(os: HostOS) -> (r: Result<String, Error>)
    ensures
        match flutter_platform(os) {
            Some(p) => r matches Ok(u) && u@ == "https://storage.googleapis.com/flutter_infra_release/releases/releases_"@ + p + ".json"@,
            None => r matches Err(Error::UnsupportedOs { .. }),
        },
{
    match releases_platform(os) {
        Ok(p) => {
            let mut u = owned("https://storage.googleapis.com/flutter_infra_release/releases/releases_");
            u.append(p);
            u.append(".json");
            Ok(u)
        },
        Err(e) => Err(e),
    }
}

/// The names an archive for this CPU may carry.
pub open spec fn arch_hints_spec(arch: Seq<char>) -> Seq<Seq<char>> {
    if arch == "arm64"@ || arch == "aarch64"@ {
        seq!["arm64"@, "aarch64"@]
    } else if arch == "x86_64"@ || arch == "amd64"@ || arch == "x64"@ {
        seq!["x64"@, "x86_64"@, "amd64"@]
    } else {
        Seq::empty()
    }
}

/// The names an archive for this CPU may carry.
pub fn arch_hints(arch: &str) -> (r: Vec<&'static str>)
    ensures
        r@.map_values(|s: &str| s@) == arch_hints_spec(arch@),
{
    let a = chars_of(arch);
    if eq_str(a.as_slice(), "arm64") || eq_str(a.as_slice(), "aarch64") {
        let r = vec!["arm64", "aarch64"];
        assert(r@.map_values(|s: &str| s@) =~= seq!["arm64"@, "aarch64"@]);
        r
    } else if eq_str(a.as_slice(), "x86_64") || eq_str(a.as_slice(), "amd64") || eq_str(a.as_slice(), "x64") {
        let r = vec!["x64", "x86_64", "amd64"];
        assert(r@.map_values(|s: &str| s@) =~= seq!["x64"@, "x86_64"@, "amd64"@]);
        r
    } else {
        let r: Vec<&'static str> = Vec::new();
        assert(r@.map_values(|s: &str| s@) =~= Seq::<Seq<char>>::empty());
        r
    }
}

/// Ten points per CPU name the (lowercased) archive name holds.
pub open spec fn hint_points(name: Seq<char>, hints: Seq<Seq<char>>) -> int
    decreases hints.len(),
{
    if hints.len() == 0 {
        0
    } else {
        hint_points(name, hints.drop_last()) + if contains(name, hints.last()) { 10int } else { 0int }
    }
}

/// Higher score = better match for this machine: ten per CPU name in the
/// lowercased archive name, twenty off for an `arm64` archive on a machine
/// that is not arm64.
pub open spec fn archive_score(lower_archive: Seq<char>, arch: Seq<char>) -> int {
    let hints = arch_hints_spec(arch);
    hint_points(lower_archive, hints) - if !hints.contains("arm64"@) && contains(lower_archive, "arm64"@) {
        20int
    } else {
        0int
    }
}

/// The score of an archive whose name is already lowercased.
pub fn score_lowered(lower_archive: &str, arch: &str) -> (r: i32)
    ensures
        r as int == archive_score(lower_archive@, arch@),
{
    let name = chars_of(lower_archive);
    let hints = arch_hints(arch);
    let ghost hv = hints@.map_values(|s: &str| s@);
    assert(hints@.len() == hv.len());
    assert(hv.len() <= 3);
    let mut score: i32 = 0;
    let mut has_arm = false;
    let mut i: usize = 0;
    while i < hints.len()
        invariant
            i <= hints@.len(),
            hints@.len() <= 3,
            hv == hints@.map_values(|s: &str| s@),
            hv == arch_hints_spec(arch@),
            name@ == lower_archive@,
            score as int == hint_points(lower_archive@, hv.take(i as int)),
            0 <= score <= 10 * i,
            has_arm == hv.take(i as int).contains("arm64"@),
        decreases hints.len() - i,
    {
        assert(hv.take(i + 1).drop_last() =~= hv.take(i as int));
        assert(hv[i as int] == hints@[i as int]@);
        if crate::text::contains_str(name.as_slice(), hints[i]) {
            score = score + 10;
        }
        if eq_str(chars_of(hints[i]).as_slice(), "arm64") {
            has_arm = true;
        }
        proof {
            let t = hv.take(i + 1);
            if t.contains("arm64"@) && !hv.take(i as int).contains("arm64"@) {
                let k = choose|k: int| 0 <= k < t.len() && t[k] == "arm64"@;
                if k < i {
                    assert(hv.take(i as int)[k] == "arm64"@);
                }
            }
            if hv.take(i as int).contains("arm64"@) {
                let k = choose|k: int| 0 <= k < i && hv.take(i as int)[k] == "arm64"@;
                assert(t[k] == "arm64"@);
            }
            if hv[i as int] == "arm64"@ {
                assert(t[i as int] == "arm64"@);
            }
        }
        i = i + 1;
    }
    assert(hv.take(i as int) =~= hv);
    if !has_arm && crate::text::contains_str(name.as_slice(), "arm64") {
        score = score - 20;
    }
    score
}

/// Higher score = better match for this machine (prefer arch-specific builds).
pub fn score_archive(archive: &str, arch: &str) -> (r: i32)
    ensures
        r as int == archive_score(lowercase(archive@), arch@),
{
    let lower = crate::text::string_of(crate::text::to_lowercase(chars_of(archive).as_slice()).as_slice());
    score_lowered(lower.as_str(), arch)
}

/// The channels Flutter publishes.
pub open spec fn is_flutter_channel(c: Seq<char>) -> bool {
    c == "stable"@ || c == "beta"@ || c == "dev"@
}

/// The channel asked for (`stable` when none), trimmed and lowercased; it
/// must be one Flutter publishes.
pub fn normalize_channel(channel: Option<&str>) -> (r: Result<String, Error>)
    ensures
        ({
            let asked = match channel {
                Some(c) => c@,
                None => "stable"@,
            };
            let value = lowercase(trim(asked));
            if is_flutter_channel(value) {
                r matches Ok(v) && v@ == value
            } else {
                r matches Err(Error::UnknownChannel { given }) && given@ == match channel {
                    Some(c) => c@,
                    None => ""@,
                }
            }
        }),
{
    let asked = match channel {
        Some(c) => c,
        None => "stable",
    };
    let value = crate::text::to_lowercase(crate::text::trim_exec(chars_of(asked).as_slice()).as_slice());
    if eq_str(value.as_slice(), "stable") || eq_str(value.as_slice(), "beta") || eq_str(value.as_slice(), "dev") {
        Ok(crate::text::string_of(value.as_slice()))
    } else {
        Err(Error::UnknownChannel { given: owned(match channel {
            Some(c) => c,
            None => "",
        }) })
    }
}

/// Exact match, or prefix match (`3.24` matches `3.24.5`), after trimming both.
pub open spec fn version_matches(release_version: Seq<char>, requested: Seq<char>) -> bool {
    trim(release_version) == trim(requested) || starts_with(trim(release_version), trim(requested) + "."@)
}

/// Exact match, or prefix match (`3.24` matches `3.24.5`).
pub fn match_version(release_version: &str, requested: &str) -> (r: bool)
    ensures
        r == version_matches(release_version@, requested@),
{
    let rv = crate::text::trim_exec(chars_of(release_version).as_slice());
    let req = crate::text::trim_exec(chars_of(requested).as_slice());
    if crate::text::eq(rv.as_slice(), req.as_slice()) {
        return true;
    }
    let mut p = req;
    p.push('.');
    proof {
        reveal_strlit(".");
    }
    assert(p@ =~= trim(requested@) + "."@);
    crate::text::starts_with_exec(rv.as_slice(), p.as_slice())
}

/// A release of the channel that has an archive.
pub open spec fn of_channel(r: Json, channel: Seq<char>) -> bool {
    str_field(r, "channel"@) == Some(channel) && field(r, "archive"@) is Some
}

pub open spec fn keep_channel(rs: Seq<Json>, channel: Seq<char>) -> Seq<Json>
    decreases rs.len(),
{
    if rs.len() == 0 {
        rs
    } else if of_channel(rs.last(), channel) {
        keep_channel(rs.drop_last(), channel).push(rs.last())
    } else {
        keep_channel(rs.drop_last(), channel)
    }
}

pub open spec fn keep_version(rs: Seq<Json>, requested: Seq<char>) -> Seq<Json>
    decreases rs.len(),
{
    if rs.len() == 0 {
        rs
    } else if version_matches(or_default(str_field(rs.last(), "version"@), ""@), requested) {
        keep_version(rs.drop_last(), requested).push(rs.last())
    } else {
        keep_version(rs.drop_last(), requested)
    }
}

pub open spec fn keep_hash(rs: Seq<Json>, hash: Seq<char>) -> Seq<Json>
    decreases rs.len(),
{
    if rs.len() == 0 {
        rs
    } else if str_field(rs.last(), "hash"@) == Some(hash) {
        keep_hash(rs.drop_last(), hash).push(rs.last())
    } else {
        keep_hash(rs.drop_last(), hash)
    }
}

/// The archive name of a release (`""` when missing).
pub open spec fn archive_of(r: Json) -> Seq<char> {
    or_default(str_field(r, "archive"@), ""@)
}

/// The score of each release's archive for this CPU.
pub open spec fn pool_scores(pool: Seq<Json>, arch: Seq<char>) -> Seq<int> {
    pool.map_values(|x: Json| archive_score(lowercase(archive_of(x)), arch))
}

/// Index `i` has the greatest score, and every later index a smaller one.
pub open spec fn is_last_best(scores: Seq<int>, i: int) -> bool {
    &&& 0 <= i < scores.len()
    &&& forall|j: int| 0 <= j < scores.len() ==> scores[j] <= scores[i]
    &&& forall|j: int| i < j < scores.len() ==> scores[j] < scores[i]
}

/// The releases the choice is made among: the channel's releases with an
/// archive, narrowed to the requested version, or else to the channel's
/// current hash when any release has it.
pub open spec fn flutter_pool(meta: Json, channel: Seq<char>, version: Option<Seq<char>>) -> Seq<Json> {
    let cands = keep_channel(array_field(meta, "releases"@).unwrap(), channel);
    match version {
        Some(v) => keep_version(cands, v),
        None => match (match field(meta, "current_release"@) {
            Some(cur) => if cur is Object { str_field(cur, channel) } else { None },
            None => None,
        }) {
            Some(h) => if keep_hash(cands, h).len() > 0 { keep_hash(cands, h) } else { cands },
            None => cands,
        },
    }
}

/// The base URL of the archives (`/`s at its end dropped).
pub open spec fn flutter_base(meta: Json) -> Seq<char> {
    trim_end_set(
        or_default(str_field(meta, "base_url"@), "https://storage.googleapis.com/flutter_infra_release/releases"@),
        seq!['/'],
    )
}

fn keep_channel_exec<'a>(rs: &'a Vec<Json>, channel: &str) -> (r: Vec<&'a Json>)
    ensures
        r@.map_values(|x: &Json| *x) == keep_channel(rs@, channel@),
{
    let mut out: Vec<&Json> = Vec::new();
    let mut i: usize = 0;
    while i < rs.len()
        invariant
            i <= rs@.len(),
            out@.map_values(|x: &Json| *x) == keep_channel(rs@.take(i as int), channel@),
        decreases rs.len() - i,
    {
        let ghost before = out@.map_values(|x: &Json| *x);
        assert(rs@.take(i + 1).drop_last() =~= rs@.take(i as int));
        let r = &rs[i];
        let ok = match r.str_field("channel") {
            Some(c) => eq_str(chars_of(c).as_slice(), channel) && r.get("archive").is_some(),
            None => false,
        };
        if ok {
            out.push(r);
            assert(out@.map_values(|x: &Json| *x) =~= before.push(rs@[i as int]));
        }
        i = i + 1;
    }
    assert(rs@.take(i as int) =~= rs@);
    out
}

fn keep_version_exec<'a>(rs: &Vec<&'a Json>, requested: &str) -> (r: Vec<&'a Json>)
    ensures
        r@.map_values(|x: &Json| *x) == keep_version(rs@.map_values(|x: &Json| *x), requested@),
{
    let ghost rv = rs@.map_values(|x: &Json| *x);
    let mut out: Vec<&Json> = Vec::new();
    let mut i: usize = 0;
    while i < rs.len()
        invariant
            i <= rs@.len(),
            rv == rs@.map_values(|x: &Json| *x),
            out@.map_values(|x: &Json| *x) == keep_version(rv.take(i as int), requested@),
        decreases rs.len() - i,
    {
        let ghost before = out@.map_values(|x: &Json| *x);
        assert(rv.take(i + 1).drop_last() =~= rv.take(i as int));
        let r = rs[i];
        let ver = match r.str_field("version") {
            Some(v) => v,
            None => "",
        };
        if match_version(ver, requested) {
            out.push(r);
            assert(out@.map_values(|x: &Json| *x) =~= before.push(rv[i as int]));
        }
        i = i + 1;
    }
    assert(rv.take(i as int) =~= rv);
    out
}

fn keep_hash_exec<'a>(rs: &Vec<&'a Json>, hash: &str) -> (r: Vec<&'a Json>)
    ensures
        r@.map_values(|x: &Json| *x) == keep_hash(rs@.map_values(|x: &Json| *x), hash@),
{
    let ghost rv = rs@.map_values(|x: &Json| *x);
    let mut out: Vec<&Json> = Vec::new();
    let mut i: usize = 0;
    while i < rs.len()
        invariant
            i <= rs@.len(),
            rv == rs@.map_values(|x: &Json| *x),
            out@.map_values(|x: &Json| *x) == keep_hash(rv.take(i as int), hash@),
        decreases rs.len() - i,
    {
        let ghost before = out@.map_values(|x: &Json| *x);
        assert(rv.take(i + 1).drop_last() =~= rv.take(i as int));
        let r = rs[i];
        let same = match r.str_field("hash") {
            Some(h) => eq_str(chars_of(h).as_slice(), hash),
            None => false,
        };
        if same {
            out.push(r);
            assert(out@.map_values(|x: &Json| *x) =~= before.push(rv[i as int]));
        }
        i = i + 1;
    }
    assert(rv.take(i as int) =~= rv);
    out
}

/// Return `(download_url, version)` for a Flutter channel (and optional
/// version) from the platform's release index: among the pool (see
/// `flutter_pool`) the release whose archive scores best for this CPU (the
/// last of equal ones).
/// What `resolve_flutter_url` answers for a request.
pub open spec fn flutter_outcome(
    meta: Json,
    channel_in: Seq<char>,
    version: Option<Seq<char>>,
    host: Host,
    r: Result<(String, String), Error>,
) -> bool {
            let ch = lowercase(trim(channel_in));
            if !is_flutter_channel(ch) {
                r matches Err(Error::UnknownChannel { .. })
            } else if flutter_platform(host.os) is None {
                r matches Err(Error::UnsupportedOs { .. })
            } else if array_field(meta, "releases"@) is None {
                r matches Err(Error::UnexpectedMetadata { .. })
            } else if keep_channel(array_field(meta, "releases"@).unwrap(), ch).len() == 0 {
                r matches Err(Error::NoRelease { .. })
            } else {
                let pool = flutter_pool(meta, ch, version);
                if pool.len() == 0 {
                    r matches Err(Error::NoRelease { .. })
                } else {
                    exists|i: int|
                        #![trigger pool[i]]
                        is_last_best(pool_scores(pool, host.arch@), i)
                            && (r matches Ok((url, v)) && url@ == flutter_base(meta) + "/"@ + archive_of(pool[i])
                            && v@ == or_default(str_field(pool[i], "version"@), "unknown"@))
                }
            }
        }

pub fn resolve_flutter_url(meta: &Json, channel_in: &str, version: Option<&str>, host: &Host) -> (r: Result<(String, String), Error>)
    ensures
        flutter_outcome(*meta, channel_in@, match version {
            Some(v) => Some(v@),
            None => None,
        }, *host, r),
{
    let channel = match normalize_channel(Some(channel_in)) {
        Ok(c) => c,
        Err(e) => {
            return Err(e);
        },
    };
    match releases_platform(host.os) {
        Ok(_) => {},
        Err(e) => {
            return Err(e);
        },
    }
    let base_raw = match meta.str_field("base_url") {
        Some(b) => chars_of(b),
        None => chars_of("https://storage.googleapis.com/flutter_infra_release/releases"),
    };
    let slash: Vec<char> = vec!['/'];
    assert(slash@ =~= seq!['/']);
    let base_url = crate::text::trim_end_set_exec(base_raw.as_slice(), slash.as_slice());
    let releases = match meta.array_field("releases") {
        Some(r) => r,
        None => {
            return Err(Error::UnexpectedMetadata { tool: "Flutter" });
        },
    };
    let candidates = keep_channel_exec(releases, channel.as_str());
    if candidates.len() == 0 {
        return Err(Error::NoRelease { tool: "Flutter", detail: channel });
    }
    let ghost cv = candidates@.map_values(|x: &Json| *x);
    let pool: Vec<&Json> = match version {
        Some(v) => {
            let matched = keep_version_exec(&candidates, v);
            if matched.len() == 0 {
                return Err(Error::NoRelease { tool: "Flutter", detail: owned(v) });
            }
            matched
        },
        None => {
            let hash: Option<&str> = match meta.get("current_release") {
                Some(cur) => if cur.is_object() { cur.str_field(channel.as_str()) } else { None },
                None => None,
            };
            match hash {
                Some(h) => {
                    let hashed = keep_hash_exec(&candidates, h);
                    if hashed.len() > 0 {
                        hashed
                    } else {
                        candidates
                    }
                },
                None => candidates,
            }
        },
    };
    let ghost pv = pool@.map_values(|x: &Json| *x);
    assert(pv == flutter_pool(*meta, channel@, match version {
        Some(v) => Some(v@),
        None => None,
    }));
    let ghost scores = pool_scores(pv, host.arch@);
    let mut best: usize = 0;
    let first_name = match pool[0].str_field("archive") {
        Some(a) => a,
        None => "",
    };
    let mut best_score = score_archive(first_name, host.arch.as_str());
    assert(first_name@ == archive_of(pv[0]));
    let mut i: usize = 1;
    while i < pool.len()
        invariant
            1 <= i <= pool@.len(),
            best < i,
            pv == pool@.map_values(|x: &Json| *x),
            scores == pool_scores(pv, host.arch@),
            best_score as int == scores[best as int],
            forall|j: int| 0 <= j < i ==> scores[j] <= scores[best as int],
            forall|j: int| best < j < i ==> scores[j] < scores[best as int],
        decreases pool.len() - i,
    {
        let name = match pool[i].str_field("archive") {
            Some(a) => a,
            None => "",
        };
        assert(name@ == archive_of(pv[i as int]));
        let s = score_archive(name, host.arch.as_str());
        if s >= best_score {
            best = i;
            best_score = s;
        }
        i = i + 1;
    }
    let chosen = pool[best];
    let archive = match chosen.str_field("archive") {
        Some(a) => a,
        None => "",
    };
    let resolved = match chosen.str_field("version") {
        Some(v) => owned(v),
        None => owned("unknown"),
    };
    let mut url = crate::text::string_of(base_url.as_slice());
    url.append("/");
    url.append(archive);
    assert(is_last_best(scores, best as int));
    assert(*chosen == pv[best as int]);
    assert(archive@ == archive_of(pv[best as int]));
    assert(base_url@ == flutter_base(*meta));
    assert(url@ == flutter_base(*meta) + "/"@ + archive_of(pv[best as int]));
    assert(resolved@ == or_default(str_field(pv[best as int], "version"@), "unknown"@));
    let r = Ok((url, resolved));
    proof {
        let vv = match version {
            Some(v) => Some(v@),
            None => None,
        };
        let pool_s = flutter_pool(*meta, lowercase(trim(channel_in@)), match version {
            Some(v) => Some(v@),
            None => None,
        });
        assert(pool_s == pv);
        assert(is_flutter_channel(lowercase(trim(channel_in@))));
        assert(flutter_platform(host.os) is Some);
        assert(array_field(*meta, "releases"@) is Some);
        assert(keep_channel(array_field(*meta, "releases"@).unwrap(), lowercase(trim(channel_in@))).len() != 0);
        assert(pool_s.len() != 0);
        assert(pool_s[best as int] == pv[best as int]);
        assert(is_last_best(pool_scores(pool_s, host.arch@), best as int)
            && (r matches Ok((u, v)) && u@ == flutter_base(*meta) + "/"@ + archive_of(pool_s[best as int])
            && v@ == or_default(str_field(pool_s[best as int], "version"@), "unknown"@)));
        assert(exists|i: int|
            #![trigger pool_s[i]]
            is_last_best(pool_scores(pool_s, host.arch@), i)
                && (r matches Ok((u, v)) && u@ == flutter_base(*meta) + "/"@ + archive_of(pool_s[i])
                && v@ == or_default(str_field(pool_s[i], "version"@), "unknown"@)));
        assert(flutter_outcome(*meta, channel_in@, vv, *host, r));
    }
    r
}

/// `bin/flutter.bat` on Windows, `bin/flutter` elsewhere.
pub open spec fn flutter_bin(os: HostOS, dir: Seq<char>) -> Seq<char> {
    join(os, join(os, dir, "bin"@), if os == HostOS::Windows { "flutter.bat"@ } else { "flutter"@ })
}

pub struct FlutterPlugin;

impl Plugin for FlutterPlugin {
    open spec fn spec_id(&self) -> Seq<char> {
        "flutter"@
    }

    fn id(&self) -> (r: &'static str) {
        "flutter"
    }

    fn name(&self) -> (r: &'static str)
        ensures
            r@ == "Flutter"@,
    {
        "Flutter"
    }

    fn description(&self) -> (r: &'static str)
        ensures
            r@ == "Download Flutter SDK into the machine dev folder (optional --channel / --version)."@,
    {
        "Download Flutter SDK into the machine dev folder (optional --channel / --version)."
    }

    fn status(&self, ctx: &InstallContext, fs: &FsView) -> (r: PluginStatus)
        ensures
            r@ == binary_status_spec(
                fs@,
                flutter_bin(ctx.host.os, ctx.install_dir@),
                ctx.install_dir@,
                "Install dir exists but flutter binary is missing"@,
            ),
    {
        let bin = path_join2(ctx.host.os, ctx.install_dir.as_str(), "bin", if ctx.host.os == HostOS::Windows { "flutter.bat" } else { "flutter" });
        binary_status(fs, bin.as_str(), ctx.install_dir.as_str(), "Install dir exists but flutter binary is missing")
    }

    /// The PATH entries.
    fn env_spec(&self, ctx: &InstallContext, fs: &FsView) -> (r: EnvSpec)
        ensures
            r@ == (
                seq![join(ctx.host.os, ctx.install_dir@, "bin"@)],
                Seq::<(Seq<char>, Seq<char>)>::empty(),
            ),
    {
        let r = env_of(vec![path_join(ctx.host.os, ctx.install_dir.as_str(), "bin")], Vec::new());
        assert(r@.0 =~= seq![join(ctx.host.os, ctx.install_dir@, "bin"@)]);
        assert(r@.1 =~= Seq::<(Seq<char>, Seq<char>)>::empty());
        r
    }
}

} // verus!
