//! PHP plugin — Windows ZIP from downloads.php.net; system PHP wrappers on Unix.
//!
//! Pairs with the Composer plugin. On Windows, installs the latest NTS x64 build
//! (suitable for CLI / Composer). On macOS/Linux, registers wrappers around system PHP.
use crate::error::Error;
use crate::json::{array_field, array_of, bool_field, field, members_of, member_from, or_default, str_field, Json};
use crate::paths::{fs_canonical, fs_has_contents, fs_is_dir, fs_is_file, join, parent, parent_of, path_join, path_join2, path_join3, FsView};
use crate::platform::{Host, HostOS};
use crate::plugin::{dir_of, env_of, exe, exe_name, resolved_dir, EnvSpec, InstallContext, InstallState, Plugin,
    PluginStatus};
use crate::plugin_utils::{binary_status, binary_status_spec};
use crate::text::{chars_of, ends_with, eq_str, owned, parse_u32, split, starts_with};
use crate::version::{is_first_max, first_max_index};
use vstd::prelude::*;

verus! {

/// A build key of the given flavour for x64 (`nts-...-x64` or `ts-...-x64`).
pub open spec fn is_build_key(k: Seq<char>, prefix: Seq<char>) -> bool {
    starts_with(k, prefix) && ends_with(k, "-x64"@)
}

/// The first member whose key is a build key of the flavour.
pub open spec fn first_build_of(ms: Seq<(String, Json)>, prefix: Seq<char>, i: int) -> Option<Json>
    decreases ms.len() - i,
{
    if i < 0 || i >= ms.len() {
        None
    } else if is_build_key(ms[i].0@, prefix) {
        Some(ms[i].1)
    } else {
        first_build_of(ms, prefix, i + 1)
    }
}

/// The build of a release: the first NTS x64 build, else the first TS x64 one.
pub open spec fn php_build(ms: Seq<(String, Json)>) -> Option<Json> {
    match first_build_of(ms, "nts-"@, 0) {
        Some(b) => Some(b),
        None => first_build_of(ms, "ts-"@, 0),
    }
}

/// Every dot-separated part of `v` read as a `u32`; none when one is not a number.
pub open spec fn strict_key_from(parts: Seq<Seq<char>>) -> Option<Seq<u32>>
    decreases parts.len(),
{
    if parts.len() == 0 {
        Some(Seq::empty())
    } else {
        match (strict_key_from(parts.drop_last()), parse_u32(parts.last())) {
            (Some(k), Some(n)) => Some(k.push(n)),
            _ => None,
        }
    }
}

pub open spec fn strict_key(v: Seq<char>) -> Option<Seq<u32>> {
    strict_key_from(split(v, '.'))
}

/// What a release entry offers: its version key, version and ZIP path,
/// when it is an object with a usable build, ZIP path and numeric version.
pub open spec fn php_candidate(info: Json) -> Option<(Seq<u32>, Seq<char>, Seq<char>)> {
    match members_of(info) {
        None => None,
        Some(ms) => {
            let version = or_default(str_field(info, "version"@), ""@);
            match php_build(ms) {
                Some(b) => if b is Object {
                    match field(b, "zip"@) {
                        Some(z) => if z is Object {
                            match str_field(z, "path"@) {
                                Some(p) => if p.len() > 0 {
                                    match strict_key(version) {
                                        Some(k) => Some((k, version, p)),
                                        None => None,
                                    }
                                } else {
                                    None
                                },
                                None => None,
                            }
                        } else {
                            None
                        },
                        None => None,
                    }
                } else {
                    None
                },
                None => None,
            }
        },
    }
}

/// The candidates of all entries, in order.
pub open spec fn php_candidates(ms: Seq<(String, Json)>) -> Seq<(Seq<u32>, Seq<char>, Seq<char>)>
    decreases ms.len(),
{
    if ms.len() == 0 {
        Seq::empty()
    } else {
        match php_candidate(ms.last().1) {
            Some(c) => php_candidates(ms.drop_last()).push(c),
            None => php_candidates(ms.drop_last()),
        }
    }
}

fn first_build_exec<'a>(ms: &'a Vec<(String, Json)>, prefix: &str) -> (r: Option<&'a Json>)
    ensures
        match r {
            Some(b) => first_build_of(ms@, prefix@, 0) == Some(*b),
            None => first_build_of(ms@, prefix@, 0) is None,
        },
{
    let mut i: usize = 0;
    while i < ms.len()
        invariant
            i <= ms@.len(),
            first_build_of(ms@, prefix@, 0) == first_build_of(ms@, prefix@, i as int),
        decreases ms.len() - i,
    {
        let k = chars_of(ms[i].0.as_str());
        if crate::text::starts_with_str(k.as_slice(), prefix) && crate::text::ends_with_str(k.as_slice(), "-x64") {
            return Some(&ms[i].1);
        }
        i = i + 1;
    }
    None
}

fn strict_key_exec(v: &str) -> (r: Option<Vec<u32>>)
    ensures
        match r {
            Some(k) => strict_key(v@) == Some(k@),
            None => strict_key(v@) is None,
        },
{
    let parts = crate::text::split_exec(chars_of(v).as_slice(), '.');
    let ghost pv = parts@.map_values(|x: Vec<char>| x@);
    let mut out: Vec<u32> = Vec::new();
    let mut i: usize = 0;
    while i < parts.len()
        invariant
            i <= parts@.len(),
            pv == parts@.map_values(|x: Vec<char>| x@),
            pv == split(v@, '.'),
            strict_key_from(pv.take(i as int)) == Some(out@),
        decreases parts.len() - i,
    {
        assert(pv.take(i + 1).drop_last() =~= pv.take(i as int));
        assert(pv[i as int] == parts@[i as int]@);
        match crate::text::parse_u32_exec(parts[i].as_slice()) {
            Some(n) => {
                out.push(n);
            },
            None => {
                proof {
                    lemma_strict_key_none(pv, i as int);
                }
                return None;
            },
        }
        i = i + 1;
    }
    assert(pv.take(i as int) =~= pv);
    Some(out)
}

proof fn lemma_strict_key_none(parts: Seq<Seq<char>>, i: int)
    requires
        0 <= i < parts.len(),
        parse_u32(parts[i]) is None,
    ensures
        strict_key_from(parts) is None,
    decreases parts.len(),
{
    if i < parts.len() - 1 {
        lemma_strict_key_none(parts.drop_last(), i);
    }
}

fn php_candidate_exec(info: &Json) -> (r: Option<(Vec<u32>, String, String)>)
    ensures
        match r {
            Some(c) => php_candidate(*info) == Some((c.0@, c.1@, c.2@)),
            None => php_candidate(*info) is None,
        },
{
    let ms = match info.as_object() {
        Some(m) => m,
        None => {
            return None;
        },
    };
    let version = match info.str_field("version") {
        Some(v) => owned(v),
        None => owned(""),
    };
    let build = match first_build_exec(ms, "nts-") {
        Some(b) => b,
        None => match first_build_exec(ms, "ts-") {
            Some(b) => b,
            None => {
                return None;
            },
        },
    };
    if !build.is_object() {
        return None;
    }
    let z = match build.get("zip") {
        Some(z) => z,
        None => {
            return None;
        },
    };
    if !z.is_object() {
        return None;
    }
    let path = match z.str_field("path") {
        Some(p) => p,
        None => {
            return None;
        },
    };
    if path.is_empty() {
        return None;
    }
    match strict_key_exec(version.as_str()) {
        Some(k) => Some((k, version, owned(path))),
        None => None,
    }
}

/// Pick the newest NTS (else TS) x64 Windows ZIP from the official releases
/// index (`https://downloads.php.net/~windows/releases/releases.json`): the
/// first entry with the greatest version. Returns `(download_url, version)`.
pub fn resolve_php_windows_url(meta: &Json) -> (r: Result<(String, String), Error>)
    ensures
        match members_of(*meta) {
            None => r matches Err(Error::UnexpectedMetadata { .. }),
            Some(ms) => {
                let cands = php_candidates(ms);
                if cands.len() == 0 {
                    r matches Err(Error::NoRelease { .. })
                } else {
                    exists|i: int|
                        #![trigger cands[i]]
                        is_first_max(cands.map_values(|c: (Seq<u32>, Seq<char>, Seq<char>)| c.0), i) && (r matches Ok((url, version))
                            && url@ == "https://downloads.php.net/~windows/releases/"@ + cands[i].2 && version@ == cands[i].1)
                }
            },
        },
{
    let ms = match meta.as_object() {
        Some(m) => m,
        None => {
            return Err(Error::UnexpectedMetadata { tool: "PHP" });
        },
    };
    let mut keys: Vec<Vec<u32>> = Vec::new();
    let mut versions: Vec<String> = Vec::new();
    let mut paths: Vec<String> = Vec::new();
    let mut i: usize = 0;
    while i < ms.len()
        invariant
            i <= ms@.len(),
            keys@.len() == versions@.len(),
            keys@.len() == paths@.len(),
            php_candidates(ms@.take(i as int)).len() == keys@.len(),
            forall|j: int| 0 <= j < keys@.len() ==> #[trigger] php_candidates(ms@.take(i as int))[j] == (keys@[j]@, versions@[j]@, paths@[j]@),
        decreases ms.len() - i,
    {
        assert(ms@.take(i + 1).drop_last() =~= ms@.take(i as int));
        assert(ms@.take(i + 1).last() == ms@[i as int]);
        match php_candidate_exec(&ms[i].1) {
            Some((k, v, p)) => {
                keys.push(k);
                versions.push(v);
                paths.push(p);
            },
            None => {},
        }
        i = i + 1;
    }
    assert(ms@.take(i as int) =~= ms@);
    if keys.len() == 0 {
        return Err(Error::NoRelease { tool: "PHP", detail: owned("No suitable Windows PHP ZIP found in releases.json") });
    }
    let best = first_max_index(&keys);
    let ghost cands = php_candidates(ms@);
    assert(keys@.map_values(|k: Vec<u32>| k@) =~= cands.map_values(|c: (Seq<u32>, Seq<char>, Seq<char>)| c.0));
    let mut url = owned("https://downloads.php.net/~windows/releases/");
    url.append(paths[best].as_str());
    let version = owned(versions[best].as_str());
    assert(cands[best as int] == (keys@[best as int]@, versions@[best as int]@, paths@[best as int]@));
    Ok((url, version))
}

/// The PHP binary: `php.exe` at the top on Windows; `bin/php`, else `php`, elsewhere.
pub open spec fn php_binary_spec(os: HostOS, fs: crate::paths::FsModel, dir: Seq<char>) -> Option<Seq<char>> {
    if os == HostOS::Windows {
        if fs_is_file(fs, join(os, dir, "php.exe"@)) { Some(join(os, dir, "php.exe"@)) } else { None }
    } else if fs_is_file(fs, join(os, join(os, dir, "bin"@), "php"@)) {
        Some(join(os, join(os, dir, "bin"@), "php"@))
    } else if fs_is_file(fs, join(os, dir, "php"@)) {
        Some(join(os, dir, "php"@))
    } else {
        None
    }
}

/// The PHP binary of the install, if there is one.
pub fn php_binary(ctx: &InstallContext, fs: &FsView) -> (r: Option<String>)
    ensures
        match r {
            Some(p) => php_binary_spec(ctx.host.os, fs@, ctx.install_dir@) == Some(p@),
            None => php_binary_spec(ctx.host.os, fs@, ctx.install_dir@) is None,
        },
{
    let os = ctx.host.os;
    if os == HostOS::Windows {
        let exe = path_join(os, ctx.install_dir.as_str(), "php.exe");
        return if fs.is_file(exe.as_str()) { Some(exe) } else { None };
    }
    let a = path_join2(os, ctx.install_dir.as_str(), "bin", "php");
    if fs.is_file(a.as_str()) {
        return Some(a);
    }
    let b = path_join(os, ctx.install_dir.as_str(), "php");
    if fs.is_file(b.as_str()) {
        return Some(b);
    }
    None
}

/// The copy that gives a Windows install its `php.ini`: none when one
/// exists; else from `php.ini-development`, else `php.ini-production`, when present.
pub fn php_ini_source(ctx: &InstallContext, fs: &FsView) -> (r: Option<(String, String)>)
    ensures
        ({
            let os = ctx.host.os;
            let dir = ctx.install_dir@;
            let ini = join(os, dir, "php.ini"@);
            let dev = join(os, dir, "php.ini-development"@);
            let prod = join(os, dir, "php.ini-production"@);
            if fs_is_file(fs@, ini) {
                r is None
            } else if fs_is_file(fs@, dev) {
                r matches Some((s, d)) && s@ == dev && d@ == ini
            } else if fs_is_file(fs@, prod) {
                r matches Some((s, d)) && s@ == prod && d@ == ini
            } else {
                r is None
            }
        }),
{
    let os = ctx.host.os;
    let ini = path_join(os, ctx.install_dir.as_str(), "php.ini");
    if fs.is_file(ini.as_str()) {
        return None;
    }
    let dev = path_join(os, ctx.install_dir.as_str(), "php.ini-development");
    if fs.is_file(dev.as_str()) {
        return Some((dev, ini));
    }
    let prod = path_join(os, ctx.install_dir.as_str(), "php.ini-production");
    if fs.is_file(prod.as_str()) {
        return Some((prod, ini));
    }
    None
}

pub struct PhpPlugin;

impl Plugin for PhpPlugin {
    open spec fn spec_id(&self) -> Seq<char> {
        "php"@
    }

    fn id(&self) -> (r: &'static str) {
        "php"
    }

    fn name(&self) -> (r: &'static str)
        ensures
            r@ == "PHP"@,
    {
        "PHP"
    }

    fn description(&self) -> (r: &'static str)
        ensures
            r@ == "Install latest PHP NTS x64 ZIP on Windows. On macOS/Linux, registers system PHP if already installed."@,
    {
        "Install latest PHP NTS x64 ZIP on Windows. On macOS/Linux, registers system PHP if already installed."
    }

    /// Installed when a PHP binary or the wrapper marker exists; partial
    /// when the folder has other contents.
    fn status(&self, ctx: &InstallContext, fs: &FsView) -> (r: PluginStatus)
        ensures
            r@ == match php_binary_spec(ctx.host.os, fs@, ctx.install_dir@) {
                Some(b) => (InstallState::Installed, Some(ctx.install_dir@), b),
                None => if fs_is_file(fs@, join(ctx.host.os, ctx.install_dir@, ".devkit-php"@)) {
                    (InstallState::Installed, Some(ctx.install_dir@), "system php wrappers"@)
                } else if fs_has_contents(fs@, ctx.install_dir@) {
                    (InstallState::Partial, Some(ctx.install_dir@), "Install dir exists but php binary is missing"@)
                } else {
                    (InstallState::NotInstalled, Some(ctx.install_dir@), Seq::<char>::empty())
                },
            },
    {
        let dir = Some(owned(ctx.install_dir.as_str()));
        match php_binary(ctx, fs) {
            Some(b) => PluginStatus::new(InstallState::Installed, dir).with_detail(b),
            None => {
                let marker = path_join(ctx.host.os, ctx.install_dir.as_str(), ".devkit-php");
                if fs.is_file(marker.as_str()) {
                    PluginStatus::new(InstallState::Installed, dir).with_detail(owned("system php wrappers"))
                } else if fs.has_contents(ctx.install_dir.as_str()) {
                    PluginStatus::new(InstallState::Partial, dir).with_detail(owned("Install dir exists but php binary is missing"))
                } else {
                    PluginStatus::new(InstallState::NotInstalled, dir)
                }
            },
        }
    }

    /// The install folder (and `bin` when it exists) on PATH.
    fn env_spec(&self, ctx: &InstallContext, fs: &FsView) -> (r: EnvSpec)
        ensures
            r@ == (
                if fs_is_dir(fs@, join(ctx.host.os, ctx.install_dir@, "bin"@)) {
                    seq![ctx.install_dir@, join(ctx.host.os, ctx.install_dir@, "bin"@)]
                } else {
                    seq![ctx.install_dir@]
                },
                Seq::<(Seq<char>, Seq<char>)>::empty(),
            ),
    {
        let bin = path_join(ctx.host.os, ctx.install_dir.as_str(), "bin");
        let mut paths = vec![owned(ctx.install_dir.as_str())];
        if fs.is_dir(bin.as_str()) {
            paths.push(bin);
        }
        let r = env_of(paths, Vec::new());
        assert(r@.0 =~= if fs_is_dir(fs@, join(ctx.host.os, ctx.install_dir@, "bin"@)) {
            seq![ctx.install_dir@, join(ctx.host.os, ctx.install_dir@, "bin"@)]
        } else {
            seq![ctx.install_dir@]
        });
        assert(r@.1 =~= Seq::<(Seq<char>, Seq<char>)>::empty());
        r
    }
}

} // verus!
