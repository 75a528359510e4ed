//! Git plugin — MinGit on Windows; wrappers around the system Git elsewhere.
use crate::error::Error;
use crate::json::{array_field, array_of, bool_field, field, members_of, member_from, or_default, str_field, Json};
use crate::paths::{fs_canonical, fs_has_contents, fs_is_dir, fs_is_file, join, parent, parent_of, path_join, path_join2, path_join3, FsView};
use crate::platform::{Host, HostOS};
use crate::plugin::{dir_of, env_of, exe, exe_name, resolved_dir, EnvSpec, InstallContext, InstallState, Plugin,
    PluginStatus};
use crate::plugin_utils::{binary_status, binary_status_spec};
use crate::text::{chars_of, contains, ends_with, eq_str, lowercase, owned, starts_with, trim};
use crate::scan::{capture_all, captures};
use vstd::prelude::*;

verus! {

/// The MinGit asset name pattern for this CPU.
pub open spec fn mingit_pattern(arch: Seq<char>) -> Seq<char> {
    if arch == "aarch64"@ {
        "(?i)^MinGit-.*-arm64\\.zip$"@
    } else if arch == "x64"@ {
        "(?i)^MinGit-.*-64-bit\\.zip$"@
    } else {
        "(?i)^MinGit-.*-32-bit\\.zip$"@
    }
}

/// The pattern matches somewhere in `name`.
pub open spec fn pattern_hits(pattern: Seq<char>, name: Seq<char>) -> bool {
    match capture_all(pattern, name, 0) {
        Some(m) => m.len() > 0,
        None => false,
    }
}

/// A MinGit asset for this CPU (not a busybox build) with a URL.
pub open spec fn is_mingit(a: Json, arch: Seq<char>) -> bool {
    let name = or_default(str_field(a, "name"@), ""@);
    &&& !contains(lowercase(name), "busybox"@)
    &&& pattern_hits(mingit_pattern(arch), name)
    &&& or_default(str_field(a, "browser_download_url"@), ""@).len() > 0
}

/// The first MinGit asset from index `i` on.
pub open spec fn first_mingit(assets: Seq<Json>, arch: Seq<char>, i: int) -> Option<Json>
    decreases assets.len() - i,
{
    if i < 0 || i >= assets.len() {
        None
    } else if is_mingit(assets[i], arch) {
        Some(assets[i])
    } else {
        first_mingit(assets, arch, i + 1)
    }
}

fn pattern_hits_exec(pattern: &str, name: &str) -> (r: bool)
    ensures
        r == pattern_hits(pattern@, name@),
{
    match captures(pattern, name, 0) {
        Some(m) => m.len() > 0,
        None => false,
    }
}

/// Pick the latest MinGit ZIP URL for this Windows CPU arch from the latest
/// git-for-windows release. Returns `(url, version_label)`.
pub fn resolve_mingit_url(meta: &Json, host: &Host) -> (r: Result<(String, String), Error>)
    ensures
        match (match array_field(*meta, "assets"@) {
            Some(assets) => first_mingit(assets, host.arch@, 0),
            None => None,
        }) {
            Some(a) => r matches Ok((url, tag)) && url@ == or_default(str_field(a, "browser_download_url"@), ""@)
                && tag@ == crate::plugin_utils::release_tag(*meta),
            None => r matches Err(Error::NoRelease { .. }),
        },
{
    let a = chars_of(host.arch.as_str());
    let pattern = if eq_str(a.as_slice(), "aarch64") {
        "(?i)^MinGit-.*-arm64\\.zip$"
    } else if eq_str(a.as_slice(), "x64") {
        "(?i)^MinGit-.*-64-bit\\.zip$"
    } else {
        "(?i)^MinGit-.*-32-bit\\.zip$"
    };
    let tag = match meta.str_field("tag_name") {
        Some(t) => owned(t),
        None => owned("unknown"),
    };
    match meta.array_field("assets") {
        Some(assets) => {
            let mut i: usize = 0;
            while i < assets.len()
                invariant
                    i <= assets@.len(),
                    array_field(*meta, "assets"@) == Some(assets@),
                    pattern@ == mingit_pattern(host.arch@),
                    tag@ == crate::plugin_utils::release_tag(*meta),
                    first_mingit(assets@, host.arch@, 0) == first_mingit(assets@, host.arch@, i as int),
                decreases assets.len() - i,
            {
                let asset = &assets[i];
                let name = match asset.str_field("name") {
                    Some(n) => n,
                    None => "",
                };
                let low = crate::text::to_lowercase(chars_of(name).as_slice());
                let url = match asset.str_field("browser_download_url") {
                    Some(u) => owned(u),
                    None => owned(""),
                };
                proof {
                    reveal_strlit("");
                }
                if !crate::text::contains_str(low.as_slice(), "busybox") && pattern_hits_exec(pattern, name)
                    && !url.as_str().is_empty() {
                    assert(*asset == assets@[i as int]);
                    assert(is_mingit(assets@[i as int], host.arch@));
                    return Ok((url, tag));
                }
                i = i + 1;
            }
        },
        None => {},
    }
    Err(Error::NoRelease { tool: "MinGit", detail: owned(host.arch.as_str()) })
}

/// Where Git may be, in the order looked at.
pub open spec fn git_candidates(os: HostOS, dir: Seq<char>) -> Seq<Seq<char>> {
    let e = exe(os, "git"@);
    seq![
        join(os, join(os, dir, "cmd"@), e),
        join(os, join(os, dir, "bin"@), e),
        join(os, join(os, join(os, dir, "mingw64"@), "bin"@), "git.exe"@),
        join(os, join(os, join(os, dir, "mingw32"@), "bin"@), "git.exe"@),
    ]
}

/// The first candidate at or after `i` that is a file.
pub open spec fn first_file_of(fs: crate::paths::FsModel, c: Seq<Seq<char>>, i: int) -> Option<Seq<char>>
    decreases c.len() - i,
{
    if i < 0 || i >= c.len() {
        None
    } else if fs_is_file(fs, c[i]) {
        Some(c[i])
    } else {
        first_file_of(fs, c, i + 1)
    }
}

/// The Git binary of the install, if there is one.
pub fn git_binary(ctx: &InstallContext, fs: &FsView) -> (r: Option<String>)
    ensures
        match r {
            Some(p) => first_file_of(fs@, git_candidates(ctx.host.os, ctx.install_dir@), 0) == Some(p@),
            None => first_file_of(fs@, git_candidates(ctx.host.os, ctx.install_dir@), 0) is None,
        },
{
    let os = ctx.host.os;
    let e = exe_name(os, "git");
    let d = ctx.install_dir.as_str();
    let cands = vec![
        path_join2(os, d, "cmd", e.as_str()),
        path_join2(os, d, "bin", e.as_str()),
        path_join3(os, d, "mingw64", "bin", "git.exe"),
        path_join3(os, d, "mingw32", "bin", "git.exe"),
    ];
    let ghost cv = git_candidates(os, ctx.install_dir@);
    assert(cands@.map_values(|s: String| s@) =~= cv);
    let mut i: usize = 0;
    while i < cands.len()
        invariant
            i <= cands@.len(),
            cands@.map_values(|s: String| s@) == cv,
            cv == git_candidates(ctx.host.os, ctx.install_dir@),
            first_file_of(fs@, cv, 0) == first_file_of(fs@, cv, i as int),
        decreases cands.len() - i,
    {
        assert(cv[i as int] == cands@[i as int]@);
        if fs.is_file(cands[i].as_str()) {
            return Some(owned(cands[i].as_str()));
        }
        i = i + 1;
    }
    None
}

/// The folders of `cmd` and `bin` that exist.
pub open spec fn git_path_dirs(os: HostOS, fs: crate::paths::FsModel, dir: Seq<char>) -> Seq<Seq<char>> {
    let c = join(os, dir, "cmd"@);
    let b = join(os, dir, "bin"@);
    (if fs_is_dir(fs, c) { seq![c] } else { Seq::empty() }) + (if fs_is_dir(fs, b) { seq![b] } else { Seq::empty() })
}

pub struct GitPlugin;

impl Plugin for GitPlugin {
    open spec fn spec_id(&self) -> Seq<char> {
        "git"@
    }

    fn id(&self) -> (r: &'static str) {
        "git"
    }

    fn name(&self) -> (r: &'static str)
        ensures
            r@ == "Git"@,
    {
        "Git"
    }

    fn description(&self) -> (r: &'static str)
        ensures
            r@ == "Install MinGit (Git for Windows portable ZIP). On macOS/Linux, registers system Git if already installed."@,
    {
        "Install MinGit (Git for Windows portable ZIP). On macOS/Linux, registers system Git if already installed."
    }

    /// Installed when a Git binary or the wrapper marker exists; partial
    /// when the folder has other contents.
    fn status(&self, ctx: &InstallContext, fs: &FsView) -> (r: PluginStatus)
        ensures
            r@ == match first_file_of(fs@, git_candidates(ctx.host.os, ctx.install_dir@), 0) {
                Some(b) => (InstallState::Installed, Some(ctx.install_dir@), b),
                None => if fs_is_file(fs@, join(ctx.host.os, ctx.install_dir@, ".devkit-git"@)) {
                    (InstallState::Installed, Some(ctx.install_dir@), "system git wrappers"@)
                } else if fs_has_contents(fs@, ctx.install_dir@) {
                    (InstallState::Partial, Some(ctx.install_dir@), "Install dir exists but git binary is missing"@)
                } else {
                    (InstallState::NotInstalled, Some(ctx.install_dir@), Seq::<char>::empty())
                },
            },
    {
        let dir = Some(owned(ctx.install_dir.as_str()));
        match git_binary(ctx, fs) {
            Some(b) => PluginStatus::new(InstallState::Installed, dir).with_detail(b),
            None => {
                let marker = path_join(ctx.host.os, ctx.install_dir.as_str(), ".devkit-git");
                if fs.is_file(marker.as_str()) {
                    PluginStatus::new(InstallState::Installed, dir).with_detail(owned("system git wrappers"))
                } else if fs.has_contents(ctx.install_dir.as_str()) {
                    PluginStatus::new(InstallState::Partial, dir).with_detail(owned("Install dir exists but git binary is missing"))
                } else {
                    PluginStatus::new(InstallState::NotInstalled, dir)
                }
            },
        }
    }

    /// `cmd` and `bin` on PATH where they exist.
    fn env_spec(&self, ctx: &InstallContext, fs: &FsView) -> (r: EnvSpec)
        ensures
            r@ == (
                git_path_dirs(ctx.host.os, fs@, ctx.install_dir@),
                Seq::<(Seq<char>, Seq<char>)>::empty(),
            ),
    {
        let os = ctx.host.os;
        let c = path_join(os, ctx.install_dir.as_str(), "cmd");
        let b = path_join(os, ctx.install_dir.as_str(), "bin");
        let mut paths: Vec<String> = Vec::new();
        let c_dir = fs.is_dir(c.as_str());
        let b_dir = fs.is_dir(b.as_str());
        if c_dir {
            paths.push(c);
        }
        if b_dir {
            paths.push(b);
        }
        let r = env_of(paths, Vec::new());
        assert(r@.0 =~= git_path_dirs(os, fs@, ctx.install_dir@));
        assert(r@.1 =~= Seq::<(Seq<char>, Seq<char>)>::empty());
        r
    }
}

} // verus!
