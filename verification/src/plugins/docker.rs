//! Docker CLI plugin — official static client binaries (no daemon).
use crate::error::Error;
use crate::json::{array_field, array_of, bool_field, field, members_of, member_from, or_default, str_field, Json};
use crate::paths::{fs_canonical, fs_has_contents, fs_is_dir, fs_is_file, join, parent, parent_of, path_join, path_join2, path_join3, FsView};
use crate::platform::{Host, HostOS};
use crate::plugin::{dir_of, env_of, exe, exe_name, resolved_dir, EnvSpec, InstallContext, InstallState, Plugin,
    PluginStatus};
use crate::plugin_utils::{any_named, binary_status, binary_status_spec, first_file_named, is_first_named, is_last_max_of, newest_version};
use crate::scan::{capture_all, captures, escape, escaped};
use crate::text::{chars_of, contains, ends_with, eq_str, owned, trim};
use vstd::prelude::*;

verus! {

/// `(os_slug, arch_slug, archive_ext)` of the static Docker downloads for
/// this machine; Windows builds exist for x86_64 only.
pub open spec fn docker_channel(host: Host) -> Option<(Seq<char>, Seq<char>, Seq<char>)> {
    let arch = if host.arch@ == "aarch64"@ { Some("aarch64"@) } else if host.arch@ == "x64"@ { Some("x86_64"@) } else { None };
    match arch {
        None => None,
        Some(a) => match host.os {
            HostOS::Linux => Some(("linux"@, a, "tgz"@)),
            HostOS::MacOS => Some(("mac"@, a, "tgz"@)),
            HostOS::Windows => if host.arch@ == "x64"@ { Some(("win"@, "x86_64"@, "zip"@)) } else { None },
            HostOS::Other => None,
        },
    }
}

/// Return `(os_slug, arch_slug, archive_ext)` for static Docker downloads.
pub fn channel_dir(host: &Host) -> (r: Result<(&'static str, &'static str, &'static str), Error>)
    ensures
        match docker_channel(*host) {
            Some((o, a, e)) => r matches Ok((ro, ra, re)) && ro@ == o && ra@ == a && re@ == e,
            None => r is Err,
        },
{
    let ac = chars_of(host.arch.as_str());
    let arm = eq_str(ac.as_slice(), "aarch64");
    let x64 = eq_str(ac.as_slice(), "x64");
    let arch_slug = if arm {
        "aarch64"
    } else if x64 {
        "x86_64"
    } else {
        return Err(Error::UnsupportedArch { tool: "Docker CLI", arch: owned(host.arch.as_str()) });
    };
    match host.os {
        HostOS::Linux => Ok(("linux", arch_slug, "tgz")),
        HostOS::MacOS => Ok(("mac", arch_slug, "tgz")),
        HostOS::Windows => {
            if !x64 {
                return Err(Error::UnsupportedArch { tool: "Docker CLI", arch: owned(host.arch.as_str()) });
            }
            Ok(("win", "x86_64", "zip"))
        },
        HostOS::Other => Err(Error::UnsupportedOs { tool: "Docker CLI" }),
    }
}

/// The listing of stable static archives for a channel.
pub open spec fn docker_index(os_slug: Seq<char>, arch_slug: Seq<char>) -> Seq<char> {
    "https://download.docker.com/"@ + os_slug + "/static/stable/"@ + arch_slug + "/"@
}

/// The listing to read for this machine.
pub fn docker_index_url(host: &Host) -> (r: Result<String, Error>)
    ensures
        match docker_channel(*host) {
            Some((o, a, _)) => r matches Ok(u) && u@ == docker_index(o, a),
            None => r is Err,
        },
{
    let (os_slug, arch_slug, _) = match channel_dir(host) {
        Ok(c) => c,
        Err(e) => {
            return Err(e);
        },
    };
    let mut u = owned("https://download.docker.com/");
    u.append(os_slug);
    u.append("/static/stable/");
    u.append(arch_slug);
    u.append("/");
    Ok(u)
}

/// The pattern of an archive link in the listing.
pub open spec fn docker_pattern(ext: Seq<char>) -> Seq<char> {
    "docker-(\\d+\\.\\d+\\.\\d+)\\."@ + escaped(ext)
}

/// Return `(download_url, version)` for the newest static Docker archive
/// named in the listing HTML for this machine.
pub fn resolve_docker_download(html: &str, host: &Host) -> (r: Result<(String, String), Error>)
    ensures
        match docker_channel(*host) {
            None => r is Err,
            Some((o, a, e)) => match capture_all(docker_pattern(e), html@, 1) {
                Some(found) if found.len() > 0 => r matches Ok((url, version)) && is_last_max_of(found, version@)
                    && url@ == docker_index(o, a) + "docker-"@ + version@ + "."@ + e,
                _ => r matches Err(Error::NoRelease { .. }),
            },
        },
{
    let (_, _, ext) = match channel_dir(host) {
        Ok(c) => c,
        Err(e) => {
            return Err(e);
        },
    };
    let index = match docker_index_url(host) {
        Ok(u) => u,
        Err(e) => {
            return Err(e);
        },
    };
    let mut pattern = owned("docker-(\\d+\\.\\d+\\.\\d+)\\.");
    pattern.append(escape(ext).as_str());
    match captures(pattern.as_str(), html, 1) {
        Some(found) => {
            match newest_version(&found) {
                Some(version) => {
                    proof {
                        crate::plugin_utils::lemma_newest_is_last_max_of(found@, version@);
                    }
                    let mut url = index;
                    url.append("docker-");
                    url.append(version.as_str());
                    url.append(".");
                    url.append(ext);
                    Ok((url, version))
                },
                None => Err(Error::NoRelease { tool: "Docker CLI", detail: index }),
            }
        },
        None => Err(Error::NoRelease { tool: "Docker CLI", detail: index }),
    }
}

/// Where the Docker CLI is: `docker` (`docker.exe` on Windows) at the top,
/// else in `docker/`, else the shallowest file of that name, else the top path.
pub open spec fn docker_bin(os: HostOS, fs: crate::paths::FsModel, dir: Seq<char>) -> Seq<char> {
    let name = exe(os, "docker"@);
    let direct = join(os, dir, name);
    let nested = join(os, join(os, dir, "docker"@), name);
    if fs_is_file(fs, direct) {
        direct
    } else if fs_is_file(fs, nested) {
        nested
    } else if any_named(os, fs, dir, name) {
        choose|p: Seq<char>| is_first_named(os, fs, dir, name, p)
    } else {
        direct
    }
}

fn docker_bin_exec(ctx: &InstallContext, fs: &FsView) -> (r: String)
    ensures
        r@ == docker_bin(ctx.host.os, fs@, ctx.install_dir@),
{
    let os = ctx.host.os;
    let name = exe_name(os, "docker");
    let direct = path_join(os, ctx.install_dir.as_str(), name.as_str());
    if fs.is_file(direct.as_str()) {
        return direct;
    }
    let nested = path_join2(os, ctx.install_dir.as_str(), "docker", name.as_str());
    if fs.is_file(nested.as_str()) {
        return nested;
    }
    match first_file_named(os, fs, ctx.install_dir.as_str(), name.as_str()) {
        Some(p) => {
            proof {
                crate::plugin_utils::lemma_first_named_unique(os, fs@, ctx.install_dir@, name@, p@);
            }
            p
        },
        None => direct,
    }
}

/// After extraction: the folder whose files are copied up into the install
/// folder (those not already there), when the binary sits below it.
pub fn docker_flatten_source(ctx: &InstallContext, fs: &FsView) -> (r: Option<String>)
    ensures
        ({
            let bin = docker_bin(ctx.host.os, fs@, ctx.install_dir@);
            if fs_is_file(fs@, bin) && parent(ctx.host.os, bin) != Some(ctx.install_dir@) {
                match parent(ctx.host.os, bin) {
                    Some(p) => r matches Some(s) && s@ == p,
                    None => r is None,
                }
            } else {
                r is None
            }
        }),
{
    let bin = docker_bin_exec(ctx, fs);
    if !fs.is_file(bin.as_str()) {
        return None;
    }
    match parent_of(ctx.host.os, bin.as_str()) {
        Some(p) => {
            if crate::text::eq(chars_of(p.as_str()).as_slice(), chars_of(ctx.install_dir.as_str()).as_slice()) {
                None
            } else {
                Some(p)
            }
        },
        None => None,
    }
}

pub struct DockerPlugin;

impl Plugin for DockerPlugin {
    open spec fn spec_id(&self) -> Seq<char> {
        "docker"@
    }

    fn id(&self) -> (r: &'static str) {
        "docker"
    }

    fn name(&self) -> (r: &'static str)
        ensures
            r@ == "Docker CLI"@,
    {
        "Docker CLI"
    }

    fn description(&self) -> (r: &'static str)
        ensures
            r@ == "Download official static Docker CLI binaries and add them to PATH. Does not install the Docker engine/daemon."@,
    {
        "Download official static Docker CLI binaries and add them to PATH. Does not install the Docker engine/daemon."
    }

    fn status(&self, ctx: &InstallContext, fs: &FsView) -> (r: PluginStatus)
        ensures
            r@ == binary_status_spec(
                fs@,
                docker_bin(ctx.host.os, fs@, ctx.install_dir@),
                ctx.install_dir@,
                "Install dir exists but docker binary is missing"@,
            ),
    {
        let bin = docker_bin_exec(ctx, fs);
        binary_status(fs, bin.as_str(), ctx.install_dir.as_str(), "Install dir exists but docker binary is missing")
    }

    /// The binary's folder on PATH when it exists (else the install folder).
    fn env_spec(&self, ctx: &InstallContext, fs: &FsView) -> (r: EnvSpec)
        ensures
            r@ == (
                seq![if fs_is_file(fs@, docker_bin(ctx.host.os, fs@, ctx.install_dir@)) {
                    match parent(ctx.host.os, docker_bin(ctx.host.os, fs@, ctx.install_dir@)) {
                        Some(p) => p,
                        None => ctx.install_dir@,
                    }
                } else {
                    ctx.install_dir@
                }],
                Seq::<(Seq<char>, Seq<char>)>::empty(),
            ),
    {
        let bin = docker_bin_exec(ctx, fs);
        let dir = if fs.is_file(bin.as_str()) {
            match parent_of(ctx.host.os, bin.as_str()) {
                Some(p) => p,
                None => owned(ctx.install_dir.as_str()),
            }
        } else {
            owned(ctx.install_dir.as_str())
        };
        let r = env_of(vec![dir], Vec::new());
        assert(r@.0 =~= seq![if fs_is_file(fs@, docker_bin(ctx.host.os, fs@, ctx.install_dir@)) {
            match parent(ctx.host.os, docker_bin(ctx.host.os, fs@, ctx.install_dir@)) {
                Some(p) => p,
                None => ctx.install_dir@,
            }
        } else {
            ctx.install_dir@
        }]);
        assert(r@.1 =~= Seq::<(Seq<char>, Seq<char>)>::empty());
        r
    }
}

} // verus!
