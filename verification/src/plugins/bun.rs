//! Bun plugin — latest ZIP from oven-sh/bun GitHub releases.
use crate::error::Error;
use crate::json::Json;
use crate::paths::{fs_canonical, fs_is_file, join, parent, parent_of, path_join, path_join2, FsView};
use crate::platform::{Host, HostOS};
use crate::plugin::{env_of, exe, exe_name, resolved_dir, EnvSpec, InstallContext, Plugin,
    PluginStatus};
use crate::plugin_utils::{any_named, binary_status, binary_status_spec, exact_asset, exact_pick,
    first_file_named, is_first_named, picked, pick_release_asset, strs_view};
use crate::text::{chars_of, eq_str, owned};
use vstd::prelude::*;

verus! {

/// The exact name of the Bun asset for this machine.
pub open spec fn bun_asset(host: Host) -> Option<Seq<char>> {
    let arm = host.arch@ == "aarch64"@;
    match host.os {
        HostOS::Windows => Some(if arm { "bun-windows-aarch64.zip"@ } else { "bun-windows-x64.zip"@ }),
        HostOS::Linux => Some(if arm { "bun-linux-aarch64.zip"@ } else { "bun-linux-x64.zip"@ }),
        HostOS::MacOS => Some(if arm { "bun-darwin-aarch64.zip"@ } else { "bun-darwin-x64.zip"@ }),
        HostOS::Other => None,
    }
}

/// The asset name without its `.zip`.
pub open spec fn bun_stem(host: Host) -> Option<Seq<char>> {
    let arm = host.arch@ == "aarch64"@;
    match host.os {
        HostOS::Windows => Some(if arm { "bun-windows-aarch64"@ } else { "bun-windows-x64"@ }),
        HostOS::Linux => Some(if arm { "bun-linux-aarch64"@ } else { "bun-linux-x64"@ }),
        HostOS::MacOS => Some(if arm { "bun-darwin-aarch64"@ } else { "bun-darwin-x64"@ }),
        HostOS::Other => None,
    }
}

fn bun_asset_exec(host: &Host) -> (r: Result<(&'static str, &'static str), Error>)
    ensures
        match (bun_asset(*host), bun_stem(*host)) {
            (Some(n), Some(s)) => r matches Ok((rn, rs)) && rn@ == n && rs@ == s,
            _ => r matches Err(Error::UnsupportedOs { .. }),
        },
{
    let arm = eq_str(chars_of(host.arch.as_str()).as_slice(), "aarch64");
    match host.os {
        HostOS::Windows => Ok(if arm { ("bun-windows-aarch64.zip", "bun-windows-aarch64") } else { ("bun-windows-x64.zip", "bun-windows-x64") }),
        HostOS::Linux => Ok(if arm { ("bun-linux-aarch64.zip", "bun-linux-aarch64") } else { ("bun-linux-x64.zip", "bun-linux-x64") }),
        HostOS::MacOS => Ok(if arm { ("bun-darwin-aarch64.zip", "bun-darwin-aarch64") } else { ("bun-darwin-x64.zip", "bun-darwin-x64") }),
        HostOS::Other => Err(Error::UnsupportedOs { tool: "Bun" }),
    }
}

/// `(download_url, tag)` for Bun: the asset named exactly for this machine
/// (so `-profile` / `-baseline` builds are skipped), else the first asset
/// whose name holds the name's stem and `.zip`.
pub fn resolve_bun_download(release: &Json, host: &Host) -> (r: Result<(String, String), Error>)
    ensures
        match (bun_asset(*host), bun_stem(*host)) {
            (Some(n), Some(s)) => match exact_pick(*release, n) {
                Some((u, t)) => r matches Ok((url, tag)) && url@ == u && tag@ == t,
                None => match picked(*release, seq![s, ".zip"@]) {
                    Some((u, t)) => r matches Ok((url, tag)) && url@ == u && tag@ == t,
                    None => r matches Err(Error::NoMatchingAsset { .. }),
                },
            },
            _ => r matches Err(Error::UnsupportedOs { .. }),
        },
{
    let (needle, stem) = match bun_asset_exec(host) {
        Ok(p) => p,
        Err(e) => {
            return Err(e);
        },
    };
    match exact_asset(release, needle) {
        Some(hit) => Ok(hit),
        None => {
            let needles: Vec<&str> = vec![stem, ".zip"];
            assert(strs_view(needles@) =~= seq![stem@, ".zip"@]);
            pick_release_asset(release, needles.as_slice())
        },
    }
}

/// Where the Bun binary is: `bun` (`bun.exe` on Windows) in the install
/// folder, else the shallowest file of that name below it, else the direct path.
pub open spec fn bun_bin(os: HostOS, fs: crate::paths::FsModel, dir: Seq<char>) -> Seq<char> {
    let direct = join(os, dir, exe(os, "bun"@));
    if fs_is_file(fs, direct) {
        direct
    } else if any_named(os, fs, dir, exe(os, "bun"@)) {
        choose|p: Seq<char>| is_first_named(os, fs, dir, exe(os, "bun"@), p)
    } else {
        direct
    }
}

/// The Bun binary (see `bun_bin`).
pub fn bun_bin_exec(ctx: &InstallContext, fs: &FsView) -> (r: String)
    ensures
        r@ == bun_bin(ctx.host.os, fs@, ctx.install_dir@),
{
    let os = ctx.host.os;
    let name = exe_name(os, "bun");
    let direct = path_join(os, ctx.install_dir.as_str(), name.as_str());
    if fs.is_file(direct.as_str()) {
        return direct;
    }
    match first_file_named(os, fs, ctx.install_dir.as_str(), name.as_str()) {
        Some(p) => {
            proof {
                crate::plugin_utils::lemma_first_named_unique(os, fs@, ctx.install_dir@, name@, p@);
            }
            p
        },
        None => direct,
    }
}

pub struct BunPlugin;

impl Plugin for BunPlugin {
    open spec fn spec_id(&self) -> Seq<char> {
        "bun"@
    }

    fn id(&self) -> (r: &'static str) {
        "bun"
    }

    fn name(&self) -> (r: &'static str)
        ensures
            r@ == "Bun"@,
    {
        "Bun"
    }

    fn description(&self) -> (r: &'static str)
        ensures
            r@ == "Download latest Bun runtime ZIP and add it to PATH."@,
    {
        "Download latest Bun runtime ZIP and add it to PATH."
    }

    fn status(&self, ctx: &InstallContext, fs: &FsView) -> (r: PluginStatus)
        ensures
            r@ == binary_status_spec(
                fs@,
                bun_bin(ctx.host.os, fs@, ctx.install_dir@),
                ctx.install_dir@,
                "Install dir exists but bun binary is missing"@,
            ),
    {
        let bin = bun_bin_exec(ctx, fs);
        binary_status(fs, bin.as_str(), ctx.install_dir.as_str(), "Install dir exists but bun binary is missing")
    }

    /// The binary's folder on PATH when the binary exists (else the install folder).
    fn env_spec(&self, ctx: &InstallContext, fs: &FsView) -> (r: EnvSpec)
        ensures
            r@ == (
                seq![if fs_is_file(fs@, bun_bin(ctx.host.os, fs@, ctx.install_dir@)) {
                    match parent(ctx.host.os, bun_bin(ctx.host.os, fs@, ctx.install_dir@)) {
                        Some(p) => p,
                        None => ctx.install_dir@,
                    }
                } else {
                    ctx.install_dir@
                }],
                Seq::<(Seq<char>, Seq<char>)>::empty(),
            ),
    {
        let bin = bun_bin_exec(ctx, fs);
        let dir = if fs.is_file(bin.as_str()) {
            match parent_of(ctx.host.os, bin.as_str()) {
                Some(p) => p,
                None => owned(ctx.install_dir.as_str()),
            }
        } else {
            owned(ctx.install_dir.as_str())
        };
        let r = env_of(vec![dir], Vec::new());
        assert(r@.0 =~= seq![if fs_is_file(fs@, bun_bin(ctx.host.os, fs@, ctx.install_dir@)) {
            match parent(ctx.host.os, bun_bin(ctx.host.os, fs@, ctx.install_dir@)) {
                Some(p) => p,
                None => ctx.install_dir@,
            }
        } else {
            ctx.install_dir@
        }]);
        assert(r@.1 =~= Seq::<(Seq<char>, Seq<char>)>::empty());
        r
    }
}

} // verus!
