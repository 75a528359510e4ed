//! Deno plugin — latest release ZIP from denoland/deno.
use crate::error::Error;
use crate::json::Json;
use crate::paths::{fs_canonical, join, path_join, path_join2, FsView};
use crate::platform::{Host, HostOS};
use crate::plugin::{env_of, exe, exe_name, resolved_dir, EnvSpec, InstallContext, Plugin,
    PluginStatus};
use crate::plugin_utils::{binary_status, binary_status_spec, pick_one, picked_one};
use crate::text::{chars_of, eq_str, owned};
use vstd::prelude::*;

verus! {

/// The release asset for this machine.
pub open spec fn deno_asset(host: Host) -> Option<Seq<char>> {
    let arm = host.arch@ == "aarch64"@;
    match host.os {
        HostOS::Windows => Some(if arm { "deno-aarch64-pc-windows-msvc.zip"@ } else { "deno-x86_64-pc-windows-msvc.zip"@ }),
        HostOS::Linux => Some(if arm { "deno-aarch64-unknown-linux-gnu.zip"@ } else { "deno-x86_64-unknown-linux-gnu.zip"@ }),
        HostOS::MacOS => Some(if arm { "deno-aarch64-apple-darwin.zip"@ } else { "deno-x86_64-apple-darwin.zip"@ }),
        HostOS::Other => None,
    }
}

fn deno_asset_exec(host: &Host) -> (r: Result<&'static str, Error>)
    ensures
        match deno_asset(*host) {
            Some(n) => r matches Ok(s) && s@ == n,
            None => r matches Err(Error::UnsupportedOs { .. }),
        },
{
    let arm = eq_str(chars_of(host.arch.as_str()).as_slice(), "aarch64");
    match host.os {
        HostOS::Windows => Ok(if arm { "deno-aarch64-pc-windows-msvc.zip" } else { "deno-x86_64-pc-windows-msvc.zip" }),
        HostOS::Linux => Ok(if arm { "deno-aarch64-unknown-linux-gnu.zip" } else { "deno-x86_64-unknown-linux-gnu.zip" }),
        HostOS::MacOS => Ok(if arm { "deno-aarch64-apple-darwin.zip" } else { "deno-x86_64-apple-darwin.zip" }),
        HostOS::Other => Err(Error::UnsupportedOs { tool: "Deno" }),
    }
}

/// `(download_url, tag)` of the Deno asset for this machine in the latest release.
pub fn resolve_deno_download(release: &Json, host: &Host) -> (r: Result<(String, String), Error>)
    ensures
        match deno_asset(*host) {
            None => r matches Err(Error::UnsupportedOs { .. }),
            Some(n) => match picked_one(*release, n) {
                Some((u, t)) => r matches Ok((url, tag)) && url@ == u && tag@ == t,
                None => r matches Err(Error::NoMatchingAsset { .. }),
            },
        },
{
    match deno_asset_exec(host) {
        Ok(n) => pick_one(release, n),
        Err(e) => Err(e),
    }
}

/// `deno` (`deno.exe` on Windows) in the install folder.
pub open spec fn deno_bin(os: HostOS, dir: Seq<char>) -> Seq<char> {
    join(os, dir, exe(os, "deno"@))
}

pub struct DenoPlugin;

impl Plugin for DenoPlugin {
    open spec fn spec_id(&self) -> Seq<char> {
        "deno"@
    }

    fn id(&self) -> (r: &'static str) {
        "deno"
    }

    fn name(&self) -> (r: &'static str)
        ensures
            r@ == "Deno"@,
    {
        "Deno"
    }

    fn description(&self) -> (r: &'static str)
        ensures
            r@ == "Download latest Deno runtime ZIP and add it to PATH."@,
    {
        "Download latest Deno runtime ZIP and add it to PATH."
    }

    fn status(&self, ctx: &InstallContext, fs: &FsView) -> (r: PluginStatus)
        ensures
            r@ == binary_status_spec(
                fs@,
                deno_bin(ctx.host.os, ctx.install_dir@),
                ctx.install_dir@,
                "Install dir exists but deno binary is missing"@,
            ),
    {
        let bin = path_join(ctx.host.os, ctx.install_dir.as_str(), exe_name(ctx.host.os, "deno").as_str());
        binary_status(fs, bin.as_str(), ctx.install_dir.as_str(), "Install dir exists but deno binary is missing")
    }

    /// The install folder on PATH.
    fn env_spec(&self, ctx: &InstallContext, fs: &FsView) -> (r: EnvSpec)
        ensures
            r@ == (
                seq![ctx.install_dir@],
                Seq::<(Seq<char>, Seq<char>)>::empty(),
            ),
    {
        let r = env_of(vec![owned(ctx.install_dir.as_str())], Vec::new());
        assert(r@.0 =~= seq![ctx.install_dir@]);
        assert(r@.1 =~= Seq::<(Seq<char>, Seq<char>)>::empty());
        r
    }
}

} // verus!
