//! Ninja plugin — latest release binary from ninja-build/ninja.
use crate::error::Error;
use crate::json::Json;
use crate::paths::{fs_canonical, join, path_join, path_join2, FsView};
use crate::platform::{Host, HostOS};
use crate::plugin::{env_of, exe, exe_name, resolved_dir, EnvSpec, InstallContext, Plugin,
    PluginStatus};
use crate::plugin_utils::{binary_status, binary_status_spec, pick_one, picked_one};
use crate::text::{chars_of, eq_str, owned};
use vstd::prelude::*;

verus! {

/// The release asset for this machine.
pub open spec fn ninja_asset(host: Host) -> Option<Seq<char>> {
    let arm = host.arch@ == "aarch64"@;
    match host.os {
        HostOS::Windows => Some(if arm { "ninja-winarm64.zip"@ } else { "ninja-win.zip"@ }),
        HostOS::Linux => Some(if arm { "ninja-linux-aarch64.zip"@ } else { "ninja-linux.zip"@ }),
        HostOS::MacOS => Some("ninja-mac.zip"@),
        HostOS::Other => None,
    }
}

fn ninja_asset_exec(host: &Host) -> (r: Result<&'static str, Error>)
    ensures
        match ninja_asset(*host) {
            Some(n) => r matches Ok(s) && s@ == n,
            None => r matches Err(Error::UnsupportedOs { .. }),
        },
{
    let arm = eq_str(chars_of(host.arch.as_str()).as_slice(), "aarch64");
    match host.os {
        HostOS::Windows => Ok(if arm { "ninja-winarm64.zip" } else { "ninja-win.zip" }),
        HostOS::Linux => Ok(if arm { "ninja-linux-aarch64.zip" } else { "ninja-linux.zip" }),
        HostOS::MacOS => Ok("ninja-mac.zip"),
        HostOS::Other => Err(Error::UnsupportedOs { tool: "Ninja" }),
    }
}

/// `(download_url, tag)` of the Ninja asset for this machine in the latest release.
pub fn resolve_ninja_download(release: &Json, host: &Host) -> (r: Result<(String, String), Error>)
    ensures
        match ninja_asset(*host) {
            None => r matches Err(Error::UnsupportedOs { .. }),
            Some(n) => match picked_one(*release, n) {
                Some((u, t)) => r matches Ok((url, tag)) && url@ == u && tag@ == t,
                None => r matches Err(Error::NoMatchingAsset { .. }),
            },
        },
{
    match ninja_asset_exec(host) {
        Ok(n) => pick_one(release, n),
        Err(e) => Err(e),
    }
}

/// `ninja` (`ninja.exe` on Windows) in the install folder.
pub open spec fn ninja_bin(os: HostOS, dir: Seq<char>) -> Seq<char> {
    join(os, dir, exe(os, "ninja"@))
}

pub struct NinjaPlugin;

impl Plugin for NinjaPlugin {
    open spec fn spec_id(&self) -> Seq<char> {
        "ninja"@
    }

    fn id(&self) -> (r: &'static str) {
        "ninja"
    }

    fn name(&self) -> (r: &'static str)
        ensures
            r@ == "Ninja"@,
    {
        "Ninja"
    }

    fn description(&self) -> (r: &'static str)
        ensures
            r@ == "Download latest Ninja build tool binary and add it to PATH."@,
    {
        "Download latest Ninja build tool binary and add it to PATH."
    }

    fn status(&self, ctx: &InstallContext, fs: &FsView) -> (r: PluginStatus)
        ensures
            r@ == binary_status_spec(
                fs@,
                ninja_bin(ctx.host.os, ctx.install_dir@),
                ctx.install_dir@,
                "Install dir exists but ninja binary is missing"@,
            ),
    {
        let bin = path_join(ctx.host.os, ctx.install_dir.as_str(), exe_name(ctx.host.os, "ninja").as_str());
        binary_status(fs, bin.as_str(), ctx.install_dir.as_str(), "Install dir exists but ninja binary is missing")
    }

    /// The install folder on PATH.
    fn env_spec(&self, ctx: &InstallContext, fs: &FsView) -> (r: EnvSpec)
        ensures
            r@ == (
                seq![ctx.install_dir@],
                Seq::<(Seq<char>, Seq<char>)>::empty(),
            ),
    {
        let r = env_of(vec![owned(ctx.install_dir.as_str())], Vec::new());
        assert(r@.0 =~= seq![ctx.install_dir@]);
        assert(r@.1 =~= Seq::<(Seq<char>, Seq<char>)>::empty());
        r
    }
}

} // verus!
