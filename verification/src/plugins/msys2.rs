//! MSYS2 plugin — portable base runtime from the official msys2-installer
//! GitHub releases (Windows only).
use crate::error::Error;
use crate::json::Json;
use crate::paths::{fs_canonical, join, path_join, path_join3, FsView};
use crate::platform::HostOS;
use crate::plugin::{env_of, resolved_dir, EnvSpec, InstallContext, Plugin, PluginStatus};
use crate::plugin_utils::{binary_status, binary_status_spec, pick_release_asset, picked, strs_view};
use crate::text::owned;
use vstd::prelude::*;

verus! {

/// MSYS2 installs only on Windows.
pub fn msys2_check_os(os: HostOS) -> (r: Result<(), Error>)
    ensures
        r is Ok <==> os == HostOS::Windows,
        r is Err ==> r matches Err(Error::UnsupportedOs { .. }),
{
    if os == HostOS::Windows {
        Ok(())
    } else {
        Err(Error::UnsupportedOs { tool: "MSYS2" })
    }
}

/// `(download_url, tag)` of the base-x86_64 `.tar.xz` archive in the latest
/// msys2-installer release.
pub fn resolve_msys2_download(release: &Json) -> (r: Result<(String, String), Error>)
    ensures
        match picked(*release, seq!["base-x86_64"@, ".tar.xz"@]) {
            Some((u, t)) => r matches Ok((url, tag)) && url@ == u && tag@ == t,
            None => r matches Err(Error::NoMatchingAsset { .. }),
        },
{
    let needles: Vec<&str> = vec!["base-x86_64", ".tar.xz"];
    assert(strs_view(needles@) =~= seq!["base-x86_64"@, ".tar.xz"@]);
    pick_release_asset(release, needles.as_slice())
}

/// `usr/bin/bash.exe` in the install folder.
pub open spec fn msys2_bash(os: HostOS, dir: Seq<char>) -> Seq<char> {
    join(os, join(os, join(os, dir, "usr"@), "bin"@), "bash.exe"@)
}

/// The MSYS2 shell launcher in the install folder.
pub fn msys2_shell(ctx: &InstallContext) -> (r: String)
    ensures
        r@ == join(ctx.host.os, ctx.install_dir@, "msys2_shell.cmd"@),
{
    path_join(ctx.host.os, ctx.install_dir.as_str(), "msys2_shell.cmd")
}

pub struct Msys2Plugin;

impl Plugin for Msys2Plugin {
    open spec fn spec_id(&self) -> Seq<char> {
        "msys2"@
    }

    fn id(&self) -> (r: &'static str) {
        "msys2"
    }

    fn name(&self) -> (r: &'static str)
        ensures
            r@ == "MSYS2"@,
    {
        "MSYS2"
    }

    fn description(&self) -> (r: &'static str)
        ensures
            r@ == "Download the MSYS2 base runtime (portable, Windows only) and add its usr/bin (bash, pacman, etc.) to PATH. Run 'pacman -Syu' once after install to bring package databases up to date."@,
    {
        "Download the MSYS2 base runtime (portable, Windows only) and add its usr/bin (bash, pacman, etc.) to PATH. Run 'pacman -Syu' once after install to bring package databases up to date."
    }

    fn status(&self, ctx: &InstallContext, fs: &FsView) -> (r: PluginStatus)
        ensures
            r@ == binary_status_spec(
                fs@,
                msys2_bash(ctx.host.os, ctx.install_dir@),
                ctx.install_dir@,
                "Install dir exists but usr/bin/bash.exe is missing"@,
            ),
    {
        let bash = path_join3(ctx.host.os, ctx.install_dir.as_str(), "usr", "bin", "bash.exe");
        binary_status(fs, bash.as_str(), ctx.install_dir.as_str(), "Install dir exists but usr/bin/bash.exe is missing")
    }

    /// `usr/bin` on PATH.
    fn env_spec(&self, ctx: &InstallContext, fs: &FsView) -> (r: EnvSpec)
        ensures
            r@ == (
                seq![join(ctx.host.os, join(ctx.host.os, ctx.install_dir@, "usr"@), "bin"@)],
                Seq::<(Seq<char>, Seq<char>)>::empty(),
            ),
    {
        let p = crate::paths::path_join2(ctx.host.os, ctx.install_dir.as_str(), "usr", "bin");
        let r = env_of(vec![p], Vec::new());
        assert(r@.0 =~= seq![join(ctx.host.os, join(ctx.host.os, ctx.install_dir@, "usr"@), "bin"@)]);
        assert(r@.1 =~= Seq::<(Seq<char>, Seq<char>)>::empty());
        r
    }
}

} // verus!
