//! pnpm plugin — standalone pnpm binary from pnpm/pnpm GitHub releases.
use crate::error::Error;
use crate::json::{array_field, field, members_of, member_from, or_default, str_field, Json};
use crate::paths::{fs_canonical, fs_is_file, join, parent, parent_of, path_join, path_join2, FsView};
use crate::platform::{Host, HostOS};
use crate::plugin::{env_of, exe, exe_name, resolved_dir, EnvSpec, InstallContext, Plugin,
    PluginStatus};
use crate::plugin_utils::{binary_status, binary_status_spec, exact_asset, exact_pick, pick_one, picked_one,
    any_named, first_file_named, is_first_named};
use crate::text::{chars_of, eq_str, owned, ends_with, ends_with_str};
use vstd::prelude::*;

verus! {

/// The name of the pnpm asset for this machine.
pub open spec fn pnpm_asset(host: Host) -> Option<Seq<char>> {
    let arm = host.arch@ == "aarch64"@;
    match host.os {
        HostOS::Windows => Some(if arm { "pnpm-win32-arm64.zip"@ } else { "pnpm-win32-x64.zip"@ }),
        HostOS::Linux => Some(if arm { "pnpm-linux-arm64.tar.gz"@ } else { "pnpm-linux-x64.tar.gz"@ }),
        HostOS::MacOS => Some(if arm { "pnpm-darwin-arm64.tar.gz"@ } else { "pnpm-darwin-x64.tar.gz"@ }),
        HostOS::Other => None,
    }
}

fn pnpm_asset_exec(host: &Host) -> (r: Result<&'static str, Error>)
    ensures
        match pnpm_asset(*host) {
            Some(n) => r matches Ok(s) && s@ == n,
            None => r matches Err(Error::UnsupportedOs { .. }),
        },
{
    let arm = eq_str(chars_of(host.arch.as_str()).as_slice(), "aarch64");
    match host.os {
        HostOS::Windows => Ok(if arm { "pnpm-win32-arm64.zip" } else { "pnpm-win32-x64.zip" }),
        HostOS::Linux => Ok(if arm { "pnpm-linux-arm64.tar.gz" } else { "pnpm-linux-x64.tar.gz" }),
        HostOS::MacOS => Ok(if arm { "pnpm-darwin-arm64.tar.gz" } else { "pnpm-darwin-x64.tar.gz" }),
        HostOS::Other => Err(Error::UnsupportedOs { tool: "pnpm" }),
    }
}

/// Return `(download_url, version_tag)` for the latest pnpm standalone
/// build: the asset named exactly for this machine.
pub fn resolve_pnpm_download(release: &Json, host: &Host) -> (r: Result<(String, String), Error>)
    ensures
        match pnpm_asset(*host) {
            None => r matches Err(Error::UnsupportedOs { .. }),
            Some(n) => match exact_pick(*release, n) {
                Some((u, t)) => r matches Ok((url, tag)) && url@ == u && tag@ == t,
                None => r matches Err(Error::NoMatchingAsset { needles, .. }) && needles@.len() == 1
                    && needles@[0]@ == n,
            },
        },
{
    let name = match pnpm_asset_exec(host) {
        Ok(n) => n,
        Err(e) => {
            return Err(e);
        },
    };
    match exact_asset(release, name) {
        Some(hit) => Ok(hit),
        None => {
            let tag = match release.str_field("tag_name") {
                Some(t) => owned(t),
                None => owned("unknown"),
            };
            let needles = vec![owned(name)];
            Err(Error::NoMatchingAsset { needles, location: tag })
        },
    }
}

/// How a pnpm download is put in place.
#[derive(Debug, Clone, Copy, PartialEq, Eq, Structural)]
pub enum PnpmFetch {
    /// Extract the archive into the install folder, then bring the binary to its top.
    Archive,
    /// Save the download as the binary itself.
    Binary,
}

/// Archives (`.zip`, `.tar.gz`) are extracted; anything else is the binary.
pub fn pnpm_fetch_kind(url: &str) -> (r: PnpmFetch)
    ensures
        r == (if ends_with(url@, ".zip"@) || ends_with(url@, ".tar.gz"@) {
            PnpmFetch::Archive
        } else {
            PnpmFetch::Binary
        }),
{
    let u = chars_of(url);
    if ends_with_str(u.as_slice(), ".zip") || ends_with_str(u.as_slice(), ".tar.gz") {
        PnpmFetch::Archive
    } else {
        PnpmFetch::Binary
    }
}

/// After extracting an archive: the copy that brings the shallowest pnpm
/// binary to the top of the install folder (`None` when it is already
/// there), or an error when the archive held none.
pub fn pnpm_layout(ctx: &InstallContext, fs: &FsView) -> (r: Result<Option<(String, String)>, Error>)
    ensures
        !any_named(ctx.host.os, fs@, ctx.install_dir@, exe(ctx.host.os, "pnpm"@)) <==> r is Err,
        r matches Err(e) ==> e matches Error::Missing { what } && what@ == exe(ctx.host.os, "pnpm"@),
        r matches Ok(Some((from, to))) ==> is_first_named(ctx.host.os, fs@, ctx.install_dir@, exe(ctx.host.os, "pnpm"@), from@)
            && to@ == pnpm_bin(ctx.host.os, ctx.install_dir@) && from@ != to@,
        r matches Ok(None) ==> is_first_named(ctx.host.os, fs@, ctx.install_dir@, exe(ctx.host.os, "pnpm"@), pnpm_bin(ctx.host.os, ctx.install_dir@)),
{
    let os = ctx.host.os;
    let name = exe_name(os, "pnpm");
    match first_file_named(os, fs, ctx.install_dir.as_str(), name.as_str()) {
        None => Err(Error::Missing { what: name }),
        Some(found) => {
            let target = path_join(os, ctx.install_dir.as_str(), name.as_str());
            if crate::text::eq(chars_of(found.as_str()).as_slice(), chars_of(target.as_str()).as_slice()) {
                Ok(None)
            } else {
                Ok(Some((found, target)))
            }
        },
    }
}

/// `pnpm` (`pnpm.exe` on Windows) in the install folder.
pub open spec fn pnpm_bin(os: HostOS, dir: Seq<char>) -> Seq<char> {
    join(os, dir, exe(os, "pnpm"@))
}

pub struct PnpmPlugin;

impl Plugin for PnpmPlugin {
    open spec fn spec_id(&self) -> Seq<char> {
        "pnpm"@
    }

    fn id(&self) -> (r: &'static str) {
        "pnpm"
    }

    fn name(&self) -> (r: &'static str)
        ensures
            r@ == "pnpm"@,
    {
        "pnpm"
    }

    fn description(&self) -> (r: &'static str)
        ensures
            r@ == "Download latest pnpm standalone binary and add it to PATH."@,
    {
        "Download latest pnpm standalone binary and add it to PATH."
    }

    fn status(&self, ctx: &InstallContext, fs: &FsView) -> (r: PluginStatus)
        ensures
            r@ == binary_status_spec(
                fs@,
                pnpm_bin(ctx.host.os, ctx.install_dir@),
                ctx.install_dir@,
                "Install dir exists but pnpm binary is missing"@,
            ),
    {
        let bin = path_join(ctx.host.os, ctx.install_dir.as_str(), exe_name(ctx.host.os, "pnpm").as_str());
        binary_status(fs, bin.as_str(), ctx.install_dir.as_str(), "Install dir exists but pnpm binary is missing")
    }

    /// The install folder on PATH.
    fn env_spec(&self, ctx: &InstallContext, fs: &FsView) -> (r: EnvSpec)
        ensures
            r@ == (
                seq![ctx.install_dir@],
                Seq::<(Seq<char>, Seq<char>)>::empty(),
            ),
    {
        let r = env_of(vec![owned(ctx.install_dir.as_str())], Vec::new());
        assert(r@.0 =~= seq![ctx.install_dir@]);
        assert(r@.1 =~= Seq::<(Seq<char>, Seq<char>)>::empty());
        r
    }
}

} // verus!
