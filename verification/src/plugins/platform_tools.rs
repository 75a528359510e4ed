//! Android platform-tools plugin (adb / fastboot) — companion to the android plugin.
use crate::error::Error;
use crate::paths::{fs_canonical, fs_is_file, join, parent, parent_of, path_join, path_join2, FsView};
use crate::platform::HostOS;
use crate::plugin::{env_of, exe, exe_name, EnvSpec, InstallContext, Plugin, PluginStatus};
use crate::plugin_utils::{binary_status, binary_status_spec};
use crate::text::owned;
use vstd::prelude::*;

verus! {

/// The download slug of the rolling `latest` ZIP for this OS.
pub open spec fn platform_tools_slug(os: HostOS) -> Option<Seq<char>> {
    match os {
        HostOS::Windows => Some("windows"@),
        HostOS::MacOS => Some("darwin"@),
        HostOS::Linux => Some("linux"@),
        HostOS::Other => None,
    }
}

/// `(download_url, "latest")`: Google publishes a rolling ZIP per OS.
pub fn resolve_platform_tools_url(os: HostOS) -> (r: Result<(String, String), Error>)
    ensures
        match platform_tools_slug(os) {
            Some(slug) => r matches Ok((url, v)) && v@ == "latest"@ && url@
                == "https://dl.google.com/android/repository"@ + "/"@ + "platform-tools-latest-"@ + slug + ".zip"@,
            None => r matches Err(Error::UnsupportedOs { .. }),
        },
{
    let slug = match os {
        HostOS::Windows => "windows",
        HostOS::MacOS => "darwin",
        HostOS::Linux => "linux",
        HostOS::Other => {
            return Err(Error::UnsupportedOs { tool: "platform-tools" });
        },
    };
    let mut url = owned("https://dl.google.com/android/repository");
    url.append("/");
    url.append("platform-tools-latest-");
    url.append(slug);
    url.append(".zip");
    Ok((url, owned("latest")))
}

/// `adb` under `platform-tools/` when it is a file there (the ZIP keeps its
/// top folder), else `adb` in the install folder.
pub open spec fn adb_bin(os: HostOS, fs: crate::paths::FsModel, dir: Seq<char>) -> Seq<char> {
    let nested = join(os, join(os, dir, "platform-tools"@), exe(os, "adb"@));
    if fs_is_file(fs, nested) {
        nested
    } else {
        join(os, dir, exe(os, "adb"@))
    }
}

/// The `adb` binary of the install (see `adb_bin`).
pub fn adb_bin_exec(ctx: &InstallContext, fs: &FsView) -> (r: String)
    ensures
        r@ == adb_bin(ctx.host.os, fs@, ctx.install_dir@),
{
    let os = ctx.host.os;
    let name = exe_name(os, "adb");
    let nested = path_join2(os, ctx.install_dir.as_str(), "platform-tools", name.as_str());
    if fs.is_file(nested.as_str()) {
        nested
    } else {
        path_join(os, ctx.install_dir.as_str(), name.as_str())
    }
}

/// The folder put on PATH: that of `adb` when it exists, else
/// `platform-tools` in the install folder.
pub open spec fn adb_path_dir(os: HostOS, fs: crate::paths::FsModel, dir: Seq<char>) -> Seq<char> {
    let adb = adb_bin(os, fs, dir);
    if fs_is_file(fs, adb) {
        match parent(os, adb) {
            Some(p) => p,
            None => dir,
        }
    } else {
        join(os, dir, "platform-tools"@)
    }
}

pub struct PlatformToolsPlugin;

impl Plugin for PlatformToolsPlugin {
    open spec fn spec_id(&self) -> Seq<char> {
        "platform-tools"@
    }

    fn id(&self) -> (r: &'static str) {
        "platform-tools"
    }

    fn name(&self) -> (r: &'static str)
        ensures
            r@ == "Android platform-tools"@,
    {
        "Android platform-tools"
    }

    fn description(&self) -> (r: &'static str)
        ensures
            r@ == "Download Android SDK platform-tools (adb, fastboot) and add them to PATH. Pairs with the android cmdline-tools plugin for Flutter."@,
    {
        "Download Android SDK platform-tools (adb, fastboot) and add them to PATH. Pairs with the android cmdline-tools plugin for Flutter."
    }

    fn status(&self, ctx: &InstallContext, fs: &FsView) -> (r: PluginStatus)
        ensures
            r@ == binary_status_spec(
                fs@,
                adb_bin(ctx.host.os, fs@, ctx.install_dir@),
                ctx.install_dir@,
                "Install dir exists but adb is missing"@,
            ),
    {
        let adb = adb_bin_exec(ctx, fs);
        binary_status(fs, adb.as_str(), ctx.install_dir.as_str(), "Install dir exists but adb is missing")
    }

    /// The folder of `adb` on PATH.
    fn env_spec(&self, ctx: &InstallContext, fs: &FsView) -> (r: EnvSpec)
        ensures
            r@ == (
                seq![adb_path_dir(ctx.host.os, fs@, ctx.install_dir@)],
                Seq::<(Seq<char>, Seq<char>)>::empty(),
            ),
    {
        let os = ctx.host.os;
        let adb = adb_bin_exec(ctx, fs);
        let dir = if fs.is_file(adb.as_str()) {
            match parent_of(os, adb.as_str()) {
                Some(p) => p,
                None => owned(ctx.install_dir.as_str()),
            }
        } else {
            path_join(os, ctx.install_dir.as_str(), "platform-tools")
        };
        let r = env_of(vec![dir], Vec::new());
        assert(r@.0 =~= seq![adb_path_dir(os, fs@, ctx.install_dir@)]);
        assert(r@.1 =~= Seq::<(Seq<char>, Seq<char>)>::empty());
        r
    }
}

} // verus!
