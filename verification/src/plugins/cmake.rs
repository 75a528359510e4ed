//! CMake plugin — latest binary release from Kitware/CMake.
use crate::error::Error;
use crate::json::Json;
use crate::paths::{fs_canonical, fs_is_file, join, parent, parent_of, path_join, path_join2, FsView};
use crate::platform::{Host, HostOS};
use crate::plugin::{env_of, exe, exe_name, resolved_dir, EnvSpec, InstallContext, Plugin,
    PluginStatus};
use crate::plugin_utils::{binary_status, binary_status_spec, pick_one, picked_one};
use crate::text::{chars_of, eq_str, owned};
use vstd::prelude::*;

verus! {

/// The release asset for this machine; none where CMake ships no build
/// (Windows other than x64, unknown OS).
pub open spec fn cmake_asset(host: Host) -> Option<Seq<char>> {
    match host.os {
        HostOS::Windows => if host.arch@ == "x64"@ {
            Some("windows-x86_64.zip"@)
        } else {
            None
        },
        HostOS::Linux => Some(if host.arch@ == "aarch64"@ { "linux-aarch64.tar.gz"@ } else { "linux-x86_64.tar.gz"@ }),
        HostOS::MacOS => Some("macos-universal.tar.gz"@),
        HostOS::Other => None,
    }
}

fn cmake_asset_exec(host: &Host) -> (r: Result<&'static str, Error>)
    ensures
        match cmake_asset(*host) {
            Some(n) => r matches Ok(s) && s@ == n,
            None => r is Err,
        },
        host.os == HostOS::Other ==> r matches Err(Error::UnsupportedOs { .. }),
        host.os == HostOS::Windows && cmake_asset(*host) is None ==> (r matches Err(
            Error::UnsupportedArch { arch, .. },
        ) && arch@ == host.arch@),
{
    let a = chars_of(host.arch.as_str());
    match host.os {
        HostOS::Windows => if eq_str(a.as_slice(), "x64") {
            Ok("windows-x86_64.zip")
        } else {
            Err(Error::UnsupportedArch { tool: "CMake", arch: owned(host.arch.as_str()) })
        },
        HostOS::Linux => Ok(if eq_str(a.as_slice(), "aarch64") { "linux-aarch64.tar.gz" } else { "linux-x86_64.tar.gz" }),
        HostOS::MacOS => Ok("macos-universal.tar.gz"),
        HostOS::Other => Err(Error::UnsupportedOs { tool: "CMake" }),
    }
}

/// `(download_url, tag)` of the CMake asset for this machine in the latest release.
pub fn resolve_cmake_download(release: &Json, host: &Host) -> (r: Result<(String, String), Error>)
    ensures
        match cmake_asset(*host) {
            None => r is Err,
            Some(n) => match picked_one(*release, n) {
                Some((u, t)) => r matches Ok((url, tag)) && url@ == u && tag@ == t,
                None => r matches Err(Error::NoMatchingAsset { .. }),
            },
        },
        host.os == HostOS::Other ==> r matches Err(Error::UnsupportedOs { .. }),
{
    match cmake_asset_exec(host) {
        Ok(n) => pick_one(release, n),
        Err(e) => Err(e),
    }
}

/// The app bundle's binary, used on macOS builds.
pub open spec fn cmake_app_bin(os: HostOS, dir: Seq<char>) -> Seq<char> {
    join(os, join(os, join(os, join(os, dir, "CMake.app"@), "Contents"@), "bin"@), "cmake"@)
}

/// `bin/cmake.exe` on Windows; elsewhere the app bundle's binary when it
/// exists, else `bin/cmake`.
pub open spec fn cmake_bin(os: HostOS, fs: crate::paths::FsModel, dir: Seq<char>) -> Seq<char> {
    if os == HostOS::Windows {
        join(os, join(os, dir, "bin"@), "cmake.exe"@)
    } else if fs_is_file(fs, cmake_app_bin(os, dir)) {
        cmake_app_bin(os, dir)
    } else {
        join(os, join(os, dir, "bin"@), "cmake"@)
    }
}

/// The CMake binary (see `cmake_bin`).
pub fn cmake_bin_exec(ctx: &InstallContext, fs: &FsView) -> (r: String)
    ensures
        r@ == cmake_bin(ctx.host.os, fs@, ctx.install_dir@),
{
    let os = ctx.host.os;
    if os == HostOS::Windows {
        return path_join2(os, ctx.install_dir.as_str(), "bin", "cmake.exe");
    }
    let app = path_join2(os, path_join2(os, ctx.install_dir.as_str(), "CMake.app", "Contents").as_str(), "bin", "cmake");
    if fs.is_file(app.as_str()) {
        return app;
    }
    path_join2(os, ctx.install_dir.as_str(), "bin", "cmake")
}

pub struct CmakePlugin;

impl Plugin for CmakePlugin {
    open spec fn spec_id(&self) -> Seq<char> {
        "cmake"@
    }

    fn id(&self) -> (r: &'static str) {
        "cmake"
    }

    fn name(&self) -> (r: &'static str)
        ensures
            r@ == "CMake"@,
    {
        "CMake"
    }

    fn description(&self) -> (r: &'static str)
        ensures
            r@ == "Download latest CMake binary and add it to PATH."@,
    {
        "Download latest CMake binary and add it to PATH."
    }

    fn status(&self, ctx: &InstallContext, fs: &FsView) -> (r: PluginStatus)
        ensures
            r@ == binary_status_spec(
                fs@,
                cmake_bin(ctx.host.os, fs@, ctx.install_dir@),
                ctx.install_dir@,
                "Install dir exists but cmake binary is missing"@,
            ),
    {
        let bin = cmake_bin_exec(ctx, fs);
        binary_status(fs, bin.as_str(), ctx.install_dir.as_str(), "Install dir exists but cmake binary is missing")
    }

    /// The binary's folder on PATH.
    fn env_spec(&self, ctx: &InstallContext, fs: &FsView) -> (r: EnvSpec)
        ensures
            r@ == (
                seq![match parent(ctx.host.os, cmake_bin(ctx.host.os, fs@, ctx.install_dir@)) {
                    Some(p) => p,
                    None => ctx.install_dir@,
                }],
                Seq::<(Seq<char>, Seq<char>)>::empty(),
            ),
    {
        let bin = cmake_bin_exec(ctx, fs);
        let dir = match parent_of(ctx.host.os, bin.as_str()) {
            Some(p) => p,
            None => owned(ctx.install_dir.as_str()),
        };
        let r = env_of(vec![dir], Vec::new());
        assert(r@.0 =~= seq![match parent(ctx.host.os, cmake_bin(ctx.host.os, fs@, ctx.install_dir@)) {
            Some(p) => p,
            None => ctx.install_dir@,
        }]);
        assert(r@.1 =~= Seq::<(Seq<char>, Seq<char>)>::empty());
        r
    }
}

} // verus!
