//! Python plugin — portable CPython from python-build-standalone.
use crate::error::Error;
use crate::json::{array_field, array_of, bool_field, field, members_of, member_from, or_default, str_field, Json};
use crate::paths::{fs_canonical, fs_has_contents, fs_is_dir, fs_is_file, join, parent, parent_of, path_join, path_join2, path_join3, FsView};
use crate::platform::{Host, HostOS};
use crate::plugin::{dir_of, env_of, exe, exe_name, resolved_dir, EnvSpec, InstallContext, InstallState, Plugin,
    PluginStatus};
use crate::plugin_utils::{binary_status, binary_status_spec};
use crate::text::{all_digits, chars_of, decimal, decimal_string, digits_value, eq_str, owned, split, starts_with, trim, trim_set, trim_start_set};
use vstd::prelude::*;

verus! {

/// The python-build-standalone target triple for this machine.
pub open spec fn pbs_triple_spec(host: Host) -> Option<Seq<char>> {
    let cpu = if host.arch@ == "aarch64"@ { "aarch64"@ } else { "x86_64"@ };
    match host.os {
        HostOS::Windows => Some(cpu + "-pc-windows-msvc"@),
        HostOS::Linux => Some(cpu + "-unknown-linux-gnu"@),
        HostOS::MacOS => Some(cpu + "-apple-darwin"@),
        HostOS::Other => None,
    }
}

/// The python-build-standalone target triple for this machine.
pub fn pbs_triple(host: &Host) -> (r: Result<String, Error>)
    ensures
        match pbs_triple_spec(*host) {
            Some(t) => r matches Ok(s) && s@ == t,
            None => r matches Err(Error::UnsupportedOs { .. }),
        },
{
    let cpu = if eq_str(chars_of(host.arch.as_str()).as_slice(), "aarch64") {
        "aarch64"
    } else {
        "x86_64"
    };
    let suffix = match host.os {
        HostOS::Windows => "-pc-windows-msvc",
        HostOS::Linux => "-unknown-linux-gnu",
        HostOS::MacOS => "-apple-darwin",
        HostOS::Other => {
            return Err(Error::UnsupportedOs { tool: "Python" });
        },
    };
    let mut t = owned(cpu);
    t.append(suffix);
    Ok(t)
}

/// The pinned CPython release.
pub open spec fn python_version() -> Seq<char> {
    "3.12.13"@
}

/// The download URL of the pinned build for a triple (`+` URL-encoded).
pub open spec fn python_url(triple: Seq<char>) -> Seq<char> {
    "https://github.com/astral-sh/python-build-standalone/releases/download/20260728/cpython-3.12.13%2B20260728-"@
        + triple + "-install_only.tar.gz"@
}

/// Return `(download_url, version)` for this OS/arch.
pub fn resolve_python_download(host: &Host) -> (r: Result<(String, String), Error>)
    ensures
        if host.arch@ != "x64"@ && host.arch@ != "aarch64"@ {
            r matches Err(Error::UnsupportedArch { arch, .. }) && arch@ == host.arch@
        } else {
            match pbs_triple_spec(*host) {
                Some(t) => r matches Ok((url, version)) && url@ == python_url(t) && version@ == python_version(),
                None => r matches Err(Error::UnsupportedOs { .. }),
            }
        },
{
    let a = chars_of(host.arch.as_str());
    if !eq_str(a.as_slice(), "x64") && !eq_str(a.as_slice(), "aarch64") {
        return Err(Error::UnsupportedArch { tool: "Python", arch: owned(host.arch.as_str()) });
    }
    let triple = match pbs_triple(host) {
        Ok(t) => t,
        Err(e) => {
            return Err(e);
        },
    };
    let mut url = owned("https://github.com/astral-sh/python-build-standalone/releases/download/20260728/cpython-3.12.13%2B20260728-");
    url.append(triple.as_str());
    url.append("-install_only.tar.gz");
    Ok((url, owned("3.12.13")))
}

/// The first of two candidates that exists, else the first one.
pub open spec fn first_present(fs: crate::paths::FsModel, a: Seq<char>, b: Seq<char>) -> Seq<char> {
    if fs_is_file(fs, a) {
        a
    } else if fs_is_file(fs, b) {
        b
    } else {
        a
    }
}

/// The interpreter: `python.exe` (at the top, else in `bin`) on Windows,
/// `bin/python3` (else `bin/python`) elsewhere.
pub open spec fn python_bin(os: HostOS, fs: crate::paths::FsModel, dir: Seq<char>) -> Seq<char> {
    if os == HostOS::Windows {
        first_present(fs, join(os, dir, "python.exe"@), join(os, join(os, dir, "bin"@), "python.exe"@))
    } else {
        first_present(fs, join(os, join(os, dir, "bin"@), "python3"@), join(os, join(os, dir, "bin"@), "python"@))
    }
}

fn python_bin_exec(ctx: &InstallContext, fs: &FsView) -> (r: String)
    ensures
        r@ == python_bin(ctx.host.os, fs@, ctx.install_dir@),
{
    let os = ctx.host.os;
    let (a, b) = if os == HostOS::Windows {
        (path_join(os, ctx.install_dir.as_str(), "python.exe"), path_join2(os, ctx.install_dir.as_str(), "bin", "python.exe"))
    } else {
        (path_join2(os, ctx.install_dir.as_str(), "bin", "python3"), path_join2(os, ctx.install_dir.as_str(), "bin", "python"))
    };
    if fs.is_file(a.as_str()) {
        a
    } else if fs.is_file(b.as_str()) {
        b
    } else {
        a
    }
}

pub struct PythonPlugin;

impl Plugin for PythonPlugin {
    open spec fn spec_id(&self) -> Seq<char> {
        "python"@
    }

    fn id(&self) -> (r: &'static str) {
        "python"
    }

    fn name(&self) -> (r: &'static str)
        ensures
            r@ == "Python"@,
    {
        "Python"
    }

    fn description(&self) -> (r: &'static str)
        ensures
            r@ == "Download portable Python 3.12.13 (python-build-standalone) and add it to PATH."@,
    {
        "Download portable Python 3.12.13 (python-build-standalone) and add it to PATH."
    }

    fn status(&self, ctx: &InstallContext, fs: &FsView) -> (r: PluginStatus)
        ensures
            r@ == binary_status_spec(
                fs@,
                python_bin(ctx.host.os, fs@, ctx.install_dir@),
                ctx.install_dir@,
                "Install dir exists but python binary is missing"@,
            ),
    {
        let bin = python_bin_exec(ctx, fs);
        binary_status(fs, bin.as_str(), ctx.install_dir.as_str(), "Install dir exists but python binary is missing")
    }

    /// The interpreter's folder on PATH when it exists (else `bin`).
    fn env_spec(&self, ctx: &InstallContext, fs: &FsView) -> (r: EnvSpec)
        ensures
            r@ == (
                seq![if fs_is_file(fs@, python_bin(ctx.host.os, fs@, ctx.install_dir@)) {
                    match parent(ctx.host.os, python_bin(ctx.host.os, fs@, ctx.install_dir@)) {
                        Some(p) => p,
                        None => ctx.install_dir@,
                    }
                } else {
                    join(ctx.host.os, ctx.install_dir@, "bin"@)
                }],
                Seq::<(Seq<char>, Seq<char>)>::empty(),
            ),
    {
        let bin = python_bin_exec(ctx, fs);
        let dir = if fs.is_file(bin.as_str()) {
            match parent_of(ctx.host.os, bin.as_str()) {
                Some(p) => p,
                None => owned(ctx.install_dir.as_str()),
            }
        } else {
            path_join(ctx.host.os, ctx.install_dir.as_str(), "bin")
        };
        let r = env_of(vec![dir], Vec::new());
        assert(r@.0 =~= seq![if fs_is_file(fs@, python_bin(ctx.host.os, fs@, ctx.install_dir@)) {
            match parent(ctx.host.os, python_bin(ctx.host.os, fs@, ctx.install_dir@)) {
                Some(p) => p,
                None => ctx.install_dir@,
            }
        } else {
            join(ctx.host.os, ctx.install_dir@, "bin"@)
        }]);
        assert(r@.1 =~= Seq::<(Seq<char>, Seq<char>)>::empty());
        r
    }
}

} // verus!
