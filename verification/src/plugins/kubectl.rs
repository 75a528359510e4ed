//! kubectl plugin — latest stable kubectl binary from dl.k8s.io.
use crate::error::Error;
use crate::json::{array_field, array_of, bool_field, field, members_of, member_from, or_default, str_field, Json};
use crate::paths::{fs_canonical, fs_has_contents, fs_is_dir, fs_is_file, join, parent, parent_of, path_join, path_join2, path_join3, FsView};
use crate::platform::{Host, HostOS};
use crate::plugin::{dir_of, env_of, exe, exe_name, resolved_dir, EnvSpec, InstallContext, InstallState, Plugin,
    PluginStatus};
use crate::plugin_utils::{binary_status, binary_status_spec};
use crate::text::{chars_of, eq_str, owned};
use vstd::prelude::*;

verus! {

/// The Go-style OS name and binary name for kubectl downloads.
pub open spec fn kubectl_os(os: HostOS) -> Option<(Seq<char>, Seq<char>)> {
    match os {
        HostOS::Windows => Some(("windows"@, "kubectl.exe"@)),
        HostOS::Linux => Some(("linux"@, "kubectl"@)),
        HostOS::MacOS => Some(("darwin"@, "kubectl"@)),
        HostOS::Other => None,
    }
}

/// `arm64` on aarch64, `amd64` otherwise.
pub open spec fn kubectl_arch(arch: Seq<char>) -> Seq<char> {
    if arch == "aarch64"@ {
        "arm64"@
    } else {
        "amd64"@
    }
}

/// `(download_url, version)` for kubectl, from the text of
/// `https://dl.k8s.io/release/stable.txt` (a single version line).
pub fn resolve_kubectl_download(stable_txt: &str, host: &Host) -> (r: Result<(String, String), Error>)
    ensures
        match kubectl_os(host.os) {
            None => r matches Err(Error::UnsupportedOs { .. }),
            Some((goos, name)) => r matches Ok((url, version)) && version@ == crate::text::trim(stable_txt@)
                && url@ == "https://dl.k8s.io/release/"@ + version@ + "/bin/"@ + goos + "/"@ + kubectl_arch(
                host.arch@,
            ) + "/"@ + name,
        },
{
    let (goos, name) = match host.os {
        HostOS::Windows => ("windows", "kubectl.exe"),
        HostOS::Linux => ("linux", "kubectl"),
        HostOS::MacOS => ("darwin", "kubectl"),
        HostOS::Other => {
            return Err(Error::UnsupportedOs { tool: "kubectl" });
        },
    };
    let version = crate::text::string_of(crate::text::trim_exec(chars_of(stable_txt).as_slice()).as_slice());
    let goarch = if eq_str(chars_of(host.arch.as_str()).as_slice(), "aarch64") {
        "arm64"
    } else {
        "amd64"
    };
    let mut url = owned("https://dl.k8s.io/release/");
    url.append(version.as_str());
    url.append("/bin/");
    url.append(goos);
    url.append("/");
    url.append(goarch);
    url.append("/");
    url.append(name);
    Ok((url, version))
}

pub struct KubectlPlugin;

impl Plugin for KubectlPlugin {
    open spec fn spec_id(&self) -> Seq<char> {
        "kubectl"@
    }

    fn id(&self) -> (r: &'static str) {
        "kubectl"
    }

    fn name(&self) -> (r: &'static str)
        ensures
            r@ == "kubectl"@,
    {
        "kubectl"
    }

    fn description(&self) -> (r: &'static str)
        ensures
            r@ == "Download latest stable kubectl binary and add it to PATH."@,
    {
        "Download latest stable kubectl binary and add it to PATH."
    }

    fn status(&self, ctx: &InstallContext, fs: &FsView) -> (r: PluginStatus)
        ensures
            r@ == binary_status_spec(
                fs@,
                join(ctx.host.os, ctx.install_dir@, exe(ctx.host.os, "kubectl"@)),
                ctx.install_dir@,
                "Install dir exists but kubectl binary is missing"@,
            ),
    {
        let bin = path_join(ctx.host.os, ctx.install_dir.as_str(), exe_name(ctx.host.os, "kubectl").as_str());
        binary_status(fs, bin.as_str(), ctx.install_dir.as_str(), "Install dir exists but kubectl binary is missing")
    }

    /// The PATH entries.
    fn env_spec(&self, ctx: &InstallContext, fs: &FsView) -> (r: EnvSpec)
        ensures
            r@ == (
                seq![ctx.install_dir@],
                Seq::<(Seq<char>, Seq<char>)>::empty(),
            ),
    {
        let r = env_of(vec![owned(ctx.install_dir.as_str())], Vec::new());
        assert(r@.0 =~= seq![ctx.install_dir@]);
        assert(r@.1 =~= Seq::<(Seq<char>, Seq<char>)>::empty());
        r
    }
}

} // verus!
