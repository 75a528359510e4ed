//! MySQL plugin — MySQL Community Server 8.4 LTS portable archives.
use crate::error::Error;
use crate::json::{array_field, array_of, bool_field, field, members_of, member_from, or_default, str_field, Json};
use crate::paths::{fs_canonical, fs_has_contents, fs_is_dir, fs_is_file, join, parent, parent_of, path_join, path_join2, path_join3, FsView};
use crate::platform::{Host, HostOS};
use crate::plugin::{dir_of, env_of, exe, exe_name, resolved_dir, EnvSpec, InstallContext, InstallState, Plugin,
    PluginStatus};
use crate::plugin_utils::{binary_status, binary_status_spec};
use crate::text::{chars_of, eq_str, owned};
use vstd::prelude::*;

verus! {

/// The archive name of the pinned release for this machine.
pub open spec fn mysql_archive(host: Host) -> Option<Seq<char>> {
    let a = host.arch@;
    match host.os {
        HostOS::Windows => if a == "x64"@ || a == "aarch64"@ { Some("mysql-8.4.11-"@ + "winx64.zip"@) } else { None },
        HostOS::Linux => Some("mysql-8.4.11-"@ + "linux-glibc2.28-"@ + (if a == "aarch64"@ { "aarch64"@ } else { "x86_64"@ }) + ".tar.xz"@),
        HostOS::MacOS => Some("mysql-8.4.11-"@ + "macos15-"@ + (if a == "aarch64"@ { "arm64"@ } else { "x86_64"@ }) + ".tar.gz"@),
        HostOS::Other => None,
    }
}

/// Return `(download_url, version)` for this OS/arch.
pub fn resolve_mysql_url(host: &Host) -> (r: Result<(String, String), Error>)
    ensures
        match mysql_archive(*host) {
            Some(n) => r matches Ok((url, version)) && url@ == "https://dev.mysql.com/get/Downloads/MySQL-8.4/"@ + n
                && version@ == "8.4.11"@,
            None => r is Err,
        },
{
    let a = chars_of(host.arch.as_str());
    let arm = eq_str(a.as_slice(), "aarch64");
    let mut name = owned("mysql-8.4.11-");
    match host.os {
        HostOS::Windows => {
            if !eq_str(a.as_slice(), "x64") && !arm {
                return Err(Error::UnsupportedArch { tool: "MySQL", arch: owned(host.arch.as_str()) });
            }
            name.append("winx64.zip");
        },
        HostOS::Linux => {
            name.append("linux-glibc2.28-");
            name.append(if arm { "aarch64" } else { "x86_64" });
            name.append(".tar.xz");
        },
        HostOS::MacOS => {
            name.append("macos15-");
            name.append(if arm { "arm64" } else { "x86_64" });
            name.append(".tar.gz");
        },
        HostOS::Other => {
            return Err(Error::UnsupportedOs { tool: "MySQL" });
        },
    }
    let mut url = owned("https://dev.mysql.com/get/Downloads/MySQL-8.4/");
    url.append(name.as_str());
    Ok((url, owned("8.4.11")))
}

pub struct MysqlPlugin;

impl Plugin for MysqlPlugin {
    open spec fn spec_id(&self) -> Seq<char> {
        "mysql"@
    }

    fn id(&self) -> (r: &'static str) {
        "mysql"
    }

    fn name(&self) -> (r: &'static str)
        ensures
            r@ == "MySQL"@,
    {
        "MySQL"
    }

    fn description(&self) -> (r: &'static str)
        ensures
            r@ == "Download MySQL Community Server 8.4.11 (LTS) portable archive and add it to PATH."@,
    {
        "Download MySQL Community Server 8.4.11 (LTS) portable archive and add it to PATH."
    }

    fn status(&self, ctx: &InstallContext, fs: &FsView) -> (r: PluginStatus)
        ensures
            r@ == binary_status_spec(
                fs@,
                join(ctx.host.os, join(ctx.host.os, ctx.install_dir@, "bin"@), exe(ctx.host.os, "mysql"@)),
                ctx.install_dir@,
                "Install dir exists but mysql client is missing"@,
            ),
    {
        let bin = path_join2(ctx.host.os, ctx.install_dir.as_str(), "bin", exe_name(ctx.host.os, "mysql").as_str());
        binary_status(fs, bin.as_str(), ctx.install_dir.as_str(), "Install dir exists but mysql client is missing")
    }

    /// The PATH entries.
    fn env_spec(&self, ctx: &InstallContext, fs: &FsView) -> (r: EnvSpec)
        ensures
            r@ == (
                seq![join(ctx.host.os, ctx.install_dir@, "bin"@)],
                Seq::<(Seq<char>, Seq<char>)>::empty(),
            ),
    {
        let r = env_of(vec![path_join(ctx.host.os, ctx.install_dir.as_str(), "bin")], Vec::new());
        assert(r@.0 =~= seq![join(ctx.host.os, ctx.install_dir@, "bin"@)]);
        assert(r@.1 =~= Seq::<(Seq<char>, Seq<char>)>::empty());
        r
    }
}

} // verus!
