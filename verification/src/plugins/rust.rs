//! Rust plugin — rustup stable into the machine `dev` folder.
use crate::error::Error;
use crate::json::{array_field, array_of, bool_field, field, members_of, member_from, or_default, str_field, Json};
use crate::paths::{fs_canonical, fs_has_contents, fs_is_dir, fs_is_file, join, parent, parent_of, path_join, path_join2, path_join3, FsView};
use crate::platform::{Host, HostOS};
use crate::plugin::{dir_of, env_of, exe, exe_name, resolved_dir, EnvSpec, InstallContext, InstallState, Plugin,
    PluginStatus};
use crate::plugin_utils::{binary_status, binary_status_spec};
use crate::text::{chars_of, eq_str, owned, starts_with, trim};
use vstd::prelude::*;

verus! {

/// The rustup host triple for this machine.
pub open spec fn rust_triple(host: Host) -> Option<Seq<char>> {
    let cpu = if host.arch@ == "aarch64"@ { "aarch64"@ } else { "x86_64"@ };
    match host.os {
        HostOS::Windows => Some(cpu + "-pc-windows-msvc"@),
        HostOS::Linux => Some(cpu + "-unknown-linux-gnu"@),
        HostOS::MacOS => Some(cpu + "-apple-darwin"@),
        HostOS::Other => None,
    }
}

/// The rustup host triple for this machine.
pub fn rust_host_triple(host: &Host) -> (r: Result<String, Error>)
    ensures
        match rust_triple(*host) {
            Some(t) => r matches Ok(s) && s@ == t,
            None => r matches Err(Error::UnsupportedOs { .. }),
        },
{
    let cpu = if eq_str(chars_of(host.arch.as_str()).as_slice(), "aarch64") {
        "aarch64"
    } else {
        "x86_64"
    };
    let suffix = match host.os {
        HostOS::Windows => "-pc-windows-msvc",
        HostOS::Linux => "-unknown-linux-gnu",
        HostOS::MacOS => "-apple-darwin",
        HostOS::Other => {
            return Err(Error::UnsupportedOs { tool: "Rust" });
        },
    };
    let mut t = owned(cpu);
    t.append(suffix);
    Ok(t)
}

/// The URL of `rustup-init` for a triple.
pub open spec fn rustup_init_url(os: HostOS, triple: Seq<char>) -> Seq<char> {
    "https://static.rust-lang.org/rustup/dist/"@ + triple + "/"@ + exe(os, "rustup-init"@)
}

/// The URL of `rustup-init` for this machine.
pub fn resolve_rustup_init_url(host: &Host) -> (r: Result<String, Error>)
    ensures
        match rust_triple(*host) {
            Some(t) => r matches Ok(u) && u@ == rustup_init_url(host.os, t),
            None => r matches Err(Error::UnsupportedOs { .. }),
        },
{
    let triple = match rust_host_triple(host) {
        Ok(t) => t,
        Err(e) => {
            return Err(e);
        },
    };
    let mut url = owned("https://static.rust-lang.org/rustup/dist/");
    url.append(triple.as_str());
    url.append("/");
    url.append(exe_name(host.os, "rustup-init").as_str());
    Ok(url)
}

/// The arguments `rustup-init` is run with.
pub fn rustup_init_args() -> (r: Vec<&'static str>)
    ensures
        r@.map_values(|s: &str| s@) == seq!["-y"@, "--no-modify-path"@, "--default-toolchain"@, "stable"@, "--profile"@, "default"@],
{
    let r = vec!["-y", "--no-modify-path", "--default-toolchain", "stable", "--profile", "default"];
    assert(r@.map_values(|s: &str| s@) =~= seq!["-y"@, "--no-modify-path"@, "--default-toolchain"@, "stable"@, "--profile"@, "default"@]);
    r
}

/// What a failed `rustup-init` run reports: its error output, unless that
/// is blank, else its standard output.
pub fn rustup_failure_detail(stderr: &str, stdout: &str) -> (r: String)
    ensures
        r@ == (if trim(stderr@).len() > 0 { stderr@ } else { stdout@ }),
{
    if crate::text::trim_exec(chars_of(stderr).as_slice()).len() > 0 {
        owned(stderr)
    } else {
        owned(stdout)
    }
}

/// `cargo/bin/cargo` (`cargo.exe` on Windows) under the install folder.
pub open spec fn cargo_bin(os: HostOS, dir: Seq<char>) -> Seq<char> {
    join(os, join(os, join(os, dir, "cargo"@), "bin"@), exe(os, "cargo"@))
}

pub struct RustPlugin;

impl Plugin for RustPlugin {
    open spec fn spec_id(&self) -> Seq<char> {
        "rust"@
    }

    fn id(&self) -> (r: &'static str) {
        "rust"
    }

    fn name(&self) -> (r: &'static str)
        ensures
            r@ == "Rust"@,
    {
        "Rust"
    }

    fn description(&self) -> (r: &'static str)
        ensures
            r@ == "Install Rust stable via rustup into the machine dev folder and add cargo to PATH."@,
    {
        "Install Rust stable via rustup into the machine dev folder and add cargo to PATH."
    }

    fn status(&self, ctx: &InstallContext, fs: &FsView) -> (r: PluginStatus)
        ensures
            r@ == binary_status_spec(
                fs@,
                cargo_bin(ctx.host.os, ctx.install_dir@),
                ctx.install_dir@,
                "Install dir exists but cargo binary is missing"@,
            ),
    {
        let bin = path_join3(ctx.host.os, ctx.install_dir.as_str(), "cargo", "bin", exe_name(ctx.host.os, "cargo").as_str());
        binary_status(fs, bin.as_str(), ctx.install_dir.as_str(), "Install dir exists but cargo binary is missing")
    }

    /// `cargo/bin` on PATH.
    fn env_spec(&self, ctx: &InstallContext, fs: &FsView) -> (r: EnvSpec)
        ensures
            r@ == (
                seq![join(ctx.host.os, join(ctx.host.os, ctx.install_dir@, "cargo"@), "bin"@)],
                Seq::<(Seq<char>, Seq<char>)>::empty(),
            ),
    {
        let os = ctx.host.os;
        let cargo_home = path_join(os, ctx.install_dir.as_str(), "cargo");
        let rustup_home = path_join(os, ctx.install_dir.as_str(), "rustup");
        let bin = path_join(os, cargo_home.as_str(), "bin");
        let r = env_of(vec![bin], Vec::new());
        assert(r@.0 =~= seq![join(os, join(os, ctx.install_dir@, "cargo"@), "bin"@)]);
        assert(r@.1 =~= Seq::<(Seq<char>, Seq<char>)>::empty());
        r
    }
}

} // verus!
