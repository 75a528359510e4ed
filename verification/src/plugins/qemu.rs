//! QEMU plugin — official Windows NSIS installer run silently into a
//! private folder; system QEMU registered as-is on macOS/Linux.
use crate::error::Error;
use crate::paths::{fs_canonical, fs_has_contents, fs_is_file, join, path_join, FsView};
use crate::platform::HostOS;
use crate::plugin::{env_of, resolved_dir, EnvSpec, InstallContext, InstallState, Plugin, PluginStatus};
use crate::text::{chars_of, owned, string_of, trim_end_set};
use vstd::prelude::*;

verus! {

/// How QEMU gets installed on one OS.
#[derive(Debug)]
pub enum QemuSource {
    /// Download the Windows NSIS installer and run it silently.
    Installer { url: String, file_name: String },
    /// Register the system QEMU; `label` and `hint` go into the message
    /// shown when none is found on PATH.
    System { label: String, hint: String },
}

/// The hint for installing QEMU with the Linux package managers.
pub open spec fn linux_hint() -> Seq<char> {
    "  Debian/Ubuntu:  sudo apt install qemu-system\n  "@ + "Fedora:         sudo dnf install qemu\n  "@
        + "Arch:           sudo pacman -S qemu-full"@
}

/// The install source for `os`: the pinned 8.2.2 installer on Windows, the
/// system QEMU on macOS and Linux; no other OS is supported.
pub fn qemu_source(os: HostOS) -> (r: Result<QemuSource, Error>)
    ensures
        os == HostOS::Windows ==> (r matches Ok(QemuSource::Installer { url, file_name }) && url@
            == "https://qemu.weilnetz.de/w64/2024/qemu-w64-setup-20240423.exe"@ && file_name@ == "qemu-w64-setup-"@
            + "8.2.2"@ + ".exe"@),
        os == HostOS::MacOS ==> (r matches Ok(QemuSource::System { label, hint }) && label@ == "macOS"@ && hint@
            == "  brew install qemu"@),
        os == HostOS::Linux ==> (r matches Ok(QemuSource::System { label, hint }) && label@ == "Linux"@ && hint@
            == linux_hint()),
        os == HostOS::Other ==> r matches Err(Error::UnsupportedOs { .. }),
{
    match os {
        HostOS::Windows => {
            let mut file_name = owned("qemu-w64-setup-");
            file_name.append("8.2.2");
            file_name.append(".exe");
            Ok(
                QemuSource::Installer {
                    url: owned("https://qemu.weilnetz.de/w64/2024/qemu-w64-setup-20240423.exe"),
                    file_name,
                },
            )
        },
        HostOS::MacOS => Ok(QemuSource::System { label: owned("macOS"), hint: owned("  brew install qemu") }),
        HostOS::Linux => {
            let mut hint = owned("  Debian/Ubuntu:  sudo apt install qemu-system\n  ");
            hint.append("Fedora:         sudo dnf install qemu\n  ");
            hint.append("Arch:           sudo pacman -S qemu-full");
            Ok(QemuSource::System { label: owned("Linux"), hint })
        },
        HostOS::Other => Err(Error::UnsupportedOs { tool: "QEMU" }),
    }
}

/// The arguments of a silent NSIS install into `dest`: `/S`, then `/D=` and
/// the folder without trailing backslashes (NSIS wants it last and unquoted).
pub fn qemu_nsis_args(dest: &str) -> (r: Vec<String>)
    ensures
        r@.len() == 2,
        r@[0]@ == "/S"@,
        r@[1]@ == "/D="@ + trim_end_set(dest@, seq!['\\']),
{
    let d = chars_of(dest);
    let set: Vec<char> = vec!['\\'];
    let trimmed = crate::text::trim_end_set_exec(d.as_slice(), set.as_slice());
    let mut arg = owned("/D=");
    arg.append(string_of(trimmed.as_slice()).as_str());
    proof {
        assert(set@ =~= seq!['\\']);
    }
    vec![owned("/S"), arg]
}

/// `qemu-system-x86_64.exe` in the install folder.
pub open spec fn qemu_windows_binary(os: HostOS, dir: Seq<char>) -> Seq<char> {
    join(os, dir, "qemu-system-x86_64.exe"@)
}

pub struct QemuPlugin;

impl Plugin for QemuPlugin {
    open spec fn spec_id(&self) -> Seq<char> {
        "qemu"@
    }

    fn id(&self) -> (r: &'static str) {
        "qemu"
    }

    fn name(&self) -> (r: &'static str)
        ensures
            r@ == "QEMU"@,
    {
        "QEMU"
    }

    fn description(&self) -> (r: &'static str)
        ensures
            r@ == "Install QEMU: silent NSIS install (Windows) or register an already-installed system QEMU (macOS/Linux via Homebrew/apt/dnf/pacman)."@,
    {
        "Install QEMU: silent NSIS install (Windows) or register an already-installed system QEMU (macOS/Linux via Homebrew/apt/dnf/pacman)."
    }

    /// Installed when the Windows binary exists (on Windows) or the wrapper
    /// marker exists (elsewhere); partial when the folder has other contents.
    fn status(&self, ctx: &InstallContext, fs: &FsView) -> (r: PluginStatus)
        ensures
            r@ == ({
                let os = ctx.host.os;
                let dir = ctx.install_dir@;
                if os == HostOS::Windows && fs_is_file(fs@, qemu_windows_binary(os, dir)) {
                    (InstallState::Installed, Some(dir), qemu_windows_binary(os, dir))
                } else if os != HostOS::Windows && fs_is_file(fs@, join(os, dir, ".devkit-qemu"@)) {
                    (InstallState::Installed, Some(dir), "system qemu wrapper"@)
                } else if fs_has_contents(fs@, dir) {
                    (InstallState::Partial, Some(dir), "Install dir exists but qemu binary is missing"@)
                } else {
                    (InstallState::NotInstalled, Some(dir), Seq::<char>::empty())
                }
            }),
    {
        let os = ctx.host.os;
        let d = ctx.install_dir.as_str();
        if os == HostOS::Windows {
            let binary = path_join(os, d, "qemu-system-x86_64.exe");
            if fs.is_file(binary.as_str()) {
                return PluginStatus::new(InstallState::Installed, Some(owned(d))).with_detail(binary);
            }
        } else {
            let marker = path_join(os, d, ".devkit-qemu");
            if fs.is_file(marker.as_str()) {
                return PluginStatus::new(InstallState::Installed, Some(owned(d))).with_detail(
                    owned("system qemu wrapper"),
                );
            }
        }
        if fs.has_contents(d) {
            PluginStatus::new(InstallState::Partial, Some(owned(d))).with_detail(
                owned("Install dir exists but qemu binary is missing"),
            )
        } else {
            PluginStatus::new(InstallState::NotInstalled, Some(owned(d)))
        }
    }

    /// The install folder on PATH when the Windows binary exists there.
    fn env_spec(&self, ctx: &InstallContext, fs: &FsView) -> (r: EnvSpec)
        ensures
            r@ == (
                if ctx.host.os == HostOS::Windows && fs_is_file(fs@, qemu_windows_binary(ctx.host.os, ctx.install_dir@)) {
                    seq![ctx.install_dir@]
                } else {
                    Seq::<Seq<char>>::empty()
                },
                Seq::<(Seq<char>, Seq<char>)>::empty(),
            ),
    {
        let os = ctx.host.os;
        let mut paths: Vec<String> = Vec::new();
        if os == HostOS::Windows {
            let binary = path_join(os, ctx.install_dir.as_str(), "qemu-system-x86_64.exe");
            if fs.is_file(binary.as_str()) {
                paths.push(owned(ctx.install_dir.as_str()));
            }
        }
        let r = env_of(paths, Vec::new());
        assert(r@.0 =~= if os == HostOS::Windows && fs_is_file(fs@, qemu_windows_binary(os, ctx.install_dir@)) {
            seq![ctx.install_dir@]
        } else {
            Seq::<Seq<char>>::empty()
        });
        assert(r@.1 =~= Seq::<(Seq<char>, Seq<char>)>::empty());
        r
    }
}

} // verus!
