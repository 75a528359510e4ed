//! Mono runtime / MDK plugin.
use crate::error::Error;
use crate::paths::{fs_canonical, fs_has_contents, fs_is_dir, fs_is_file, join, parent, parent_of, path_join, FsView};
use crate::platform::HostOS;
use crate::plugin::{env_of, resolved_dir, EnvSpec, InstallContext, InstallState, Plugin, PluginStatus};
use crate::plugin_utils::{any_named, first_file_named, is_first_named, opt_strings_view, strs_view, system_wrappers,
    wrapper_plan};
use crate::text::owned;
use vstd::prelude::*;

verus! {

/// The shallowest file named `name` under `root`, if any.
pub open spec fn first_named(os: HostOS, fs: crate::paths::FsModel, root: Seq<char>, name: Seq<char>) -> Option<
    Seq<char>,
> {
    if any_named(os, fs, root, name) {
        Some(choose|p: Seq<char>| is_first_named(os, fs, root, name, p))
    } else {
        None
    }
}

/// The `Commands` folder of a Mono.framework unpacked under `root`.
pub open spec fn framework_commands(os: HostOS, root: Seq<char>) -> Seq<char> {
    join(
        os,
        join(os, join(os, join(os, root, "Library"@), "Frameworks"@), "Mono.framework"@),
        "Commands"@,
    )
}

/// The folder that holds the `mono` executable: the folder of the shallowest
/// `mono.exe`, else of the shallowest `mono`, else the framework's
/// `Commands` folder when it holds `mono`.
pub open spec fn mono_bin_dir(os: HostOS, fs: crate::paths::FsModel, root: Seq<char>) -> Option<Seq<char>> {
    match first_named(os, fs, root, "mono.exe"@) {
        Some(p) => parent(os, p),
        None => match first_named(os, fs, root, "mono"@) {
            Some(p) => parent(os, p),
            None => if fs_is_file(fs, join(os, framework_commands(os, root), "mono"@)) {
                Some(framework_commands(os, root))
            } else {
                None
            },
        },
    }
}

/// The shallowest file named `name` under `root`.
fn first_named_exec(os: HostOS, fs: &FsView, root: &str, name: &str) -> (r: Option<String>)
    ensures
        match r {
            Some(p) => first_named(os, fs@, root@, name@) == Some(p@),
            None => first_named(os, fs@, root@, name@) is None,
        },
{
    match first_file_named(os, fs, root, name) {
        Some(p) => {
            proof {
                crate::plugin_utils::lemma_first_named_unique(os, fs@, root@, name@, p@);
            }
            Some(p)
        },
        None => None,
    }
}

/// Locate a directory that contains the `mono` executable.
pub fn find_mono_bin_dir(os: HostOS, fs: &FsView, root: &str) -> (r: Option<String>)
    ensures
        match r {
            Some(d) => mono_bin_dir(os, fs@, root@) == Some(d@),
            None => mono_bin_dir(os, fs@, root@) is None,
        },
{
    match first_named_exec(os, fs, root, "mono.exe") {
        Some(p) => {
            return parent_of(os, p.as_str());
        },
        None => {},
    }
    match first_named_exec(os, fs, root, "mono") {
        Some(p) => {
            return parent_of(os, p.as_str());
        },
        None => {},
    }
    let lib = path_join(os, root, "Library");
    let fw = crate::paths::path_join2(os, lib.as_str(), "Frameworks", "Mono.framework");
    let commands = path_join(os, fw.as_str(), "Commands");
    let m = path_join(os, commands.as_str(), "mono");
    if fs.is_file(m.as_str()) {
        Some(commands)
    } else {
        None
    }
}

/// The Mono executable of the install: `mono.exe` (Windows) or `mono` in
/// the found folder, when it is a file.
pub open spec fn mono_binary_spec(os: HostOS, fs: crate::paths::FsModel, dir: Seq<char>) -> Option<Seq<char>> {
    match mono_bin_dir(os, fs, dir) {
        Some(b) => {
            let e = join(os, b, if os == HostOS::Windows { "mono.exe"@ } else { "mono"@ });
            if fs_is_file(fs, e) {
                Some(e)
            } else {
                None
            }
        },
        None => None,
    }
}

/// The Mono executable of the install, if there is one.
pub fn mono_binary(ctx: &InstallContext, fs: &FsView) -> (r: Option<String>)
    ensures
        match r {
            Some(p) => mono_binary_spec(ctx.host.os, fs@, ctx.install_dir@) == Some(p@),
            None => mono_binary_spec(ctx.host.os, fs@, ctx.install_dir@) is None,
        },
{
    let os = ctx.host.os;
    let dir = match find_mono_bin_dir(os, fs, ctx.install_dir.as_str()) {
        Some(d) => d,
        None => {
            return None;
        },
    };
    let e = path_join(os, dir.as_str(), if os == HostOS::Windows { "mono.exe" } else { "mono" });
    if fs.is_file(e.as_str()) {
        Some(e)
    } else {
        None
    }
}

/// The PATH entries: the found `mono` folder, then the wrapper `bin`
/// folder when it exists and is not already listed.
pub open spec fn mono_paths(os: HostOS, fs: crate::paths::FsModel, dir: Seq<char>) -> Seq<Seq<char>> {
    let first: Seq<Seq<char>> = match mono_bin_dir(os, fs, dir) {
        Some(b) => seq![b],
        None => Seq::empty(),
    };
    let w = join(os, dir, "bin"@);
    if fs_is_dir(fs, w) && !first.contains(w) {
        first.push(w)
    } else {
        first
    }
}

/// How Mono gets installed on one OS.
#[derive(Debug)]
pub enum MonoSource {
    /// Download the Windows MSI and unpack it with an administrative install.
    Msi { url: String, file_name: String },
    /// Download the macOS PKG and unpack its payloads.
    Pkg { url: String, file_name: String },
    /// Wrap the system Mono found on PATH.
    System,
}

/// The install source for `os`: the pinned 6.12.0.206 MSI on Windows, the
/// pinned PKG on macOS, the system Mono on Linux; no other OS is supported.
pub fn mono_source(os: HostOS) -> (r: Result<MonoSource, Error>)
    ensures
        os == HostOS::Windows ==> (r matches Ok(MonoSource::Msi { url, file_name }) && url@
            == "https://download.mono-project.com/archive/6.12.0/windows-installer/mono-"@ + "6.12.0.206"@
            + "-x64-0.msi"@ && file_name@ == "mono-"@ + "6.12.0.206"@ + "-x64.msi"@),
        os == HostOS::MacOS ==> (r matches Ok(MonoSource::Pkg { url, file_name }) && url@
            == "https://download.mono-project.com/archive/6.12.0/macos-10-universal/MonoFramework-MDK-"@
            + "6.12.0.206"@ + ".macos10.xamarin.universal.pkg"@ && file_name@ == "MonoFramework-MDK-"@
            + "6.12.0.206"@ + ".pkg"@),
        os == HostOS::Linux ==> r matches Ok(MonoSource::System),
        os == HostOS::Other ==> r matches Err(Error::UnsupportedOs { .. }),
{
    match os {
        HostOS::Windows => {
            let mut url = owned("https://download.mono-project.com/archive/6.12.0/windows-installer/mono-");
            url.append("6.12.0.206");
            url.append("-x64-0.msi");
            let mut file_name = owned("mono-");
            file_name.append("6.12.0.206");
            file_name.append("-x64.msi");
            Ok(MonoSource::Msi { url, file_name })
        },
        HostOS::MacOS => {
            let mut url = owned("https://download.mono-project.com/archive/6.12.0/macos-10-universal/MonoFramework-MDK-");
            url.append("6.12.0.206");
            url.append(".macos10.xamarin.universal.pkg");
            let mut file_name = owned("MonoFramework-MDK-");
            file_name.append("6.12.0.206");
            file_name.append(".pkg");
            Ok(MonoSource::Pkg { url, file_name })
        },
        HostOS::Linux => Ok(MonoSource::System),
        HostOS::Other => Err(Error::UnsupportedOs { tool: "Mono" }),
    }
}

/// The tools that get a launcher when found on PATH.
pub open spec fn mono_tools() -> Seq<Seq<char>> {
    seq!["mono"@, "mcs"@, "csharp"@]
}

/// The launchers (file name, script) for the system Mono: each tool found on
/// PATH (`found` in the order of `mono_tools`), and `mono` at `system_mono`
/// when it was not.
pub fn mono_wrappers(found: &Vec<Option<String>>, system_mono: &str) -> (r: Vec<(String, String)>)
    requires
        found@.len() == 3,
    ensures
        r@.map_values(|e: (String, String)| (e.0@, e.1@)) == wrapper_plan(
            mono_tools(),
            opt_strings_view(found@),
            "mono"@,
            system_mono@,
        ),
{
    let names: Vec<&str> = vec!["mono", "mcs", "csharp"];
    assert(strs_view(names@) =~= mono_tools());
    system_wrappers(names.as_slice(), found, "mono", system_mono)
}

pub struct MonoPlugin;

impl Plugin for MonoPlugin {
    open spec fn spec_id(&self) -> Seq<char> {
        "mono"@
    }

    fn id(&self) -> (r: &'static str) {
        "mono"
    }

    fn name(&self) -> (r: &'static str)
        ensures
            r@ == "Mono"@,
    {
        "Mono"
    }

    fn description(&self) -> (r: &'static str)
        ensures
            r@ == "Install Mono 6.12.0.206 (Windows MSI / macOS PKG). On Linux, registers system Mono if already installed via apt/dnf."@,
    {
        "Install Mono 6.12.0.206 (Windows MSI / macOS PKG). On Linux, registers system Mono if already installed via apt/dnf."
    }

    /// Installed when the Mono executable or the wrapper marker exists;
    /// partial when the folder has other contents.
    fn status(&self, ctx: &InstallContext, fs: &FsView) -> (r: PluginStatus)
        ensures
            r@ == match mono_binary_spec(ctx.host.os, fs@, ctx.install_dir@) {
                Some(b) => (InstallState::Installed, Some(ctx.install_dir@), b),
                None => if fs_is_file(fs@, join(ctx.host.os, ctx.install_dir@, ".devkit-mono"@)) {
                    (InstallState::Installed, Some(ctx.install_dir@), "system mono wrappers"@)
                } else if fs_has_contents(fs@, ctx.install_dir@) {
                    (InstallState::Partial, Some(ctx.install_dir@), "Install dir exists but mono binary is missing"@)
                } else {
                    (InstallState::NotInstalled, Some(ctx.install_dir@), Seq::<char>::empty())
                },
            },
    {
        let d = ctx.install_dir.as_str();
        match mono_binary(ctx, fs) {
            Some(b) => PluginStatus::new(InstallState::Installed, Some(owned(d))).with_detail(b),
            None => {
                let marker = path_join(ctx.host.os, d, ".devkit-mono");
                if fs.is_file(marker.as_str()) {
                    PluginStatus::new(InstallState::Installed, Some(owned(d))).with_detail(
                        owned("system mono wrappers"),
                    )
                } else if fs.has_contents(d) {
                    PluginStatus::new(InstallState::Partial, Some(owned(d))).with_detail(
                        owned("Install dir exists but mono binary is missing"),
                    )
                } else {
                    PluginStatus::new(InstallState::NotInstalled, Some(owned(d)))
                }
            },
        }
    }

    /// The Mono folder and the wrapper `bin` folder on PATH.
    fn env_spec(&self, ctx: &InstallContext, fs: &FsView) -> (r: EnvSpec)
        ensures
            r@ == (
                mono_paths(ctx.host.os, fs@, ctx.install_dir@),
                Seq::<(Seq<char>, Seq<char>)>::empty(),
            ),
    {
        let os = ctx.host.os;
        let mut paths: Vec<String> = Vec::new();
        match find_mono_bin_dir(os, fs, ctx.install_dir.as_str()) {
            Some(b) => paths.push(b),
            None => {},
        }
        let ghost first = paths@.map_values(|s: String| s@);
        assert(first =~= match mono_bin_dir(os, fs@, ctx.install_dir@) {
            Some(b) => seq![b],
            None => Seq::<Seq<char>>::empty(),
        });
        let w = path_join(os, ctx.install_dir.as_str(), "bin");
        if fs.is_dir(w.as_str()) {
            let listed = paths.len() == 1 && crate::text::eq(
                crate::text::chars_of(paths[0].as_str()).as_slice(),
                crate::text::chars_of(w.as_str()).as_slice(),
            );
            proof {
                assert(first.contains(w@) <==> (paths@.len() == 1 && paths@[0]@ == w@)) by {
                    if first.contains(w@) {
                        let k = choose|k: int| 0 <= k < first.len() && first[k] == w@;
                        assert(k == 0);
                    }
                    if paths@.len() == 1 && paths@[0]@ == w@ {
                        assert(first[0] == w@);
                    }
                }
            }
            if !listed {
                paths.push(w);
            }
        }
        let r = env_of(paths, Vec::new());
        assert(r@.0 =~= mono_paths(os, fs@, ctx.install_dir@));
        assert(r@.1 =~= Seq::<(Seq<char>, Seq<char>)>::empty());
        r
    }
}

} // verus!
