//! Android SDK command-line tools plugin (helper for Flutter / Android builds).
//!
//! Downloads Google's cmdline-tools ZIP into the machine `dev` folder, lays out
//! `cmdline-tools/latest/` as required by `sdkmanager`, and sets
//! puts its tools on PATH. Does not accept licenses or install
//! platform-tools — run `sdkmanager` yourself after install.
use crate::error::Error;
use crate::paths::{file_name, file_name_of, fs_canonical, fs_has_contents, fs_is_dir, fs_is_file, join, parent,
    parent_of, path_join, path_join3, strings_view, FsView};
use crate::platform::{Host, HostOS};
use crate::plugin::{env_of, resolved_dir, EnvSpec, InstallContext, InstallState, Plugin, PluginStatus};
use crate::text::{chars_of, eq_str, owned};
use vstd::prelude::*;

verus! {

/// The cmdline-tools build pinned for every platform but Intel macOS.
pub open spec fn cmdline_tools_build() -> Seq<char> {
    "16111833"@
}

/// The last build Google published with an Intel macOS ZIP.
pub open spec fn cmdline_tools_build_mac_intel() -> Seq<char> {
    "15641748"@
}

/// The Android repository that hosts the ZIPs.
pub open spec fn android_repo() -> Seq<char> {
    "https://dl.google.com/android/repository"@
}

/// The platform slug and build of the ZIP for this machine.
pub open spec fn cmdline_tools_choice(host: Host) -> Option<(Seq<char>, Seq<char>)> {
    match host.os {
        HostOS::Windows => Some(("win"@, cmdline_tools_build())),
        HostOS::MacOS => if host.arch@ == "aarch64"@ {
            Some(("mac_arm64"@, cmdline_tools_build()))
        } else {
            Some(("mac"@, cmdline_tools_build_mac_intel()))
        },
        HostOS::Linux => Some(("linux"@, cmdline_tools_build())),
        HostOS::Other => None,
    }
}

/// Return `(download_url, build_id)` for this OS/arch.
pub fn resolve_cmdline_tools_url(host: &Host) -> (r: Result<(String, String), Error>)
    ensures
        match cmdline_tools_choice(*host) {
            Some((slug, build)) => r matches Ok((url, b)) && b@ == build && url@ == android_repo() + "/"@
                + "commandlinetools-"@ + slug + "-"@ + build + "_latest.zip"@,
            None => r matches Err(Error::UnsupportedOs { .. }),
        },
{
    let (slug, build) = match host.os {
        HostOS::Windows => ("win", "16111833"),
        HostOS::MacOS => if eq_str(chars_of(host.arch.as_str()).as_slice(), "aarch64") {
            ("mac_arm64", "16111833")
        } else {
            ("mac", "15641748")
        },
        HostOS::Linux => ("linux", "16111833"),
        HostOS::Other => {
            return Err(Error::UnsupportedOs { tool: "Android cmdline-tools" });
        },
    };
    let mut url = owned("https://dl.google.com/android/repository");
    url.append("/");
    url.append("commandlinetools-");
    url.append(slug);
    url.append("-");
    url.append(build);
    url.append("_latest.zip");
    Ok((url, owned(build)))
}

/// `sdkmanager` (`sdkmanager.bat` on Windows) under `cmdline-tools/latest/bin`.
pub open spec fn sdkmanager(os: HostOS, dir: Seq<char>) -> Seq<char> {
    join(
        os,
        join(os, join(os, join(os, dir, "cmdline-tools"@), "latest"@), "bin"@),
        if os == HostOS::Windows { "sdkmanager.bat"@ } else { "sdkmanager"@ },
    )
}

/// The path of `sdkmanager` in the install.
pub fn sdkmanager_path(ctx: &InstallContext) -> (r: String)
    ensures
        r@ == sdkmanager(ctx.host.os, ctx.install_dir@),
{
    let os = ctx.host.os;
    let base = path_join3(os, ctx.install_dir.as_str(), "cmdline-tools", "latest", "bin");
    path_join(os, base.as_str(), if os == HostOS::Windows { "sdkmanager.bat" } else { "sdkmanager" })
}

/// The moves that nest the entries directly under `extracted` (other than
/// `latest`) into `latest`, in the order of `entries`.
pub open spec fn child_moves(os: HostOS, entries: Seq<Seq<char>>, extracted: Seq<char>, latest: Seq<char>) -> Seq<
    (Seq<char>, Seq<char>),
>
    decreases entries.len(),
{
    if entries.len() == 0 {
        Seq::empty()
    } else {
        let rest = child_moves(os, entries.drop_last(), extracted, latest);
        let e = entries.last();
        if parent(os, e) == Some(extracted) && file_name(os, e) != "latest"@ {
            rest.push((e, join(os, latest, file_name(os, e))))
        } else {
            rest
        }
    }
}

/// What nesting the extracted `cmdline-tools` under `latest` does: remove
/// the old `latest` when it exists, create it, then rename each entry.
#[derive(Debug)]
pub struct CmdlineLayout {
    pub latest: String,
    pub remove_latest: bool,
    pub moves: Vec<(String, String)>,
}

/// Plan moving the extracted `cmdline-tools/` contents under
/// `cmdline-tools/latest/`: nothing when `sdkmanager` is already in place, an
/// error when there is no `cmdline-tools` folder, else the layout (the
/// entries are those of the snapshot, files first).
pub fn layout_cmdline_tools(ctx: &InstallContext, fs: &FsView) -> (r: Result<Option<CmdlineLayout>, Error>)
    ensures
        ({
            let os = ctx.host.os;
            let extracted = join(os, ctx.install_dir@, "cmdline-tools"@);
            let latest = join(os, extracted, "latest"@);
            if fs_is_file(fs@, sdkmanager(os, ctx.install_dir@)) {
                r matches Ok(None)
            } else if !fs_is_dir(fs@, extracted) {
                r matches Err(Error::Missing { .. })
            } else {
                r matches Ok(Some(l)) && l.latest@ == latest && l.remove_latest == (fs_is_file(fs@, latest)
                    || fs_is_dir(fs@, latest)) && l.moves@.map_values(|m: (String, String)| (m.0@, m.1@))
                    == child_moves(os, fs@.files + fs@.dirs, extracted, latest)
            }
        }),
{
    let os = ctx.host.os;
    let sdk = sdkmanager_path(ctx);
    if fs.is_file(sdk.as_str()) {
        return Ok(None);
    }
    let extracted = path_join(os, ctx.install_dir.as_str(), "cmdline-tools");
    if !fs.is_dir(extracted.as_str()) {
        let mut what = owned("cmdline-tools folder under ");
        what.append(ctx.install_dir.as_str());
        return Err(Error::Missing { what });
    }
    let latest = path_join(os, extracted.as_str(), "latest");
    let remove_latest = fs.is_file(latest.as_str()) || fs.is_dir(latest.as_str());
    let mut entries: Vec<String> = Vec::new();
    let mut k: usize = 0;
    while k < fs.files.len()
        invariant
            k <= fs.files@.len(),
            strings_view(entries@) == strings_view(fs.files@).take(k as int),
        decreases fs.files.len() - k,
    {
        entries.push(owned(fs.files[k].as_str()));
        assert(strings_view(fs.files@).take(k + 1) =~= strings_view(fs.files@).take(k as int).push(fs.files@[k as int]@));
        k = k + 1;
    }
    let mut k: usize = 0;
    while k < fs.dirs.len()
        invariant
            k <= fs.dirs@.len(),
            strings_view(entries@) == strings_view(fs.files@) + strings_view(fs.dirs@).take(k as int),
        decreases fs.dirs.len() - k,
    {
        let ghost before = strings_view(entries@);
        entries.push(owned(fs.dirs[k].as_str()));
        assert(strings_view(entries@) =~= before.push(fs.dirs@[k as int]@));
        assert(strings_view(fs.dirs@).take(k + 1) =~= strings_view(fs.dirs@).take(k as int).push(fs.dirs@[k as int]@));
        k = k + 1;
    }
    let ghost ev = strings_view(entries@);
    assert(ev =~= fs@.files + fs@.dirs);
    let mut moves: Vec<(String, String)> = Vec::new();
    let mut i: usize = 0;
    while i < entries.len()
        invariant
            i <= entries@.len(),
            ev == strings_view(entries@),
            moves@.map_values(|m: (String, String)| (m.0@, m.1@)) == child_moves(os, ev.take(i as int), extracted@, latest@),
        decreases entries.len() - i,
    {
        let ghost before = moves@.map_values(|m: (String, String)| (m.0@, m.1@));
        let e = entries[i].as_str();
        assert(ev.take(i + 1).drop_last() =~= ev.take(i as int));
        assert(ev.take(i + 1).last() == e@);
        let under = match parent_of(os, e) {
            Some(p) => crate::text::eq(chars_of(p.as_str()).as_slice(), chars_of(extracted.as_str()).as_slice()),
            None => false,
        };
        let name = file_name_of(os, e);
        if under && !eq_str(chars_of(name.as_str()).as_slice(), "latest") {
            let to = path_join(os, latest.as_str(), name.as_str());
            moves.push((owned(e), to));
            assert(moves@.map_values(|m: (String, String)| (m.0@, m.1@)) =~= before.push((e@, join(os, latest@, file_name(os, e@)))));
        }
        i = i + 1;
    }
    assert(ev.take(i as int) =~= ev);
    Ok(Some(CmdlineLayout { latest, remove_latest, moves }))
}

pub struct AndroidPlugin;

impl Plugin for AndroidPlugin {
    open spec fn spec_id(&self) -> Seq<char> {
        "android"@
    }

    fn id(&self) -> (r: &'static str) {
        "android"
    }

    fn name(&self) -> (r: &'static str)
        ensures
            r@ == "Android SDK"@,
    {
        "Android SDK"
    }

    fn description(&self) -> (r: &'static str)
        ensures
            r@ == "Download Android SDK cmdline-tools and add them to PATH."@,
    {
        "Download Android SDK cmdline-tools and add them to PATH."
    }

    /// Installed when `sdkmanager` exists; partial when the folder has other
    /// contents.
    fn status(&self, ctx: &InstallContext, fs: &FsView) -> (r: PluginStatus)
        ensures
            r@ == ({
                let dir = ctx.install_dir@;
                let b = sdkmanager(ctx.host.os, dir);
                if fs_is_file(fs@, b) {
                    (InstallState::Installed, Some(dir), b)
                } else if fs_has_contents(fs@, dir) {
                    (InstallState::Partial, Some(dir), "Install dir exists but sdkmanager is missing"@)
                } else {
                    (InstallState::NotInstalled, Some(dir), Seq::<char>::empty())
                }
            }),
    {
        let d = ctx.install_dir.as_str();
        let b = sdkmanager_path(ctx);
        if fs.is_file(b.as_str()) {
            PluginStatus::new(InstallState::Installed, Some(owned(d))).with_detail(b)
        } else if fs.has_contents(d) {
            PluginStatus::new(InstallState::Partial, Some(owned(d))).with_detail(
                owned("Install dir exists but sdkmanager is missing"),
            )
        } else {
            PluginStatus::new(InstallState::NotInstalled, Some(owned(d)))
        }
    }

    /// `cmdline-tools/latest/bin` and `platform-tools` on PATH.
    fn env_spec(&self, ctx: &InstallContext, fs: &FsView) -> (r: EnvSpec)
        ensures
            r@ == (
                seq![
                    join(ctx.host.os, join(ctx.host.os, join(ctx.host.os, ctx.install_dir@, "cmdline-tools"@), "latest"@), "bin"@),
                    join(ctx.host.os, ctx.install_dir@, "platform-tools"@),
                ],
                Seq::<(Seq<char>, Seq<char>)>::empty(),
            ),
    {
        let os = ctx.host.os;
        let a = path_join3(os, ctx.install_dir.as_str(), "cmdline-tools", "latest", "bin");
        let b = path_join(os, ctx.install_dir.as_str(), "platform-tools");
        let r = env_of(vec![a, b], Vec::new());
        assert(r@.0 =~= seq![
            join(os, join(os, join(os, ctx.install_dir@, "cmdline-tools"@), "latest"@), "bin"@),
            join(os, ctx.install_dir@, "platform-tools"@),
        ]);
        assert(r@.1 =~= Seq::<(Seq<char>, Seq<char>)>::empty());
        r
    }
}

} // verus!
