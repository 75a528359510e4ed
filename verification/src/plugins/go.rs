//! Go plugin — latest stable toolchain from go.dev.
use crate::error::Error;
use crate::json::{array_field, array_of, bool_field, field, or_default, str_field, Json};
use crate::paths::{fs_canonical, join, path_join2, FsView};
use crate::platform::{Host, HostOS};
use crate::plugin::{env_of, exe, exe_name, resolved_dir, EnvSpec, InstallContext, Plugin,
    PluginStatus};
use crate::plugin_utils::{binary_status, binary_status_spec};
use crate::text::{chars_of, eq_str, owned};
use vstd::prelude::*;

verus! {

/// Go's name for an OS family.
pub open spec fn goos(os: HostOS) -> Option<Seq<char>> {
    match os {
        HostOS::Windows => Some("windows"@),
        HostOS::MacOS => Some("darwin"@),
        HostOS::Linux => Some("linux"@),
        HostOS::Other => None,
    }
}

/// Go's name for a CPU label.
pub open spec fn goarch(arch: Seq<char>) -> Option<Seq<char>> {
    if arch == "aarch64"@ {
        Some("arm64"@)
    } else if arch == "x64"@ {
        Some("amd64"@)
    } else {
        None
    }
}

/// Go's `GOOS`/`GOARCH` pair for this machine.
pub fn go_os_arch(host: &Host) -> (r: Result<(&'static str, &'static str), Error>)
    ensures
        match (goos(host.os), goarch(host.arch@)) {
            (Some(o), Some(a)) => r matches Ok((ro, ra)) && ro@ == o && ra@ == a,
            (None, _) => r matches Err(Error::UnsupportedOs { .. }),
            (Some(_), None) => r matches Err(Error::UnsupportedArch { arch, .. }) && arch@ == host.arch@,
        },
{
    let os = match host.os {
        HostOS::Windows => "windows",
        HostOS::MacOS => "darwin",
        HostOS::Linux => "linux",
        HostOS::Other => {
            return Err(Error::UnsupportedOs { tool: "Go" });
        },
    };
    let a = chars_of(host.arch.as_str());
    if eq_str(a.as_slice(), "aarch64") {
        Ok((os, "arm64"))
    } else if eq_str(a.as_slice(), "x64") {
        Ok((os, "amd64"))
    } else {
        Err(Error::UnsupportedArch { tool: "Go", arch: owned(host.arch.as_str()) })
    }
}

/// A download file entry that is the archive for `os`/`arch`.
pub open spec fn is_go_archive(f: Json, os: Seq<char>, arch: Seq<char>) -> bool {
    &&& str_field(f, "kind"@) == Some("archive"@)
    &&& or_default(str_field(f, "os"@), ""@) == os
    &&& or_default(str_field(f, "arch"@), ""@) == arch
}

/// The first matching archive among `files` from index `j` on.
pub open spec fn first_go_archive(files: Seq<Json>, os: Seq<char>, arch: Seq<char>, j: int) -> Option<Json>
    decreases files.len() - j,
{
    if j < 0 || j >= files.len() {
        None
    } else if is_go_archive(files[j], os, arch) {
        Some(files[j])
    } else {
        first_go_archive(files, os, arch, j + 1)
    }
}

/// The archive a release entry offers, when the entry is a stable release.
pub open spec fn go_entry_pick(e: Json, os: Seq<char>, arch: Seq<char>) -> Option<Json> {
    if e is Object && bool_field(e, "stable"@) == Some(true) {
        match array_field(e, "files"@) {
            Some(files) => first_go_archive(files, os, arch, 0),
            None => None,
        }
    } else {
        None
    }
}

/// The first stable release from index `i` on with a matching archive:
/// `(https://go.dev/dl/<filename>, version)`.
pub open spec fn go_pick(entries: Seq<Json>, os: Seq<char>, arch: Seq<char>, i: int) -> Option<
    (Seq<char>, Seq<char>),
>
    decreases entries.len() - i,
{
    if i < 0 || i >= entries.len() {
        None
    } else {
        match go_entry_pick(entries[i], os, arch) {
            Some(f) => Some(
                (
                    "https://go.dev/dl/"@ + or_default(str_field(f, "filename"@), ""@),
                    or_default(str_field(entries[i], "version"@), ""@),
                ),
            ),
            None => go_pick(entries, os, arch, i + 1),
        }
    }
}

/// Where the search among `files` from index `j` finds a file, it is the file at
/// some index `k >= j` that is a matching archive, and none between is one; where
/// it finds none, no file from `j` on is one.
proof fn lemma_first_go_archive(files: Seq<Json>, os: Seq<char>, arch: Seq<char>, j: int)
    requires
        0 <= j,
    ensures
        match first_go_archive(files, os, arch, j) {
            Some(f) => exists|k: int| #![trigger files[k]]
                j <= k < files.len() && files[k] == f && is_go_archive(f, os, arch)
                && forall|m: int| j <= m < k ==> !is_go_archive(#[trigger] files[m], os, arch),
            None => forall|m: int| j <= m < files.len() ==> !is_go_archive(#[trigger] files[m], os, arch),
        },
    decreases files.len() - j,
{
    if j < files.len() && !is_go_archive(files[j], os, arch) {
        lemma_first_go_archive(files, os, arch, j + 1);
        match first_go_archive(files, os, arch, j + 1) {
            Some(f) => {
                let k = choose|k: int| #![trigger files[k]]
                    j + 1 <= k < files.len() && files[k] == f && is_go_archive(f, os, arch)
                    && forall|m: int| j + 1 <= m < k ==> !is_go_archive(#[trigger] files[m], os, arch);
                assert(forall|m: int| j <= m < k ==> !is_go_archive(#[trigger] files[m], os, arch));
            },
            None => {},
        }
    } else if j < files.len() {
        assert(files[j] == files[j]);
    }
}

/// Where the search among `entries` from index `i` picks a download, it comes
/// from the entry at some index `k >= i` that offers an archive, and no entry
/// between offers one; where it picks none, no entry from `i` on offers one.
proof fn lemma_go_pick(entries: Seq<Json>, os: Seq<char>, arch: Seq<char>, i: int)
    requires
        0 <= i,
    ensures
        match go_pick(entries, os, arch, i) {
            Some(p) => exists|k: int, f: Json| #![trigger entries[k], str_field(f, "filename"@)]
                i <= k < entries.len() && go_entry_pick(entries[k], os, arch) == Some(f)
                && p.0 == "https://go.dev/dl/"@ + or_default(str_field(f, "filename"@), ""@)
                && p.1 == or_default(str_field(entries[k], "version"@), ""@)
                && forall|m: int| i <= m < k ==> go_entry_pick(#[trigger] entries[m], os, arch) is None,
            None => forall|m: int| i <= m < entries.len() ==> go_entry_pick(#[trigger] entries[m], os, arch) is None,
        },
    decreases entries.len() - i,
{
    if i < entries.len() && go_entry_pick(entries[i], os, arch) is None {
        lemma_go_pick(entries, os, arch, i + 1);
        match go_pick(entries, os, arch, i + 1) {
            Some(p) => {
                let (k, f) = choose|k: int, f: Json| #![trigger entries[k], str_field(f, "filename"@)]
                    i + 1 <= k < entries.len() && go_entry_pick(entries[k], os, arch) == Some(f)
                    && p.0 == "https://go.dev/dl/"@ + or_default(str_field(f, "filename"@), ""@)
                    && p.1 == or_default(str_field(entries[k], "version"@), ""@)
                    && forall|m: int| i + 1 <= m < k ==> go_entry_pick(#[trigger] entries[m], os, arch) is None;
                assert(forall|m: int| i <= m < k ==> go_entry_pick(#[trigger] entries[m], os, arch) is None);
                assert(go_entry_pick(entries[k], os, arch) == Some(f));
            },
            None => {},
        }
    } else if i < entries.len() {
        assert(entries[i] == entries[i]);
    }
}

/// A release entry that is stable and lists, under `files`, a file whose `kind`
/// is `"archive"` and whose `os` and `arch` are `os` and `arch`.
pub open spec fn offers_go_archive(e: Json, os: Seq<char>, arch: Seq<char>) -> bool {
    &&& e is Object
    &&& bool_field(e, "stable"@) == Some(true)
    &&& exists|files: Seq<Json>, k: int|
        array_field(e, "files"@) == Some(files) && 0 <= k < files.len()
        && str_field(#[trigger] files[k], "kind"@) == Some("archive"@)
        && or_default(str_field(files[k], "os"@), ""@) == os
        && or_default(str_field(files[k], "arch"@), ""@) == arch
}

/// Only archives are downloaded, from the newest stable release that offers
/// one: the Go download URL is `https://go.dev/dl/` followed by the file name of
/// the first file, listed under a stable release, whose `kind` is `"archive"` and
/// whose `os` and `arch` are the host's Go names (an installer or a source
/// tarball never is), the version is that release's, and no release listed
/// before it offers such a file. Where none does, nothing is picked.
pub proof fn law_go_picks_archive(entries: Seq<Json>, os: Seq<char>, arch: Seq<char>)
    ensures
        match go_pick(entries, os, arch, 0) {
            Some((url, v)) => exists|i: int, files: Seq<Json>, k: int|
                0 <= i < entries.len() && (#[trigger] entries[i]) is Object
                && bool_field(entries[i], "stable"@) == Some(true)
                && array_field(entries[i], "files"@) == Some(files)
                && 0 <= k < files.len()
                && str_field(#[trigger] files[k], "kind"@) == Some("archive"@)
                && or_default(str_field(files[k], "os"@), ""@) == os
                && or_default(str_field(files[k], "arch"@), ""@) == arch
                && url == "https://go.dev/dl/"@ + or_default(str_field(files[k], "filename"@), ""@)
                && v == or_default(str_field(entries[i], "version"@), ""@)
                && (forall|m: int| 0 <= m < k ==> !(str_field(#[trigger] files[m], "kind"@) == Some("archive"@)
                    && or_default(str_field(files[m], "os"@), ""@) == os
                    && or_default(str_field(files[m], "arch"@), ""@) == arch))
                && forall|n: int| 0 <= n < i ==> !offers_go_archive(#[trigger] entries[n], os, arch),
            None => forall|n: int| 0 <= n < entries.len() ==> !offers_go_archive(#[trigger] entries[n], os, arch),
        },
{
    lemma_go_pick(entries, os, arch, 0);
    assert forall|n: int| 0 <= n < entries.len() && go_entry_pick(#[trigger] entries[n], os, arch) is None
        implies !offers_go_archive(entries[n], os, arch) by {
        if offers_go_archive(entries[n], os, arch) {
            let (files, k) = choose|files: Seq<Json>, k: int|
                array_field(entries[n], "files"@) == Some(files) && 0 <= k < files.len()
                && str_field(#[trigger] files[k], "kind"@) == Some("archive"@)
                && or_default(str_field(files[k], "os"@), ""@) == os
                && or_default(str_field(files[k], "arch"@), ""@) == arch;
            lemma_first_go_archive(files, os, arch, 0);
            assert(is_go_archive(files[k], os, arch));
        }
    }
    match go_pick(entries, os, arch, 0) {
        Some((url, v)) => {
            let (k, f) = choose|k: int, f: Json| #![trigger entries[k], str_field(f, "filename"@)]
                0 <= k < entries.len() && go_entry_pick(entries[k], os, arch) == Some(f)
                && url == "https://go.dev/dl/"@ + or_default(str_field(f, "filename"@), ""@)
                && v == or_default(str_field(entries[k], "version"@), ""@)
                && forall|m: int| 0 <= m < k ==> go_entry_pick(#[trigger] entries[m], os, arch) is None;
            let files = array_field(entries[k], "files"@).unwrap();
            lemma_first_go_archive(files, os, arch, 0);
            let m = choose|m: int| #![trigger files[m]]
                0 <= m < files.len() && files[m] == f && is_go_archive(f, os, arch)
                && forall|n: int| 0 <= n < m ==> !is_go_archive(#[trigger] files[n], os, arch);
            assert(entries[k] is Object && bool_field(entries[k], "stable"@) == Some(true)
                && array_field(entries[k], "files"@) == Some(files)
                && str_field(files[m], "kind"@) == Some("archive"@));
            assert forall|q: int| 0 <= q < m implies !(str_field(#[trigger] files[q], "kind"@) == Some("archive"@)
                && or_default(str_field(files[q], "os"@), ""@) == os
                && or_default(str_field(files[q], "arch"@), ""@) == arch) by {
                assert(!is_go_archive(files[q], os, arch));
            }
        },
        None => {},
    }
}

fn first_go_archive_exec<'a>(files: &'a Vec<Json>, os: &str, arch: &str) -> (r: Option<&'a Json>)
    ensures
        match r {
            Some(f) => first_go_archive(files@, os@, arch@, 0) == Some(*f),
            None => first_go_archive(files@, os@, arch@, 0) is None,
        },
{
    let mut j: usize = 0;
    while j < files.len()
        invariant
            j <= files@.len(),
            first_go_archive(files@, os@, arch@, 0) == first_go_archive(files@, os@, arch@, j as int),
        decreases files.len() - j,
    {
        let f = &files[j];
        let kind_ok = match f.str_field("kind") {
            Some(k) => eq_str(chars_of(k).as_slice(), "archive"),
            None => false,
        };
        let f_os = match f.str_field("os") {
            Some(s) => chars_of(s),
            None => chars_of(""),
        };
        let f_arch = match f.str_field("arch") {
            Some(s) => chars_of(s),
            None => chars_of(""),
        };
        if kind_ok && eq_str(f_os.as_slice(), os) && eq_str(f_arch.as_slice(), arch) {
            assert(is_go_archive(files@[j as int], os@, arch@));
            return Some(f);
        }
        j = j + 1;
    }
    None
}

/// Return `(download_url, version)` for the latest stable Go archive, from
/// the go.dev download index (`https://go.dev/dl/?mode=json`).
pub fn resolve_go_download(data: &Json, host: &Host) -> (r: Result<(String, String), Error>)
    ensures
        match array_of(*data) {
            None => r matches Err(Error::UnexpectedMetadata { .. }),
            Some(entries) => match (goos(host.os), goarch(host.arch@)) {
                (Some(o), Some(a)) => match go_pick(entries, o, a, 0) {
                    Some((url, version)) => r matches Ok((u, v)) && u@ == url && v@ == version,
                    None => r matches Err(Error::NoRelease { .. }),
                },
                (None, _) => r matches Err(Error::UnsupportedOs { .. }),
                (Some(_), None) => r matches Err(Error::UnsupportedArch { .. }),
            },
        },
{
    let entries = match data.as_array() {
        Some(e) => e,
        None => {
            return Err(Error::UnexpectedMetadata { tool: "Go" });
        },
    };
    let (os, arch) = match go_os_arch(host) {
        Ok(p) => p,
        Err(e) => {
            return Err(e);
        },
    };
    let mut i: usize = 0;
    while i < entries.len()
        invariant
            i <= entries@.len(),
            array_of(*data) == Some(entries@),
            goos(host.os) == Some(os@),
            goarch(host.arch@) == Some(arch@),
            go_pick(entries@, os@, arch@, 0) == go_pick(entries@, os@, arch@, i as int),
        decreases entries.len() - i,
    {
        let e = &entries[i];
        if e.is_object() && e.bool_field("stable") == Some(true) {
            match e.array_field("files") {
                Some(files) => {
                    match first_go_archive_exec(files, os, arch) {
                        Some(f) => {
                            let name = match f.str_field("filename") {
                                Some(n) => owned(n),
                                None => owned(""),
                            };
                            let version = match e.str_field("version") {
                                Some(v) => owned(v),
                                None => owned(""),
                            };
                            let mut url = owned("https://go.dev/dl/");
                            url.append(name.as_str());
                            assert(*e == entries@[i as int]);
                            assert(go_entry_pick(entries@[i as int], os@, arch@) == Some(*f));
                            return Ok((url, version));
                        },
                        None => {},
                    }
                },
                None => {},
            }
        }
        i = i + 1;
    }
    Err(Error::NoRelease { tool: "Go", detail: owned(os) })
}

/// `bin/go` (`bin/go.exe` on Windows) under the install folder.
pub open spec fn go_bin(os: HostOS, dir: Seq<char>) -> Seq<char> {
    join(os, join(os, dir, "bin"@), exe(os, "go"@))
}

pub struct GoPlugin;

impl Plugin for GoPlugin {
    open spec fn spec_id(&self) -> Seq<char> {
        "go"@
    }

    fn id(&self) -> (r: &'static str) {
        "go"
    }

    fn name(&self) -> (r: &'static str)
        ensures
            r@ == "Go"@,
    {
        "Go"
    }

    fn description(&self) -> (r: &'static str)
        ensures
            r@ == "Download latest stable Go toolchain and add it to PATH."@,
    {
        "Download latest stable Go toolchain and add it to PATH."
    }

    fn status(&self, ctx: &InstallContext, fs: &FsView) -> (r: PluginStatus)
        ensures
            r@ == binary_status_spec(
                fs@,
                go_bin(ctx.host.os, ctx.install_dir@),
                ctx.install_dir@,
                "Install dir exists but go binary is missing"@,
            ),
    {
        let bin = path_join2(
            ctx.host.os,
            ctx.install_dir.as_str(),
            "bin",
            exe_name(ctx.host.os, "go").as_str(),
        );
        binary_status(fs, bin.as_str(), ctx.install_dir.as_str(), "Install dir exists but go binary is missing")
    }

    /// `bin` on PATH.
    fn env_spec(&self, ctx: &InstallContext, fs: &FsView) -> (r: EnvSpec)
        ensures
            r@ == (
                seq![join(ctx.host.os, ctx.install_dir@, "bin"@)],
                Seq::<(Seq<char>, Seq<char>)>::empty(),
            ),
    {
        let bin = crate::paths::path_join(ctx.host.os, ctx.install_dir.as_str(), "bin");
        let r = env_of(vec![bin], Vec::new());
        assert(r@.0 =~= seq![join(ctx.host.os, ctx.install_dir@, "bin"@)]);
        assert(r@.1 =~= Seq::<(Seq<char>, Seq<char>)>::empty());
        r
    }
}

} // verus!
