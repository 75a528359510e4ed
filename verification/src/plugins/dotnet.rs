//! .NET SDK plugin — latest SDK ZIP of the LTS channel.
use crate::error::Error;
use crate::json::{array_field, array_of, bool_field, field, members_of, member_from, or_default, str_field, Json};
use crate::paths::{fs_canonical, fs_has_contents, fs_is_dir, fs_is_file, join, parent, parent_of, path_join, path_join2, path_join3, FsView};
use crate::platform::{Host, HostOS};
use crate::plugin::{dir_of, env_of, exe, exe_name, resolved_dir, EnvSpec, InstallContext, InstallState, Plugin,
    PluginStatus};
use crate::plugin_utils::{binary_status, binary_status_spec};
use crate::text::{chars_of, contains, ends_with, eq_str, owned, trim};
use vstd::prelude::*;

verus! {

/// The runtime identifier for this machine.
pub open spec fn rid_spec(host: Host) -> Option<Seq<char>> {
    let cpu = if host.arch@ == "aarch64"@ { Some("arm64"@) } else if host.arch@ == "x64"@ { Some("x64"@) } else { None };
    match cpu {
        None => None,
        Some(c) => match host.os {
            HostOS::Windows => Some("win-"@ + c),
            HostOS::Linux => Some("linux-"@ + c),
            HostOS::MacOS => Some("osx-"@ + c),
            HostOS::Other => None,
        },
    }
}

/// The release metadata of the tracked LTS channel (10.0).
pub fn dotnet_meta_url() -> (r: &'static str)
    ensures
        r@ == "https://dotnetcli.blob.core.windows.net/dotnet/release-metadata/10.0/releases.json"@,
{
    "https://dotnetcli.blob.core.windows.net/dotnet/release-metadata/10.0/releases.json"
}

/// The runtime identifier (`win-x64`, `linux-arm64`, ...) for this machine.
pub fn rid(host: &Host) -> (r: Result<String, Error>)
    ensures
        match rid_spec(*host) {
            Some(s) => r matches Ok(v) && v@ == s,
            None => r is Err,
        },
        host.arch@ != "aarch64"@ && host.arch@ != "x64"@ ==> (r matches Err(Error::UnsupportedArch { arch, .. }) && arch@ == host.arch@),
{
    let a = chars_of(host.arch.as_str());
    let cpu = if eq_str(a.as_slice(), "aarch64") {
        "arm64"
    } else if eq_str(a.as_slice(), "x64") {
        "x64"
    } else {
        return Err(Error::UnsupportedArch { tool: ".NET SDK", arch: owned(host.arch.as_str()) });
    };
    let prefix = match host.os {
        HostOS::Windows => "win-",
        HostOS::Linux => "linux-",
        HostOS::MacOS => "osx-",
        HostOS::Other => {
            return Err(Error::UnsupportedOs { tool: ".NET SDK" });
        },
    };
    let mut r = owned(prefix);
    r.append(cpu);
    Ok(r)
}

/// An SDK file for the runtime identifier: a ZIP with a URL.
pub open spec fn is_sdk_zip(f: Json, rid: Seq<char>) -> bool {
    let name = or_default(str_field(f, "name"@), ""@);
    contains(name, rid) && ends_with(name, ".zip"@) && or_default(str_field(f, "url"@), ""@).len() > 0
}

/// The first matching file from index `j` on.
pub open spec fn first_sdk_zip(files: Seq<Json>, rid: Seq<char>, j: int) -> Option<Json>
    decreases files.len() - j,
{
    if j < 0 || j >= files.len() {
        None
    } else if is_sdk_zip(files[j], rid) {
        Some(files[j])
    } else {
        first_sdk_zip(files, rid, j + 1)
    }
}

/// The SDK files of a release (none when missing).
pub open spec fn sdk_files(release: Json) -> Seq<Json> {
    match field(release, "sdk"@) {
        Some(sdk) => match array_field(sdk, "files"@) {
            Some(f) => f,
            None => Seq::empty(),
        },
        None => Seq::empty(),
    }
}

/// The first release from index `i` on with a matching SDK ZIP: its URL and
/// the SDK version (trimmed).
pub open spec fn dotnet_pick(releases: Seq<Json>, rid: Seq<char>, i: int) -> Option<(Seq<char>, Seq<char>)>
    decreases releases.len() - i,
{
    if i < 0 || i >= releases.len() {
        None
    } else {
        match first_sdk_zip(sdk_files(releases[i]), rid, 0) {
            Some(f) => Some((
                or_default(str_field(f, "url"@), ""@),
                trim(or_default(str_field(field(releases[i], "sdk"@).unwrap(), "version"@), ""@)),
            )),
            None => dotnet_pick(releases, rid, i + 1),
        }
    }
}

fn first_sdk_zip_exec<'a>(files: &'a Vec<Json>, rid: &str) -> (r: Option<&'a Json>)
    ensures
        match r {
            Some(f) => first_sdk_zip(files@, rid@, 0) == Some(*f),
            None => first_sdk_zip(files@, rid@, 0) is None,
        },
{
    let rc = chars_of(rid);
    let mut j: usize = 0;
    while j < files.len()
        invariant
            j <= files@.len(),
            rc@ == rid@,
            first_sdk_zip(files@, rid@, 0) == first_sdk_zip(files@, rid@, j as int),
        decreases files.len() - j,
    {
        let f = &files[j];
        let name = match f.str_field("name") {
            Some(n) => chars_of(n),
            None => chars_of(""),
        };
        let url = match f.str_field("url") {
            Some(u) => owned(u),
            None => owned(""),
        };
        proof {
            reveal_strlit("");
        }
        if crate::text::contains_exec(name.as_slice(), rc.as_slice()) && crate::text::ends_with_str(name.as_slice(), ".zip")
            && !url.as_str().is_empty() {
            assert(*f == files@[j as int]);
            return Some(f);
        }
        j = j + 1;
    }
    None
}

/// Return `(sdk_zip_url, version)` for the latest GA SDK on this RID, from
/// the channel's release metadata (newest release first).
pub fn resolve_dotnet_download(meta: &Json, host: &Host) -> (r: Result<(String, String), Error>)
    ensures
        match rid_spec(*host) {
            None => r is Err,
            Some(rid) => match dotnet_pick(
                match array_field(*meta, "releases"@) {
                    Some(a) => a,
                    None => Seq::empty(),
                },
                rid,
                0,
            ) {
                Some((u, v)) => r matches Ok((url, version)) && url@ == u && version@ == v,
                None => r matches Err(Error::NoRelease { .. }),
            },
        },
{
    let rid = match rid(host) {
        Ok(r) => r,
        Err(e) => {
            return Err(e);
        },
    };
    let empty: Vec<Json> = Vec::new();
    let releases: &Vec<Json> = match meta.array_field("releases") {
        Some(a) => a,
        None => &empty,
    };
    let ghost rs = releases@;
    let mut i: usize = 0;
    while i < releases.len()
        invariant
            i <= rs.len(),
            rs == releases@,
            rs == (match array_field(*meta, "releases"@) {
                Some(a) => a,
                None => Seq::<Json>::empty(),
            }),
            rid_spec(*host) == Some(rid@),
            dotnet_pick(rs, rid@, 0) == dotnet_pick(rs, rid@, i as int),
        decreases releases.len() - i,
    {
        let release = &releases[i];
        match release.get("sdk") {
            Some(sdk) => {
                let empty_files: Vec<Json> = Vec::new();
                let files: &Vec<Json> = match sdk.array_field("files") {
                    Some(f) => f,
                    None => &empty_files,
                };
                assert(files@ == sdk_files(*release));
                match first_sdk_zip_exec(files, rid.as_str()) {
                    Some(f) => {
                        let version = match sdk.str_field("version") {
                            Some(v) => crate::text::trim_exec(chars_of(v).as_slice()),
                            None => crate::text::trim_exec(chars_of("").as_slice()),
                        };
                        let url = match f.str_field("url") {
                            Some(u) => owned(u),
                            None => owned(""),
                        };
                        assert(*release == rs[i as int]);
                        return Ok((url, crate::text::string_of(version.as_slice())));
                    },
                    None => {},
                }
            },
            None => {
                assert(sdk_files(*release) =~= Seq::<Json>::empty());
            },
        }
        i = i + 1;
    }
    Err(Error::NoRelease { tool: ".NET SDK", detail: rid })
}

pub struct DotnetPlugin;

impl Plugin for DotnetPlugin {
    open spec fn spec_id(&self) -> Seq<char> {
        "dotnet"@
    }

    fn id(&self) -> (r: &'static str) {
        "dotnet"
    }

    fn name(&self) -> (r: &'static str)
        ensures
            r@ == ".NET SDK"@,
    {
        ".NET SDK"
    }

    fn description(&self) -> (r: &'static str)
        ensures
            r@ == "Download .NET SDK 10.0 LTS ZIP and add it to PATH."@,
    {
        "Download .NET SDK 10.0 LTS ZIP and add it to PATH."
    }

    fn status(&self, ctx: &InstallContext, fs: &FsView) -> (r: PluginStatus)
        ensures
            r@ == binary_status_spec(
                fs@,
                join(ctx.host.os, ctx.install_dir@, exe(ctx.host.os, "dotnet"@)),
                ctx.install_dir@,
                "Install dir exists but dotnet binary is missing"@,
            ),
    {
        let bin = path_join(ctx.host.os, ctx.install_dir.as_str(), exe_name(ctx.host.os, "dotnet").as_str());
        binary_status(fs, bin.as_str(), ctx.install_dir.as_str(), "Install dir exists but dotnet binary is missing")
    }

    /// The PATH entries.
    fn env_spec(&self, ctx: &InstallContext, fs: &FsView) -> (r: EnvSpec)
        ensures
            r@ == (
                seq![ctx.install_dir@],
                Seq::<(Seq<char>, Seq<char>)>::empty(),
            ),
    {
        let r = env_of(vec![owned(ctx.install_dir.as_str())], Vec::new());
        assert(r@.0 =~= seq![ctx.install_dir@]);
        assert(r@.1 =~= Seq::<(Seq<char>, Seq<char>)>::empty());
        r
    }
}

} // verus!
