//! Node.js plugin — latest LTS binary archive from nodejs.org.
use crate::error::Error;
use crate::json::{array_field, array_of, bool_field, field, members_of, member_from, or_default, str_field, Json};
use crate::paths::{fs_canonical, fs_has_contents, fs_is_dir, fs_is_file, join, parent, parent_of, path_join, path_join2, path_join3, FsView};
use crate::platform::{Host, HostOS};
use crate::plugin::{dir_of, env_of, exe, exe_name, resolved_dir, EnvSpec, InstallContext, InstallState, Plugin,
    PluginStatus};
use crate::plugin_utils::{binary_status, binary_status_spec};
use crate::text::{chars_of, eq_str, owned, starts_with, trim};
use vstd::prelude::*;

verus! {

/// The key Node's `files` list uses for this machine's archive.
pub open spec fn node_file_key(host: Host) -> Option<Seq<char>> {
    let a = host.arch@;
    match host.os {
        HostOS::Windows => if a == "aarch64"@ { Some("win-arm64-zip"@) } else if a == "x64"@ { Some("win-x64-zip"@) } else { None },
        HostOS::Linux => if a == "aarch64"@ { Some("linux-arm64"@) } else if a == "x64"@ { Some("linux-x64"@) } else { None },
        HostOS::MacOS => if a == "aarch64"@ { Some("osx-arm64-tar"@) } else if a == "x64"@ { Some("osx-x64-tar"@) } else { None },
        HostOS::Other => None,
    }
}

/// Match a key from Node's `files` list for this OS/arch.
pub fn archive_file_key(host: &Host) -> (r: Result<&'static str, Error>)
    ensures
        match node_file_key(*host) {
            Some(k) => r matches Ok(s) && s@ == k,
            None => r is Err,
        },
        host.os == HostOS::Other ==> r matches Err(Error::UnsupportedOs { .. }),
        host.os != HostOS::Other && node_file_key(*host) is None ==> (r matches Err(
            Error::UnsupportedArch { arch, .. },
        ) && arch@ == host.arch@),
{
    let a = chars_of(host.arch.as_str());
    let arm = eq_str(a.as_slice(), "aarch64");
    let x64 = eq_str(a.as_slice(), "x64");
    match host.os {
        HostOS::Windows => if arm { Ok("win-arm64-zip") } else if x64 { Ok("win-x64-zip") } else {
            Err(Error::UnsupportedArch { tool: "Node.js", arch: owned(host.arch.as_str()) })
        },
        HostOS::Linux => if arm { Ok("linux-arm64") } else if x64 { Ok("linux-x64") } else {
            Err(Error::UnsupportedArch { tool: "Node.js", arch: owned(host.arch.as_str()) })
        },
        HostOS::MacOS => if arm { Ok("osx-arm64-tar") } else if x64 { Ok("osx-x64-tar") } else {
            Err(Error::UnsupportedArch { tool: "Node.js", arch: owned(host.arch.as_str()) })
        },
        HostOS::Other => Err(Error::UnsupportedOs { tool: "Node.js" }),
    }
}

/// The version with a leading `v`.
pub open spec fn v_version(version: Seq<char>) -> Seq<char> {
    if starts_with(version, "v"@) {
        version
    } else {
        "v"@ + version
    }
}

/// The dist archive file name for a version and file key.
pub open spec fn archive_name_spec(version: Seq<char>, key: Seq<char>) -> Option<Seq<char>> {
    let v = v_version(version);
    if key == "win-x64-zip"@ {
        Some("node-"@ + v + "-win-x64.zip"@)
    } else if key == "win-arm64-zip"@ {
        Some("node-"@ + v + "-win-arm64.zip"@)
    } else if key == "linux-x64"@ {
        Some("node-"@ + v + "-linux-x64.tar.xz"@)
    } else if key == "linux-arm64"@ {
        Some("node-"@ + v + "-linux-arm64.tar.xz"@)
    } else if key == "osx-x64-tar"@ {
        Some("node-"@ + v + "-darwin-x64.tar.gz"@)
    } else if key == "osx-arm64-tar"@ {
        Some("node-"@ + v + "-darwin-arm64.tar.gz"@)
    } else {
        None
    }
}

/// Build the dist archive filename for a Node version + file key.
pub fn archive_name(version: &str, file_key: &str) -> (r: Result<String, Error>)
    ensures
        match archive_name_spec(version@, file_key@) {
            Some(n) => r matches Ok(s) && s@ == n,
            None => r matches Err(Error::NoRelease { .. }),
        },
{
    let vc = chars_of(version);
    let mut ver = owned("");
    proof {
        reveal_strlit("");
        reveal_strlit("v");
    }
    if !crate::text::starts_with_str(vc.as_slice(), "v") {
        ver.append("v");
    }
    ver.append(version);
    assert(ver@ =~= v_version(version@));
    let k = chars_of(file_key);
    let (pre, post) = if eq_str(k.as_slice(), "win-x64-zip") {
        ("node-", "-win-x64.zip")
    } else if eq_str(k.as_slice(), "win-arm64-zip") {
        ("node-", "-win-arm64.zip")
    } else if eq_str(k.as_slice(), "linux-x64") {
        ("node-", "-linux-x64.tar.xz")
    } else if eq_str(k.as_slice(), "linux-arm64") {
        ("node-", "-linux-arm64.tar.xz")
    } else if eq_str(k.as_slice(), "osx-x64-tar") {
        ("node-", "-darwin-x64.tar.gz")
    } else if eq_str(k.as_slice(), "osx-arm64-tar") {
        ("node-", "-darwin-arm64.tar.gz")
    } else {
        return Err(Error::NoRelease { tool: "Node.js", detail: owned(file_key) });
    };
    let mut name = owned(pre);
    name.append(ver.as_str());
    name.append(post);
    Ok(name)
}

/// Whether an index entry's `lts` value marks an LTS release: `false`,
/// `null`, missing or `""` do not; any other string, `true`, numbers,
/// arrays and objects do.
pub open spec fn lts_value(value: Option<Json>) -> bool {
    match value {
        None => false,
        Some(Json::Null) => false,
        Some(Json::Bool(b)) => b,
        Some(Json::Str(s)) => s@.len() > 0,
        Some(_) => true,
    }
}

/// Whether an index entry's `lts` value marks an LTS release.
pub fn is_lts(value: Option<&Json>) -> (r: bool)
    ensures
        r == lts_value(match value {
            Some(v) => Some(*v),
            None => None,
        }),
{
    match value {
        None => false,
        Some(Json::Null) => false,
        Some(Json::Bool(b)) => *b,
        Some(Json::Str(s)) => !s.as_str().is_empty(),
        Some(_) => true,
    }
}

/// `files` lists `key`.
pub open spec fn lists_file(e: Json, key: Seq<char>) -> bool {
    match array_field(e, "files"@) {
        Some(files) => exists|i: int| 0 <= i < files.len() && crate::json::str_of(#[trigger] files[i]) == Some(key),
        None => false,
    }
}

/// An index entry to install: an LTS object listing the key, with a version.
pub open spec fn node_candidate(e: Json, key: Seq<char>) -> bool {
    &&& e is Object
    &&& lts_value(field(e, "lts"@))
    &&& lists_file(e, key)
    &&& trim(or_default(str_field(e, "version"@), ""@)).len() > 0
}

/// The first candidate from index `i` on.
pub open spec fn first_node_candidate(entries: Seq<Json>, key: Seq<char>, i: int) -> Option<Json>
    decreases entries.len() - i,
{
    if i < 0 || i >= entries.len() {
        None
    } else if node_candidate(entries[i], key) {
        Some(entries[i])
    } else {
        first_node_candidate(entries, key, i + 1)
    }
}

/// Where the search from index `i` finds an entry, it is the entry at some index
/// `k >= i` that is a candidate, and no entry between `i` and `k` is one; where it
/// finds none, no entry from `i` on is one.
proof fn lemma_first_node_candidate(entries: Seq<Json>, key: Seq<char>, i: int)
    requires
        0 <= i,
    ensures
        match first_node_candidate(entries, key, i) {
            Some(e) => exists|k: int| #![trigger entries[k]]
                i <= k < entries.len() && entries[k] == e && node_candidate(e, key)
                && forall|j: int| i <= j < k ==> !node_candidate(#[trigger] entries[j], key),
            None => forall|j: int| i <= j < entries.len() ==> !node_candidate(#[trigger] entries[j], key),
        },
    decreases entries.len() - i,
{
    if i < entries.len() && !node_candidate(entries[i], key) {
        lemma_first_node_candidate(entries, key, i + 1);
        match first_node_candidate(entries, key, i + 1) {
            Some(e) => {
                let k = choose|k: int| #![trigger entries[k]]
                    i + 1 <= k < entries.len() && entries[k] == e && node_candidate(e, key)
                    && forall|j: int| i + 1 <= j < k ==> !node_candidate(#[trigger] entries[j], key);
                assert(forall|j: int| i <= j < k ==> !node_candidate(#[trigger] entries[j], key));
            },
            None => {},
        }
    } else if i < entries.len() {
        assert(entries[i] == entries[i]);
    }
}

/// Only LTS releases are installed: the entry that the Node.js download is built
/// from is an object of the index whose `lts` value is present and is neither
/// `null`, `false` nor `""`, that lists the host's file key and has a version;
/// every earlier entry fails one of these, however new it is. Where no entry
/// passes them all, none is picked.
pub proof fn law_node_picks_first_lts(entries: Seq<Json>, key: Seq<char>)
    ensures
        match first_node_candidate(entries, key, 0) {
            Some(e) => exists|k: int| #![trigger entries[k]]
                0 <= k < entries.len() && entries[k] == e
                && e is Object
                && field(e, "lts"@) is Some
                && field(e, "lts"@) != Some(Json::Null)
                && field(e, "lts"@) != Some(Json::Bool(false))
                && !(str_field(e, "lts"@) matches Some(s) && s.len() == 0)
                && lists_file(e, key)
                && trim(or_default(str_field(e, "version"@), ""@)).len() > 0
                && forall|j: int| 0 <= j < k ==> !(
                    (#[trigger] entries[j]) is Object
                    && field(entries[j], "lts"@) is Some
                    && field(entries[j], "lts"@) != Some(Json::Null)
                    && field(entries[j], "lts"@) != Some(Json::Bool(false))
                    && !(str_field(entries[j], "lts"@) matches Some(s) && s.len() == 0)
                    && lists_file(entries[j], key)
                    && trim(or_default(str_field(entries[j], "version"@), ""@)).len() > 0),
            None => forall|j: int| 0 <= j < entries.len() ==> !(
                (#[trigger] entries[j]) is Object
                && field(entries[j], "lts"@) is Some
                && field(entries[j], "lts"@) != Some(Json::Null)
                && field(entries[j], "lts"@) != Some(Json::Bool(false))
                && !(str_field(entries[j], "lts"@) matches Some(s) && s.len() == 0)
                && lists_file(entries[j], key)
                && trim(or_default(str_field(entries[j], "version"@), ""@)).len() > 0),
        },
{
    lemma_first_node_candidate(entries, key, 0);
}

fn lists_file_exec(e: &Json, key: &str) -> (r: bool)
    ensures
        r == lists_file(*e, key@),
{
    match e.array_field("files") {
        Some(files) => {
            let mut i: usize = 0;
            while i < files.len()
                invariant
                    i <= files@.len(),
                    array_field(*e, "files"@) == Some(files@),
                    forall|j: int| 0 <= j < i ==> crate::json::str_of(#[trigger] files@[j]) != Some(key@),
                decreases files.len() - i,
            {
                match files[i].as_str() {
                    Some(s) => {
                        if eq_str(chars_of(s).as_slice(), key) {
                            return true;
                        }
                    },
                    None => {},
                }
                i = i + 1;
            }
            false
        },
        None => false,
    }
}

/// Return `(download_url, version)` for the newest LTS release on this OS,
/// from the dist index (`https://nodejs.org/dist/index.json`, newest first).
pub fn resolve_node_lts_download(data: &Json, host: &Host) -> (r: Result<(String, String), Error>)
    ensures
        match array_of(*data) {
            None => r matches Err(Error::UnexpectedMetadata { .. }),
            Some(entries) => match node_file_key(*host) {
                None => r is Err,
                Some(key) => match first_node_candidate(entries, key, 0) {
                    Some(e) => {
                        let version = trim(or_default(str_field(e, "version"@), ""@));
                        r matches Ok((url, v)) && v@ == version && url@ == "https://nodejs.org/dist/"@ + version
                            + "/"@ + archive_name_spec(version, key).unwrap()
                    },
                    None => r matches Err(Error::NoRelease { .. }),
                },
            },
        },
{
    let entries = match data.as_array() {
        Some(e) => e,
        None => {
            return Err(Error::UnexpectedMetadata { tool: "Node.js" });
        },
    };
    let key = match archive_file_key(host) {
        Ok(k) => k,
        Err(e) => {
            return Err(e);
        },
    };
    let mut i: usize = 0;
    while i < entries.len()
        invariant
            i <= entries@.len(),
            array_of(*data) == Some(entries@),
            node_file_key(*host) == Some(key@),
            first_node_candidate(entries@, key@, 0) == first_node_candidate(entries@, key@, i as int),
        decreases entries.len() - i,
    {
        let e = &entries[i];
        if e.is_object() && is_lts(e.get("lts")) && lists_file_exec(e, key) {
            let version = match e.str_field("version") {
                Some(v) => crate::text::trim_exec(chars_of(v).as_slice()),
                None => crate::text::trim_exec(chars_of("").as_slice()),
            };
            if version.len() > 0 {
                let version = crate::text::string_of(version.as_slice());
                assert(*e == entries@[i as int]);
                match archive_name(version.as_str(), key) {
                    Ok(name) => {
                        let mut url = owned("https://nodejs.org/dist/");
                        url.append(version.as_str());
                        url.append("/");
                        url.append(name.as_str());
                        return Ok((url, version));
                    },
                    Err(err) => {
                        return Err(err);
                    },
                }
            }
        }
        i = i + 1;
    }
    Err(Error::NoRelease { tool: "Node.js", detail: owned(key) })
}

/// `node.exe` at the top on Windows, `bin/node` elsewhere.
pub open spec fn node_bin(os: HostOS, dir: Seq<char>) -> Seq<char> {
    if os == HostOS::Windows {
        join(os, dir, "node.exe"@)
    } else {
        join(os, join(os, dir, "bin"@), "node"@)
    }
}

pub struct NodePlugin;

impl Plugin for NodePlugin {
    open spec fn spec_id(&self) -> Seq<char> {
        "node"@
    }

    fn id(&self) -> (r: &'static str) {
        "node"
    }

    fn name(&self) -> (r: &'static str)
        ensures
            r@ == "Node.js"@,
    {
        "Node.js"
    }

    fn description(&self) -> (r: &'static str)
        ensures
            r@ == "Download latest Node.js LTS binary and add it to PATH."@,
    {
        "Download latest Node.js LTS binary and add it to PATH."
    }

    fn status(&self, ctx: &InstallContext, fs: &FsView) -> (r: PluginStatus)
        ensures
            r@ == binary_status_spec(
                fs@,
                node_bin(ctx.host.os, ctx.install_dir@),
                ctx.install_dir@,
                "Install dir exists but node binary is missing"@,
            ),
    {
        let bin = (if ctx.host.os == HostOS::Windows { path_join(ctx.host.os, ctx.install_dir.as_str(), "node.exe") } else { path_join2(ctx.host.os, ctx.install_dir.as_str(), "bin", "node") });
        binary_status(fs, bin.as_str(), ctx.install_dir.as_str(), "Install dir exists but node binary is missing")
    }

    /// The PATH entries.
    fn env_spec(&self, ctx: &InstallContext, fs: &FsView) -> (r: EnvSpec)
        ensures
            r@ == (
                seq![if ctx.host.os == HostOS::Windows { ctx.install_dir@ } else { join(ctx.host.os, ctx.install_dir@, "bin"@) }],
                Seq::<(Seq<char>, Seq<char>)>::empty(),
            ),
    {
        let r = env_of(vec![if ctx.host.os == HostOS::Windows { owned(ctx.install_dir.as_str()) } else { path_join(ctx.host.os, ctx.install_dir.as_str(), "bin") }], Vec::new());
        assert(r@.0 =~= seq![if ctx.host.os == HostOS::Windows { ctx.install_dir@ } else { join(ctx.host.os, ctx.install_dir@, "bin"@) }]);
        assert(r@.1 =~= Seq::<(Seq<char>, Seq<char>)>::empty());
        r
    }
}

} // verus!
