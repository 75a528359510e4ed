//! SQLite plugin — official sqlite-tools ZIP (the `sqlite3` CLI).
use crate::error::Error;
use crate::json::{array_field, array_of, bool_field, field, members_of, member_from, or_default, str_field, Json};
use crate::paths::{fs_canonical, fs_has_contents, fs_is_dir, fs_is_file, join, parent, parent_of, path_join, path_join2, path_join3, FsView};
use crate::platform::{Host, HostOS};
use crate::plugin::{dir_of, env_of, exe, exe_name, resolved_dir, EnvSpec, InstallContext, InstallState, Plugin,
    PluginStatus};
use crate::plugin_utils::{binary_status, binary_status_spec};
use crate::text::{chars_of, eq_str, owned};
use crate::scan::{capture_all, captures, escape, escaped};
use vstd::prelude::*;

verus! {

/// The sqlite-tools product key for this machine; none where sqlite.org
/// publishes no build (Linux on arm64, unknown OS).
pub open spec fn sqlite_key(host: Host) -> Option<Seq<char>> {
    let arm = host.arch@ == "aarch64"@;
    match host.os {
        HostOS::Windows => Some(if arm { "sqlite-tools-win-arm64"@ } else { "sqlite-tools-win-x64"@ }),
        HostOS::Linux => if arm { None } else { Some("sqlite-tools-linux-x64"@) },
        HostOS::MacOS => Some(if arm { "sqlite-tools-osx-arm64"@ } else { "sqlite-tools-osx-x64"@ }),
        HostOS::Other => None,
    }
}

/// The sqlite-tools product key for this machine.
pub fn sqlite_tools_key(host: &Host) -> (r: Result<&'static str, Error>)
    ensures
        match sqlite_key(*host) {
            Some(k) => r matches Ok(s) && s@ == k,
            None => r is Err,
        },
{
    let arm = eq_str(chars_of(host.arch.as_str()).as_slice(), "aarch64");
    match host.os {
        HostOS::Windows => Ok(if arm { "sqlite-tools-win-arm64" } else { "sqlite-tools-win-x64" }),
        HostOS::Linux => if arm {
            Err(Error::UnsupportedArch { tool: "SQLite tools", arch: owned(host.arch.as_str()) })
        } else {
            Ok("sqlite-tools-linux-x64")
        },
        HostOS::MacOS => Ok(if arm { "sqlite-tools-osx-arm64" } else { "sqlite-tools-osx-x64" }),
        HostOS::Other => Err(Error::UnsupportedOs { tool: "SQLite tools" }),
    }
}

/// The pattern of a product row's archive path (`2026/<key>-3530400.zip`).
pub open spec fn sqlite_row_pattern(key: Seq<char>) -> Seq<char> {
    "(\\d{4}/"@ + escaped(key) + "-\\d+\\.zip)"@
}

/// The pattern of the version number at the end of an archive path.
pub open spec fn sqlite_version_pattern() -> Seq<char> {
    "-(\\d+)\\.zip$"@
}

/// The version in an archive path (`unknown` when it has none).
pub open spec fn sqlite_version(rel: Seq<char>) -> Seq<char> {
    match capture_all(sqlite_version_pattern(), rel, 1) {
        Some(v) => if v.len() > 0 { v[0] } else { "unknown"@ },
        None => "unknown"@,
    }
}

/// Parse the sqlite.org download page for the matching sqlite-tools ZIP:
/// the first product row for this machine. Returns `(download_url, version)`.
pub fn resolve_sqlite_download(html: &str, host: &Host) -> (r: Result<(String, String), Error>)
    ensures
        match sqlite_key(*host) {
            None => r is Err,
            Some(k) => match capture_all(sqlite_row_pattern(k), html@, 1) {
                Some(rows) => if rows.len() > 0 {
                    r matches Ok((url, version)) && url@ == "https://www.sqlite.org/"@ + rows[0]
                        && version@ == sqlite_version(rows[0])
                } else {
                    r matches Err(Error::NoRelease { .. })
                },
                None => r matches Err(Error::NoRelease { .. }),
            },
        },
{
    let key = match sqlite_tools_key(host) {
        Ok(k) => k,
        Err(e) => {
            return Err(e);
        },
    };
    let mut pattern = owned("(\\d{4}/");
    pattern.append(escape(key).as_str());
    pattern.append("-\\d+\\.zip)");
    let rows = match captures(pattern.as_str(), html, 1) {
        Some(rows) => rows,
        None => {
            return Err(Error::NoRelease { tool: "SQLite tools", detail: owned(key) });
        },
    };
    if rows.len() == 0 {
        return Err(Error::NoRelease { tool: "SQLite tools", detail: owned(key) });
    }
    let rel = owned(rows[0].as_str());
    assert(rows@.map_values(|s: String| s@)[0] == rows@[0]@);
    let version = match captures("-(\\d+)\\.zip$", rel.as_str(), 1) {
        Some(v) => {
            if v.len() > 0 {
                assert(v@.map_values(|s: String| s@)[0] == v@[0]@);
                owned(v[0].as_str())
            } else {
                owned("unknown")
            }
        },
        None => owned("unknown"),
    };
    let mut url = owned("https://www.sqlite.org/");
    url.append(rel.as_str());
    Ok((url, version))
}

pub struct SqlitePlugin;

impl Plugin for SqlitePlugin {
    open spec fn spec_id(&self) -> Seq<char> {
        "sqlite"@
    }

    fn id(&self) -> (r: &'static str) {
        "sqlite"
    }

    fn name(&self) -> (r: &'static str)
        ensures
            r@ == "SQLite"@,
    {
        "SQLite"
    }

    fn description(&self) -> (r: &'static str)
        ensures
            r@ == "Download official sqlite-tools ZIP (sqlite3 CLI) and add it to PATH."@,
    {
        "Download official sqlite-tools ZIP (sqlite3 CLI) and add it to PATH."
    }

    fn status(&self, ctx: &InstallContext, fs: &FsView) -> (r: PluginStatus)
        ensures
            r@ == binary_status_spec(
                fs@,
                join(ctx.host.os, ctx.install_dir@, exe(ctx.host.os, "sqlite3"@)),
                ctx.install_dir@,
                "Install dir exists but sqlite3 binary is missing"@,
            ),
    {
        let bin = path_join(ctx.host.os, ctx.install_dir.as_str(), exe_name(ctx.host.os, "sqlite3").as_str());
        binary_status(fs, bin.as_str(), ctx.install_dir.as_str(), "Install dir exists but sqlite3 binary is missing")
    }

    /// The PATH entries.
    fn env_spec(&self, ctx: &InstallContext, fs: &FsView) -> (r: EnvSpec)
        ensures
            r@ == (
                seq![ctx.install_dir@],
                Seq::<(Seq<char>, Seq<char>)>::empty(),
            ),
    {
        let r = env_of(vec![owned(ctx.install_dir.as_str())], Vec::new());
        assert(r@.0 =~= seq![ctx.install_dir@]);
        assert(r@.1 =~= Seq::<(Seq<char>, Seq<char>)>::empty());
        r
    }
}

} // verus!
