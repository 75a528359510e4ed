//! PostgreSQL plugin — EDB Windows binaries; system wrappers on Unix.
use crate::error::Error;
use crate::paths::{fs_canonical, fs_is_dir, fs_is_file, join, parent, parent_of, path_join, path_join2, FsView};
use crate::platform::HostOS;
use crate::plugin::{env_of, exe, exe_name, resolved_dir, EnvSpec, InstallContext, InstallState, Plugin,
    PluginStatus};
use crate::plugin_utils::{binary_status, binary_status_spec, opt_strings_view, strs_view, system_wrappers,
    wrapper_plan};
use crate::plugins::git::first_file_of;
use crate::text::owned;
use vstd::prelude::*;

verus! {

/// The download URL of the pinned Windows x64 binaries ZIP.
pub fn postgresql_windows_url() -> (r: String)
    ensures
        r@ == "https://get.enterprisedb.com/postgresql/postgresql-"@ + "18.1-1"@ + "-windows-x64-binaries.zip"@,
{
    let mut s = owned("https://get.enterprisedb.com/postgresql/postgresql-");
    s.append("18.1-1");
    s.append("-windows-x64-binaries.zip");
    s
}

/// Where `psql` may be, in the order looked at.
pub open spec fn pgsql_candidates(os: HostOS, dir: Seq<char>) -> Seq<Seq<char>> {
    let e = exe(os, "psql"@);
    seq![join(os, join(os, dir, "bin"@), e), join(os, join(os, join(os, dir, "pgsql"@), "bin"@), e)]
}

/// The `psql` binary of the install, if there is one.
pub fn pgsql_bin(ctx: &InstallContext, fs: &FsView) -> (r: Option<String>)
    ensures
        match r {
            Some(p) => first_file_of(fs@, pgsql_candidates(ctx.host.os, ctx.install_dir@), 0) == Some(p@),
            None => first_file_of(fs@, pgsql_candidates(ctx.host.os, ctx.install_dir@), 0) is None,
        },
{
    let os = ctx.host.os;
    let e = exe_name(os, "psql");
    let d = ctx.install_dir.as_str();
    let a = path_join2(os, d, "bin", e.as_str());
    let b = crate::paths::path_join3(os, d, "pgsql", "bin", e.as_str());
    let ghost cv = pgsql_candidates(os, ctx.install_dir@);
    assert(cv[0] == a@ && cv[1] == b@);
    proof {
        reveal_with_fuel(first_file_of, 3);
    }
    if fs.is_file(a.as_str()) {
        return Some(a);
    }
    if fs.is_file(b.as_str()) {
        return Some(b);
    }
    assert(first_file_of(fs@, cv, 2) is None);
    None
}

/// The folder of the found `psql`, if any.
pub open spec fn pg_bin_dirs(os: HostOS, fs: crate::paths::FsModel, dir: Seq<char>) -> Seq<Seq<char>> {
    match first_file_of(fs, pgsql_candidates(os, dir), 0) {
        Some(b) => match parent(os, b) {
            Some(p) => seq![p],
            None => Seq::empty(),
        },
        None => Seq::empty(),
    }
}

/// The PATH entries: the folder of `psql`, then the wrapper `bin` folder
/// when it exists and is not already listed.
pub open spec fn pg_paths(os: HostOS, fs: crate::paths::FsModel, dir: Seq<char>) -> Seq<Seq<char>> {
    let first = pg_bin_dirs(os, fs, dir);
    let w = join(os, dir, "bin"@);
    if fs_is_dir(fs, w) && !first.contains(w) {
        first.push(w)
    } else {
        first
    }
}

/// How PostgreSQL gets installed on this OS.
#[derive(Debug, Clone, Copy, PartialEq, Eq)]
pub enum PgInstall {
    /// Download and unpack the EDB binaries ZIP.
    WindowsZip,
    /// Wrap the system PostgreSQL clients found on PATH.
    SystemClients,
}

/// The install route for `os`: the ZIP on Windows, the system clients on
/// macOS and Linux; no other OS is supported.
pub fn postgresql_install_kind(os: HostOS) -> (r: Result<PgInstall, Error>)
    ensures
        os == HostOS::Windows ==> r == Ok::<PgInstall, Error>(PgInstall::WindowsZip),
        (os == HostOS::MacOS || os == HostOS::Linux) ==> r == Ok::<PgInstall, Error>(PgInstall::SystemClients),
        os == HostOS::Other ==> r matches Err(Error::UnsupportedOs { .. }),
{
    match os {
        HostOS::Windows => Ok(PgInstall::WindowsZip),
        HostOS::MacOS | HostOS::Linux => Ok(PgInstall::SystemClients),
        HostOS::Other => Err(Error::UnsupportedOs { tool: "PostgreSQL" }),
    }
}

/// The client tools that get a launcher when found on PATH.
pub open spec fn pg_tools() -> Seq<Seq<char>> {
    seq!["psql"@, "pg_dump"@, "pg_restore"@, "createdb"@, "dropdb"@]
}

/// The launchers (file name, script) for the system clients: each tool found
/// on PATH (`found` in the order of `pg_tools`), and `psql` at
/// `system_psql` when it was not.
pub fn pg_wrappers(found: &Vec<Option<String>>, system_psql: &str) -> (r: Vec<(String, String)>)
    requires
        found@.len() == 5,
    ensures
        r@.map_values(|e: (String, String)| (e.0@, e.1@)) == wrapper_plan(
            pg_tools(),
            opt_strings_view(found@),
            "psql"@,
            system_psql@,
        ),
{
    let names: Vec<&str> = vec!["psql", "pg_dump", "pg_restore", "createdb", "dropdb"];
    assert(strs_view(names@) =~= pg_tools());
    system_wrappers(names.as_slice(), found, "psql", system_psql)
}

pub struct PostgresqlPlugin;

impl Plugin for PostgresqlPlugin {
    open spec fn spec_id(&self) -> Seq<char> {
        "postgresql"@
    }

    fn id(&self) -> (r: &'static str) {
        "postgresql"
    }

    fn name(&self) -> (r: &'static str)
        ensures
            r@ == "PostgreSQL"@,
    {
        "PostgreSQL"
    }

    fn description(&self) -> (r: &'static str)
        ensures
            r@ == "Download PostgreSQL 18.1-1 Windows binaries from EDB. On macOS/Linux, registers system PostgreSQL clients if installed."@,
    {
        "Download PostgreSQL 18.1-1 Windows binaries from EDB. On macOS/Linux, registers system PostgreSQL clients if installed."
    }

    /// The status of the found `psql`; else installed when the wrapper
    /// marker exists; else the status of `bin/psql`.
    fn status(&self, ctx: &InstallContext, fs: &FsView) -> (r: PluginStatus)
        ensures
            r@ == match first_file_of(fs@, pgsql_candidates(ctx.host.os, ctx.install_dir@), 0) {
                Some(b) => binary_status_spec(fs@, b, ctx.install_dir@, "Install dir exists but psql is missing"@),
                None => if fs_is_file(fs@, join(ctx.host.os, ctx.install_dir@, ".devkit-postgresql"@)) {
                    (InstallState::Installed, Some(ctx.install_dir@), "system postgresql wrappers"@)
                } else {
                    binary_status_spec(
                        fs@,
                        join(ctx.host.os, join(ctx.host.os, ctx.install_dir@, "bin"@), "psql"@),
                        ctx.install_dir@,
                        "Install dir exists but psql is missing"@,
                    )
                },
            },
    {
        let os = ctx.host.os;
        let d = ctx.install_dir.as_str();
        match pgsql_bin(ctx, fs) {
            Some(b) => binary_status(fs, b.as_str(), d, "Install dir exists but psql is missing"),
            None => {
                let marker = path_join(os, d, ".devkit-postgresql");
                if fs.is_file(marker.as_str()) {
                    PluginStatus::new(InstallState::Installed, Some(owned(d))).with_detail(
                        owned("system postgresql wrappers"),
                    )
                } else {
                    let plain = path_join2(os, d, "bin", "psql");
                    binary_status(fs, plain.as_str(), d, "Install dir exists but psql is missing")
                }
            },
        }
    }

    /// The folder of `psql` and the wrapper `bin` folder on PATH.
    fn env_spec(&self, ctx: &InstallContext, fs: &FsView) -> (r: EnvSpec)
        ensures
            r@ == (
                pg_paths(ctx.host.os, fs@, ctx.install_dir@),
                Seq::<(Seq<char>, Seq<char>)>::empty(),
            ),
    {
        let os = ctx.host.os;
        let mut paths: Vec<String> = Vec::new();
        match pgsql_bin(ctx, fs) {
            Some(b) => match parent_of(os, b.as_str()) {
                Some(p) => paths.push(p),
                None => {},
            },
            None => {},
        }
        let ghost first = paths@.map_values(|s: String| s@);
        assert(first =~= pg_bin_dirs(os, fs@, ctx.install_dir@));
        let w = path_join(os, ctx.install_dir.as_str(), "bin");
        if fs.is_dir(w.as_str()) {
            let listed = paths.len() == 1 && crate::text::eq(
                crate::text::chars_of(paths[0].as_str()).as_slice(),
                crate::text::chars_of(w.as_str()).as_slice(),
            );
            proof {
                assert(first.contains(w@) <==> (paths@.len() == 1 && paths@[0]@ == w@)) by {
                    if first.contains(w@) {
                        let k = choose|k: int| 0 <= k < first.len() && first[k] == w@;
                        assert(k == 0);
                    }
                    if paths@.len() == 1 && paths@[0]@ == w@ {
                        assert(first[0] == w@);
                    }
                }
            }
            if !listed {
                paths.push(w);
            }
        }
        let r = env_of(paths, Vec::new());
        assert(r@.0 =~= pg_paths(os, fs@, ctx.install_dir@));
        assert(r@.1 =~= Seq::<(Seq<char>, Seq<char>)>::empty());
        r
    }
}

} // verus!
