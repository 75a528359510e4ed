//! PMD plugin — PMD Source Code Analyzer binary ZIP (all platforms).
//!
//! Downloads the official `pmd-dist-*-bin.zip` (or older `pmd-bin-*.zip`)
//! from GitHub releases. Needs Java to run; pair with the `jdk` plugin.
use crate::error::Error;
use crate::json::{array_field, array_of, bool_field, field, members_of, member_from, or_default, str_field, Json};
use crate::paths::{fs_canonical, fs_has_contents, fs_is_dir, fs_is_file, join, parent, parent_of, path_join, path_join2, path_join3, FsView};
use crate::platform::{Host, HostOS};
use crate::plugin::{dir_of, env_of, exe, exe_name, resolved_dir, EnvSpec, InstallContext, InstallState, Plugin,
    PluginStatus};
use crate::plugin_utils::{binary_status, binary_status_spec, picked, pick_release_asset, strs_view};
use crate::text::{chars_of, eq_str, owned};
use vstd::prelude::*;

verus! {

/// `(url, tag)` of the binary distribution ZIP: a `pmd-dist-*-bin.zip`,
/// else an older `pmd-bin-*.zip`.
pub open spec fn pmd_pick(release: Json) -> Option<(Seq<char>, Seq<char>)> {
    match picked(release, seq!["pmd-dist"@, "-bin.zip"@]) {
        Some(p) => Some(p),
        None => picked(release, seq!["pmd-bin-"@, ".zip"@]),
    }
}

/// Pick the binary distribution ZIP from a PMD GitHub release payload.
pub fn pick_pmd_bin_asset(release: &Json) -> (r: Result<(String, String), Error>)
    ensures
        match pmd_pick(*release) {
            Some((u, t)) => r matches Ok((url, tag)) && url@ == u && tag@ == t,
            None => r matches Err(Error::NoMatchingAsset { .. }),
        },
{
    let first: Vec<&str> = vec!["pmd-dist", "-bin.zip"];
    assert(strs_view(first@) =~= seq!["pmd-dist"@, "-bin.zip"@]);
    match pick_release_asset(release, first.as_slice()) {
        Ok(hit) => Ok(hit),
        Err(_) => {
            let legacy: Vec<&str> = vec!["pmd-bin-", ".zip"];
            assert(strs_view(legacy@) =~= seq!["pmd-bin-"@, ".zip"@]);
            pick_release_asset(release, legacy.as_slice())
        },
    }
}

/// `s` without its leading `v`s.
pub open spec fn strip_vs(s: Seq<char>) -> Seq<char> {
    crate::text::trim_start_set(s, seq!['v'])
}

/// The release tag for a requested version (`pmd_releases/<version>`, the
/// version trimmed and without a leading `v`); `None` for the latest release.
pub fn pmd_release_tag(requested: Option<&str>) -> (r: Result<Option<String>, Error>)
    ensures
        match requested {
            None => r == Ok::<Option<String>, Error>(None),
            Some(raw) => {
                let v = strip_vs(crate::text::trim(raw@));
                if v.len() == 0 {
                    r matches Err(Error::InvalidVersion { .. })
                } else {
                    r matches Ok(Some(tag)) && tag@ == "pmd_releases/"@ + v
                }
            },
        },
{
    match requested {
        None => Ok(None),
        Some(raw) => {
            let t = crate::text::trim_exec(chars_of(raw).as_slice());
            let vs: Vec<char> = vec!['v'];
            assert(vs@ =~= seq!['v']);
            let v = crate::text::trim_start_set_exec(t.as_slice(), vs.as_slice());
            if v.len() == 0 {
                return Err(Error::InvalidVersion { tool: "PMD", given: owned(raw) });
            }
            let mut tag = owned("pmd_releases/");
            tag.append(crate::text::string_of(v.as_slice()).as_str());
            Ok(Some(tag))
        },
    }
}

/// The last `/`-separated part of a tag, without leading `v`s.
pub open spec fn tag_version(tag: Seq<char>) -> Seq<char> {
    let parts = crate::text::split(tag, '/');
    strip_vs(parts[parts.len() - 1])
}

/// Return `(download_url, version_label)` from the release payload (latest
/// or the one a `--version` tag names).
pub fn resolve_pmd_download(release: &Json) -> (r: Result<(String, String), Error>)
    ensures
        match pmd_pick(*release) {
            Some((u, t)) => r matches Ok((url, version)) && url@ == u && version@ == tag_version(t),
            None => r matches Err(Error::NoMatchingAsset { .. }),
        },
{
    match pick_pmd_bin_asset(release) {
        Ok((url, tag)) => {
            let parts = crate::text::split_exec(chars_of(tag.as_str()).as_slice(), '/');
            proof {
                crate::text::lemma_split_len_pos(tag@, '/');
            }
            let last = parts.len() - 1;
            assert(parts@.map_values(|v: Vec<char>| v@)[last as int] == parts@[last as int]@);
            let vs: Vec<char> = vec!['v'];
            assert(vs@ =~= seq!['v']);
            let v = crate::text::trim_start_set_exec(parts[last].as_slice(), vs.as_slice());
            Ok((url, crate::text::string_of(v.as_slice())))
        },
        Err(e) => Err(e),
    }
}

/// `bin/pmd.bat` on Windows, `bin/pmd` elsewhere.
pub open spec fn pmd_bin(os: HostOS, dir: Seq<char>) -> Seq<char> {
    join(os, join(os, dir, "bin"@), if os == HostOS::Windows { "pmd.bat"@ } else { "pmd"@ })
}

pub struct PmdPlugin;

impl Plugin for PmdPlugin {
    open spec fn spec_id(&self) -> Seq<char> {
        "pmd"@
    }

    fn id(&self) -> (r: &'static str) {
        "pmd"
    }

    fn name(&self) -> (r: &'static str)
        ensures
            r@ == "PMD"@,
    {
        "PMD"
    }

    fn description(&self) -> (r: &'static str)
        ensures
            r@ == "Download PMD Source Code Analyzer binary ZIP from GitHub (optional --version) and add it to PATH. Needs Java; use the jdk plugin."@,
    {
        "Download PMD Source Code Analyzer binary ZIP from GitHub (optional --version) and add it to PATH. Needs Java; use the jdk plugin."
    }

    /// The launcher's status, with a warning added to an installed one when
    /// `java` is not on PATH.
    fn status(&self, ctx: &InstallContext, fs: &FsView) -> (r: PluginStatus)
        ensures
            ({
                let s = binary_status_spec(
                    fs@,
                    pmd_bin(ctx.host.os, ctx.install_dir@),
                    ctx.install_dir@,
                    "Install dir exists but pmd launcher is missing"@,
                );
                if s.0 == InstallState::Installed && !crate::paths::fs_has_command(fs@, "java"@) {
                    r@ == (s.0, s.1, s.2 + " (warning: java not found on PATH)"@)
                } else {
                    r@ == s
                }
            }),
    {
        let bin = path_join2(ctx.host.os, ctx.install_dir.as_str(), "bin", if ctx.host.os == HostOS::Windows { "pmd.bat" } else { "pmd" });
        let status = binary_status(fs, bin.as_str(), ctx.install_dir.as_str(), "Install dir exists but pmd launcher is missing");
        if status.state == InstallState::Installed && !fs.has_command("java") {
            let mut detail = owned(status.detail.as_str());
            detail.append(" (warning: java not found on PATH)");
            return status.with_detail(detail);
        }
        status
    }

    /// `bin` on PATH.
    fn env_spec(&self, ctx: &InstallContext, fs: &FsView) -> (r: EnvSpec)
        ensures
            r@ == (
                seq![join(ctx.host.os, ctx.install_dir@, "bin"@)],
                Seq::<(Seq<char>, Seq<char>)>::empty(),
            ),
    {
        let r = env_of(vec![path_join(ctx.host.os, ctx.install_dir.as_str(), "bin")], Vec::new());
        assert(r@.0 =~= seq![join(ctx.host.os, ctx.install_dir@, "bin"@)]);
        assert(r@.1 =~= Seq::<(Seq<char>, Seq<char>)>::empty());
        r
    }
}

} // verus!
