//! Gradle plugin — current Gradle binary ZIP from services.gradle.org.
use crate::error::Error;
use crate::json::{array_field, array_of, bool_field, field, members_of, member_from, or_default, str_field, Json};
use crate::paths::{fs_canonical, fs_has_contents, fs_is_dir, fs_is_file, join, parent, parent_of, path_join, path_join2, path_join3, FsView};
use crate::platform::{Host, HostOS};
use crate::plugin::{dir_of, env_of, exe, exe_name, resolved_dir, EnvSpec, InstallContext, InstallState, Plugin,
    PluginStatus};
use crate::plugin_utils::{binary_status, binary_status_spec};
use crate::text::{chars_of, eq_str, owned};
use vstd::prelude::*;

verus! {

/// A trimmed string member (`""` when missing).
pub open spec fn trimmed_field(j: Json, key: Seq<char>) -> Seq<char> {
    crate::text::trim(or_default(str_field(j, key), ""@))
}

/// Return `(download_url, version)` for the current Gradle release, from
/// `https://services.gradle.org/versions/current`; a release Gradle marks
/// as broken is refused.
pub fn resolve_gradle_download(meta: &Json) -> (r: Result<(String, String), Error>)
    ensures
        ({
            let version = trimmed_field(*meta, "version"@);
            let url = trimmed_field(*meta, "downloadUrl"@);
            if version.len() == 0 || url.len() == 0 {
                r matches Err(Error::UnexpectedMetadata { .. })
            } else if bool_field(*meta, "broken"@) == Some(true) {
                r matches Err(Error::BrokenRelease { version: v }) && v@ == version
            } else {
                r matches Ok((u, v)) && u@ == url && v@ == version
            }
        }),
{
    let version = match meta.str_field("version") {
        Some(v) => crate::text::trim_exec(chars_of(v).as_slice()),
        None => crate::text::trim_exec(chars_of("").as_slice()),
    };
    let url = match meta.str_field("downloadUrl") {
        Some(v) => crate::text::trim_exec(chars_of(v).as_slice()),
        None => crate::text::trim_exec(chars_of("").as_slice()),
    };
    if version.len() == 0 || url.len() == 0 {
        return Err(Error::UnexpectedMetadata { tool: "Gradle" });
    }
    let version = crate::text::string_of(version.as_slice());
    if meta.bool_field("broken") == Some(true) {
        return Err(Error::BrokenRelease { version });
    }
    Ok((crate::text::string_of(url.as_slice()), version))
}

pub struct GradlePlugin;

impl Plugin for GradlePlugin {
    open spec fn spec_id(&self) -> Seq<char> {
        "gradle"@
    }

    fn id(&self) -> (r: &'static str) {
        "gradle"
    }

    fn name(&self) -> (r: &'static str)
        ensures
            r@ == "Gradle"@,
    {
        "Gradle"
    }

    fn description(&self) -> (r: &'static str)
        ensures
            r@ == "Download latest Gradle binary ZIP and add it to PATH."@,
    {
        "Download latest Gradle binary ZIP and add it to PATH."
    }

    fn status(&self, ctx: &InstallContext, fs: &FsView) -> (r: PluginStatus)
        ensures
            r@ == binary_status_spec(
                fs@,
                join(ctx.host.os, join(ctx.host.os, ctx.install_dir@, "bin"@), if ctx.host.os == HostOS::Windows { "gradle.bat"@ } else { "gradle"@ }),
                ctx.install_dir@,
                "Install dir exists but gradle binary is missing"@,
            ),
    {
        let bin = path_join2(ctx.host.os, ctx.install_dir.as_str(), "bin", if ctx.host.os == HostOS::Windows { "gradle.bat" } else { "gradle" });
        binary_status(fs, bin.as_str(), ctx.install_dir.as_str(), "Install dir exists but gradle binary is missing")
    }

    /// The PATH entries.
    fn env_spec(&self, ctx: &InstallContext, fs: &FsView) -> (r: EnvSpec)
        ensures
            r@ == (
                seq![join(ctx.host.os, ctx.install_dir@, "bin"@)],
                Seq::<(Seq<char>, Seq<char>)>::empty(),
            ),
    {
        let r = env_of(vec![path_join(ctx.host.os, ctx.install_dir.as_str(), "bin")], Vec::new());
        assert(r@.0 =~= seq![join(ctx.host.os, ctx.install_dir@, "bin"@)]);
        assert(r@.1 =~= Seq::<(Seq<char>, Seq<char>)>::empty());
        r
    }
}

} // verus!
