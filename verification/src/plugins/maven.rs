//! Maven plugin — latest Apache Maven 3.x binary ZIP.
use crate::error::Error;
use crate::json::{array_field, array_of, bool_field, field, members_of, member_from, or_default, str_field, Json};
use crate::paths::{fs_canonical, fs_has_contents, fs_is_dir, fs_is_file, join, parent, parent_of, path_join, path_join2, path_join3, FsView};
use crate::platform::{Host, HostOS};
use crate::plugin::{dir_of, env_of, exe, exe_name, resolved_dir, EnvSpec, InstallContext, InstallState, Plugin,
    PluginStatus};
use crate::plugin_utils::{binary_status, binary_status_spec};
use crate::text::{chars_of, eq_str, owned};
use crate::plugin_utils::{is_newest_listed, maven_listing_has_versions, parse_maven_latest_version};
use vstd::prelude::*;

verus! {

/// The binary ZIP of a Maven 3 release on the Apache download site.
pub open spec fn maven_url(version: Seq<char>) -> Seq<char> {
    "https://downloads.apache.org/maven/maven-3/"@ + version + "/binaries/apache-maven-"@ + version
        + "-bin.zip"@
}

/// Return `(download_url, version)` for the newest Maven 3.x binary ZIP,
/// from the HTML of the Apache directory listing
/// (`https://downloads.apache.org/maven/maven-3/`).
pub fn resolve_maven_download(html: &str) -> (r: Result<(String, String), Error>)
    ensures
        r is Ok <==> maven_listing_has_versions(html@),
        r matches Ok((url, version)) ==> is_newest_listed(html@, version@) && url@ == maven_url(version@),
{
    match parse_maven_latest_version(html) {
        Ok(version) => {
            let mut url = owned("https://downloads.apache.org/maven/maven-3/");
            url.append(version.as_str());
            url.append("/binaries/apache-maven-");
            url.append(version.as_str());
            url.append("-bin.zip");
            Ok((url, version))
        },
        Err(e) => Err(e),
    }
}

pub struct MavenPlugin;

impl Plugin for MavenPlugin {
    open spec fn spec_id(&self) -> Seq<char> {
        "maven"@
    }

    fn id(&self) -> (r: &'static str) {
        "maven"
    }

    fn name(&self) -> (r: &'static str)
        ensures
            r@ == "Maven"@,
    {
        "Maven"
    }

    fn description(&self) -> (r: &'static str)
        ensures
            r@ == "Download latest Apache Maven binary ZIP and add it to PATH."@,
    {
        "Download latest Apache Maven binary ZIP and add it to PATH."
    }

    fn status(&self, ctx: &InstallContext, fs: &FsView) -> (r: PluginStatus)
        ensures
            r@ == binary_status_spec(
                fs@,
                join(ctx.host.os, join(ctx.host.os, ctx.install_dir@, "bin"@), if ctx.host.os == HostOS::Windows { "mvn.cmd"@ } else { "mvn"@ }),
                ctx.install_dir@,
                "Install dir exists but mvn binary is missing"@,
            ),
    {
        let bin = path_join2(ctx.host.os, ctx.install_dir.as_str(), "bin", if ctx.host.os == HostOS::Windows { "mvn.cmd" } else { "mvn" });
        binary_status(fs, bin.as_str(), ctx.install_dir.as_str(), "Install dir exists but mvn binary is missing")
    }

    /// The PATH entries.
    fn env_spec(&self, ctx: &InstallContext, fs: &FsView) -> (r: EnvSpec)
        ensures
            r@ == (
                seq![join(ctx.host.os, ctx.install_dir@, "bin"@)],
                Seq::<(Seq<char>, Seq<char>)>::empty(),
            ),
    {
        let r = env_of(vec![path_join(ctx.host.os, ctx.install_dir.as_str(), "bin")], Vec::new());
        assert(r@.0 =~= seq![join(ctx.host.os, ctx.install_dir@, "bin"@)]);
        assert(r@.1 =~= Seq::<(Seq<char>, Seq<char>)>::empty());
        r
    }
}

} // verus!
