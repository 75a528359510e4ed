//! JUnit plugin — JUnit Platform Console Standalone jar from Maven Central.
use crate::error::Error;
use crate::json::{array_field, array_of, bool_field, field, members_of, member_from, or_default, str_field, Json};
use crate::paths::{fs_canonical, fs_has_contents, fs_is_dir, fs_is_file, join, parent, parent_of, path_join, path_join2, path_join3, FsView};
use crate::platform::{Host, HostOS};
use crate::plugin::{dir_of, env_of, exe, exe_name, resolved_dir, EnvSpec, InstallContext, InstallState, Plugin,
    PluginStatus};
use crate::plugin_utils::{binary_status, binary_status_spec};
use crate::text::{chars_of, eq_str, owned};
use crate::scan::{capture_all, captures};
use vstd::prelude::*;

verus! {

/// The first capture of `pattern`'s group in `xml`, trimmed, when it is not empty.
pub open spec fn first_tag_value(pattern: Seq<char>, xml: Seq<char>) -> Option<Seq<char>> {
    match capture_all(pattern, xml, 1) {
        Some(found) => if found.len() > 0 && crate::text::trim(found[0]).len() > 0 {
            Some(crate::text::trim(found[0]))
        } else {
            None
        },
        None => None,
    }
}

pub open spec fn release_pattern() -> Seq<char> {
    "<release>([^<]+)</release>"@
}

pub open spec fn latest_pattern() -> Seq<char> {
    "<latest>([^<]+)</latest>"@
}

fn first_tag_value_exec(pattern: &str, xml: &str) -> (r: Option<String>)
    ensures
        match r {
            Some(v) => first_tag_value(pattern@, xml@) == Some(v@),
            None => first_tag_value(pattern@, xml@) is None,
        },
{
    match captures(pattern, xml, 1) {
        Some(found) => {
            if found.len() > 0 {
                let t = crate::text::trim_exec(chars_of(found[0].as_str()).as_slice());
                assert(found@.map_values(|s: String| s@)[0] == found@[0]@);
                if t.len() > 0 {
                    return Some(crate::text::string_of(t.as_slice()));
                }
            }
            None
        },
        None => None,
    }
}

/// Parse `<release>` (preferred) or `<latest>` from Maven metadata XML.
pub fn parse_junit_release_version(xml: &str) -> (r: Result<String, Error>)
    ensures
        match first_tag_value(release_pattern(), xml@) {
            Some(v) => r matches Ok(s) && s@ == v,
            None => match first_tag_value(latest_pattern(), xml@) {
                Some(v) => r matches Ok(s) && s@ == v,
                None => r is Err,
            },
        },
{
    match first_tag_value_exec("<release>([^<]+)</release>", xml) {
        Some(v) => Ok(v),
        None => match first_tag_value_exec("<latest>([^<]+)</latest>", xml) {
            Some(v) => Ok(v),
            None => Err(Error::NoRelease { tool: "JUnit", detail: owned("Could not parse JUnit version from Maven metadata") }),
        },
    }
}

/// Where a JUnit release's jar lives on Maven Central.
pub open spec fn junit_url(version: Seq<char>) -> Seq<char> {
    "https://repo1.maven.org/maven2/org/junit/platform/junit-platform-console-standalone/"@ + version
        + "/junit-platform-console-standalone-"@ + version + ".jar"@
}

/// Return `(jar_url, version)`: `requested` (trimmed) pins a release,
/// otherwise the version the Maven metadata XML names.
pub fn resolve_junit_download(requested: Option<&str>, metadata_xml: &str) -> (r: Result<(String, String), Error>)
    ensures
        match requested {
            Some(v) => if crate::text::trim(v@).len() == 0 {
                r matches Err(Error::InvalidVersion { .. })
            } else {
                r matches Ok((url, version)) && version@ == crate::text::trim(v@) && url@ == junit_url(version@)
            },
            None => match first_tag_value(release_pattern(), metadata_xml@) {
                Some(v) => r matches Ok((url, version)) && version@ == v && url@ == junit_url(v),
                None => match first_tag_value(latest_pattern(), metadata_xml@) {
                    Some(v) => r matches Ok((url, version)) && version@ == v && url@ == junit_url(v),
                    None => r is Err,
                },
            },
        },
{
    let version = match requested {
        Some(v) => {
            let t = crate::text::trim_exec(chars_of(v).as_slice());
            if t.len() == 0 {
                return Err(Error::InvalidVersion { tool: "JUnit", given: owned(v) });
            }
            crate::text::string_of(t.as_slice())
        },
        None => match parse_junit_release_version(metadata_xml) {
            Ok(v) => v,
            Err(e) => {
                return Err(e);
            },
        },
    };
    let mut url = owned("https://repo1.maven.org/maven2/org/junit/platform/junit-platform-console-standalone/");
    url.append(version.as_str());
    url.append("/junit-platform-console-standalone-");
    url.append(version.as_str());
    url.append(".jar");
    Ok((url, version))
}

/// The jar in the install folder.
pub open spec fn junit_jar(os: HostOS, dir: Seq<char>) -> Seq<char> {
    join(os, dir, "junit-platform-console-standalone.jar"@)
}

/// The launcher script: `junit.cmd` on Windows, `junit` elsewhere.
pub open spec fn junit_wrapper(os: HostOS, dir: Seq<char>) -> Seq<char> {
    join(os, dir, if os == HostOS::Windows { "junit.cmd"@ } else { "junit"@ })
}

/// The launcher scripts an install writes into the install folder: file
/// name and contents.
pub fn junit_wrappers(os: HostOS) -> (r: Vec<(String, String)>)
    ensures
        os == HostOS::Windows ==> r@.len() == 2 && r@[0].0@ == "junit.cmd"@ && r@[1].0@ == "junit.bat"@
            && r@[0].1@ == r@[1].1@,
        os != HostOS::Windows ==> r@.len() == 1 && r@[0].0@ == "junit"@,
{
    if os == HostOS::Windows {
        let content = "@echo off\r\njava -jar \"%~dp0junit-platform-console-standalone.jar\" %*\r\n";
        vec![(owned("junit.cmd"), owned(content)), (owned("junit.bat"), owned(content))]
    } else {
        vec![(owned("junit"), owned("#!/usr/bin/env bash\nDIR=\"$(cd \"$(dirname \"$0\")\" && pwd)\"\nexec java -jar \"$DIR/junit-platform-console-standalone.jar\" \"$@\"\n"))]
    }
}

pub struct JunitPlugin;

impl Plugin for JunitPlugin {
    open spec fn spec_id(&self) -> Seq<char> {
        "junit"@
    }

    fn id(&self) -> (r: &'static str) {
        "junit"
    }

    fn name(&self) -> (r: &'static str)
        ensures
            r@ == "JUnit"@,
    {
        "JUnit"
    }

    fn description(&self) -> (r: &'static str)
        ensures
            r@ == "Download JUnit Platform Console Standalone from Maven Central (optional --version) and add it to PATH. Needs Java to run; use the jdk plugin. Works alongside gradle and maven."@,
    {
        "Download JUnit Platform Console Standalone from Maven Central (optional --version) and add it to PATH. Needs Java to run; use the jdk plugin. Works alongside gradle and maven."
    }

    /// Installed when the jar and the launcher exist (with a warning when
    /// `java` is not on PATH); partial when the folder has other contents.
    fn status(&self, ctx: &InstallContext, fs: &FsView) -> (r: PluginStatus)
        ensures
            ({
                let os = ctx.host.os;
                let dir = ctx.install_dir@;
                if fs_is_file(fs@, junit_jar(os, dir)) && fs_is_file(fs@, junit_wrapper(os, dir)) {
                    r@ == (
                        InstallState::Installed,
                        Some(dir),
                        if crate::paths::fs_has_command(fs@, "java"@) {
                            junit_wrapper(os, dir)
                        } else {
                            junit_wrapper(os, dir) + " (warning: java not found on PATH)"@
                        },
                    )
                } else if fs_has_contents(fs@, dir) {
                    r@ == (InstallState::Partial, Some(dir), "Install dir exists but JUnit jar/wrapper is missing"@)
                } else {
                    r@ == (InstallState::NotInstalled, Some(dir), Seq::<char>::empty())
                }
            }),
    {
        let os = ctx.host.os;
        let jar = path_join(os, ctx.install_dir.as_str(), "junit-platform-console-standalone.jar");
        let wrapper = path_join(os, ctx.install_dir.as_str(), if os == HostOS::Windows { "junit.cmd" } else { "junit" });
        if fs.is_file(jar.as_str()) && fs.is_file(wrapper.as_str()) {
            let mut detail = owned(wrapper.as_str());
            if !fs.has_command("java") {
                detail.append(" (warning: java not found on PATH)");
            }
            return PluginStatus::new(InstallState::Installed, Some(owned(ctx.install_dir.as_str()))).with_detail(detail);
        }
        if fs.has_contents(ctx.install_dir.as_str()) {
            return PluginStatus::new(InstallState::Partial, Some(owned(ctx.install_dir.as_str())))
                .with_detail(owned("Install dir exists but JUnit jar/wrapper is missing"));
        }
        PluginStatus::new(InstallState::NotInstalled, Some(owned(ctx.install_dir.as_str())))
    }

    /// The install folder on PATH.
    fn env_spec(&self, ctx: &InstallContext, fs: &FsView) -> (r: EnvSpec)
        ensures
            r@ == (
                seq![ctx.install_dir@],
                Seq::<(Seq<char>, Seq<char>)>::empty(),
            ),
    {
        let r = env_of(vec![owned(ctx.install_dir.as_str())], Vec::new());
        assert(r@.0 =~= seq![ctx.install_dir@]);
        assert(r@.1 =~= Seq::<(Seq<char>, Seq<char>)>::empty());
        r
    }
}

} // verus!
