//! Composer plugin — `composer.phar` plus a launcher; needs PHP on PATH.
use crate::error::Error;
use crate::json::{array_field, array_of, bool_field, field, members_of, member_from, or_default, str_field, Json};
use crate::paths::{fs_canonical, fs_has_contents, fs_is_dir, fs_is_file, join, parent, parent_of, path_join, path_join2, path_join3, FsView};
use crate::platform::{Host, HostOS};
use crate::plugin::{dir_of, env_of, exe, exe_name, resolved_dir, EnvSpec, InstallContext, InstallState, Plugin,
    PluginStatus};
use crate::plugin_utils::{binary_status, binary_status_spec};
use crate::text::{chars_of, contains, ends_with, eq_str, lowercase, owned, starts_with, trim};
use vstd::prelude::*;

verus! {

/// The launcher: `composer.bat` on Windows, `composer` elsewhere.
pub open spec fn composer_wrapper(os: HostOS, dir: Seq<char>) -> Seq<char> {
    join(os, dir, if os == HostOS::Windows { "composer.bat"@ } else { "composer"@ })
}

/// Where the latest stable Composer is downloaded from.
pub fn composer_phar_url() -> (r: &'static str)
    ensures
        r@ == "https://getcomposer.org/download/latest-stable/composer.phar"@,
{
    "https://getcomposer.org/download/latest-stable/composer.phar"
}

/// The launcher scripts an install writes: file name and contents.
pub fn composer_wrappers(os: HostOS) -> (r: Vec<(String, String)>)
    ensures
        os == HostOS::Windows ==> r@.len() == 2 && r@[0].0@ == "composer.bat"@ && r@[1].0@ == "composer.cmd"@
            && r@[0].1@ == r@[1].1@,
        os != HostOS::Windows ==> r@.len() == 1 && r@[0].0@ == "composer"@,
{
    if os == HostOS::Windows {
        let content = "@echo off\r\nphp \"%~dp0composer.phar\" %*\r\n";
        vec![(owned("composer.bat"), owned(content)), (owned("composer.cmd"), owned(content))]
    } else {
        vec![(owned("composer"), owned("#!/usr/bin/env bash\nDIR=\"$(cd \"$(dirname \"$0\")\" && pwd)\"\nexec php \"$DIR/composer.phar\" \"$@\"\n"))]
    }
}

pub struct ComposerPlugin;

impl Plugin for ComposerPlugin {
    open spec fn spec_id(&self) -> Seq<char> {
        "composer"@
    }

    fn id(&self) -> (r: &'static str) {
        "composer"
    }

    fn name(&self) -> (r: &'static str)
        ensures
            r@ == "Composer"@,
    {
        "Composer"
    }

    fn description(&self) -> (r: &'static str)
        ensures
            r@ == "Download latest stable Composer (composer.phar) into the machine dev folder. Requires PHP on PATH."@,
    {
        "Download latest stable Composer (composer.phar) into the machine dev folder. Requires PHP on PATH."
    }

    /// Installed when the phar and the launcher exist (with a warning when
    /// `php` is not on PATH); partial when the folder has other contents.
    fn status(&self, ctx: &InstallContext, fs: &FsView) -> (r: PluginStatus)
        ensures
            ({
                let os = ctx.host.os;
                let dir = ctx.install_dir@;
                if fs_is_file(fs@, join(os, dir, "composer.phar"@)) && fs_is_file(fs@, composer_wrapper(os, dir)) {
                    r@ == (
                        InstallState::Installed,
                        Some(dir),
                        if crate::paths::fs_has_command(fs@, "php"@) {
                            composer_wrapper(os, dir)
                        } else {
                            composer_wrapper(os, dir) + " (warning: php not found on PATH)"@
                        },
                    )
                } else if fs_has_contents(fs@, dir) {
                    r@ == (InstallState::Partial, Some(dir), "Install dir exists but composer files are incomplete"@)
                } else {
                    r@ == (InstallState::NotInstalled, Some(dir), Seq::<char>::empty())
                }
            }),
    {
        let os = ctx.host.os;
        let phar = path_join(os, ctx.install_dir.as_str(), "composer.phar");
        let wrapper = path_join(os, ctx.install_dir.as_str(), if os == HostOS::Windows { "composer.bat" } else { "composer" });
        if fs.is_file(phar.as_str()) && fs.is_file(wrapper.as_str()) {
            let mut detail = owned(wrapper.as_str());
            if !fs.has_command("php") {
                detail.append(" (warning: php not found on PATH)");
            }
            return PluginStatus::new(InstallState::Installed, Some(owned(ctx.install_dir.as_str()))).with_detail(detail);
        }
        if fs.has_contents(ctx.install_dir.as_str()) {
            return PluginStatus::new(InstallState::Partial, Some(owned(ctx.install_dir.as_str())))
                .with_detail(owned("Install dir exists but composer files are incomplete"));
        }
        PluginStatus::new(InstallState::NotInstalled, Some(owned(ctx.install_dir.as_str())))
    }

    /// The install folder on PATH.
    fn env_spec(&self, ctx: &InstallContext, fs: &FsView) -> (r: EnvSpec)
        ensures
            r@ == (
                seq![ctx.install_dir@],
                Seq::<(Seq<char>, Seq<char>)>::empty(),
            ),
    {
        let r = env_of(vec![owned(ctx.install_dir.as_str())], Vec::new());
        assert(r@.0 =~= seq![ctx.install_dir@]);
        assert(r@.1 =~= Seq::<(Seq<char>, Seq<char>)>::empty());
        r
    }
}

} // verus!
