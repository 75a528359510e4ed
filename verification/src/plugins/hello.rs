//! Hello stub plugin — download-style ZIP install into the machine `dev` folder.
use crate::paths::{fs_canonical, fs_has_contents, fs_is_file, join, path_join, FsView};
use crate::plugin::{env_of, resolved_dir, EnvSpec, InstallContext, InstallState, Plugin,
    PluginStatus};
use crate::text::owned;
use vstd::prelude::*;

verus! {

/// The file the stub writes once it is installed.
pub open spec fn hello_marker() -> Seq<char> {
    ".devkit-hello"@
}

pub struct HelloPlugin;

impl Plugin for HelloPlugin {
    open spec fn spec_id(&self) -> Seq<char> {
        "hello"@
    }

    fn id(&self) -> (r: &'static str) {
        "hello"
    }

    fn name(&self) -> (r: &'static str)
        ensures
            r@ == "Hello"@,
    {
        "Hello"
    }

    fn description(&self) -> (r: &'static str)
        ensures
            r@ == "Stub plugin: ZIP → extract into machine dev folder → set PATH/env (same flow as Flutter-style SDK installs)."@,
    {
        "Stub plugin: ZIP → extract into machine dev folder → set PATH/env (same flow as Flutter-style SDK installs)."
    }

    /// Installed when the marker file is present; partial when the folder
    /// has contents without it.
    fn status(&self, ctx: &InstallContext, fs: &FsView) -> (r: PluginStatus)
        ensures
            r@ == (if fs_is_file(fs@, join(ctx.host.os, ctx.install_dir@, hello_marker())) {
                (InstallState::Installed, Some(ctx.install_dir@), "Hello marker present"@)
            } else if fs_has_contents(fs@, ctx.install_dir@) {
                (InstallState::Partial, Some(ctx.install_dir@), "Install dir exists without marker"@)
            } else {
                (InstallState::NotInstalled, Some(ctx.install_dir@), Seq::empty())
            }),
    {
        let marker = path_join(ctx.host.os, ctx.install_dir.as_str(), ".devkit-hello");
        if fs.is_file(marker.as_str()) {
            return PluginStatus::new(InstallState::Installed, Some(owned(ctx.install_dir.as_str())))
                .with_detail(owned("Hello marker present"));
        }
        if fs.has_contents(ctx.install_dir.as_str()) {
            return PluginStatus::new(InstallState::Partial, Some(owned(ctx.install_dir.as_str())))
                .with_detail(owned("Install dir exists without marker"));
        }
        PluginStatus::new(InstallState::NotInstalled, Some(owned(ctx.install_dir.as_str())))
    }

    /// `bin` on PATH.
    fn env_spec(&self, ctx: &InstallContext, fs: &FsView) -> (r: EnvSpec)
        ensures
            r@ == (
                seq![join(ctx.host.os, ctx.install_dir@, "bin"@)],
                Seq::<(Seq<char>, Seq<char>)>::empty(),
            ),
    {
        let bin = path_join(ctx.host.os, ctx.install_dir.as_str(), "bin");
        let r = env_of(vec![bin], Vec::new());
        assert(r@.0 =~= seq![join(ctx.host.os, ctx.install_dir@, "bin"@)]);
        assert(r@.1 =~= Seq::<(Seq<char>, Seq<char>)>::empty());
        r
    }
}

} // verus!
