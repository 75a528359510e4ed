//! Plugin contract for DevKit installers.
use crate::paths::FsView;
use crate::platform::Host;
use crate::text::owned;
use vstd::prelude::*;

verus! {

#[derive(Debug, Clone, Copy, PartialEq, Eq, Structural)]
pub enum InstallState {
    Installed,
    NotInstalled,
    Partial,
}

/// The label each state is printed with.
pub open spec fn state_label(s: InstallState) -> Seq<char> {
    match s {
        InstallState::Installed => "installed"@,
        InstallState::NotInstalled => "not_installed"@,
        InstallState::Partial => "partial"@,
    }
}

impl InstallState {
    pub fn as_str(&self) -> (r: &'static str)
        ensures
            r@ == state_label(*self),
    {
        match self {
            InstallState::Installed => "installed",
            InstallState::NotInstalled => "not_installed",
            InstallState::Partial => "partial",
        }
    }
}

/// An optional string seen as an optional character sequence.
pub open spec fn opt_view(o: Option<String>) -> Option<Seq<char>> {
    match o {
        Some(s) => Some(s@),
        None => None,
    }
}

/// Environment changes a plugin needs after install.
#[derive(Debug, Clone)]
pub struct EnvSpec {
    /// Directories to prepend to the user PATH.
    pub paths: Vec<String>,
    /// Environment variable name -> value mappings.
    pub vars: Vec<(String, String)>,
}

impl View for EnvSpec {
    type V = (Seq<Seq<char>>, Seq<(Seq<char>, Seq<char>)>);

    open spec fn view(&self) -> Self::V {
        (
            self.paths@.map_values(|p: String| p@),
            self.vars@.map_values(|kv: (String, String)| (kv.0@, kv.1@)),
        )
    }
}

impl EnvSpec {
    /// No PATH entries and no variables.
    pub fn new() -> (r: Self)
        ensures
            r.paths@.len() == 0,
            r.vars@.len() == 0,
    {
        EnvSpec { paths: Vec::new(), vars: Vec::new() }
    }
}

/// Runtime context passed into plugin install/uninstall/status.
#[derive(Debug, Clone)]
pub struct InstallContext {
    /// Target folder, e.g. `C:\dev\flutter`.
    pub install_dir: String,
    /// Machine `dev` root, e.g. `C:\dev` (see `DEVKIT_HOME`).
    pub home: String,
    /// Optional SDK version / feature request from `install --version`.
    pub version: Option<String>,
    /// Optional release channel from `install --channel` (e.g. Flutter).
    pub channel: Option<String>,
    /// The machine the install runs on.
    pub host: Host,
}

/// Outcome of a successful plugin install.
#[derive(Debug, Clone)]
pub struct InstallResult {
    pub install_dir: String,
    pub message: String,
}

impl InstallResult {
    pub fn new(install_dir: String, message: String) -> (r: Self)
        ensures
            r.install_dir == install_dir,
            r.message == message,
    {
        InstallResult { install_dir, message }
    }
}

/// Reported status for a plugin.
#[derive(Debug, Clone)]
pub struct PluginStatus {
    pub state: InstallState,
    pub install_dir: Option<String>,
    pub detail: String,
}

impl View for PluginStatus {
    type V = (InstallState, Option<Seq<char>>, Seq<char>);

    open spec fn view(&self) -> Self::V {
        (self.state, opt_view(self.install_dir), self.detail@)
    }
}

impl PluginStatus {
    /// A status with an empty detail.
    pub fn new(state: InstallState, install_dir: Option<String>) -> (r: Self)
        ensures
            r.state == state,
            r.install_dir == install_dir,
            r.detail@ == Seq::<char>::empty(),
    {
        PluginStatus { state, install_dir, detail: String::new() }
    }

    /// The same status with `detail` replaced.
    pub fn with_detail(self, detail: String) -> (r: Self)
        ensures
            r.state == self.state,
            r.install_dir == self.install_dir,
            r.detail == detail,
    {
        PluginStatus { state: self.state, install_dir: self.install_dir, detail }
    }
}

/// Abstract installer plugin.
///
/// Implement this and register it in `plugins::all()` to expose
/// `devkit install <id>`. `status` and `env_spec` read the install folder
/// through a snapshot of the file system.
pub trait Plugin {
    /// The plugin id as a character sequence.
    spec fn spec_id(&self) -> Seq<char>;

    fn id(&self) -> (r: &'static str)
        ensures
            r@ == self.spec_id(),
    ;

    fn name(&self) -> &'static str;

    /// A one-line description; empty unless the plugin gives one.
    fn description(&self) -> (r: &'static str)
        default_ensures
            r@ == ""@,
    {
        ""
    }

    /// Return whether this plugin is installed.
    fn status(&self, ctx: &InstallContext, fs: &FsView) -> PluginStatus;

    /// Declare PATH entries and env vars for this install.
    fn env_spec(&self, ctx: &InstallContext, fs: &FsView) -> EnvSpec;
}

/// A copy of the install folder, for the `install_dir` of a status.
pub fn dir_of(ctx: &InstallContext) -> (r: Option<String>)
    ensures
        r matches Some(s) && s@ == ctx.install_dir@,
{
    Some(owned(ctx.install_dir.as_str()))
}


/// `name.exe` on Windows, `name` elsewhere.
pub open spec fn exe(os: crate::platform::HostOS, name: Seq<char>) -> Seq<char> {
    if os == crate::platform::HostOS::Windows {
        name + ".exe"@
    } else {
        name
    }
}

/// The file name of an executable on `os`.
pub fn exe_name(os: crate::platform::HostOS, name: &str) -> (r: String)
    ensures
        r@ == exe(os, name@),
{
    let mut s = owned(name);
    if os == crate::platform::HostOS::Windows {
        s.append(".exe");
    }
    s
}

/// An environment spec with these PATH entries and variables.
pub fn env_of(paths: Vec<String>, vars: Vec<(String, String)>) -> (r: EnvSpec)
    ensures
        r.paths == paths,
        r.vars == vars,
{
    EnvSpec { paths, vars }
}

/// The install folder with links resolved (as the snapshot knows it).
pub fn resolved_dir(ctx: &InstallContext, fs: &FsView) -> (r: String)
    ensures
        r@ == crate::paths::fs_canonical(ctx.host.os, fs@, ctx.install_dir@),
{
    fs.canonical(ctx.host.os, ctx.install_dir.as_str())
}

} // verus!
