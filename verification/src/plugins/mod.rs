//! Built-in DevKit plugins.
//!
//! Every plugin module is declared and registered here explicitly.
use crate::registry::PluginEntry;
use vstd::prelude::*;

pub mod android;
pub mod bun;
pub mod cmake;
pub mod composer;
pub mod deno;
pub mod docker;
pub mod dotnet;
pub mod flutter;
pub mod git;
pub mod go;
pub mod gradle;
pub mod hello;
pub mod jdk;
pub mod junit;
pub mod kubectl;
pub mod maven;
pub mod mono;
pub mod msys2;
pub mod mysql;
pub mod ninja;
pub mod node;
pub mod php;
pub mod platform_tools;
pub mod pmd;
pub mod pnpm;
pub mod postgresql;
pub mod python;
pub mod qemu;
pub mod rust;
pub mod sqlite;
pub mod terraform;

verus! {

/// The ids of the built-in plugins, in the order `all` lists them.
pub open spec fn builtin_ids() -> Seq<Seq<char>> {
    seq![
        "android"@,
        "bun"@,
        "cmake"@,
        "composer"@,
        "deno"@,
        "docker"@,
        "dotnet"@,
        "flutter"@,
        "git"@,
        "go"@,
        "gradle"@,
        "hello"@,
        "jdk"@,
        "junit"@,
        "kubectl"@,
        "maven"@,
        "mono"@,
        "msys2"@,
        "mysql"@,
        "ninja"@,
        "node"@,
        "php"@,
        "platform-tools"@,
        "pmd"@,
        "pnpm"@,
        "postgresql"@,
        "python"@,
        "qemu"@,
        "rust"@,
        "sqlite"@,
        "terraform"@,
    ]
}

/// The built-in ids are in strictly increasing order, so no two are equal.
pub proof fn lemma_builtin_ids_sorted()
    ensures
        crate::registry::strictly_sorted(builtin_ids()),
        builtin_ids().len() == 31,
{
    reveal_strlit("android");
    reveal_strlit("bun");
    reveal_strlit("cmake");
    reveal_strlit("composer");
    reveal_strlit("deno");
    reveal_strlit("docker");
    reveal_strlit("dotnet");
    reveal_strlit("flutter");
    reveal_strlit("git");
    reveal_strlit("go");
    reveal_strlit("gradle");
    reveal_strlit("hello");
    reveal_strlit("jdk");
    reveal_strlit("junit");
    reveal_strlit("kubectl");
    reveal_strlit("maven");
    reveal_strlit("mono");
    reveal_strlit("msys2");
    reveal_strlit("mysql");
    reveal_strlit("ninja");
    reveal_strlit("node");
    reveal_strlit("php");
    reveal_strlit("platform-tools");
    reveal_strlit("pmd");
    reveal_strlit("pnpm");
    reveal_strlit("postgresql");
    reveal_strlit("python");
    reveal_strlit("qemu");
    reveal_strlit("rust");
    reveal_strlit("sqlite");
    reveal_strlit("terraform");
    reveal_with_fuel(crate::text::seq_lt, 4);
    assert(crate::text::seq_lt("android"@, "bun"@));
    assert(crate::text::seq_lt("bun"@, "cmake"@));
    assert(crate::text::seq_lt("cmake"@, "composer"@));
    assert(crate::text::seq_lt("composer"@, "deno"@));
    assert(crate::text::seq_lt("deno"@, "docker"@));
    assert(crate::text::seq_lt("docker"@, "dotnet"@));
    assert(crate::text::seq_lt("dotnet"@, "flutter"@));
    assert(crate::text::seq_lt("flutter"@, "git"@));
    assert(crate::text::seq_lt("git"@, "go"@));
    assert(crate::text::seq_lt("go"@, "gradle"@));
    assert(crate::text::seq_lt("gradle"@, "hello"@));
    assert(crate::text::seq_lt("hello"@, "jdk"@));
    assert(crate::text::seq_lt("jdk"@, "junit"@));
    assert(crate::text::seq_lt("junit"@, "kubectl"@));
    assert(crate::text::seq_lt("kubectl"@, "maven"@));
    assert(crate::text::seq_lt("maven"@, "mono"@));
    assert(crate::text::seq_lt("mono"@, "msys2"@));
    assert(crate::text::seq_lt("msys2"@, "mysql"@));
    assert(crate::text::seq_lt("mysql"@, "ninja"@));
    assert(crate::text::seq_lt("ninja"@, "node"@));
    assert(crate::text::seq_lt("node"@, "php"@));
    assert(crate::text::seq_lt("php"@, "platform-tools"@));
    assert(crate::text::seq_lt("platform-tools"@, "pmd"@));
    assert(crate::text::seq_lt("pmd"@, "pnpm"@));
    assert(crate::text::seq_lt("pnpm"@, "postgresql"@));
    assert(crate::text::seq_lt("postgresql"@, "python"@));
    assert(crate::text::seq_lt("python"@, "qemu"@));
    assert(crate::text::seq_lt("qemu"@, "rust"@));
    assert(crate::text::seq_lt("rust"@, "sqlite"@));
    assert(crate::text::seq_lt("sqlite"@, "terraform"@));
    let s = builtin_ids();
    assert forall|i: int| 0 <= i < s.len() - 1 implies crate::text::seq_lt(#[trigger] s[i], s[i + 1]) by {
        if i == 0 { assert(s[i] == "android"@ && s[i + 1] == "bun"@); }
        if i == 1 { assert(s[i] == "bun"@ && s[i + 1] == "cmake"@); }
        if i == 2 { assert(s[i] == "cmake"@ && s[i + 1] == "composer"@); }
        if i == 3 { assert(s[i] == "composer"@ && s[i + 1] == "deno"@); }
        if i == 4 { assert(s[i] == "deno"@ && s[i + 1] == "docker"@); }
        if i == 5 { assert(s[i] == "docker"@ && s[i + 1] == "dotnet"@); }
        if i == 6 { assert(s[i] == "dotnet"@ && s[i + 1] == "flutter"@); }
        if i == 7 { assert(s[i] == "flutter"@ && s[i + 1] == "git"@); }
        if i == 8 { assert(s[i] == "git"@ && s[i + 1] == "go"@); }
        if i == 9 { assert(s[i] == "go"@ && s[i + 1] == "gradle"@); }
        if i == 10 { assert(s[i] == "gradle"@ && s[i + 1] == "hello"@); }
        if i == 11 { assert(s[i] == "hello"@ && s[i + 1] == "jdk"@); }
        if i == 12 { assert(s[i] == "jdk"@ && s[i + 1] == "junit"@); }
        if i == 13 { assert(s[i] == "junit"@ && s[i + 1] == "kubectl"@); }
        if i == 14 { assert(s[i] == "kubectl"@ && s[i + 1] == "maven"@); }
        if i == 15 { assert(s[i] == "maven"@ && s[i + 1] == "mono"@); }
        if i == 16 { assert(s[i] == "mono"@ && s[i + 1] == "msys2"@); }
        if i == 17 { assert(s[i] == "msys2"@ && s[i + 1] == "mysql"@); }
        if i == 18 { assert(s[i] == "mysql"@ && s[i + 1] == "ninja"@); }
        if i == 19 { assert(s[i] == "ninja"@ && s[i + 1] == "node"@); }
        if i == 20 { assert(s[i] == "node"@ && s[i + 1] == "php"@); }
        if i == 21 { assert(s[i] == "php"@ && s[i + 1] == "platform-tools"@); }
        if i == 22 { assert(s[i] == "platform-tools"@ && s[i + 1] == "pmd"@); }
        if i == 23 { assert(s[i] == "pmd"@ && s[i + 1] == "pnpm"@); }
        if i == 24 { assert(s[i] == "pnpm"@ && s[i + 1] == "postgresql"@); }
        if i == 25 { assert(s[i] == "postgresql"@ && s[i + 1] == "python"@); }
        if i == 26 { assert(s[i] == "python"@ && s[i + 1] == "qemu"@); }
        if i == 27 { assert(s[i] == "qemu"@ && s[i + 1] == "rust"@); }
        if i == 28 { assert(s[i] == "rust"@ && s[i + 1] == "sqlite"@); }
        if i == 29 { assert(s[i] == "sqlite"@ && s[i + 1] == "terraform"@); }
    }
    crate::registry::lemma_sorted_by_steps(s);
}

/// Return every built-in plugin instance.
pub fn all() -> (r: Vec<PluginEntry>)
    ensures
        crate::registry::ids_of(r@) == builtin_ids(),
        crate::registry::strictly_sorted(crate::registry::ids_of(r@)),
        r@.len() == 31,
        forall|i: int| 0 <= i < r@.len() ==> crate::registry::entry_ok(#[trigger] r@[i]),
{
    let r: Vec<PluginEntry> = vec![
        PluginEntry { id: "android", plugin: Box::new(android::AndroidPlugin) },
        PluginEntry { id: "bun", plugin: Box::new(bun::BunPlugin) },
        PluginEntry { id: "cmake", plugin: Box::new(cmake::CmakePlugin) },
        PluginEntry { id: "composer", plugin: Box::new(composer::ComposerPlugin) },
        PluginEntry { id: "deno", plugin: Box::new(deno::DenoPlugin) },
        PluginEntry { id: "docker", plugin: Box::new(docker::DockerPlugin) },
        PluginEntry { id: "dotnet", plugin: Box::new(dotnet::DotnetPlugin) },
        PluginEntry { id: "flutter", plugin: Box::new(flutter::FlutterPlugin) },
        PluginEntry { id: "git", plugin: Box::new(git::GitPlugin) },
        PluginEntry { id: "go", plugin: Box::new(go::GoPlugin) },
        PluginEntry { id: "gradle", plugin: Box::new(gradle::GradlePlugin) },
        PluginEntry { id: "hello", plugin: Box::new(hello::HelloPlugin) },
        PluginEntry { id: "jdk", plugin: Box::new(jdk::JdkPlugin) },
        PluginEntry { id: "junit", plugin: Box::new(junit::JunitPlugin) },
        PluginEntry { id: "kubectl", plugin: Box::new(kubectl::KubectlPlugin) },
        PluginEntry { id: "maven", plugin: Box::new(maven::MavenPlugin) },
        PluginEntry { id: "mono", plugin: Box::new(mono::MonoPlugin) },
        PluginEntry { id: "msys2", plugin: Box::new(msys2::Msys2Plugin) },
        PluginEntry { id: "mysql", plugin: Box::new(mysql::MysqlPlugin) },
        PluginEntry { id: "ninja", plugin: Box::new(ninja::NinjaPlugin) },
        PluginEntry { id: "node", plugin: Box::new(node::NodePlugin) },
        PluginEntry { id: "php", plugin: Box::new(php::PhpPlugin) },
        PluginEntry { id: "platform-tools", plugin: Box::new(platform_tools::PlatformToolsPlugin) },
        PluginEntry { id: "pmd", plugin: Box::new(pmd::PmdPlugin) },
        PluginEntry { id: "pnpm", plugin: Box::new(pnpm::PnpmPlugin) },
        PluginEntry { id: "postgresql", plugin: Box::new(postgresql::PostgresqlPlugin) },
        PluginEntry { id: "python", plugin: Box::new(python::PythonPlugin) },
        PluginEntry { id: "qemu", plugin: Box::new(qemu::QemuPlugin) },
        PluginEntry { id: "rust", plugin: Box::new(rust::RustPlugin) },
        PluginEntry { id: "sqlite", plugin: Box::new(sqlite::SqlitePlugin) },
        PluginEntry { id: "terraform", plugin: Box::new(terraform::TerraformPlugin) },
    ];
    assert(crate::registry::ids_of(r@) =~= builtin_ids());
    assert(forall|i: int| 0 <= i < r@.len() ==> crate::registry::entry_ok(#[trigger] r@[i]));
    proof {
        lemma_builtin_ids_sorted();
    }
    r
}

} // verus!
