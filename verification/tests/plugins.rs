use devkit::error::Error;
use devkit::json::Json;
use devkit::paths::FsView;
use devkit::platform::{cpu_arch, current_os, Host, HostOS};
use devkit::plugin::{InstallContext, InstallState, Plugin};
use devkit::plugins::android::{layout_cmdline_tools, resolve_cmdline_tools_url, AndroidPlugin};
use devkit::plugins::bun::{bun_bin_exec, BunPlugin};
use devkit::plugins::cmake::{cmake_bin_exec, CmakePlugin};
use devkit::plugins::composer::ComposerPlugin;
use devkit::plugins::deno::DenoPlugin;
use devkit::plugins::docker::{channel_dir, DockerPlugin};
use devkit::plugins::dotnet::DotnetPlugin;
use devkit::plugins::flutter::{arch_hints, match_version, normalize_channel, score_archive, FlutterPlugin};
use devkit::plugins::git::{git_binary, GitPlugin};
use devkit::plugins::go::{go_os_arch, GoPlugin};
use devkit::plugins::gradle::GradlePlugin;
use devkit::plugins::hello::HelloPlugin;
use devkit::plugins::jdk::{adoptium_latest_url, latest_feature, parse_jdk_feature, temurin_version_label, JdkPlugin};
use devkit::plugins::junit::{parse_junit_release_version, resolve_junit_download, JunitPlugin};
use devkit::plugins::kubectl::KubectlPlugin;
use devkit::plugins::maven::MavenPlugin;
use devkit::plugins::mono::{find_mono_bin_dir, mono_source, MonoPlugin, MonoSource};
use devkit::plugins::msys2::{msys2_check_os, resolve_msys2_download, Msys2Plugin};
use devkit::plugins::mysql::MysqlPlugin;
use devkit::plugins::ninja::NinjaPlugin;
use devkit::plugins::node::{archive_name, is_lts, NodePlugin};
use devkit::plugins::php::{php_binary, PhpPlugin};
use devkit::plugins::platform_tools::{adb_bin_exec, resolve_platform_tools_url, PlatformToolsPlugin};
use devkit::plugins::pmd::{pick_pmd_bin_asset, PmdPlugin};
use devkit::plugins::pnpm::PnpmPlugin;
use devkit::plugins::postgresql::{pg_wrappers, pgsql_bin, postgresql_install_kind, PgInstall, PostgresqlPlugin};
use devkit::plugins::python::{resolve_python_download, PythonPlugin};
use devkit::plugins::qemu::{qemu_nsis_args, qemu_source, QemuPlugin, QemuSource};
use devkit::plugins::rust::{resolve_rustup_init_url, RustPlugin};
use devkit::plugins::sqlite::{resolve_sqlite_download, SqlitePlugin};
use devkit::plugins::terraform::{is_release, version_key, TerraformPlugin};

fn s(v: &str) -> String {
    v.to_string()
}

fn this_host() -> Host {
    Host { os: current_os("linux"), arch: cpu_arch("x86_64") }
}

fn linux_host() -> Host {
    Host { os: HostOS::Linux, arch: s("x64") }
}

fn ctx_for(id: &str) -> InstallContext {
    InstallContext {
        install_dir: format!("/tmp/devkit-test/{id}"),
        home: s("/tmp/devkit-test"),
        version: None,
        channel: None,
        host: linux_host(),
    }
}

fn empty(ctx: &InstallContext) -> FsView {
    FsView::missing(&ctx.install_dir)
}

/// A snapshot of `root` holding `files` (their folders included).
fn snapshot(root: &str, files: &[&str]) -> FsView {
    let mut dirs: Vec<String> = vec![s(root)];
    for f in files {
        let mut p = s(f);
        while let Some(i) = p.rfind('/') {
            p.truncate(i);
            if p.len() < root.len() {
                break;
            }
            if !dirs.contains(&p) {
                dirs.push(p.clone());
            }
        }
    }
    FsView {
        root: s(root),
        files: files.iter().map(|f| s(f)).collect(),
        nonempty_dirs: dirs.clone(),
        dirs,
        canonical_root: None,
        commands: vec![],
    }
}

fn assert_not_installed(p: &dyn Plugin, id: &str) {
    let ctx = ctx_for(id);
    assert_eq!(p.status(&ctx, &empty(&ctx)).state, InstallState::NotInstalled);
}

#[test]
fn android_status_not_installed_on_empty_dir() {
    assert_not_installed(&AndroidPlugin, "android");
}

#[test]
fn bun_status_not_installed_on_empty_dir() {
    assert_not_installed(&BunPlugin, "bun");
}

#[test]
fn cmake_status_not_installed_on_empty_dir() {
    assert_not_installed(&CmakePlugin, "cmake");
}

#[test]
fn composer_status_not_installed_on_empty_dir() {
    assert_not_installed(&ComposerPlugin, "composer");
}

#[test]
fn deno_status_not_installed_on_empty_dir() {
    assert_not_installed(&DenoPlugin, "deno");
}

#[test]
fn docker_status_not_installed_on_empty_dir() {
    assert_not_installed(&DockerPlugin, "docker");
}

#[test]
fn dotnet_status_not_installed_on_empty_dir() {
    assert_not_installed(&DotnetPlugin, "dotnet");
}

#[test]
fn flutter_status_not_installed_on_empty_dir() {
    assert_not_installed(&FlutterPlugin, "flutter");
}

#[test]
fn go_status_not_installed_on_empty_dir() {
    assert_not_installed(&GoPlugin, "go");
}

#[test]
fn gradle_status_not_installed_on_empty_dir() {
    assert_not_installed(&GradlePlugin, "gradle");
}

#[test]
fn jdk_status_not_installed_on_empty_dir() {
    assert_not_installed(&JdkPlugin, "jdk");
}

#[test]
fn junit_status_not_installed_on_empty_dir() {
    assert_not_installed(&JunitPlugin, "junit");
}

#[test]
fn kubectl_status_not_installed_on_empty_dir() {
    assert_not_installed(&KubectlPlugin, "kubectl");
}

#[test]
fn maven_status_not_installed_on_empty_dir() {
    assert_not_installed(&MavenPlugin, "maven");
}

#[test]
fn mono_status_not_installed_on_empty_dir() {
    assert_not_installed(&MonoPlugin, "mono");
}

#[test]
fn msys2_status_not_installed_on_empty_dir() {
    assert_not_installed(&Msys2Plugin, "msys2");
}

#[test]
fn mysql_status_not_installed_on_empty_dir() {
    assert_not_installed(&MysqlPlugin, "mysql");
}

#[test]
fn ninja_status_not_installed_on_empty_dir() {
    assert_not_installed(&NinjaPlugin, "ninja");
}

#[test]
fn node_status_not_installed_on_empty_dir() {
    assert_not_installed(&NodePlugin, "node");
}

#[test]
fn php_status_not_installed_on_empty_dir() {
    assert_not_installed(&PhpPlugin, "php");
}

#[test]
fn platform_tools_status_not_installed_on_empty_dir() {
    assert_not_installed(&PlatformToolsPlugin, "platform-tools");
}

#[test]
fn pmd_status_not_installed_on_empty_dir() {
    assert_not_installed(&PmdPlugin, "pmd");
}

#[test]
fn pnpm_status_not_installed_on_empty_dir() {
    assert_not_installed(&PnpmPlugin, "pnpm");
}

#[test]
fn postgresql_status_not_installed_on_empty_dir() {
    assert_not_installed(&PostgresqlPlugin, "postgresql");
}

#[test]
fn python_status_not_installed_on_empty_dir() {
    assert_not_installed(&PythonPlugin, "python");
}

#[test]
fn qemu_status_not_installed_on_empty_dir() {
    assert_not_installed(&QemuPlugin, "qemu");
}

#[test]
fn rust_status_not_installed_on_empty_dir() {
    assert_not_installed(&RustPlugin, "rust");
}

#[test]
fn sqlite_status_not_installed_on_empty_dir() {
    assert_not_installed(&SqlitePlugin, "sqlite");
}

#[test]
fn terraform_status_not_installed_on_empty_dir() {
    assert_not_installed(&TerraformPlugin, "terraform");
}

#[test]
fn hello_status_follows_the_snapshot() {
    let ctx = ctx_for("hello");
    assert_eq!(HelloPlugin.status(&ctx, &empty(&ctx)).state, InstallState::NotInstalled);
    let partial = snapshot("/tmp/devkit-test/hello", &["/tmp/devkit-test/hello/bin/hello.txt"]);
    assert_eq!(HelloPlugin.status(&ctx, &partial).state, InstallState::Partial);
    let done = snapshot(
        "/tmp/devkit-test/hello",
        &["/tmp/devkit-test/hello/bin/hello.txt", "/tmp/devkit-test/hello/.devkit-hello"],
    );
    assert_eq!(HelloPlugin.status(&ctx, &done).state, InstallState::Installed);
    let spec = HelloPlugin.env_spec(&ctx, &done);
    assert_eq!(spec.paths, vec![s("/tmp/devkit-test/hello/bin")]);
    assert!(spec.vars.is_empty());
}

#[test]
fn status_partial_when_dir_has_contents_but_no_phar() {
    let ctx = ctx_for("composer");
    let fs = snapshot("/tmp/devkit-test/composer", &["/tmp/devkit-test/composer/stray.txt"]);
    assert_eq!(ComposerPlugin.status(&ctx, &fs).state, InstallState::Partial);
}

#[test]
fn status_partial_when_dir_has_contents_without_client() {
    let ctx = ctx_for("mysql");
    let fs = snapshot("/tmp/devkit-test/mysql", &["/tmp/devkit-test/mysql/README"]);
    assert_eq!(MysqlPlugin.status(&ctx, &fs).state, InstallState::Partial);
}

#[test]
fn resolve_cmdline_tools_url_contains_build() {
    let (url, build) = resolve_cmdline_tools_url(&this_host()).unwrap();
    assert!(build == "16111833" || build == "15641748");
    assert!(url.contains(&build));
    assert!(url.starts_with("https://dl.google.com/android/repository"));
    let (mac_url, mac_build) = resolve_cmdline_tools_url(&Host { os: HostOS::MacOS, arch: s("x64") }).unwrap();
    assert_eq!(mac_build, "15641748");
    assert_eq!(mac_url, "https://dl.google.com/android/repository/commandlinetools-mac-15641748_latest.zip");
    assert!(matches!(
        resolve_cmdline_tools_url(&Host { os: HostOS::Other, arch: s("x64") }),
        Err(Error::UnsupportedOs { .. })
    ));
}

#[test]
fn layout_cmdline_tools_nests_contents() {
    let ctx = ctx_for("android");
    let fs = snapshot("/tmp/devkit-test/android", &["/tmp/devkit-test/android/cmdline-tools/bin/sdkmanager"]);
    let plan = layout_cmdline_tools(&ctx, &fs).unwrap().unwrap();
    assert_eq!(plan.latest, "/tmp/devkit-test/android/cmdline-tools/latest");
    assert!(!plan.remove_latest);
    assert_eq!(
        plan.moves,
        vec![(s("/tmp/devkit-test/android/cmdline-tools/bin"), s("/tmp/devkit-test/android/cmdline-tools/latest/bin"))]
    );
    let done = snapshot("/tmp/devkit-test/android", &["/tmp/devkit-test/android/cmdline-tools/latest/bin/sdkmanager"]);
    assert!(layout_cmdline_tools(&ctx, &done).unwrap().is_none());
    assert!(matches!(layout_cmdline_tools(&ctx, &empty(&ctx)), Err(Error::Missing { .. })));
}

#[test]
fn bun_bin_finds_nested_binary() {
    let ctx = ctx_for("bun");
    let fs = snapshot("/tmp/devkit-test/bun", &["/tmp/devkit-test/bun/nested/bun"]);
    assert_eq!(bun_bin_exec(&ctx, &fs), "/tmp/devkit-test/bun/nested/bun");
}

#[test]
fn channel_dir_returns_known_triple() {
    let (os_slug, arch_slug, ext) = channel_dir(&this_host()).unwrap();
    assert!(["linux", "mac", "win"].contains(&os_slug));
    assert!(["aarch64", "x86_64"].contains(&arch_slug));
    assert!(["tgz", "zip"].contains(&ext));
}

#[test]
fn normalize_channel_defaults_to_stable() {
    assert_eq!(normalize_channel(None).unwrap(), "stable");
    assert_eq!(normalize_channel(Some("Beta")).unwrap(), "beta");
}

#[test]
fn normalize_channel_rejects_unknown() {
    assert!(matches!(normalize_channel(Some("nightly")), Err(Error::UnknownChannel { .. })));
}

#[test]
fn match_version_exact_and_prefix() {
    assert!(match_version("3.24.5", "3.24.5"));
    assert!(match_version("3.24.5", "3.24"));
    assert!(!match_version("3.245", "3.24"));
}

#[test]
fn score_archive_prefers_matching_arch() {
    let arch = cpu_arch("aarch64");
    let hints = arch_hints(&arch);
    if let Some(hint) = hints.first() {
        let matching = format!("flutter_{hint}_1.0.zip");
        assert!(score_archive(&matching, &arch) >= score_archive("flutter_other_1.0.zip", &arch));
    }
}

#[test]
fn git_binary_none_when_missing() {
    let ctx = ctx_for("git");
    assert!(git_binary(&ctx, &empty(&ctx)).is_none());
    let fs = snapshot("/tmp/devkit-test/git", &["/tmp/devkit-test/git/bin/git"]);
    assert_eq!(git_binary(&ctx, &fs), Some(s("/tmp/devkit-test/git/bin/git")));
    assert_eq!(GitPlugin.status(&ctx, &fs).state, InstallState::Installed);
}

#[test]
fn go_os_arch_returns_known_pair() {
    let (goos, goarch) = go_os_arch(&this_host()).unwrap();
    assert!(["windows", "darwin", "linux"].contains(&goos));
    assert!(["amd64", "arm64"].contains(&goarch));
}

#[test]
fn parse_jdk_feature_defaults_when_none() {
    assert_eq!(parse_jdk_feature(None).unwrap(), 25);
    assert_eq!(parse_jdk_feature(Some("  ")).unwrap(), 25);
}

#[test]
fn parse_jdk_feature_parses_major() {
    assert_eq!(parse_jdk_feature(Some("21.0.2")).unwrap(), 21);
    assert_eq!(parse_jdk_feature(Some("17")).unwrap(), 17);
    assert_eq!(parse_jdk_feature(Some("jdk-17")).unwrap(), 17);
    assert_eq!(parse_jdk_feature(Some("JDK17")).unwrap(), 17);
}

#[test]
fn parse_jdk_feature_rejects_invalid() {
    assert!(parse_jdk_feature(Some("abc")).is_err());
    assert!(parse_jdk_feature(Some("7")).is_err());
}

#[test]
fn parse_junit_release_prefers_release_tag() {
    let xml = r#"
        <metadata>
          <versioning>
            <latest>1.11.3</latest>
            <release>1.11.4</release>
          </versioning>
        </metadata>
    "#;
    assert_eq!(parse_junit_release_version(xml).unwrap(), "1.11.4");
}

#[test]
fn resolve_junit_download_honors_requested_version() {
    let (url, version) = resolve_junit_download(Some("1.10.2"), "").unwrap();
    assert_eq!(version, "1.10.2");
    assert!(url.ends_with("/1.10.2/junit-platform-console-standalone-1.10.2.jar"));
}

#[test]
fn find_mono_bin_dir_none_when_missing() {
    let fs = FsView::missing("/tmp/devkit-test/mono");
    assert!(find_mono_bin_dir(HostOS::Linux, &fs, "/tmp/devkit-test/mono").is_none());
}

#[test]
fn find_mono_bin_dir_prefers_shallowest() {
    let root = "/tmp/devkit-test/mono";
    let fs = snapshot(root, &["/tmp/devkit-test/mono/a/b/bin/mono", "/tmp/devkit-test/mono/bin/mono"]);
    assert_eq!(find_mono_bin_dir(HostOS::Linux, &fs, root), Some(s("/tmp/devkit-test/mono/bin")));
}

#[test]
fn mono_source_per_os() {
    match mono_source(HostOS::Windows).unwrap() {
        MonoSource::Msi { url, file_name } => {
            assert!(url.ends_with("/mono-6.12.0.206-x64-0.msi"));
            assert_eq!(file_name, "mono-6.12.0.206-x64.msi");
        },
        _ => panic!("expected the MSI"),
    }
    assert!(matches!(mono_source(HostOS::Linux).unwrap(), MonoSource::System));
    assert!(matches!(mono_source(HostOS::Other), Err(Error::UnsupportedOs { .. })));
}

#[test]
fn msys2_only_on_windows() {
    assert!(msys2_check_os(HostOS::Windows).is_ok());
    assert!(msys2_check_os(HostOS::Linux).is_err());
    let release = Json::Object(vec![
        (s("tag_name"), Json::Str(s("2024-05-07"))),
        (
            s("assets"),
            Json::Array(vec![Json::Object(vec![
                (s("name"), Json::Str(s("msys2-base-x86_64-20240507.tar.xz"))),
                (s("browser_download_url"), Json::Str(s("https://x/base.tar.xz"))),
            ])]),
        ),
    ]);
    assert_eq!(resolve_msys2_download(&release).unwrap(), (s("https://x/base.tar.xz"), s("2024-05-07")));
}

#[test]
fn archive_name_maps_known_keys() {
    assert_eq!(archive_name("v20.11.0", "win-x64-zip").unwrap(), "node-v20.11.0-win-x64.zip");
    assert_eq!(archive_name("20.11.0", "linux-arm64").unwrap(), "node-v20.11.0-linux-arm64.tar.xz");
}

#[test]
fn archive_name_rejects_unknown_key() {
    assert!(archive_name("20.11.0", "bogus").is_err());
}

#[test]
fn is_lts_handles_variants() {
    assert!(!is_lts(None));
    assert!(!is_lts(Some(&Json::Bool(false))));
    assert!(!is_lts(Some(&Json::Null)));
    assert!(is_lts(Some(&Json::Str(s("Hydrogen")))));
}

#[test]
fn php_binary_none_when_missing() {
    let ctx = ctx_for("php");
    assert!(php_binary(&ctx, &empty(&ctx)).is_none());
}

#[test]
fn adb_bin_prefers_nested_platform_tools_dir() {
    let ctx = ctx_for("platform-tools");
    let fs = snapshot("/tmp/devkit-test/platform-tools", &["/tmp/devkit-test/platform-tools/platform-tools/adb"]);
    assert_eq!(adb_bin_exec(&ctx, &fs), "/tmp/devkit-test/platform-tools/platform-tools/adb");
    assert_eq!(adb_bin_exec(&ctx, &empty(&ctx)), "/tmp/devkit-test/platform-tools/adb");
    let (url, v) = resolve_platform_tools_url(HostOS::MacOS).unwrap();
    assert_eq!(url, "https://dl.google.com/android/repository/platform-tools-latest-darwin.zip");
    assert_eq!(v, "latest");
}

fn pmd_release(tag: &str, assets: &[(&str, &str)]) -> Json {
    Json::Object(vec![
        (s("tag_name"), Json::Str(s(tag))),
        (s("html_url"), Json::Str(s("https://github.com/pmd/pmd/releases"))),
        (
            s("assets"),
            Json::Array(
                assets
                    .iter()
                    .map(|(n, u)| {
                        Json::Object(vec![(s("name"), Json::Str(s(n))), (s("browser_download_url"), Json::Str(s(u)))])
                    })
                    .collect(),
            ),
        ),
    ])
}

#[test]
fn pick_pmd_bin_prefers_dist_bin_zip() {
    let release = pmd_release(
        "pmd_releases/7.26.0",
        &[
            ("pmd-dist-7.26.0-src.zip", "https://example.com/src.zip"),
            ("pmd-dist-7.26.0-bin.zip", "https://example.com/pmd-dist-7.26.0-bin.zip"),
        ],
    );
    let (url, tag) = pick_pmd_bin_asset(&release).unwrap();
    assert_eq!(url, "https://example.com/pmd-dist-7.26.0-bin.zip");
    assert_eq!(tag, "pmd_releases/7.26.0");
}

#[test]
fn pick_pmd_bin_falls_back_to_legacy_name() {
    let release = pmd_release("pmd_releases/6.55.0", &[("pmd-bin-6.55.0.zip", "https://example.com/pmd-bin-6.55.0.zip")]);
    let (url, _) = pick_pmd_bin_asset(&release).unwrap();
    assert!(url.ends_with("pmd-bin-6.55.0.zip"));
}

#[test]
fn pgsql_bin_none_when_missing() {
    let ctx = ctx_for("postgresql");
    assert!(pgsql_bin(&ctx, &empty(&ctx)).is_none());
    let fs = snapshot("/tmp/devkit-test/postgresql", &["/tmp/devkit-test/postgresql/pgsql/bin/psql"]);
    assert_eq!(pgsql_bin(&ctx, &fs), Some(s("/tmp/devkit-test/postgresql/pgsql/bin/psql")));
    let spec = PostgresqlPlugin.env_spec(&ctx, &fs);
    assert_eq!(spec.paths, vec![s("/tmp/devkit-test/postgresql/pgsql/bin")]);
}

#[test]
fn postgresql_install_routes_and_wrappers() {
    assert_eq!(postgresql_install_kind(HostOS::Windows).unwrap(), PgInstall::WindowsZip);
    assert_eq!(postgresql_install_kind(HostOS::Linux).unwrap(), PgInstall::SystemClients);
    assert!(postgresql_install_kind(HostOS::Other).is_err());
    let found = vec![None, Some(s("/usr/bin/pg_dump")), None, None, None];
    let w = pg_wrappers(&found, "/opt/psql");
    assert_eq!(w.len(), 2);
    assert_eq!(w[0], (s("psql"), s("#!/usr/bin/env bash\nexec \"/opt/psql\" \"$@\"\n")));
    assert_eq!(w[1].0, "pg_dump");
}

#[test]
fn resolve_python_download_builds_expected_url() {
    let (url, version) = resolve_python_download(&this_host()).unwrap();
    assert_eq!(version, "3.12.13");
    assert!(url.contains("cpython-3.12.13%2B20260728-"));
    assert!(url.starts_with("https://github.com/astral-sh/python-build-standalone/releases/download/"));
}

#[test]
fn qemu_sources_and_installer_args() {
    match qemu_source(HostOS::MacOS).unwrap() {
        QemuSource::System { label, hint } => {
            assert_eq!(label, "macOS");
            assert_eq!(hint, "  brew install qemu");
        },
        _ => panic!("expected the system QEMU"),
    }
    assert!(matches!(qemu_source(HostOS::Windows).unwrap(), QemuSource::Installer { .. }));
    assert_eq!(qemu_nsis_args("C:\\dev\\qemu\\\\"), vec![s("/S"), s("/D=C:\\dev\\qemu")]);
}

#[test]
fn resolve_rustup_init_url_contains_triple() {
    let url = resolve_rustup_init_url(&this_host()).unwrap();
    assert!(url.starts_with("https://static.rust-lang.org/rustup/dist/"));
    assert!(url.ends_with("rustup-init.exe") || url.ends_with("rustup-init"));
}

#[test]
fn parses_version_and_url_pattern() {
    let html = "blah 2026/sqlite-tools-win-x64-3530400.zip,12345,abcdef blah";
    let host = Host { os: HostOS::Windows, arch: s("x64") };
    let (url, version) = resolve_sqlite_download(html, &host).unwrap();
    assert_eq!(url, "https://www.sqlite.org/2026/sqlite-tools-win-x64-3530400.zip");
    assert_eq!(version, "3530400");
}

#[test]
fn is_release_filters_prereleases() {
    assert!(is_release("1.9.5"));
    assert!(!is_release("1.9.5-beta1"));
    assert!(!is_release(""));
}

#[test]
fn version_key_picks_max_numeric() {
    let versions = vec!["1.9.5", "1.10.0", "1.2.0"];
    let max = versions.into_iter().max_by_key(|v| version_key(v)).unwrap();
    assert_eq!(max, "1.10.0");
}

#[test]
fn env_specs_set_no_variables() {
    let ctx = ctx_for("android");
    let fs = empty(&ctx);
    let spec = AndroidPlugin.env_spec(&ctx, &fs);
    assert_eq!(
        spec.paths,
        vec![s("/tmp/devkit-test/android/cmdline-tools/latest/bin"), s("/tmp/devkit-test/android/platform-tools")]
    );
    assert!(spec.vars.is_empty());
    let jdk = ctx_for("jdk");
    assert!(JdkPlugin.env_spec(&jdk, &empty(&jdk)).vars.is_empty());
}

#[test]
fn jdk_latest_feature_follows_installed_major() {
    assert_eq!(latest_feature(None), 25);
    assert_eq!(latest_feature(Some("21.0.2")), 21);
    assert_eq!(latest_feature(Some("1.8.0")), 25);
    assert_eq!(latest_feature(Some("garbage")), 25);
}

#[test]
fn jdk_adoptium_latest_url_names_feature_arch_and_os() {
    let host = Host { os: HostOS::Linux, arch: s("x64") };
    assert_eq!(
        adoptium_latest_url(21, &host).unwrap(),
        "https://api.adoptium.net/v3/assets/latest/21/hotspot?architecture=x64&image_type=jdk&os=linux&vendor=eclipse"
    );
    let other = Host { os: HostOS::Other, arch: s("x64") };
    assert!(matches!(adoptium_latest_url(21, &other), Err(Error::UnsupportedOs { .. })));
}

#[test]
fn jdk_temurin_version_label_reads_first_asset() {
    let version = Json::Object(vec![
        (s("major"), Json::Number(s("21"))),
        (s("minor"), Json::Number(s("0"))),
        (s("security"), Json::Number(s("5"))),
    ]);
    let data = Json::Array(vec![Json::Object(vec![(s("version"), version)])]);
    assert_eq!(temurin_version_label(&data), Some(s("21.0.5")));
    assert_eq!(temurin_version_label(&Json::Array(vec![])), None);
}

#[test]
fn cmake_bin_defaults_to_bin_dir_on_unix() {
    let ctx = ctx_for("cmake");
    assert_eq!(cmake_bin_exec(&ctx, &empty(&ctx)), "/tmp/devkit-test/cmake/bin/cmake");
}
