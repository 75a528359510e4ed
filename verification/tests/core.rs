use devkit::error::Error;
use devkit::installers::{extract_msi_admin, extract_pkg, msi_log_tail, msi_run_result, pkg_extraction_supported};
use devkit::json::Json;
use devkit::paths::{
    default_dev_root, expand_tilde, find_files_named, is_creatable, plugin_install_dir, preferred_dev_roots,
    to_absolute, FsView, PathProbe,
};
use devkit::platform::{
    cpu_arch, current_os, is_unix, os_label, pick_for_os, primary_shell_profile, shell_profile_candidates, HostOS,
};
use devkit::plugin::Plugin;
use devkit::plugin_utils::{newest_version, parse_maven_latest_version, pick_release_asset};
use devkit::registry::{default_registry, PluginRegistry};
use devkit::theme::check_mark;
use devkit::plugins::hello::HelloPlugin;
use devkit::plugins::postgresql::postgresql_windows_url;

fn s(v: &str) -> String {
    v.to_string()
}

fn asset(name: &str, url: &str) -> Json {
    Json::Object(vec![(s("name"), Json::Str(s(name))), (s("browser_download_url"), Json::Str(s(url)))])
}

#[test]
fn current_os_matches_target() {
    let os = current_os("linux");
    assert!(os == HostOS::Windows || is_unix(os));
    assert_eq!(current_os("linux"), HostOS::Linux);
    assert_eq!(current_os("macos"), HostOS::MacOS);
    assert_eq!(current_os("windows"), HostOS::Windows);
    assert_eq!(current_os("freebsd"), HostOS::Other);
}

#[test]
fn pick_for_os_falls_back_to_default_key() {
    let v = pick_for_os(HostOS::Linux, "linux", &[("default", "everywhere")], None).unwrap();
    assert_eq!(v, "everywhere");
}

#[test]
fn pick_for_os_errors_without_match() {
    assert!(matches!(
        pick_for_os(HostOS::Linux, "linux", &[("bogus", "x")], None),
        Err(Error::NoValueForOs { .. })
    ));
}

#[test]
fn pick_for_os_prefers_os_key_and_aliases() {
    let map = [("Win32", "w"), ("darwin", "m"), ("linux", "l"), ("*", "d")];
    assert_eq!(pick_for_os(HostOS::Windows, "windows", &map, None).unwrap(), "w");
    assert_eq!(pick_for_os(HostOS::MacOS, "macos", &map, None).unwrap(), "m");
    assert_eq!(pick_for_os(HostOS::Other, "haiku", &map, None).unwrap(), "d");
    assert_eq!(pick_for_os(HostOS::Other, "haiku", &[("linux", "l")], Some("fallback")).unwrap(), "fallback");
}

#[test]
fn cpu_arch_is_known_label() {
    let arch = cpu_arch("x86_64");
    assert!(["x64", "aarch64", "x86"].contains(&arch.as_str()) || !arch.is_empty());
    assert_eq!(cpu_arch("x86_64"), "x64");
    assert_eq!(cpu_arch("ARM64"), "aarch64");
    assert_eq!(cpu_arch("i686"), "x86");
    assert_eq!(cpu_arch("riscv64"), "riscv64");
}

#[test]
fn os_label_names_each_family() {
    assert_eq!(os_label(HostOS::Windows), "Windows");
    assert_eq!(os_label(HostOS::MacOS), "macOS");
    assert_eq!(os_label(HostOS::Linux), "Linux");
    assert_eq!(os_label(HostOS::Other), "Unknown");
}

#[test]
fn shell_profiles_for_zsh_on_macos() {
    let p = shell_profile_candidates(HostOS::MacOS, "/Users/me", "/bin/zsh");
    assert_eq!(p, vec![s("/Users/me/.zshrc"), s("/Users/me/.zprofile"), s("/Users/me/.bashrc"), s("/Users/me/.profile")]);
    let q = shell_profile_candidates(HostOS::Linux, "/home/me", "/bin/bash");
    assert_eq!(
        q,
        vec![s("/home/me/.bashrc"), s("/home/me/.bash_profile"), s("/home/me/.profile"), s("/home/me/.zshrc")]
    );
}

#[test]
fn primary_shell_profile_picks_by_shell() {
    assert_eq!(primary_shell_profile(HostOS::Linux, "/home/me", "/usr/bin/zsh", false), "/home/me/.bashrc");
    assert_eq!(primary_shell_profile(HostOS::MacOS, "/Users/me", "/bin/bash", true), "/Users/me/.zshrc");
    assert_eq!(primary_shell_profile(HostOS::Other, "/home/me", "/usr/bin/zsh", false), "/home/me/.zshrc");
    assert_eq!(primary_shell_profile(HostOS::Linux, "/home/me", "/bin/bash", false), "/home/me/.bashrc");
    assert_eq!(primary_shell_profile(HostOS::Other, "/home/me", "/bin/bash", false), "/home/me/.bash_profile");
    assert_eq!(primary_shell_profile(HostOS::Other, "/home/me", "/bin/bash", true), "/home/me/.bashrc");
    assert_eq!(primary_shell_profile(HostOS::Linux, "/home/me", "/usr/bin/fish", false), "/home/me/.bashrc");
    assert_eq!(primary_shell_profile(HostOS::Other, "/home/me", "/bin/fish", true), "/home/me/.profile");
}

#[test]
fn plugin_install_dir_is_under_home() {
    assert_eq!(plugin_install_dir(HostOS::Linux, "/opt/dev", "hello"), "/opt/dev/hello");
    assert_eq!(plugin_install_dir(HostOS::Windows, "C:\\dev", "hello"), "C:\\dev\\hello");
}

#[test]
fn to_absolute_strips_windows_extended_prefix() {
    let abs = to_absolute(HostOS::Windows, "C:\\dev", Some("\\\\?\\C:\\dev"));
    assert!(!abs.starts_with("\\\\?\\"));
    assert_eq!(abs, "C:\\dev");
    assert_eq!(to_absolute(HostOS::Linux, "rel/x", None), "rel/x");
}

#[test]
fn dev_roots_and_default() {
    assert_eq!(preferred_dev_roots(HostOS::Windows, Some("D:"), "C:\\Users\\me"), vec![s("D:\\dev")]);
    assert_eq!(preferred_dev_roots(HostOS::Linux, None, "/home/me"), vec![s("/opt/dev"), s("/home/me/dev")]);
    let c = vec![(s("/opt/dev"), false), (s("/home/me/dev"), true)];
    assert_eq!(default_dev_root(HostOS::Linux, &c, "/home/me"), "/home/me/dev");
    assert!(is_creatable(&[PathProbe { exists: false, writable: false }, PathProbe { exists: true, writable: true }]));
    assert!(!is_creatable(&[PathProbe { exists: true, writable: false }, PathProbe { exists: true, writable: true }]));
    assert_eq!(expand_tilde(HostOS::Linux, "~/dev", Some("/home/me")), "/home/me/dev");
}

#[test]
fn parse_maven_latest_version_picks_max() {
    let html = r#"<a href="3.9.6/">3.9.6/</a><a href="3.10.1/">3.10.1/</a>"#;
    assert_eq!(parse_maven_latest_version(html).unwrap(), "3.10.1");
}

#[test]
fn parse_maven_latest_version_errors_when_empty() {
    assert!(parse_maven_latest_version("<html></html>").is_err());
}

#[test]
fn newest_version_compares_numerically() {
    let v = vec![s("1.9.5"), s("1.10.0"), s("1.2.0")];
    assert_eq!(newest_version(&v), Some(s("1.10.0")));
    assert_eq!(newest_version(&vec![]), None);
}

#[test]
fn find_files_named_locates_nested_file_shallowest_first() {
    let root = "/t";
    let shallow = "/t/bin/tool";
    let deep = "/t/x/y/bin/tool";
    let fs = FsView {
        root: s(root),
        files: vec![s(deep), s(shallow), s("/t/bin/other")],
        dirs: vec![s("/t"), s("/t/bin"), s("/t/x"), s("/t/x/y"), s("/t/x/y/bin")],
        nonempty_dirs: vec![s("/t"), s("/t/bin"), s("/t/x"), s("/t/x/y"), s("/t/x/y/bin")],
        canonical_root: None,
        commands: vec![],
    };
    let found = find_files_named(HostOS::Linux, &fs, root, "tool");
    assert_eq!(found.len(), 2);
    assert_eq!(found[0], shallow);
    assert_eq!(found[1], deep);
}

#[test]
fn pick_release_asset_matches_all_substrings() {
    let release = Json::Object(vec![
        (s("tag_name"), Json::Str(s("v1.0"))),
        (
            s("assets"),
            Json::Array(vec![
                asset("tool-linux-x64.tar.gz", "https://x/linux"),
                asset("tool-windows-x64.zip", "https://x/windows"),
            ]),
        ),
    ]);
    let (url, tag) = pick_release_asset(&release, &["windows", "x64"]).unwrap();
    assert_eq!(url, "https://x/windows");
    assert_eq!(tag, "v1.0");
    assert!(matches!(pick_release_asset(&release, &["mac"]), Err(Error::NoMatchingAsset { .. })));
}

#[test]
fn default_registry_has_core_plugins() {
    let registry = default_registry();
    assert!(registry.get("hello").is_some());
    assert!(registry.get("junit").is_some());
    assert!(registry.get("gradle").is_some());
    assert!(registry.get("maven").is_some());
    assert!(registry.get("pmd").is_some());
    assert!(registry.require("does-not-exist").is_err());
}

#[test]
fn ids_are_sorted() {
    let registry = default_registry();
    let ids = registry.ids();
    let mut sorted = ids.clone();
    sorted.sort();
    assert_eq!(ids, sorted);
}

#[test]
fn registry_lists_every_builtin_once() {
    let registry = default_registry();
    let ids = registry.ids();
    assert_eq!(ids.len(), 31);
    assert!(ids.contains(&"msys2") && ids.contains(&"qemu") && ids.contains(&"platform-tools"));
    match registry.require("nope") {
        Err(Error::UnknownPlugin { id, known }) => {
            assert_eq!(id, "nope");
            assert_eq!(known.len(), 31);
        },
        _ => panic!("expected an unknown-plugin error"),
    }
    assert_eq!(registry.get("git").unwrap().id(), "git");
}

#[test]
fn extract_msi_admin_missing_file() {
    match extract_msi_admin(HostOS::Windows, "C:\\t\\missing.msi", false, "C:\\t\\out") {
        Err(Error::Missing { what }) => assert!(what.contains("MSI") && what.contains("missing.msi")),
        _ => panic!("expected a missing-MSI error"),
    }
    assert!(matches!(
        extract_msi_admin(HostOS::Linux, "/t/x.msi", true, "/t/out"),
        Err(Error::UnsupportedOs { .. })
    ));
}

#[test]
fn extract_msi_admin_plans_quoted_script() {
    let plan = extract_msi_admin(HostOS::Windows, "C:\\it's\\mono.msi", true, "C:\\dev\\mono\\").unwrap();
    assert_eq!(plan.dest_arg, "C:\\dev\\mono\\");
    assert_eq!(plan.log_path, "C:\\dev\\mono.msiexec.log");
    assert!(plan.script.contains("$msi = 'C:\\it''s\\mono.msi'"));
    assert!(plan.script.contains("$dest = 'C:\\dev\\mono\\'"));
    assert!(plan.script.contains("if ($null -eq $p) { exit 1 }"));
    let plan2 = extract_msi_admin(HostOS::Windows, "C:\\a.msi", true, "C:\\dev\\mono").unwrap();
    assert_eq!(plan2.log_path, "C:\\dev\\mono.msiexec.log");
}

#[test]
fn extract_pkg_picks_largest_payload() {
    assert!(pkg_extraction_supported(HostOS::MacOS).is_ok());
    assert!(matches!(pkg_extraction_supported(HostOS::Linux), Err(Error::UnsupportedOs { .. })));
    let entries = vec![
        (s("/x/a.pkg/Payload"), 10u64),
        (s("/x/b.pkg/Payload"), 30u64),
        (s("/x/b.pkg/Scripts"), 99u64),
        (s("/x/c.pkg/Payload"), 30u64),
    ];
    assert_eq!(extract_pkg(HostOS::MacOS, "Mono.pkg", &entries).unwrap(), "/x/c.pkg/Payload");
    match extract_pkg(HostOS::MacOS, "Mono.pkg", &vec![(s("/x/Bom"), 5u64)]) {
        Err(Error::Missing { what }) => assert!(what.contains("Mono.pkg")),
        _ => panic!("expected a missing-payload error"),
    }
    assert!(matches!(extract_pkg(HostOS::Windows, "Mono.pkg", &entries), Err(Error::UnsupportedOs { .. })));
}

#[test]
fn pick_for_os_error_lists_every_key() {
    match pick_for_os(HostOS::Linux, "linux", &[("Windows", "a"), ("macos", "b")], None) {
        Err(Error::NoValueForOs { os_name, keys }) => {
            assert_eq!(os_name, "linux");
            assert_eq!(keys, vec![s("Windows"), s("macos")]);
        }
        _ => panic!("expected NoValueForOs"),
    }
}

#[test]
fn check_mark_plain_and_colored() {
    assert_eq!(check_mark(false, true), "[ ok ]");
    assert_eq!(check_mark(false, false), "[missing]");
    assert_eq!(check_mark(true, true), "\x1b[32m[ ok ]\x1b[0m");
}

#[test]
fn register_files_plugin_under_its_id() {
    let mut r = PluginRegistry::new();
    r.register(Box::new(HelloPlugin));
    assert_eq!(r.ids(), vec!["hello"]);
    assert_eq!(r.get("hello").map(|p| p.id()), Some("hello"));
    assert_eq!(r.require("hello").map(|p| p.name()).ok(), Some("Hello"));
    r.register(Box::new(HelloPlugin));
    assert_eq!(r.ids(), vec!["hello"]);
    assert!(r.get("nope").is_none());
}

#[test]
fn postgresql_url_pins_release_18() {
    let url = postgresql_windows_url();
    assert!(url.starts_with("https://get.enterprisedb.com/postgresql/postgresql-18."));
    assert!(url.ends_with("-windows-x64-binaries.zip"));
}

#[test]
fn error_messages_read_as_documented() {
    let offline = devkit::download::ensure_internet_access(false).unwrap_err();
    assert!(offline.message().contains("internet"));
    let known = default_registry().require("nope").err().unwrap().message();
    assert!(known.starts_with("Unknown plugin 'nope'. Known: android, bun, "));
    let empty = PluginRegistry::new().require("nope").err().unwrap().message();
    assert_eq!(empty, "Unknown plugin 'nope'. Known: (none)");
    let release = Json::Object(vec![
        (s("tag_name"), Json::Str(s("v1"))),
        (s("html_url"), Json::Str(s("https://github.com/o/r/releases/v1"))),
        (s("assets"), Json::Array(vec![])),
    ]);
    let msg = pick_release_asset(&release, &["linux", ".zip"]).unwrap_err().message();
    assert_eq!(msg, "No GitHub asset matching [\"linux\", \".zip\"] in https://github.com/o/r/releases/v1");
    assert_eq!(
        Error::UnsupportedOs { tool: "Temurin JDK" }.message(),
        "Unsupported OS for Temurin JDK: other"
    );
    assert_eq!(Error::UnsupportedJdkFeature { feature: 7 }.message(), "Unsupported JDK feature version: 7");
}

#[test]
fn msi_run_outcomes() {
    let long: Vec<u8> = (0..5000u32).map(|i| (i % 251) as u8).collect();
    let tail = msi_log_tail(&long);
    assert_eq!(tail.len(), 4000);
    assert_eq!(tail[..], long[1000..]);
    assert_eq!(msi_log_tail(&vec![1, 2, 3]), vec![1, 2, 3]);
    let failed = msi_run_result(false, Some(1603), s("boom"), s("C:\\dev\\x.log"), None, s("C:\\dev\\mono"), false)
        .unwrap_err();
    assert_eq!(
        failed.message(),
        "msiexec failed to extract MSI (exit Some(1603)): boom\nLog (C:\\dev\\x.log):\n(could not read msiexec log)"
    );
    let neg = msi_run_result(false, Some(-5), s(""), s("l"), Some(s("tail")), s("d"), true).unwrap_err();
    assert!(neg.message().starts_with("msiexec failed to extract MSI (exit Some(-5)): "));
    let empty = msi_run_result(true, Some(0), s(""), s("l"), None, s("C:\\dev\\mono"), false).unwrap_err();
    assert_eq!(empty.message(), "msiexec reported success but TARGETDIR is empty: C:\\dev\\mono");
    assert!(msi_run_result(true, Some(0), s(""), s("l"), None, s("d"), true).is_ok());
}

#[test]
fn default_registry_keeps_every_builtin_plugin() {
    assert_eq!(default_registry().ids().len(), devkit::plugins::all().len());
}

#[test]
fn find_files_named_lists_each_match_once() {
    let fs = FsView {
        root: s("/r"),
        files: vec![s("/r/x/bin/tool"), s("/r/bin/tool"), s("/r/bin/tool")],
        dirs: vec![s("/r"), s("/r/bin"), s("/r/x"), s("/r/x/bin")],
        nonempty_dirs: vec![s("/r"), s("/r/bin"), s("/r/x"), s("/r/x/bin")],
        canonical_root: None,
        commands: vec![],
    };
    assert_eq!(find_files_named(HostOS::Linux, &fs, "/r", "tool"), vec![s("/r/bin/tool"), s("/r/x/bin/tool")]);
}
