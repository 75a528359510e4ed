use devkit::cli::{
    install_gate, installed_line_exec, list_header_exec, list_row_exec, menu_row_exec, menu_step, pad_right_exec,
    plugins_line_exec, status_report, toolchain_line_exec, toolchain_path, uninstall_needed, InstallGate, MenuStep,
};
use devkit::error::Error;
use devkit::paths::FsView;
use devkit::platform::{Host, HostOS};
use devkit::plugin::{InstallContext, InstallState, Plugin};
use devkit::plugins::hello::HelloPlugin;
use devkit::registry::default_registry;

fn s(v: &str) -> String {
    v.to_string()
}

#[test]
fn list_rows_are_padded_columns() {
    assert_eq!(pad_right_exec("ab", 4), "ab  ");
    assert_eq!(pad_right_exec("abcdef", 4), "abcdef");
    assert_eq!(list_header_exec(), format!("{:<16} {:<20} STATUS", "ID", "NAME"));
    assert_eq!(
        list_row_exec("hello", "Hello", InstallState::NotInstalled),
        format!("{:<16} {:<20} {}", "hello", "Hello", "not_installed")
    );
    assert_eq!(
        menu_row_exec(0, "go", "Go", InstallState::Installed),
        format!("{:<4} {:<16} {:<20} {}", 1, "go", "Go", "installed")
    );
}

#[test]
fn menu_quits_on_blank_or_q() {
    let installed = vec![false, true];
    assert_eq!(menu_step("", &installed), MenuStep::Quit);
    assert_eq!(menu_step("  q \n", &installed), MenuStep::Quit);
    assert_eq!(menu_step("Q", &installed), MenuStep::Quit);
}

#[test]
fn menu_toggles_the_chosen_plugin() {
    let installed = vec![false, true];
    assert_eq!(menu_step("1\n", &installed), MenuStep::Install(0));
    assert_eq!(menu_step(" 2 ", &installed), MenuStep::Uninstall(1));
    assert_eq!(menu_step("+1", &installed), MenuStep::Install(0));
}

#[test]
fn menu_rejects_other_input() {
    let installed = vec![false, true];
    assert_eq!(menu_step("0", &installed), MenuStep::Invalid);
    assert_eq!(menu_step("3", &installed), MenuStep::Invalid);
    assert_eq!(menu_step("x", &installed), MenuStep::Invalid);
    assert_eq!(menu_step("99999999999", &installed), MenuStep::Invalid);
}

#[test]
fn install_gate_skips_installed_unless_forced() {
    assert_eq!(install_gate(InstallState::Installed, false, "go", false, false), InstallGate::AlreadyInstalled);
    assert_eq!(
        install_gate(InstallState::Installed, true, "go", true, true),
        InstallGate::Proceed { channel_ignored: true, version_ignored: true }
    );
    assert_eq!(
        install_gate(InstallState::Partial, false, "flutter", true, true),
        InstallGate::Proceed { channel_ignored: false, version_ignored: false }
    );
    assert_eq!(
        install_gate(InstallState::NotInstalled, false, "pmd", true, false),
        InstallGate::Proceed { channel_ignored: false, version_ignored: false }
    );
    assert!(!uninstall_needed(InstallState::NotInstalled));
    assert!(uninstall_needed(InstallState::Partial));
}

#[test]
fn installed_line_defaults_to_done() {
    assert_eq!(installed_line_exec("go", ""), "Installed go: done");
    assert_eq!(installed_line_exec("go", "Go 1.22 installed"), "Installed go: Go 1.22 installed");
}

#[test]
fn status_report_lines_and_code() {
    let (lines, code) = status_report(
        "hello",
        "Hello",
        InstallState::NotInstalled,
        &Some(s("/dev/hello")),
        "",
        &vec![(s("PATH:/dev/hello/bin"), false)],
    );
    assert_eq!(
        lines,
        vec![
            s("Plugin:      hello (Hello)"),
            s("State:       not_installed"),
            s("Install dir: /dev/hello"),
            s("Environment:"),
            s("  [missing] PATH:/dev/hello/bin"),
        ]
    );
    assert_eq!(code, 1);
    let (lines2, code2) = status_report("go", "Go", InstallState::Installed, &None, "/dev/go/bin/go", &vec![]);
    assert_eq!(lines2, vec![s("Plugin:      go (Go)"), s("State:       installed"), s("Detail:      /dev/go/bin/go")]);
    assert_eq!(code2, 0);
}

#[test]
fn doctor_lines() {
    assert_eq!(
        toolchain_line_exec("rustc", Some("/dev/rust/cargo/bin/rustc"), Some("rustc 1.80.0 (abc)\n")),
        "rustc 1.80.0 (abc)  (/dev/rust/cargo/bin/rustc)"
    );
    assert_eq!(toolchain_line_exec("cargo", Some("/c"), Some("  ")), "cargo (version unknown)  (/c)");
    assert_eq!(
        toolchain_line_exec("cargo", None, None),
        "not found  (run the launcher to install Rust into the machine dev folder)"
    );
    assert_eq!(toolchain_path(None, s("/d/cargo"), true), Some(s("/d/cargo")));
    assert_eq!(toolchain_path(Some(s("/usr/bin/cargo")), s("/d/cargo"), true), Some(s("/usr/bin/cargo")));
    assert_eq!(toolchain_path(None, s("/d/cargo"), false), None);
    assert_eq!(plugins_line_exec(&vec![]), "(none)");
    assert_eq!(plugins_line_exec(&vec![s("go"), s("hello")]), "go, hello");
}

fn hello_ctx() -> InstallContext {
    InstallContext {
        install_dir: s("/tmp/devkit-cli/hello"),
        home: s("/tmp/devkit-cli"),
        version: None,
        channel: None,
        host: Host { os: HostOS::Linux, arch: s("x64") },
    }
}

#[test]
fn list_shows_registered_plugins() {
    let registry = default_registry();
    let ctx = hello_ctx();
    let fs = FsView::missing(&ctx.install_dir);
    let rows: Vec<String> = registry
        .all()
        .into_iter()
        .map(|p| list_row_exec(p.id(), p.name(), p.status(&ctx, &fs).state))
        .collect();
    for id in ["hello", "git", "junit", "gradle", "maven", "pmd"] {
        assert!(rows.iter().any(|r| r.starts_with(&format!("{id} "))), "{id} missing from the list");
    }
}

#[test]
fn doctor_reports_dev_root_and_plugins() {
    let ids: Vec<String> = default_registry().ids().into_iter().map(s).collect();
    let line = plugins_line_exec(&ids);
    assert!(line.contains("hello"));
    assert!(line.contains("junit, kubectl"));
}

#[test]
fn status_unknown_plugin_before_install_is_not_installed() {
    let ctx = hello_ctx();
    let status = HelloPlugin.status(&ctx, &FsView::missing(&ctx.install_dir));
    let (lines, code) = status_report("hello", "Hello", status.state, &status.install_dir, &status.detail, &vec![]);
    assert_ne!(code, 0);
    assert!(lines.iter().any(|l| l.contains("not_installed")));
}

#[test]
fn install_reports_unknown_plugin() {
    let registry = default_registry();
    match registry.require("does-not-exist") {
        Err(Error::UnknownPlugin { id, known }) => {
            assert_eq!(id, "does-not-exist");
            assert!(known.contains(&s("hello")));
        }
        _ => panic!("expected an unknown-plugin error"),
    }
}

#[test]
fn menu_lists_plugins_and_quits_on_q() {
    let registry = default_registry();
    let plugins = registry.all();
    let hello = plugins.iter().position(|p| p.id() == "hello").unwrap();
    let row = menu_row_exec(hello, "hello", plugins[hello].name(), InstallState::NotInstalled);
    assert!(row.contains("hello"));
    let installed = vec![false; plugins.len()];
    assert_eq!(menu_step("q\n", &installed), MenuStep::Quit);
}
