use devkit::env::{build_unix_block, check_env_sh, ensure_profile_source, replace_or_append_block, revert_env_sh, EnvManager};
use devkit::platform::HostOS;
use devkit::plugin::EnvSpec;

fn s(v: &str) -> String {
    v.to_string()
}

fn spec(paths: &[&str], vars: &[(&str, &str)]) -> EnvSpec {
    EnvSpec { paths: paths.iter().map(|p| s(p)).collect(), vars: vars.iter().map(|(k, v)| (s(k), s(v))).collect() }
}

#[test]
fn unix_apply_check_revert_round_trips() {
    let install = "/home/me/sdk/bin";
    let spec = spec(&[install], &[("DEVKIT_TEST", "yes")]);
    let mut mgr = EnvManager::new(HostOS::Linux);
    mgr.profile_path = s("/home/me/.bashrc");
    mgr.apply(&spec);

    let text = mgr.env_sh.clone().expect("env.sh written");
    assert!(text.contains(install));
    assert!(text.contains(r#"export DEVKIT_TEST="yes""#));
    assert!(mgr.profile.contains(".devkit/env.sh"));

    let checks = mgr.check(&spec);
    assert_eq!(checks.len(), 2);
    assert!(checks.iter().all(|(_, ok)| *ok));

    mgr.revert(&spec);
    let text_after = mgr.env_sh.clone().unwrap();
    assert!(!text_after.contains(install));
    assert!(!text_after.contains("DEVKIT_TEST"));
    assert_eq!(text_after, "");
}

#[test]
fn unix_merge_multiple_applies() {
    let mut mgr = EnvManager::new(HostOS::MacOS);
    mgr.apply(&spec(&["/home/me/a"], &[("A", "1")]));
    mgr.apply(&spec(&["/home/me/b"], &[("B", "2")]));
    let text = mgr.env_sh.clone().unwrap();
    assert!(text.contains("/home/me/a"));
    assert!(text.contains("/home/me/b"));
    assert!(text.contains(r#"export A="1""#));
    assert!(text.contains(r#"export B="2""#));
    assert_eq!(text.matches("# >>> DevKit >>>").count(), 1);
    assert!(mgr.check(&spec(&["/home/me/a"], &[("A", "1")])).iter().all(|(_, ok)| *ok));
}

#[test]
fn unix_block_text_is_exact() {
    let block = build_unix_block(&spec(&["/x/bin"], &[("Q", "say \"hi\"")]));
    assert_eq!(
        block,
        "# >>> DevKit >>>\nexport PATH=\"/x/bin:$PATH\"\nexport Q=\"say \\\"hi\\\"\"\n# <<< DevKit <<<\n"
    );
}

#[test]
fn apply_keeps_text_around_the_block() {
    let before = "alias ll='ls -l'";
    let block = build_unix_block(&spec(&["/x/bin"], &[]));
    let once = replace_or_append_block(before, &block);
    assert!(once.starts_with("alias ll='ls -l'\n# >>> DevKit >>>\n"));
    let twice = replace_or_append_block(&once, &block);
    assert_eq!(twice, format!("{once}\n"));
    let reverted = revert_env_sh(&once, &spec(&["/x/bin"], &[])).unwrap();
    assert_eq!(reverted, before);
    assert_eq!(revert_env_sh(before, &spec(&["/x/bin"], &[])), None);
}

#[test]
fn revert_keeps_other_lines() {
    let text = "# >>> DevKit >>>\nexport PATH=\"/a:$PATH\"\nexport PATH=\"/b:$PATH\"\nexport A=\"1\"\n# <<< DevKit <<<\n";
    let out = revert_env_sh(text, &spec(&["/a"], &[("A", "1")])).unwrap();
    assert_eq!(out, "# >>> DevKit >>>\nexport PATH=\"/b:$PATH\"\n# <<< DevKit <<<\n");
}

#[test]
fn check_needs_an_exact_assignment_line() {
    let text = "export  A=\"1\"  \nexport B=\"22\"\n";
    let checks = check_env_sh(text, &spec(&["/nowhere"], &[("A", "1"), ("B", "2")]));
    assert_eq!(checks, vec![(s("PATH:/nowhere"), false), (s("A"), true), (s("B"), false)]);
}

#[test]
fn profile_gets_source_line_once() {
    let once = ensure_profile_source("export EDITOR=vim\n");
    assert!(once.ends_with("# >>> DevKit >>>\nsource \"$HOME/.devkit/env.sh\"\n# <<< DevKit <<<\n"));
    assert_eq!(ensure_profile_source(&once), once);
}

#[test]
fn windows_apply_check_revert() {
    let mut mgr = EnvManager::new(HostOS::Windows);
    mgr.user_path = s("C:\\Windows;C:\\Tools");
    mgr.user_vars = vec![(s("KEEP"), s("1"))];
    let spec = spec(&["C:\\dev\\go\\bin", "c:\\tools"], &[("GOFLAGS", "-mod=mod")]);
    mgr.apply(&spec);
    assert_eq!(mgr.user_path, "C:\\dev\\go\\bin;C:\\Windows;C:\\Tools");
    assert!(mgr.check(&spec).iter().all(|(_, ok)| *ok));
    mgr.revert(&spec);
    assert_eq!(mgr.user_path, "C:\\Windows");
    assert!(mgr.check(&spec).iter().all(|(_, ok)| !*ok));
    assert_eq!(mgr.user_vars, vec![(s("KEEP"), s("1"))]);
}

#[test]
fn backend_description_names_the_store() {
    let mut mgr = EnvManager::new(HostOS::Linux);
    mgr.profile_path = s("~/.bashrc");
    assert_eq!(mgr.backend_description(), "Linux shell: ~/.devkit/env.sh (sourced from ~/.bashrc)");
    assert_eq!(EnvManager::new(HostOS::Windows).backend_description(), "Windows user environment (registry)");
}

#[test]
fn windows_apply_twice_leaves_path_as_once() {
    let mut mgr = EnvManager::new(HostOS::Windows);
    mgr.user_path = s("C:\\Windows;;C:\\Tools");
    let spec = spec(&["C:\\dev\\node", "C:\\dev\\go\\bin"], &[]);
    mgr.apply(&spec);
    let once = mgr.user_path.clone();
    assert_eq!(once, "C:\\dev\\node;C:\\dev\\go\\bin;C:\\Windows;C:\\Tools");
    mgr.apply(&spec);
    assert_eq!(mgr.user_path, once);
}

#[test]
fn unix_check_finds_value_with_quote_after_apply() {
    let mut mgr = EnvManager::new(HostOS::Linux);
    mgr.profile_path = s("~/.bashrc");
    let spec = spec(&[], &[("V", "a\"b")]);
    mgr.apply(&spec);
    assert!(mgr.env_sh.as_ref().unwrap().contains("export V=\"a\\\"b\""));
    assert_eq!(mgr.check(&spec), vec![(s("V"), true)]);
}

#[test]
fn unix_revert_second_apply_keeps_first() {
    let mut mgr = EnvManager::new(HostOS::Linux);
    mgr.profile_path = s("~/.bashrc");
    let first = spec(&["/h/a"], &[("A", "1")]);
    let second = spec(&["/h/b"], &[("B", "2")]);
    mgr.apply(&first);
    let after_first = mgr.env_sh.clone().unwrap();
    mgr.apply(&second);
    mgr.revert(&second);
    let text = mgr.env_sh.clone().unwrap();
    assert_eq!(text, format!("{after_first}\n"));
    assert!(text.contains("export PATH=\"/h/a:$PATH\"") && text.contains("export A=\"1\""));
    assert!(!text.contains("/h/b") && !text.contains("export B="));
}

#[test]
fn unix_reapply_keeps_block() {
    let mut mgr = EnvManager::new(HostOS::Linux);
    mgr.profile_path = s("~/.bashrc");
    let sp = spec(&["/h/a"], &[("A", "1")]);
    mgr.apply(&sp);
    let once = mgr.env_sh.clone().unwrap();
    mgr.apply(&sp);
    assert_eq!(mgr.env_sh.clone().unwrap(), format!("{once}\n"));
}

#[test]
fn unix_first_apply_checks_entries_with_line_breaks() {
    let mut mgr = EnvManager::new(HostOS::Linux);
    mgr.profile_path = s("~/.bashrc");
    let sp = spec(&["/h/odd\nname/bin"], &[("V", "x\ny")]);
    mgr.apply(&sp);
    assert!(mgr.check(&sp).iter().all(|(_, ok)| *ok));
}
