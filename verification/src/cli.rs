//! The decisions and the text of the command-line interface.
//!
//! Commands: list, install, uninstall, status, doctor, menu. The
//! application reads the terminal and the machine; these functions decide
//! what happens next and what is printed.
use crate::plugin::{state_label, InstallState};
use crate::text::{chars_of, eq_str, join, owned, parse_u32, string_of, trim};
use vstd::prelude::*;

verus! {

/// `n` spaces.
pub open spec fn spaces(n: nat) -> Seq<char>
    decreases n,
{
    if n == 0 {
        Seq::empty()
    } else {
        spaces((n - 1) as nat).push(' ')
    }
}

/// `s` left-aligned in a field of `width` characters (`{:<width}`).
pub open spec fn pad_right(s: Seq<char>, width: nat) -> Seq<char> {
    if s.len() >= width {
        s
    } else {
        s + spaces((width - s.len()) as nat)
    }
}

/// `s` left-aligned in a field of `width` characters.
pub fn pad_right_exec(s: &str, width: usize) -> (r: String)
    ensures
        r@ == pad_right(s@, width as nat),
{
    let v = chars_of(s);
    let mut out = v.clone();
    let n = v.len();
    if n >= width {
        assert(out@ == v@);
        return string_of(out.as_slice());
    }
    let mut k: usize = 0;
    while k < width - n
        invariant
            n == v@.len(),
            n < width,
            k <= width - n,
            out@ == v@ + spaces(k as nat),
        decreases width - n - k,
    {
        out.push(' ');
        k = k + 1;
        assert(spaces(k as nat) == spaces((k - 1) as nat).push(' '));
        assert(out@ =~= v@ + spaces(k as nat));
    }
    string_of(out.as_slice())
}

/// The header of `devkit list`.
pub open spec fn list_header() -> Seq<char> {
    pad_right("ID"@, 16) + " "@ + pad_right("NAME"@, 20) + " STATUS"@
}

/// The header of `devkit list`.
pub fn list_header_exec() -> (r: String)
    ensures
        r@ == list_header(),
{
    let mut s = pad_right_exec("ID", 16);
    s.append(" ");
    s.append(pad_right_exec("NAME", 20).as_str());
    s.append(" STATUS");
    s
}

/// One row of `devkit list`: id, name and state label in columns.
pub open spec fn list_row(id: Seq<char>, name: Seq<char>, state: InstallState) -> Seq<char> {
    pad_right(id, 16) + " "@ + pad_right(name, 20) + " "@ + state_label(state)
}

/// One row of `devkit list`.
pub fn list_row_exec(id: &str, name: &str, state: InstallState) -> (r: String)
    ensures
        r@ == list_row(id@, name@, state),
{
    let mut s = pad_right_exec(id, 16);
    s.append(" ");
    s.append(pad_right_exec(name, 20).as_str());
    s.append(" ");
    s.append(state.as_str());
    s
}

/// One row of the menu: number, id, name and state label in columns.
pub open spec fn menu_row(number: Seq<char>, id: Seq<char>, name: Seq<char>, state: InstallState) -> Seq<char> {
    pad_right(number, 4) + " "@ + list_row(id, name, state)
}

/// One row of the menu; `index` counts from 0 and is shown from 1.
pub fn menu_row_exec(index: usize, id: &str, name: &str, state: InstallState) -> (r: String)
    requires
        index < u64::MAX,
    ensures
        r@ == menu_row(crate::text::decimal((index + 1) as nat), id@, name@, state),
{
    let n = crate::text::decimal_string(index as u64 + 1);
    let mut s = pad_right_exec(n.as_str(), 4);
    s.append(" ");
    s.append(list_row_exec(id, name, state).as_str());
    s
}

/// What the menu does with one line of input.
#[derive(Debug, Clone, Copy, PartialEq, Eq)]
pub enum MenuStep {
    /// Leave the menu.
    Quit,
    /// Not a plugin number: say so and ask again.
    Invalid,
    /// Install the plugin at this index (it is not installed).
    Install(usize),
    /// Uninstall the plugin at this index (it is installed).
    Uninstall(usize),
}

/// The menu's answer to `line`, given which listed plugins are installed:
/// an empty line or `q` quits; a number from 1 to the count toggles that
/// plugin (uninstall when installed, else install); anything else is invalid.
pub open spec fn menu_step_spec(line: Seq<char>, installed: Seq<bool>) -> MenuStep {
    let input = trim(line);
    if input.len() == 0 || input == "q"@ || input == "Q"@ {
        MenuStep::Quit
    } else {
        match parse_u32(input) {
            Some(k) => if 1 <= k && k <= installed.len() {
                if installed[k - 1] {
                    MenuStep::Uninstall((k - 1) as usize)
                } else {
                    MenuStep::Install((k - 1) as usize)
                }
            } else {
                MenuStep::Invalid
            },
            None => MenuStep::Invalid,
        }
    }
}

/// The menu's answer to one line of input.
pub fn menu_step(line: &str, installed: &Vec<bool>) -> (r: MenuStep)
    ensures
        r == menu_step_spec(line@, installed@),
{
    let input = crate::text::trim_exec(chars_of(line).as_slice());
    if input.len() == 0 || eq_str(input.as_slice(), "q") || eq_str(input.as_slice(), "Q") {
        return MenuStep::Quit;
    }
    match crate::text::parse_u32_exec(input.as_slice()) {
        Some(k) => {
            let n = installed.len();
            if 1 <= k && (k as usize) <= n {
                let i = (k - 1) as usize;
                if installed[i] {
                    MenuStep::Uninstall(i)
                } else {
                    MenuStep::Install(i)
                }
            } else {
                MenuStep::Invalid
            }
        },
        None => MenuStep::Invalid,
    }
}

/// What `devkit install` does before installing.
#[derive(Debug, Clone, Copy, PartialEq, Eq)]
pub enum InstallGate {
    /// Already installed and not forced: report it and stop.
    AlreadyInstalled,
    /// Install; the flags say which notes about ignored options to print.
    Proceed { channel_ignored: bool, version_ignored: bool },
}

/// The plugins that read `--version`.
pub open spec fn takes_version(id: Seq<char>) -> bool {
    id == "flutter"@ || id == "jdk"@ || id == "junit"@ || id == "pmd"@
}

/// Stop when the plugin is installed and the install is not forced; else
/// go on, noting `--channel` given to a plugin other than flutter and
/// `--version` given to one that does not read it.
pub fn install_gate(state: InstallState, force: bool, id: &str, has_version: bool, has_channel: bool) -> (r:
    InstallGate)
    ensures
        r == (if state == InstallState::Installed && !force {
            InstallGate::AlreadyInstalled
        } else {
            InstallGate::Proceed {
                channel_ignored: has_channel && id@ != "flutter"@,
                version_ignored: has_version && !takes_version(id@),
            }
        }),
{
    if state == InstallState::Installed && !force {
        return InstallGate::AlreadyInstalled;
    }
    let v = chars_of(id);
    let flutter = eq_str(v.as_slice(), "flutter");
    let reads_version = flutter || eq_str(v.as_slice(), "jdk") || eq_str(v.as_slice(), "junit") || eq_str(
        v.as_slice(),
        "pmd",
    );
    InstallGate::Proceed { channel_ignored: has_channel && !flutter, version_ignored: has_version && !reads_version }
}

/// `devkit uninstall` does nothing for a plugin that is not installed.
pub fn uninstall_needed(state: InstallState) -> (r: bool)
    ensures
        r == (state != InstallState::NotInstalled),
{
    state != InstallState::NotInstalled
}

/// The line printed after an install: the plugin's message, or `done`.
pub open spec fn installed_line(id: Seq<char>, message: Seq<char>) -> Seq<char> {
    "Installed "@ + id + ": "@ + if message.len() == 0 {
        "done"@
    } else {
        message
    }
}

/// The line printed after an install.
pub fn installed_line_exec(id: &str, message: &str) -> (r: String)
    ensures
        r@ == installed_line(id@, message@),
{
    let mut s = owned("Installed ");
    s.append(id);
    s.append(": ");
    if message.is_empty() {
        s.append("done");
    } else {
        s.append(message);
    }
    s
}

/// The report of `devkit status`: plugin, state, install folder and detail
/// when present, then one line per environment check.
pub open spec fn status_lines(
    id: Seq<char>,
    name: Seq<char>,
    state: InstallState,
    install_dir: Option<Seq<char>>,
    detail: Seq<char>,
    checks: Seq<(Seq<char>, bool)>,
) -> Seq<Seq<char>> {
    let head = seq!["Plugin:      "@ + id + " ("@ + name + ")"@, "State:       "@ + state_label(state)];
    let dir = match install_dir {
        Some(d) => seq!["Install dir: "@ + d],
        None => Seq::empty(),
    };
    let det = if detail.len() > 0 {
        seq!["Detail:      "@ + detail]
    } else {
        Seq::empty()
    };
    let env = if checks.len() > 0 {
        seq!["Environment:"@] + checks.map_values(|c: (Seq<char>, bool)| check_line(c.0, c.1))
    } else {
        Seq::empty()
    };
    head + dir + det + env
}

/// One environment check: `  [ok] key` or `  [missing] key`.
pub open spec fn check_line(key: Seq<char>, ok: bool) -> Seq<char> {
    "  ["@ + (if ok { "ok"@ } else { "missing"@ }) + "] "@ + key
}

/// The report of `devkit status` and its exit code (0 when installed).
pub fn status_report(
    id: &str,
    name: &str,
    state: InstallState,
    install_dir: &Option<String>,
    detail: &str,
    checks: &Vec<(String, bool)>,
) -> (r: (Vec<String>, i32))
    ensures
        r.0@.map_values(|s: String| s@) == status_lines(
            id@,
            name@,
            state,
            crate::plugin::opt_view(*install_dir),
            detail@,
            checks@.map_values(|c: (String, bool)| (c.0@, c.1)),
        ),
        r.1 == (if state == InstallState::Installed { 0i32 } else { 1i32 }),
{
    let mut lines: Vec<String> = Vec::new();
    let mut a = owned("Plugin:      ");
    a.append(id);
    a.append(" (");
    a.append(name);
    a.append(")");
    lines.push(a);
    let mut b = owned("State:       ");
    b.append(state.as_str());
    lines.push(b);
    let ghost head = lines@.map_values(|s: String| s@);
    match install_dir {
        Some(d) => {
            let mut c = owned("Install dir: ");
            c.append(d.as_str());
            lines.push(c);
        },
        None => {},
    }
    let ghost with_dir = lines@.map_values(|s: String| s@);
    if !detail.is_empty() {
        let mut e = owned("Detail:      ");
        e.append(detail);
        lines.push(e);
    }
    let ghost with_det = lines@.map_values(|s: String| s@);
    let ghost cv = checks@.map_values(|c: (String, bool)| (c.0@, c.1));
    let ghost lines_before_env = with_det;
    if checks.len() > 0 {
        lines.push(owned("Environment:"));
        let mut i: usize = 0;
        while i < checks.len()
            invariant
                i <= checks@.len(),
                cv == checks@.map_values(|c: (String, bool)| (c.0@, c.1)),
                lines@.map_values(|s: String| s@) == lines_before_env + seq!["Environment:"@] + cv.take(
                    i as int,
                ).map_values(|c: (Seq<char>, bool)| check_line(c.0, c.1)),
            decreases checks.len() - i,
        {
            let ghost before = lines@.map_values(|s: String| s@);
            let mut l = owned("  [");
            l.append(if checks[i].1 { "ok" } else { "missing" });
            l.append("] ");
            l.append(checks[i].0.as_str());
            lines.push(l);
            assert(cv.take(i + 1) =~= cv.take(i as int).push(cv[i as int]));
            assert(cv.take(i + 1).map_values(|c: (Seq<char>, bool)| check_line(c.0, c.1)) =~= cv.take(
                i as int,
            ).map_values(|c: (Seq<char>, bool)| check_line(c.0, c.1)).push(check_line(cv[i as int].0, cv[i as int].1)));
            assert(lines@.map_values(|s: String| s@) =~= before.push(check_line(cv[i as int].0, cv[i as int].1)));
            i = i + 1;
        }
        assert(cv.take(i as int) =~= cv);
    }
    proof {
        let want = status_lines(id@, name@, state, crate::plugin::opt_view(*install_dir), detail@, cv);
        assert(head =~= seq!["Plugin:      "@ + id@ + " ("@ + name@ + ")"@, "State:       "@ + state_label(state)]);
        assert(lines@.map_values(|s: String| s@) =~= want);
    }
    let code: i32 = if state == InstallState::Installed { 0 } else { 1 };
    (lines, code)
}

/// The doctor's line for `rustc` or `cargo`: the trimmed `--version` output
/// (or a placeholder when it is empty or could not be had) and the path;
/// a hint when the tool was found neither on PATH nor in the dev folder.
pub open spec fn toolchain_line(bin: Seq<char>, path: Option<Seq<char>>, version_out: Option<Seq<char>>) -> Seq<
    char,
> {
    match path {
        Some(p) => {
            let ver = match version_out {
                Some(o) => if trim(o).len() > 0 {
                    trim(o)
                } else {
                    bin + " (version unknown)"@
                },
                None => bin + " (version unknown)"@,
            };
            ver + "  ("@ + p + ")"@
        },
        None => "not found  (run the launcher to install Rust into the machine dev folder)"@,
    }
}

/// Where the doctor looks for a Rust tool: the one on PATH, else the one in
/// the dev folder when that file exists.
pub fn toolchain_path(on_path: Option<String>, dev_candidate: String, dev_exists: bool) -> (r: Option<String>)
    ensures
        r == (match on_path {
            Some(p) => Some(p),
            None => if dev_exists {
                Some(dev_candidate)
            } else {
                None
            },
        }),
{
    match on_path {
        Some(p) => Some(p),
        None => if dev_exists {
            Some(dev_candidate)
        } else {
            None
        },
    }
}

/// The doctor's line for a Rust tool.
pub fn toolchain_line_exec(bin: &str, path: Option<&str>, version_out: Option<&str>) -> (r: String)
    ensures
        r@ == toolchain_line(
            bin@,
            match path {
                Some(p) => Some(p@),
                None => None,
            },
            match version_out {
                Some(o) => Some(o@),
                None => None,
            },
        ),
{
    match path {
        Some(p) => {
            let mut ver = match version_out {
                Some(o) => {
                    let t = crate::text::trim_exec(chars_of(o).as_slice());
                    if t.len() > 0 {
                        string_of(t.as_slice())
                    } else {
                        let mut u = owned(bin);
                        u.append(" (version unknown)");
                        u
                    }
                },
                None => {
                    let mut u = owned(bin);
                    u.append(" (version unknown)");
                    u
                },
            };
            ver.append("  (");
            ver.append(p);
            ver.append(")");
            ver
        },
        None => owned("not found  (run the launcher to install Rust into the machine dev folder)"),
    }
}

/// The doctor's list of plugin ids: comma-separated, `(none)` when empty.
pub open spec fn plugins_line(ids: Seq<Seq<char>>) -> Seq<char> {
    if ids.len() == 0 {
        "(none)"@
    } else {
        join(ids, ", "@)
    }
}

/// The doctor's list of plugin ids.
pub fn plugins_line_exec(ids: &Vec<String>) -> (r: String)
    ensures
        r@ == plugins_line(ids@.map_values(|s: String| s@)),
{
    if ids.len() == 0 {
        return owned("(none)");
    }
    let mut parts: Vec<Vec<char>> = Vec::new();
    let mut i: usize = 0;
    while i < ids.len()
        invariant
            i <= ids@.len(),
            parts@.map_values(|v: Vec<char>| v@) == ids@.map_values(|s: String| s@).take(i as int),
        decreases ids.len() - i,
    {
        let ghost before = parts@.map_values(|v: Vec<char>| v@);
        parts.push(chars_of(ids[i].as_str()));
        assert(parts@.map_values(|v: Vec<char>| v@) =~= before.push(ids@[i as int]@));
        assert(ids@.map_values(|s: String| s@).take(i + 1) =~= ids@.map_values(|s: String| s@).take(i as int).push(
            ids@[i as int]@,
        ));
        i = i + 1;
    }
    assert(ids@.map_values(|s: String| s@).take(i as int) =~= ids@.map_values(|s: String| s@));
    let sep: Vec<char> = vec![',', ' '];
    assert(sep@ =~= ", "@) by {
        reveal_strlit(", ");
    }
    let out = crate::text::join_exec(&parts, sep.as_slice());
    string_of(out.as_slice())
}

} // verus!
