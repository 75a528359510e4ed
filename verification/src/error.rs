//! Errors reported by the library.
use crate::text::{chars_of, decimal, decimal_string, eq_str, join, join_exec, owned, string_of};
use vstd::prelude::*;

verus! {

/// Why an operation was refused; `message` gives the text shown to the user.
#[derive(Debug, Clone)]
pub enum Error {
    /// The tool has no build for this operating system.
    UnsupportedOs { tool: &'static str },
    /// The tool has no build for this CPU architecture.
    UnsupportedArch { tool: &'static str, arch: String },
    /// A platform map holds no entry for this OS.
    NoValueForOs { os_name: String, keys: Vec<String> },
    /// No release asset's name holds all of the given substrings.
    NoMatchingAsset { needles: Vec<String>, location: String },
    /// A release index holds no usable entry.
    NoRelease { tool: &'static str, detail: String },
    /// A metadata document does not have the expected shape.
    UnexpectedMetadata { tool: &'static str },
    /// A requested version string cannot be used.
    InvalidVersion { tool: &'static str, given: String },
    /// A JDK feature release older than the oldest supported one.
    UnsupportedJdkFeature { feature: u32 },
    /// A Flutter channel other than stable, beta or dev.
    UnknownChannel { given: String },
    /// Gradle marks its current release as broken.
    BrokenRelease { version: String },
    /// The network is unreachable.
    Offline,
    /// An archive whose format cannot be told from its name or first bytes.
    UnsupportedArchive { name: String },
    /// A tar archive compressed with bzip2.
    Bzip2Unsupported { name: String },
    /// No plugin has this id.
    UnknownPlugin { id: String, known: Vec<String> },
    /// A file that should exist is missing.
    Missing { what: String },
    /// `msiexec /a` failed: its exit code, error output, log path and the
    /// end of its log.
    MsiFailed { code: Option<i32>, stderr: String, log_path: String, log: String },
    /// `msiexec /a` reported success but left the target folder empty.
    MsiEmpty { dest: String },
}

/// The tools whose refusal reads "… are not supported on: other".
pub open spec fn plural_tool(tool: Seq<char>) -> bool {
    tool == "Android cmdline-tools"@ || tool == "platform-tools"@
}

/// The message for a tool with no build for this operating system.
pub open spec fn unsupported_os_message(tool: Seq<char>) -> Seq<char> {
    if tool == "MSI extraction"@ || tool == "MSYS2"@ {
        tool + " is only supported on Windows"@
    } else if tool == "PKG extraction"@ {
        tool + " is only supported on macOS"@
    } else if tool == "Temurin JDK"@ {
        "Unsupported OS for Temurin JDK: other"@
    } else if tool == "SQLite tools"@ {
        tool + " are not supported on this OS: other"@
    } else if plural_tool(tool) {
        tool + " are not supported on: other"@
    } else {
        tool + " is not supported on this OS: other"@
    }
}

/// `["a", "b"]`: the names quoted, in brackets.
pub open spec fn quoted_list(names: Seq<Seq<char>>) -> Seq<char> {
    "["@ + join(names.map_values(|n: Seq<char>| "\""@ + n + "\""@), ", "@) + "]"@
}

/// The user-facing text of an error.
pub open spec fn message_of(e: Error) -> Seq<char> {
    match e {
        Error::UnsupportedOs { tool } => unsupported_os_message(tool@),
        Error::UnsupportedArch { tool, arch } => "Unsupported arch for "@ + tool@ + ": "@ + arch@,
        Error::NoValueForOs { os_name, keys } => "No URL/value for OS '"@ + os_name@ + "'. Available keys: "@
            + join(keys@.map_values(|k: String| k@), ", "@),
        Error::NoMatchingAsset { needles, location } => "No GitHub asset matching "@ + quoted_list(
            needles@.map_values(|n: String| n@),
        ) + " in "@ + location@,
        Error::NoRelease { tool, detail } => "No "@ + tool@ + " release found: "@ + detail@,
        Error::UnexpectedMetadata { tool } => "Unexpected "@ + tool@ + " release metadata"@,
        Error::InvalidVersion { tool, given } => if tool@ == "JDK"@ {
            "Invalid JDK version '"@ + given@ + "'. Use a feature number like 21 or 25."@
        } else if tool@ == "PMD"@ {
            "Invalid PMD version. Use a release like 7.26.0."@
        } else {
            "Invalid "@ + tool@ + " version: "@ + given@
        },
        Error::UnsupportedJdkFeature { feature } => "Unsupported JDK feature version: "@ + decimal(feature as nat),
        Error::UnknownChannel { given } => "Unknown Flutter channel '"@ + given@ + "'. Use one of: stable, beta, dev"@,
        Error::BrokenRelease { version } => "Gradle marks version "@ + version@ + " as broken; refusing to install"@,
        Error::Offline => "No internet connection detected. Installing SDKs downloads files over the network \u{2014} check your connection and try again."@,
        Error::UnsupportedArchive { name } => "Unsupported archive format: "@ + name@,
        Error::Bzip2Unsupported { name } => "bzip2 tar archives are not supported: "@ + name@,
        Error::UnknownPlugin { id, known } => "Unknown plugin '"@ + id@ + "'. Known: "@ + if known@.len() == 0 {
            "(none)"@
        } else {
            join(known@.map_values(|k: String| k@), ", "@)
        },
        Error::Missing { what } => what@ + " not found"@,
        Error::MsiFailed { code, stderr, log_path, log } => "msiexec failed to extract MSI (exit "@
            + exit_code_text(code) + "): "@ + stderr@ + "\nLog ("@ + log_path@ + "):\n"@ + log@,
        Error::MsiEmpty { dest } => "msiexec reported success but TARGETDIR is empty: "@ + dest@,
    }
}

/// A signed number in decimal.
pub open spec fn signed_decimal(n: int) -> Seq<char> {
    if n < 0 {
        "-"@ + decimal((-n) as nat)
    } else {
        decimal(n as nat)
    }
}

/// An exit code as `{:?}` shows it: `Some(N)` or `None`.
pub open spec fn exit_code_text(code: Option<i32>) -> Seq<char> {
    match code {
        Some(n) => "Some("@ + signed_decimal(n as int) + ")"@,
        None => "None"@,
    }
}

fn exit_code_text_exec(code: Option<i32>) -> (r: String)
    ensures
        r@ == exit_code_text(code),
{
    match code {
        Some(n) => {
            let mut r = owned("Some(");
            if n < 0 {
                r.append("-");
                let m: i64 = -(n as i64);
                r.append(decimal_string(m as u64).as_str());
            } else {
                r.append(decimal_string(n as u64).as_str());
            }
            r.append(")");
            r
        },
        None => owned("None"),
    }
}

fn join_strings(v: &Vec<String>, sep: &str) -> (r: String)
    ensures
        r@ == join(v@.map_values(|s: String| s@), sep@),
{
    let mut vs: Vec<Vec<char>> = Vec::new();
    let mut i: usize = 0;
    while i < v.len()
        invariant
            i <= v@.len(),
            vs@.map_values(|x: Vec<char>| x@) == v@.map_values(|s: String| s@).take(i as int),
        decreases v.len() - i,
    {
        let ghost before = vs@.map_values(|x: Vec<char>| x@);
        vs.push(chars_of(v[i].as_str()));
        assert(vs@.map_values(|x: Vec<char>| x@) =~= before.push(v@[i as int]@));
        assert(v@.map_values(|s: String| s@).take(i + 1) =~= v@.map_values(|s: String| s@).take(i as int).push(v@[i as int]@));
        i = i + 1;
    }
    assert(v@.map_values(|s: String| s@).take(i as int) =~= v@.map_values(|s: String| s@));
    string_of(join_exec(&vs, chars_of(sep).as_slice()).as_slice())
}

fn quoted_list_exec(v: &Vec<String>) -> (r: String)
    ensures
        r@ == quoted_list(v@.map_values(|s: String| s@)),
{
    let ghost names = v@.map_values(|s: String| s@);
    let ghost qs = names.map_values(|n: Seq<char>| "\""@ + n + "\""@);
    let mut vs: Vec<Vec<char>> = Vec::new();
    let mut i: usize = 0;
    while i < v.len()
        invariant
            i <= v@.len(),
            names == v@.map_values(|s: String| s@),
            qs == names.map_values(|n: Seq<char>| "\""@ + n + "\""@),
            vs@.map_values(|x: Vec<char>| x@) == qs.take(i as int),
        decreases v.len() - i,
    {
        let ghost before = vs@.map_values(|x: Vec<char>| x@);
        let mut q = owned("\"");
        q.append(v[i].as_str());
        q.append("\"");
        assert(qs[i as int] == "\""@ + v@[i as int]@ + "\""@);
        vs.push(chars_of(q.as_str()));
        assert(vs@.map_values(|x: Vec<char>| x@) =~= before.push(qs[i as int]));
        assert(qs.take(i + 1) =~= qs.take(i as int).push(qs[i as int]));
        i = i + 1;
    }
    assert(qs.take(i as int) =~= qs);
    let inner = string_of(join_exec(&vs, chars_of(", ").as_slice()).as_slice());
    let mut r = owned("[");
    r.append(inner.as_str());
    r.append("]");
    r
}

impl Error {
    /// The text shown to the user for this error.
    pub fn message(&self) -> (r: String)
        ensures
            r@ == message_of(*self),
    {
        match self {
            Error::UnsupportedOs { tool } => {
                let t = chars_of(tool);
                let mut r = owned(tool);
                if eq_str(t.as_slice(), "MSI extraction") || eq_str(t.as_slice(), "MSYS2") {
                    r.append(" is only supported on Windows");
                } else if eq_str(t.as_slice(), "PKG extraction") {
                    r.append(" is only supported on macOS");
                } else if eq_str(t.as_slice(), "Temurin JDK") {
                    r = owned("Unsupported OS for Temurin JDK: other");
                } else if eq_str(t.as_slice(), "SQLite tools") {
                    r.append(" are not supported on this OS: other");
                } else if eq_str(t.as_slice(), "Android cmdline-tools") || eq_str(t.as_slice(), "platform-tools") {
                    r.append(" are not supported on: other");
                } else {
                    r.append(" is not supported on this OS: other");
                }
                r
            },
            Error::UnsupportedArch { tool, arch } => {
                let mut r = owned("Unsupported arch for ");
                r.append(tool);
                r.append(": ");
                r.append(arch.as_str());
                r
            },
            Error::NoValueForOs { os_name, keys } => {
                let mut r = owned("No URL/value for OS '");
                r.append(os_name.as_str());
                r.append("'. Available keys: ");
                r.append(join_strings(keys, ", ").as_str());
                r
            },
            Error::NoMatchingAsset { needles, location } => {
                let mut r = owned("No GitHub asset matching ");
                r.append(quoted_list_exec(needles).as_str());
                r.append(" in ");
                r.append(location.as_str());
                r
            },
            Error::NoRelease { tool, detail } => {
                let mut r = owned("No ");
                r.append(tool);
                r.append(" release found: ");
                r.append(detail.as_str());
                r
            },
            Error::UnexpectedMetadata { tool } => {
                let mut r = owned("Unexpected ");
                r.append(tool);
                r.append(" release metadata");
                r
            },
            Error::InvalidVersion { tool, given } => {
                let t = chars_of(tool);
                if eq_str(t.as_slice(), "JDK") {
                    let mut r = owned("Invalid JDK version '");
                    r.append(given.as_str());
                    r.append("'. Use a feature number like 21 or 25.");
                    r
                } else if eq_str(t.as_slice(), "PMD") {
                    owned("Invalid PMD version. Use a release like 7.26.0.")
                } else {
                    let mut r = owned("Invalid ");
                    r.append(tool);
                    r.append(" version: ");
                    r.append(given.as_str());
                    r
                }
            },
            Error::UnsupportedJdkFeature { feature } => {
                let mut r = owned("Unsupported JDK feature version: ");
                r.append(decimal_string(*feature as u64).as_str());
                r
            },
            Error::UnknownChannel { given } => {
                let mut r = owned("Unknown Flutter channel '");
                r.append(given.as_str());
                r.append("'. Use one of: stable, beta, dev");
                r
            },
            Error::BrokenRelease { version } => {
                let mut r = owned("Gradle marks version ");
                r.append(version.as_str());
                r.append(" as broken; refusing to install");
                r
            },
            Error::Offline => owned(
                "No internet connection detected. Installing SDKs downloads files over the network \u{2014} check your connection and try again.",
            ),
            Error::UnsupportedArchive { name } => {
                let mut r = owned("Unsupported archive format: ");
                r.append(name.as_str());
                r
            },
            Error::Bzip2Unsupported { name } => {
                let mut r = owned("bzip2 tar archives are not supported: ");
                r.append(name.as_str());
                r
            },
            Error::UnknownPlugin { id, known } => {
                let mut r = owned("Unknown plugin '");
                r.append(id.as_str());
                r.append("'. Known: ");
                if known.len() == 0 {
                    r.append("(none)");
                } else {
                    r.append(join_strings(known, ", ").as_str());
                }
                r
            },
            Error::Missing { what } => {
                let mut r = owned(what.as_str());
                r.append(" not found");
                r
            },
            Error::MsiFailed { code, stderr, log_path, log } => {
                let mut r = owned("msiexec failed to extract MSI (exit ");
                r.append(exit_code_text_exec(*code).as_str());
                r.append("): ");
                r.append(stderr.as_str());
                r.append("\nLog (");
                r.append(log_path.as_str());
                r.append("):\n");
                r.append(log.as_str());
                r
            },
            Error::MsiEmpty { dest } => {
                let mut r = owned("msiexec reported success but TARGETDIR is empty: ");
                r.append(dest.as_str());
                r
            },
        }
    }
}

} // verus!
