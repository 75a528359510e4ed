//! Plans for unpacking Windows MSI and macOS PKG installers into a folder.
//!
//! Used by plugins such as Mono that ship platform installers instead of
//! plain ZIP/tar. The library decides what to run and which file to take;
//! the application runs the tools.
use crate::error::Error;
use crate::paths::{file_name, file_name_of, join, parent, parent_of, path_join};
use crate::platform::HostOS;
use crate::text::{chars_of, owned, string_of, trim_end_set};
use vstd::prelude::*;

verus! {

/// `s` with each `'` doubled, as a PowerShell single-quoted string needs.
pub open spec fn ps_quote(s: Seq<char>) -> Seq<char>
    decreases s.len(),
{
    if s.len() == 0 {
        Seq::empty()
    } else {
        ps_quote(s.drop_last()) + if s.last() == '\'' {
            seq!['\'', '\'']
        } else {
            seq![s.last()]
        }
    }
}

fn ps_quote_exec(s: &str) -> (r: String)
    ensures
        r@ == ps_quote(s@),
{
    let v = chars_of(s);
    let mut out: Vec<char> = Vec::new();
    let mut i: usize = 0;
    while i < v.len()
        invariant
            i <= v@.len(),
            v@ == s@,
            out@ == ps_quote(v@.take(i as int)),
        decreases v.len() - i,
    {
        assert(v@.take(i + 1).drop_last() =~= v@.take(i as int));
        assert(v@.take(i + 1).last() == v@[i as int]);
        if v[i] == '\'' {
            out.push('\'');
            out.push('\'');
        } else {
            out.push(v[i]);
        }
        i = i + 1;
    }
    assert(v@.take(i as int) =~= v@);
    string_of(out.as_slice())
}

/// `TARGETDIR` for msiexec: the folder with one trailing backslash.
pub open spec fn msi_dest_arg(dest: Seq<char>) -> Seq<char> {
    trim_end_set(dest, seq!['\\']) + "\\"@
}

/// The verbose msiexec log beside the target folder:
/// `<parent>/<name>.msiexec.log` (`.` when the folder has no parent), the
/// folder taken without trailing separators.
pub open spec fn msi_log_path(os: HostOS, dest: Seq<char>) -> Seq<char> {
    let core = trim_end_set(dest, seq!['\\', '/']);
    let dir = match parent(os, core) {
        Some(p) => p,
        None => "."@,
    };
    join(os, dir, file_name(os, core) + ".msiexec.log"@)
}

/// The PowerShell script that runs `msiexec /a` quietly and waits for it.
pub open spec fn msi_script(msi: Seq<char>, dest_arg: Seq<char>, log: Seq<char>) -> Seq<char> {
    "\n$ErrorActionPreference = 'Stop'\n$msi = '"@ + ps_quote(msi) + "'\n$dest = '"@ + ps_quote(
        trim_end_set(dest_arg, seq!['\\']),
    ) + "\\"@ + "'\n$log = '"@ + ps_quote(log)
        + "'\n$argList = @('/a', $msi, '/qn', '/norestart', ('TARGETDIR=' + $dest), '/l*v', $log)\n"@
        + "$p = Start-Process -FilePath 'msiexec.exe' -ArgumentList $argList -Wait -PassThru\n"@
        + "if ($null -eq $p) { exit 1 }\nexit $p.ExitCode\n"@
}

/// What an administrative MSI extraction runs: the target argument, the log
/// file, and the PowerShell script (run with `-NoProfile -NonInteractive
/// -ExecutionPolicy Bypass -Command`).
#[derive(Debug)]
pub struct MsiPlan {
    pub dest_arg: String,
    pub log_path: String,
    pub script: String,
}

/// Plan extracting a Windows MSI into `dest` via `msiexec /a` (no full
/// install). `msi_path` is the MSI's absolute path (without the `\\?\`
/// prefix msiexec rejects). Only Windows has msiexec.
pub fn extract_msi_admin(os: HostOS, msi_path: &str, msi_exists: bool, dest: &str) -> (r: Result<MsiPlan, Error>)
    ensures
        os != HostOS::Windows ==> r matches Err(Error::UnsupportedOs { .. }),
        os == HostOS::Windows && !msi_exists ==> (r matches Err(Error::Missing { what }) && what@ == "MSI "@
            + msi_path@),
        os == HostOS::Windows && msi_exists ==> (r matches Ok(p) && p.dest_arg@ == msi_dest_arg(dest@)
            && p.log_path@ == msi_log_path(os, dest@) && p.script@ == msi_script(
            msi_path@,
            msi_dest_arg(dest@),
            msi_log_path(os, dest@),
        )),
{
    if os != HostOS::Windows {
        return Err(Error::UnsupportedOs { tool: "MSI extraction" });
    }
    if !msi_exists {
        let mut what = owned("MSI ");
        what.append(msi_path);
        return Err(Error::Missing { what });
    }
    let set: Vec<char> = vec!['\\'];
    assert(set@ =~= seq!['\\']);
    let d = chars_of(dest);
    let trimmed = crate::text::trim_end_set_exec(d.as_slice(), set.as_slice());
    let mut dest_arg = string_of(trimmed.as_slice());
    dest_arg.append("\\");
    let seps: Vec<char> = vec!['\\', '/'];
    assert(seps@ =~= seq!['\\', '/']);
    let core = string_of(crate::text::trim_end_set_exec(d.as_slice(), seps.as_slice()).as_slice());
    let dir = match parent_of(os, core.as_str()) {
        Some(p) => p,
        None => owned("."),
    };
    let mut log_name = file_name_of(os, core.as_str());
    log_name.append(".msiexec.log");
    let log_path = path_join(os, dir.as_str(), log_name.as_str());
    let da = chars_of(dest_arg.as_str());
    let dest_trimmed = crate::text::trim_end_set_exec(da.as_slice(), set.as_slice());
    let mut script = owned("\n$ErrorActionPreference = 'Stop'\n$msi = '");
    script.append(ps_quote_exec(msi_path).as_str());
    script.append("'\n$dest = '");
    script.append(ps_quote_exec(string_of(dest_trimmed.as_slice()).as_str()).as_str());
    script.append("\\");
    script.append("'\n$log = '");
    script.append(ps_quote_exec(log_path.as_str()).as_str());
    script.append("'\n$argList = @('/a', $msi, '/qn', '/norestart', ('TARGETDIR=' + $dest), '/l*v', $log)\n");
    script.append("$p = Start-Process -FilePath 'msiexec.exe' -ArgumentList $argList -Wait -PassThru\n");
    script.append("if ($null -eq $p) { exit 1 }\nexit $p.ExitCode\n");
    Ok(MsiPlan { dest_arg, log_path, script })
}

/// The largest `Payload` file among `(path, size)` entries; of equal sizes
/// the last (what `max_by_key` picks).
pub open spec fn best_payload(os: HostOS, entries: Seq<(Seq<char>, u64)>) -> Option<(Seq<char>, u64)>
    decreases entries.len(),
{
    if entries.len() == 0 {
        None
    } else {
        let rest = best_payload(os, entries.drop_last());
        let e = entries.last();
        if file_name(os, e.0) != "Payload"@ {
            rest
        } else {
            match rest {
                Some(b) => if e.1 >= b.1 {
                    Some(e)
                } else {
                    rest
                },
                None => Some(e),
            }
        }
    }
}

/// PKG extraction needs `pkgutil`, so only macOS.
pub fn pkg_extraction_supported(os: HostOS) -> (r: Result<(), Error>)
    ensures
        r is Ok <==> os == HostOS::MacOS,
        r is Err ==> r matches Err(Error::UnsupportedOs { .. }),
{
    if os == HostOS::MacOS {
        Ok(())
    } else {
        Err(Error::UnsupportedOs { tool: "PKG extraction" })
    }
}

/// After `pkgutil --expand`: the payload to unpack with `cpio`, chosen among
/// the `(path, size)` entries of the expanded folder; an error when the
/// package holds none, or off macOS.
pub fn extract_pkg(os: HostOS, pkg_path: &str, entries: &Vec<(String, u64)>) -> (r: Result<String, Error>)
    ensures
        os != HostOS::MacOS ==> r matches Err(Error::UnsupportedOs { .. }),
        os == HostOS::MacOS ==> match best_payload(os, entries@.map_values(|e: (String, u64)| (e.0@, e.1))) {
            Some(b) => r matches Ok(p) && p@ == b.0,
            None => (r matches Err(Error::Missing { what }) && what@ == "Payload inside "@ + pkg_path@),
        },
{
    match pkg_extraction_supported(os) {
        Ok(()) => {},
        Err(e) => {
            return Err(e);
        },
    }
    let ghost ev = entries@.map_values(|e: (String, u64)| (e.0@, e.1));
    let mut best: Option<usize> = None;
    let mut i: usize = 0;
    while i < entries.len()
        invariant
            i <= entries@.len(),
            ev == entries@.map_values(|e: (String, u64)| (e.0@, e.1)),
            match best {
                Some(k) => k < i && best_payload(os, ev.take(i as int)) == Some(ev[k as int]),
                None => best_payload(os, ev.take(i as int)) is None,
            },
        decreases entries.len() - i,
    {
        assert(ev.take(i + 1).drop_last() =~= ev.take(i as int));
        assert(ev.take(i + 1).last() == ev[i as int]);
        let name = file_name_of(os, entries[i].0.as_str());
        if crate::text::eq_str(chars_of(name.as_str()).as_slice(), "Payload") {
            match best {
                Some(k) => {
                    if entries[i].1 >= entries[k].1 {
                        best = Some(i);
                    }
                },
                None => {
                    best = Some(i);
                },
            }
        }
        i = i + 1;
    }
    assert(ev.take(i as int) =~= ev);
    match best {
        Some(k) => Ok(owned(entries[k].0.as_str())),
        None => {
            let mut what = owned("Payload inside ");
            what.append(pkg_path);
            Err(Error::Missing { what })
        },
    }
}

/// The end of the msiexec log that an error shows: its last 4000 bytes (all
/// of it when shorter).
pub open spec fn log_tail(log: Seq<u8>) -> Seq<u8> {
    if log.len() > 4000 {
        log.skip(log.len() - 4000)
    } else {
        log
    }
}

/// The last 4000 bytes of the msiexec log.
pub fn msi_log_tail(log: &Vec<u8>) -> (r: Vec<u8>)
    ensures
        r@ == log_tail(log@),
{
    let n = log.len();
    let start: usize = if n > 4000 { n - 4000 } else { 0 };
    let mut out: Vec<u8> = Vec::new();
    let mut i: usize = start;
    while i < n
        invariant
            start <= i <= n,
            n == log@.len(),
            out@ == log@.subrange(start as int, i as int),
        decreases n - i,
    {
        out.push(log[i]);
        assert(log@.subrange(start as int, i + 1) =~= log@.subrange(start as int, i as int).push(log@[i as int]));
        i = i + 1;
    }
    assert(log_tail(log@) =~= log@.subrange(start as int, n as int));
    out
}

/// What a finished `msiexec /a` run means: a failed run is an error with
/// its exit code, error output, log path and log end (or a note that the
/// log could not be read); a run that left the target folder empty is an
/// error too; otherwise the extraction is done.
pub fn msi_run_result(
    success: bool,
    code: Option<i32>,
    stderr: String,
    log_path: String,
    log_text: Option<String>,
    dest: String,
    dest_has_entries: bool,
) -> (r: Result<(), Error>)
    ensures
        !success ==> (r matches Err(Error::MsiFailed { code: c, stderr: s, log_path: lp, log }) && c == code && s@
            == stderr@ && lp@ == log_path@ && log@ == match log_text {
            Some(t) => t@,
            None => "(could not read msiexec log)"@,
        }),
        success && !dest_has_entries ==> (r matches Err(Error::MsiEmpty { dest: d }) && d@ == dest@),
        success && dest_has_entries ==> r is Ok,
{
    if !success {
        let log = match log_text {
            Some(t) => t,
            None => owned("(could not read msiexec log)"),
        };
        return Err(Error::MsiFailed { code, stderr, log_path, log });
    }
    if !dest_has_entries {
        return Err(Error::MsiEmpty { dest });
    }
    Ok(())
}

} // verus!
