//! Host OS and CPU classification for Windows, macOS, and Linux.
use crate::error::Error;
use crate::text::{chars_of, eq_str, lowercase, owned, string_of, to_lowercase};
use vstd::prelude::*;

verus! {

/// Operating system families that DevKit distinguishes.
#[derive(Debug, Clone, Copy, PartialEq, Eq, Structural)]
pub enum HostOS {
    Windows,
    MacOS,
    Linux,
    Other,
}

/// The machine the installer runs on: its OS and its normalized CPU label
/// (as `cpu_arch` returns it).
#[derive(Debug, Clone)]
pub struct Host {
    pub os: HostOS,
    pub arch: String,
}

/// The OS family named by a Rust target OS name (`std::env::consts::OS`).
pub open spec fn os_from_name(name: Seq<char>) -> HostOS {
    if name == "windows"@ {
        HostOS::Windows
    } else if name == "macos"@ {
        HostOS::MacOS
    } else if name == "linux"@ {
        HostOS::Linux
    } else {
        HostOS::Other
    }
}

/// Classify the target OS name (`std::env::consts::OS`) of this build.
pub fn current_os(os_name: &str) -> (r: HostOS)
    ensures
        r == os_from_name(os_name@),
{
    let n = chars_of(os_name);
    if eq_str(n.as_slice(), "windows") {
        HostOS::Windows
    } else if eq_str(n.as_slice(), "macos") {
        HostOS::MacOS
    } else if eq_str(n.as_slice(), "linux") {
        HostOS::Linux
    } else {
        HostOS::Other
    }
}

pub fn is_windows(os: HostOS) -> (r: bool)
    ensures
        r == (os == HostOS::Windows),
{
    os == HostOS::Windows
}

pub fn is_macos(os: HostOS) -> (r: bool)
    ensures
        r == (os == HostOS::MacOS),
{
    os == HostOS::MacOS
}

pub fn is_linux(os: HostOS) -> (r: bool)
    ensures
        r == (os == HostOS::Linux),
{
    os == HostOS::Linux
}

/// Everything but Windows is treated as a Unix.
pub fn is_unix(os: HostOS) -> (r: bool)
    ensures
        r == (os != HostOS::Windows),
{
    match os {
        HostOS::MacOS | HostOS::Linux | HostOS::Other => true,
        HostOS::Windows => false,
    }
}

/// The normalized CPU label for an already lowercased machine name.
pub open spec fn normalize_arch(m: Seq<char>) -> Seq<char> {
    if m == "aarch64"@ || m == "arm64"@ {
        "aarch64"@
    } else if m == "x86_64"@ || m == "amd64"@ || m == "x64"@ {
        "x64"@
    } else if m == "x86"@ || m == "i386"@ || m == "i686"@ {
        "x86"@
    } else {
        m
    }
}

/// Normalize a machine name (`std::env::consts::ARCH`): `aarch64`, `x64`, `x86`,
/// or the lowercased name itself when it is none of the known spellings.
pub fn cpu_arch(machine: &str) -> (r: String)
    ensures
        r@ == normalize_arch(lowercase(machine@)),
{
    let m = to_lowercase(chars_of(machine).as_slice());
    let s = m.as_slice();
    if eq_str(s, "aarch64") || eq_str(s, "arm64") {
        owned("aarch64")
    } else if eq_str(s, "x86_64") || eq_str(s, "amd64") || eq_str(s, "x64") {
        owned("x64")
    } else if eq_str(s, "x86") || eq_str(s, "i386") || eq_str(s, "i686") {
        owned("x86")
    } else {
        string_of(s)
    }
}

/// The Adoptium OS slug, if the OS has one.
pub open spec fn adoptium_slug(os: HostOS) -> Option<Seq<char>> {
    match os {
        HostOS::Windows => Some("windows"@),
        HostOS::MacOS => Some("mac"@),
        HostOS::Linux => Some("linux"@),
        HostOS::Other => None,
    }
}

/// OS slug for the Adoptium / Temurin API.
pub fn adoptium_os(os: HostOS) -> (r: Result<&'static str, Error>)
    ensures
        match r {
            Ok(s) => adoptium_slug(os) == Some(s@),
            Err(e) => adoptium_slug(os) is None && e is UnsupportedOs,
        },
{
    match os {
        HostOS::Windows => Ok("windows"),
        HostOS::MacOS => Ok("mac"),
        HostOS::Linux => Ok("linux"),
        HostOS::Other => Err(Error::UnsupportedOs { tool: "Temurin JDK" }),
    }
}

/// The label each OS family is shown with.
pub open spec fn os_label_spec(os: HostOS) -> Seq<char> {
    match os {
        HostOS::Windows => "Windows"@,
        HostOS::MacOS => "macOS"@,
        HostOS::Linux => "Linux"@,
        HostOS::Other => "Unknown"@,
    }
}

/// Human-readable OS name for CLI output.
pub fn os_label(os: HostOS) -> (r: &'static str)
    ensures
        r@ == os_label_spec(os),
{
    match os {
        HostOS::Windows => "Windows",
        HostOS::MacOS => "macOS",
        HostOS::Linux => "Linux",
        HostOS::Other => "Unknown",
    }
}

/// Keys a platform map may use for each OS, most specific first.
pub open spec fn os_aliases(os: HostOS) -> Seq<Seq<char>> {
    match os {
        HostOS::MacOS => seq!["macos"@, "darwin"@, "osx"@],
        HostOS::Windows => seq!["windows"@, "win"@, "win32"@],
        HostOS::Linux => seq!["linux"@],
        HostOS::Other => seq!["other"@],
    }
}

/// Every key tried, in order: the OS aliases, then `default`, then `*`.
pub open spec fn lookup_keys(os: HostOS) -> Seq<Seq<char>> {
    os_aliases(os) + seq!["default"@, "*"@]
}

/// The value of the first entry at or after `i` whose lowercased key is `k`.
pub open spec fn first_with_key(m: Seq<(Seq<char>, Seq<char>)>, k: Seq<char>, i: int) -> Option<
    Seq<char>,
>
    decreases m.len() - i,
{
    if i < 0 || i >= m.len() {
        None
    } else if lowercase(m[i].0) == k {
        Some(m[i].1)
    } else {
        first_with_key(m, k, i + 1)
    }
}

/// The value for the first key of `keys` (from index `j`) that the map holds.
pub open spec fn first_key_hit(m: Seq<(Seq<char>, Seq<char>)>, keys: Seq<Seq<char>>, j: int) -> Option<
    Seq<char>,
>
    decreases keys.len() - j,
{
    if j < 0 || j >= keys.len() {
        None
    } else {
        match first_with_key(m, keys[j], 0) {
            Some(v) => Some(v),
            None => first_key_hit(m, keys, j + 1),
        }
    }
}

/// The view of a platform map as pairs of character sequences.
pub open spec fn pairs_view(mapping: Seq<(&str, &str)>) -> Seq<(Seq<char>, Seq<char>)> {
    mapping.map_values(|p: (&str, &str)| (p.0@, p.1@))
}

/// What `pick_for_os` picks: the first alias hit, else `default`, else `*`,
/// else the explicit default.
pub open spec fn pick_for_os_spec(
    os: HostOS,
    m: Seq<(Seq<char>, Seq<char>)>,
    default: Option<Seq<char>>,
) -> Option<Seq<char>> {
    match first_key_hit(m, lookup_keys(os), 0) {
        Some(v) => Some(v),
        None => default,
    }
}

/// Some entry of `m` has the lowercased key `k`.
pub open spec fn has_key_entry(m: Seq<(Seq<char>, Seq<char>)>, k: Seq<char>) -> bool {
    exists|t: int| 0 <= t < m.len() && lowercase(#[trigger] m[t].0) == k
}

/// `v` is the value of the first entry of `m` whose lowercased key is `k`.
pub open spec fn is_first_value(m: Seq<(Seq<char>, Seq<char>)>, k: Seq<char>, v: Seq<char>) -> bool {
    exists|t: int|
        0 <= t < m.len() && lowercase(#[trigger] m[t].0) == k && m[t].1 == v && forall|j: int|
            0 <= j < t ==> lowercase(#[trigger] m[j].0) != k
}

/// Where the search for `k` from index `i` finds a value, it is that of an
/// entry at some index `t >= i` keyed `k`, with no entry between keyed `k`;
/// where it finds none, no entry from `i` on is keyed `k`.
proof fn lemma_first_with_key(m: Seq<(Seq<char>, Seq<char>)>, k: Seq<char>, i: int)
    requires
        0 <= i,
    ensures
        match first_with_key(m, k, i) {
            Some(v) => exists|t: int|
                i <= t < m.len() && lowercase(#[trigger] m[t].0) == k && m[t].1 == v && forall|j: int|
                    i <= j < t ==> lowercase(#[trigger] m[j].0) != k,
            None => forall|j: int| i <= j < m.len() ==> lowercase(#[trigger] m[j].0) != k,
        },
    decreases m.len() - i,
{
    if i < m.len() && lowercase(m[i].0) != k {
        lemma_first_with_key(m, k, i + 1);
    }
}

/// The search for `k` finds a value exactly when some entry is keyed `k`, and
/// then it is the value of the first such entry.
proof fn lemma_key_lookup(m: Seq<(Seq<char>, Seq<char>)>, k: Seq<char>)
    ensures
        first_with_key(m, k, 0) is Some <==> has_key_entry(m, k),
        first_with_key(m, k, 0) matches Some(v) ==> is_first_value(m, k, v),
{
    lemma_first_with_key(m, k, 0);
}

/// The lookup order of a platform map: the first of the host OS's names that
/// some entry is keyed by (compared lowercased) gives the value of the first
/// entry so keyed. The names are `macos`, `darwin`, `osx` on macOS; `windows`,
/// `win`, `win32` on Windows; `linux` on Linux; `other` elsewhere. Where no entry
/// is keyed by one of them, `default` and then `*` are looked up the same way,
/// and where neither is a key either, the explicit default (if any) is taken.
pub proof fn law_pick_for_os_order(
    os: HostOS,
    m: Seq<(Seq<char>, Seq<char>)>,
    default: Option<Seq<char>>,
)
    ensures
        ({
            let r = pick_for_os_spec(os, m, default);
            let os_keyed = match os {
                HostOS::MacOS => has_key_entry(m, "macos"@) || has_key_entry(m, "darwin"@) || has_key_entry(m, "osx"@),
                HostOS::Windows => has_key_entry(m, "windows"@) || has_key_entry(m, "win"@) || has_key_entry(
                    m,
                    "win32"@,
                ),
                HostOS::Linux => has_key_entry(m, "linux"@),
                HostOS::Other => has_key_entry(m, "other"@),
            };
            &&& os == HostOS::MacOS && has_key_entry(m, "macos"@) ==> (r matches Some(v) && is_first_value(m, "macos"@, v))
            &&& os == HostOS::MacOS && !has_key_entry(m, "macos"@) && has_key_entry(m, "darwin"@)
                ==> (r matches Some(v) && is_first_value(m, "darwin"@, v))
            &&& os == HostOS::MacOS && !has_key_entry(m, "macos"@) && !has_key_entry(m, "darwin"@)
                && has_key_entry(m, "osx"@) ==> (r matches Some(v) && is_first_value(m, "osx"@, v))
            &&& os == HostOS::Windows && has_key_entry(m, "windows"@) ==> (r matches Some(v) && is_first_value(m, "windows"@, v))
            &&& os == HostOS::Windows && !has_key_entry(m, "windows"@) && has_key_entry(m, "win"@)
                ==> (r matches Some(v) && is_first_value(m, "win"@, v))
            &&& os == HostOS::Windows && !has_key_entry(m, "windows"@) && !has_key_entry(m, "win"@)
                && has_key_entry(m, "win32"@) ==> (r matches Some(v) && is_first_value(m, "win32"@, v))
            &&& os == HostOS::Linux && has_key_entry(m, "linux"@) ==> (r matches Some(v) && is_first_value(m, "linux"@, v))
            &&& os == HostOS::Other && has_key_entry(m, "other"@) ==> (r matches Some(v) && is_first_value(m, "other"@, v))
            &&& !os_keyed && has_key_entry(m, "default"@) ==> (r matches Some(v) && is_first_value(m, "default"@, v))
            &&& !os_keyed && !has_key_entry(m, "default"@) && has_key_entry(m, "*"@) ==> (r matches Some(v) && is_first_value(m, "*"@, v))
            &&& !os_keyed && !has_key_entry(m, "default"@) && !has_key_entry(m, "*"@) ==> r == default
        }),
{
    reveal_with_fuel(first_key_hit, 6);
    lemma_key_lookup(m, "macos"@);
    lemma_key_lookup(m, "darwin"@);
    lemma_key_lookup(m, "osx"@);
    lemma_key_lookup(m, "windows"@);
    lemma_key_lookup(m, "win"@);
    lemma_key_lookup(m, "win32"@);
    lemma_key_lookup(m, "linux"@);
    lemma_key_lookup(m, "other"@);
    lemma_key_lookup(m, "default"@);
    lemma_key_lookup(m, "*"@);
    match os {
        HostOS::MacOS => {
            assert(lookup_keys(os) =~= seq!["macos"@, "darwin"@, "osx"@, "default"@, "*"@]);
        },
        HostOS::Windows => {
            assert(lookup_keys(os) =~= seq!["windows"@, "win"@, "win32"@, "default"@, "*"@]);
        },
        HostOS::Linux => {
            assert(lookup_keys(os) =~= seq!["linux"@, "default"@, "*"@]);
        },
        HostOS::Other => {
            assert(lookup_keys(os) =~= seq!["other"@, "default"@, "*"@]);
        },
    }
}

fn first_with_key_exec(lowered: &Vec<Vec<char>>, mapping: &[(&str, &str)], k: &str) -> (r: Option<
    usize,
>)
    requires
        lowered@.len() == mapping@.len(),
        forall|i: int|
            0 <= i < lowered@.len() ==> #[trigger] lowered@[i]@ == lowercase(mapping@[i].0@),
    ensures
        match r {
            Some(i) => i < mapping@.len() && first_with_key(pairs_view(mapping@), k@, 0) == Some(
                mapping@[i as int].1@,
            ),
            None => first_with_key(pairs_view(mapping@), k@, 0) is None,
        },
{
    let ghost m = pairs_view(mapping@);
    let mut i: usize = 0;
    while i < lowered.len()
        invariant
            i <= lowered@.len(),
            lowered@.len() == mapping@.len(),
            m == pairs_view(mapping@),
            forall|j: int|
                0 <= j < lowered@.len() ==> #[trigger] lowered@[j]@ == lowercase(mapping@[j].0@),
            first_with_key(m, k@, 0) == first_with_key(m, k@, i as int),
        decreases lowered.len() - i,
    {
        assert(m[i as int].0 == mapping@[i as int].0@);
        if eq_str(lowered[i].as_slice(), k) {
            return Some(i);
        }
        i = i + 1;
    }
    None
}

/// Pick a value from a platform map.
///
/// Keys (compared lowercased) may be `windows`/`win`/`win32`,
/// `macos`/`darwin`/`osx`, `linux`, or `default` / `*`.
pub fn pick_for_os(os: HostOS, os_name: &str, mapping: &[(&str, &str)], default: Option<&str>) -> (r:
    Result<String, Error>)
    ensures
        match pick_for_os_spec(
            os,
            pairs_view(mapping@),
            match default {
                Some(d) => Some(d@),
                None => None,
            },
        ) {
            Some(v) => r matches Ok(s) && s@ == v,
            None => r matches Err(Error::NoValueForOs { os_name: n, keys }) && n@ == os_name@
                && keys@.map_values(|k: String| k@) == pairs_view(mapping@).map_values(
                |e: (Seq<char>, Seq<char>)| e.0,
            ),
        },
{
    let mut lowered: Vec<Vec<char>> = Vec::new();
    let mut i: usize = 0;
    while i < mapping.len()
        invariant
            i <= mapping@.len(),
            lowered@.len() == i,
            forall|j: int| 0 <= j < i ==> #[trigger] lowered@[j]@ == lowercase(mapping@[j].0@),
        decreases mapping.len() - i,
    {
        let (k, _) = mapping[i];
        lowered.push(to_lowercase(chars_of(k).as_slice()));
        i = i + 1;
    }
    let ghost m = pairs_view(mapping@);
    let keys: Vec<&str> = match os {
        HostOS::MacOS => vec!["macos", "darwin", "osx", "default", "*"],
        HostOS::Windows => vec!["windows", "win", "win32", "default", "*"],
        HostOS::Linux => vec!["linux", "default", "*"],
        HostOS::Other => vec!["other", "default", "*"],
    };
    let ghost kv = keys@.map_values(|s: &str| s@);
    assert(kv =~= lookup_keys(os));
    let mut j: usize = 0;
    while j < keys.len()
        invariant
            j <= keys@.len(),
            kv == keys@.map_values(|s: &str| s@),
            kv == lookup_keys(os),
            m == pairs_view(mapping@),
            lowered@.len() == mapping@.len(),
            forall|t: int|
                0 <= t < lowered@.len() ==> #[trigger] lowered@[t]@ == lowercase(mapping@[t].0@),
            first_key_hit(m, kv, 0) == first_key_hit(m, kv, j as int),
        decreases keys.len() - j,
    {
        assert(kv[j as int] == keys@[j as int]@);
        match first_with_key_exec(&lowered, mapping, keys[j]) {
            Some(t) => {
                let (_, v) = mapping[t];
                return Ok(owned(v));
            },
            None => {},
        }
        j = j + 1;
    }
    match default {
        Some(d) => Ok(owned(d)),
        None => {
            let ghost ks = pairs_view(mapping@).map_values(|e: (Seq<char>, Seq<char>)| e.0);
            let mut known: Vec<String> = Vec::new();
            let mut t: usize = 0;
            while t < mapping.len()
                invariant
                    t <= mapping@.len(),
                    ks == pairs_view(mapping@).map_values(|e: (Seq<char>, Seq<char>)| e.0),
                    known@.map_values(|k: String| k@) == ks.take(t as int),
                decreases mapping.len() - t,
            {
                let (k, _) = mapping[t];
                let ghost before = known@.map_values(|k: String| k@);
                known.push(owned(k));
                assert(ks[t as int] == mapping@[t as int].0@);
                assert(known@.map_values(|k: String| k@) =~= before.push(k@));
                assert(ks.take(t + 1) =~= ks.take(t as int).push(ks[t as int]));
                t = t + 1;
            }
            assert(ks.take(t as int) =~= ks);
            Err(Error::NoValueForOs { os_name: owned(os_name), keys: known })
        },
    }
}

/// `list` with `x` appended unless it is already there.
pub open spec fn push_missing(list: Seq<Seq<char>>, x: Seq<char>) -> Seq<Seq<char>> {
    if list.contains(x) {
        list
    } else {
        list.push(x)
    }
}

/// Likely shell profile paths (macOS/Linux): the zsh files when the shell
/// is zsh or the OS macOS, the bash files when the shell is bash or the OS
/// Linux, then `.zshrc`, `.bashrc` and `.profile` where not yet listed.
pub open spec fn shell_profiles(os: HostOS, home: Seq<char>, shell: Seq<char>) -> Seq<Seq<char>> {
    let j = |n: Seq<char>| crate::paths::join(os, home, n);
    let zsh: Seq<Seq<char>> = if crate::text::contains(shell, "zsh"@) || os == HostOS::MacOS {
        seq![j(".zshrc"@), j(".zprofile"@)]
    } else {
        Seq::empty()
    };
    let bash: Seq<Seq<char>> = if crate::text::contains(shell, "bash"@) || os == HostOS::Linux {
        seq![j(".bashrc"@), j(".bash_profile"@), j(".profile"@)]
    } else {
        Seq::empty()
    };
    push_missing(push_missing(push_missing(zsh + bash, j(".zshrc"@)), j(".bashrc"@)), j(".profile"@))
}

fn push_missing_exec(list: &mut Vec<String>, x: String)
    ensures
        final(list)@.map_values(|s: String| s@) == push_missing(old(list)@.map_values(|s: String| s@), x@),
{
    let ghost lv = list@.map_values(|s: String| s@);
    let xv = chars_of(x.as_str());
    let mut i: usize = 0;
    while i < list.len()
        invariant
            i <= list@.len(),
            lv == list@.map_values(|s: String| s@),
            xv@ == x@,
            forall|k: int| 0 <= k < i ==> list@[k]@ != x@,
        decreases list.len() - i,
    {
        if crate::text::eq(chars_of(list[i].as_str()).as_slice(), xv.as_slice()) {
            assert(lv[i as int] == x@);
            return;
        }
        i = i + 1;
    }
    assert(!lv.contains(x@)) by {
        if lv.contains(x@) {
            let k = choose|k: int| 0 <= k < lv.len() && lv[k] == x@;
            assert(list@[k]@ == x@);
        }
    }
    list.push(x);
    assert(list@.map_values(|s: String| s@) =~= lv.push(x@));
}

/// Return likely shell profile paths for this OS, home folder and `$SHELL`.
pub fn shell_profile_candidates(os: HostOS, home: &str, shell: &str) -> (r: Vec<String>)
    ensures
        r@.map_values(|s: String| s@) == shell_profiles(os, home@, shell@),
{
    let sh = chars_of(shell);
    let mut profiles: Vec<String> = Vec::new();
    if crate::text::contains_str(sh.as_slice(), "zsh") || os == HostOS::MacOS {
        profiles.push(crate::paths::path_join(os, home, ".zshrc"));
        profiles.push(crate::paths::path_join(os, home, ".zprofile"));
    }
    let ghost z = profiles@.map_values(|s: String| s@);
    if crate::text::contains_str(sh.as_slice(), "bash") || os == HostOS::Linux {
        profiles.push(crate::paths::path_join(os, home, ".bashrc"));
        profiles.push(crate::paths::path_join(os, home, ".bash_profile"));
        profiles.push(crate::paths::path_join(os, home, ".profile"));
    }
    proof {
        let j = |n: Seq<char>| crate::paths::join(os, home@, n);
        let zsh: Seq<Seq<char>> = if crate::text::contains(shell@, "zsh"@) || os == HostOS::MacOS {
            seq![j(".zshrc"@), j(".zprofile"@)]
        } else {
            Seq::empty()
        };
        let bash: Seq<Seq<char>> = if crate::text::contains(shell@, "bash"@) || os == HostOS::Linux {
            seq![j(".bashrc"@), j(".bash_profile"@), j(".profile"@)]
        } else {
            Seq::empty()
        };
        assert(z =~= zsh);
        assert(profiles@.map_values(|s: String| s@) =~= zsh + bash);
    }
    push_missing_exec(&mut profiles, crate::paths::path_join(os, home, ".zshrc"));
    push_missing_exec(&mut profiles, crate::paths::path_join(os, home, ".bashrc"));
    push_missing_exec(&mut profiles, crate::paths::path_join(os, home, ".profile"));
    profiles
}

/// The profile file to source `~/.devkit/env.sh` from: `.zshrc` on macOS,
/// `.bashrc` on Linux; elsewhere by the shell: `.zshrc` for zsh, for bash
/// `.bashrc` when it exists, else `.bash_profile`; else `.profile`.
pub open spec fn primary_profile(os: HostOS, home: Seq<char>, shell: Seq<char>, bashrc_exists: bool) -> Seq<char> {
    if os == HostOS::MacOS {
        crate::paths::join(os, home, ".zshrc"@)
    } else if os == HostOS::Linux {
        crate::paths::join(os, home, ".bashrc"@)
    } else if crate::text::contains(shell, "zsh"@) {
        crate::paths::join(os, home, ".zshrc"@)
    } else if crate::text::contains(shell, "bash"@) {
        if bashrc_exists {
            crate::paths::join(os, home, ".bashrc"@)
        } else {
            crate::paths::join(os, home, ".bash_profile"@)
        }
    } else {
        crate::paths::join(os, home, ".profile"@)
    }
}

/// Best profile file to source `~/.devkit/env.sh` from; `bashrc_exists`
/// tells whether `<home>/.bashrc` exists.
pub fn primary_shell_profile(os: HostOS, home: &str, shell: &str, bashrc_exists: bool) -> (r: String)
    ensures
        r@ == primary_profile(os, home@, shell@, bashrc_exists),
{
    if os == HostOS::MacOS {
        return crate::paths::path_join(os, home, ".zshrc");
    }
    if os == HostOS::Linux {
        return crate::paths::path_join(os, home, ".bashrc");
    }
    let sh = chars_of(shell);
    if crate::text::contains_str(sh.as_slice(), "zsh") {
        return crate::paths::path_join(os, home, ".zshrc");
    }
    if crate::text::contains_str(sh.as_slice(), "bash") {
        if bashrc_exists {
            return crate::paths::path_join(os, home, ".bashrc");
        }
        return crate::paths::path_join(os, home, ".bash_profile");
    }
    crate::paths::path_join(os, home, ".profile")
}

} // verus!
