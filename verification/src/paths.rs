//! DevKit install path helpers and the file-system snapshot plugins read.
//!
//! Default install root is a `dev` folder chosen per OS:
//!
//! - Windows: `C:\dev` (system drive + `\dev`)
//! - macOS / Linux: `/opt/dev` if writable, else `~/dev`
//!
//! Override with the `DEVKIT_HOME` environment variable.
//! Plugins install to `<dev_root>/<plugin-id>` (e.g. `C:\dev\flutter`).
use crate::platform::HostOS;
use crate::text::{lemma_lt_asym, lemma_lt_irrefl, lemma_lt_trans, chars_of, count_char, eq, owned, seq_lt, starts_with, string_of, lt_exec,
    count_char_exec, slice_of, starts_with_str};
use vstd::prelude::*;

verus! {

// ---------------------------------------------------------------------------
// Path strings
// ---------------------------------------------------------------------------

/// The separator `PathBuf::push` inserts.
pub open spec fn sep(os: HostOS) -> char {
    if os == HostOS::Windows {
        '\\'
    } else {
        '/'
    }
}

/// Characters that separate components.
pub open spec fn is_sep(os: HostOS, c: char) -> bool {
    c == '/' || (os == HostOS::Windows && c == '\\')
}

/// `base.join(part)` for a relative `part`: a separator is inserted unless
/// `base` is empty or already ends with one.
pub open spec fn join(os: HostOS, base: Seq<char>, part: Seq<char>) -> Seq<char> {
    if base.len() == 0 {
        part
    } else if is_sep(os, base.last()) {
        base + part
    } else {
        base + seq![sep(os)] + part
    }
}

/// Index of the last separator, if any.
pub open spec fn last_sep(os: HostOS, p: Seq<char>, i: int) -> Option<int>
    decreases i,
{
    if i <= 0 || i > p.len() {
        None
    } else if is_sep(os, p[i - 1]) {
        Some(i - 1)
    } else {
        last_sep(os, p, i - 1)
    }
}

/// The folder part of a path: everything before its last separator.
pub open spec fn parent(os: HostOS, p: Seq<char>) -> Option<Seq<char>> {
    match last_sep(os, p, p.len() as int) {
        Some(i) => Some(p.take(i)),
        None => None,
    }
}

/// The last component of a path: everything after its last separator.
pub open spec fn file_name(os: HostOS, p: Seq<char>) -> Seq<char> {
    match last_sep(os, p, p.len() as int) {
        Some(i) => p.skip(i + 1),
        None => p,
    }
}

/// Join `part` onto `base` with the OS separator.
pub fn path_join(os: HostOS, base: &str, part: &str) -> (r: String)
    ensures
        r@ == join(os, base@, part@),
{
    let b = chars_of(base);
    let mut out = String::from_str(base);
    if b.len() > 0 {
        let last = b[b.len() - 1];
        if !(last == '/' || (os == HostOS::Windows && last == '\\')) {
            if os == HostOS::Windows {
                out.append("\\");
            } else {
                out.append("/");
            }
        }
    }
    out.append(part);
    proof {
        if b@.len() > 0 {
            assert(b@.last() == base@.last());
        }
        if os == HostOS::Windows {
            reveal_strlit("\\");
            assert("\\"@ =~= seq!['\\']);
        } else {
            reveal_strlit("/");
            assert("/"@ =~= seq!['/']);
        }
    }
    out
}

/// Join several parts in turn.
pub fn path_join2(os: HostOS, base: &str, a: &str, b: &str) -> (r: String)
    ensures
        r@ == join(os, join(os, base@, a@), b@),
{
    let x = path_join(os, base, a);
    path_join(os, x.as_str(), b)
}

/// Join three parts in turn.
pub fn path_join3(os: HostOS, base: &str, a: &str, b: &str, c: &str) -> (r: String)
    ensures
        r@ == join(os, join(os, join(os, base@, a@), b@), c@),
{
    let x = path_join2(os, base, a, b);
    path_join(os, x.as_str(), c)
}

fn last_sep_exec(os: HostOS, p: &[char]) -> (r: Option<usize>)
    ensures
        match r {
            Some(i) => last_sep(os, p@, p@.len() as int) == Some(i as int) && i < p@.len(),
            None => last_sep(os, p@, p@.len() as int) is None,
        },
{
    let mut i = p.len();
    while i > 0
        invariant
            i <= p@.len(),
            last_sep(os, p@, p@.len() as int) == last_sep(os, p@, i as int),
        decreases i,
    {
        let c = p[i - 1];
        if c == '/' || (os == HostOS::Windows && c == '\\') {
            return Some(i - 1);
        }
        i = i - 1;
    }
    None
}

/// `Path::parent` of a path without trailing separators.
pub fn parent_of(os: HostOS, p: &str) -> (r: Option<String>)
    ensures
        match r {
            Some(s) => parent(os, p@) == Some(s@),
            None => parent(os, p@) is None,
        },
{
    let v = chars_of(p);
    match last_sep_exec(os, v.as_slice()) {
        Some(i) => {
            let t = slice_of(v.as_slice(), 0, i);
            assert(t@ =~= p@.take(i as int));
            Some(string_of(t.as_slice()))
        },
        None => None,
    }
}

/// `Path::file_name` of a path without trailing separators.
pub fn file_name_of(os: HostOS, p: &str) -> (r: String)
    ensures
        r@ == file_name(os, p@),
{
    let v = chars_of(p);
    let n = v.len();
    match last_sep_exec(os, v.as_slice()) {
        Some(i) => {
            let t = slice_of(v.as_slice(), i + 1, n);
            assert(t@ =~= p@.skip(i + 1));
            string_of(t.as_slice())
        },
        None => string_of(v.as_slice()),
    }
}

/// The last separator of `join(base, part)` is the one before `part`, when
/// `part` holds no separator; so `parent` gives `base` back.
pub proof fn lemma_parent_of_join(os: HostOS, base: Seq<char>, part: Seq<char>)
    requires
        base.len() > 0,
        !is_sep(os, base.last()),
        forall|i: int| 0 <= i < part.len() ==> !is_sep(os, #[trigger] part[i]),
    ensures
        parent(os, join(os, base, part)) == Some(base),
        file_name(os, join(os, base, part)) == part,
{
    let p = join(os, base, part);
    assert(p == base + seq![sep(os)] + part);
    lemma_last_sep_skip(os, p, p.len() as int, base.len() as int + 1);
    assert(is_sep(os, p[base.len() as int]));
    assert(p.take(base.len() as int) =~= base);
    assert(p.skip(base.len() as int + 1) =~= part);
}

proof fn lemma_last_sep_skip(os: HostOS, p: Seq<char>, i: int, k: int)
    requires
        0 < k <= i <= p.len(),
        forall|j: int| k <= j < i ==> !is_sep(os, #[trigger] p[j]),
    ensures
        last_sep(os, p, i) == last_sep(os, p, k),
    decreases i - k,
{
    if i > k {
        assert(!is_sep(os, p[i - 1]));
        lemma_last_sep_skip(os, p, i - 1, k);
    }
}

// ---------------------------------------------------------------------------
// File-system snapshot
// ---------------------------------------------------------------------------

/// What a plugin may learn about one folder tree (the install folder) and
/// the commands on `PATH`. The application fills it in before asking.
#[derive(Debug, Clone)]
pub struct FsView {
    /// The folder the snapshot describes.
    pub root: String,
    /// Every regular file at or under `root`, as a full path.
    pub files: Vec<String>,
    /// Every folder at or under `root` (with `root` itself when it exists).
    pub dirs: Vec<String>,
    /// The folders among `dirs` that hold at least one entry.
    pub nonempty_dirs: Vec<String>,
    /// `root` with links resolved, when `root` exists.
    pub canonical_root: Option<String>,
    /// Names of the commands found on `PATH` (for example `java`, `php`).
    pub commands: Vec<String>,
}

/// The snapshot as character sequences.
pub struct FsModel {
    pub root: Seq<char>,
    pub files: Seq<Seq<char>>,
    pub dirs: Seq<Seq<char>>,
    pub nonempty_dirs: Seq<Seq<char>>,
    pub canonical_root: Option<Seq<char>>,
    pub commands: Seq<Seq<char>>,
}

pub open spec fn strings_view(v: Seq<String>) -> Seq<Seq<char>> {
    v.map_values(|s: String| s@)
}

impl View for FsView {
    type V = FsModel;

    open spec fn view(&self) -> FsModel {
        FsModel {
            root: self.root@,
            files: strings_view(self.files@),
            dirs: strings_view(self.dirs@),
            nonempty_dirs: strings_view(self.nonempty_dirs@),
            canonical_root: match self.canonical_root {
                Some(c) => Some(c@),
                None => None,
            },
            commands: strings_view(self.commands@),
        }
    }
}

pub open spec fn fs_is_file(fs: FsModel, p: Seq<char>) -> bool {
    fs.files.contains(p)
}

pub open spec fn fs_is_dir(fs: FsModel, p: Seq<char>) -> bool {
    fs.dirs.contains(p)
}

/// `p` is a folder with at least one entry.
pub open spec fn fs_has_contents(fs: FsModel, p: Seq<char>) -> bool {
    fs.dirs.contains(p) && fs.nonempty_dirs.contains(p)
}

pub open spec fn fs_has_command(fs: FsModel, name: Seq<char>) -> bool {
    fs.commands.contains(name)
}

/// `canonicalize(p).unwrap_or(p)` for `p` at or under the snapshot's root:
/// the resolved root followed by the rest of `p` when `p` exists, else `p`.
pub open spec fn fs_canonical(os: HostOS, fs: FsModel, p: Seq<char>) -> Seq<char> {
    match fs.canonical_root {
        Some(c) => if p == fs.root {
            c
        } else if starts_with(p, fs.root) && p.len() > fs.root.len() && is_sep(
            os,
            p[fs.root.len() as int],
        ) && (fs_is_file(fs, p) || fs_is_dir(fs, p)) {
            c + p.skip(fs.root.len() as int)
        } else {
            p
        },
        None => p,
    }
}

fn contains_string(v: &Vec<String>, p: &str) -> (r: bool)
    ensures
        r == strings_view(v@).contains(p@),
{
    let pv = chars_of(p);
    let mut i: usize = 0;
    while i < v.len()
        invariant
            i <= v@.len(),
            pv@ == p@,
            forall|j: int| 0 <= j < i ==> v@[j]@ != p@,
        decreases v.len() - i,
    {
        let cv = chars_of(v[i].as_str());
        if eq(cv.as_slice(), pv.as_slice()) {
            assert(strings_view(v@)[i as int] == p@);
            return true;
        }
        i = i + 1;
    }
    assert(!strings_view(v@).contains(p@)) by {
        if strings_view(v@).contains(p@) {
            let k = choose|k: int| 0 <= k < strings_view(v@).len() && strings_view(v@)[k] == p@;
            assert(v@[k]@ == p@);
        }
    }
    false
}

impl FsView {
    /// A snapshot of a folder that does not exist, with no commands on PATH.
    pub fn missing(root: &str) -> (r: FsView)
        ensures
            r@.root == root@,
            r@.files.len() == 0,
            r@.dirs.len() == 0,
            r@.nonempty_dirs.len() == 0,
            r@.canonical_root is None,
            r@.commands.len() == 0,
    {
        FsView {
            root: owned(root),
            files: Vec::new(),
            dirs: Vec::new(),
            nonempty_dirs: Vec::new(),
            canonical_root: None,
            commands: Vec::new(),
        }
    }

    /// `Path::is_file`.
    pub fn is_file(&self, p: &str) -> (r: bool)
        ensures
            r == fs_is_file(self@, p@),
    {
        contains_string(&self.files, p)
    }

    /// `Path::is_dir`.
    pub fn is_dir(&self, p: &str) -> (r: bool)
        ensures
            r == fs_is_dir(self@, p@),
    {
        contains_string(&self.dirs, p)
    }

    /// `p.is_dir() && read_dir(p).next().is_some()`.
    pub fn has_contents(&self, p: &str) -> (r: bool)
        ensures
            r == fs_has_contents(self@, p@),
    {
        contains_string(&self.dirs, p) && contains_string(&self.nonempty_dirs, p)
    }

    /// Whether a command of this name was found on PATH.
    pub fn has_command(&self, name: &str) -> (r: bool)
        ensures
            r == fs_has_command(self@, name@),
    {
        contains_string(&self.commands, name)
    }

    /// `canonicalize(p).unwrap_or(p)` for a path at or under the root.
    pub fn canonical(&self, os: HostOS, p: &str) -> (r: String)
        ensures
            r@ == fs_canonical(os, self@, p@),
    {
        match &self.canonical_root {
            None => owned(p),
            Some(c) => {
                let pv = chars_of(p);
                let rv = chars_of(self.root.as_str());
                if eq(pv.as_slice(), rv.as_slice()) {
                    owned(c.as_str())
                } else if starts_with_str(pv.as_slice(), self.root.as_str()) && pv.len() > rv.len()
                    && (pv[rv.len()] == '/' || (os == HostOS::Windows && pv[rv.len()] == '\\')) && (
                self.is_file(p) || self.is_dir(p)) {
                    let rest = slice_of(pv.as_slice(), rv.len(), pv.len());
                    let mut out = owned(c.as_str());
                    out.append(string_of(rest.as_slice()).as_str());
                    assert(rest@ =~= p@.skip(self.root@.len() as int));
                    out
                } else {
                    owned(p)
                }
            },
        }
    }
}

// ---------------------------------------------------------------------------
// Finding files by name
// ---------------------------------------------------------------------------

/// Paths are ordered shallowest first (fewest separators), then by text.
pub open spec fn path_before(os: HostOS, a: Seq<char>, b: Seq<char>) -> bool {
    let da = count_char(a, sep(os));
    let db = count_char(b, sep(os));
    da < db || (da == db && seq_lt(a, b))
}

/// `p` lies strictly under `root` and its last component is `name`.
pub open spec fn is_named_under(os: HostOS, root: Seq<char>, name: Seq<char>, p: Seq<char>) -> bool {
    &&& starts_with(p, root)
    &&& p.len() > root.len()
    &&& is_sep(os, p[root.len() as int])
    &&& file_name(os, p) == name
}

/// Of two different paths one comes first.
pub proof fn lemma_path_order_total(os: HostOS, a: Seq<char>, b: Seq<char>)
    ensures
        a == b || path_before(os, a, b) || path_before(os, b, a),
{
    crate::text::lemma_lt_total(a, b);
}

fn path_before_exec(os: HostOS, a: &str, b: &str) -> (r: bool)
    ensures
        r == path_before(os, a@, b@),
{
    let av = chars_of(a);
    let bv = chars_of(b);
    let s = if os == HostOS::Windows {
        '\\'
    } else {
        '/'
    };
    let da = count_char_exec(av.as_slice(), s);
    let db = count_char_exec(bv.as_slice(), s);
    da < db || (da == db && lt_exec(av.as_slice(), bv.as_slice()))
}

fn is_named_under_exec(os: HostOS, root: &str, name: &str, p: &str) -> (r: bool)
    ensures
        r == is_named_under(os, root@, name@, p@),
{
    let pv = chars_of(p);
    let rv = chars_of(root);
    if !starts_with_str(pv.as_slice(), root) || pv.len() <= rv.len() {
        return false;
    }
    let c = pv[rv.len()];
    if !(c == '/' || (os == HostOS::Windows && c == '\\')) {
        return false;
    }
    let f = file_name_of(os, p);
    let fv = chars_of(f.as_str());
    let nv = chars_of(name);
    eq(fv.as_slice(), nv.as_slice())
}

/// The files of the snapshot that lie under `root` and are named `name`, each once,
/// shallowest first, then in text order (a stand-in for `rglob`).
pub fn find_files_named(os: HostOS, fs: &FsView, root: &str, name: &str) -> (r: Vec<String>)
    ensures
        forall|i: int|
            0 <= i < r@.len() ==> fs@.files.contains(#[trigger] r@[i]@) && is_named_under(
                os,
                root@,
                name@,
                r@[i]@,
            ),
        forall|p: Seq<char>|
            fs@.files.contains(p) && is_named_under(os, root@, name@, p) ==> exists|i: int|
                0 <= i < r@.len() && #[trigger] r@[i]@ == p,
        forall|i: int, j: int|
            0 <= i < j < r@.len() ==> !path_before(os, #[trigger] r@[j]@, #[trigger] r@[i]@),
        forall|i: int, j: int| 0 <= i < j < r@.len() ==> #[trigger] r@[i]@ != #[trigger] r@[j]@,
{
    let mut out: Vec<String> = Vec::new();
    let mut k: usize = 0;
    while k < fs.files.len()
        invariant
            k <= fs.files@.len(),
            forall|i: int|
                0 <= i < out@.len() ==> fs@.files.contains(#[trigger] out@[i]@) && is_named_under(
                    os,
                    root@,
                    name@,
                    out@[i]@,
                ),
            forall|t: int|
                0 <= t < k && is_named_under(os, root@, name@, fs.files@[t]@) ==> exists|i: int|
                    0 <= i < out@.len() && #[trigger] out@[i]@ == fs.files@[t]@,
            forall|i: int, j: int|
                0 <= i < j < out@.len() ==> !path_before(os, #[trigger] out@[j]@, #[trigger] out@[i]@),
            forall|i: int, j: int| 0 <= i < j < out@.len() ==> #[trigger] out@[i]@ != #[trigger] out@[j]@,
        decreases fs.files.len() - k,
    {
        let f = &fs.files[k];
        assert(fs@.files[k as int] == f@);
        let fc = chars_of(f.as_str());
        let mut present = false;
        let mut q: usize = 0;
        while q < out.len()
            invariant
                q <= out@.len(),
                fc@ == f@,
                present ==> exists|i: int| 0 <= i < out@.len() && #[trigger] out@[i]@ == f@,
                !present ==> forall|i: int| 0 <= i < q ==> #[trigger] out@[i]@ != f@,
            decreases out.len() - q,
        {
            if !present && eq(chars_of(out[q].as_str()).as_slice(), fc.as_slice()) {
                present = true;
                assert(out@[q as int]@ == f@);
            }
            q = q + 1;
        }
        if present {
            proof {
                assert forall|t: int|
                    0 <= t < k + 1 && is_named_under(
                        os,
                        root@,
                        name@,
                        fs.files@[t]@,
                    ) implies exists|i: int| 0 <= i < out@.len() && #[trigger] out@[i]@ == fs.files@[t]@ by {
                    if t < k {
                    } else {
                        assert(fs.files@[t]@ == f@);
                    }
                }
            }
        } else if is_named_under_exec(os, root, name, f.as_str()) {
            // insert before the first element that `f` comes before
            let mut pos: usize = 0;
            while pos < out.len() && !path_before_exec(os, f.as_str(), out[pos].as_str())
                invariant
                    pos <= out@.len(),
                    forall|i: int| 0 <= i < pos ==> !path_before(os, f@, #[trigger] out@[i]@),
                decreases out.len() - pos,
            {
                pos = pos + 1;
            }
            let ghost before = out@;
            proof {
                lemma_path_order(os);
            }
            out.insert(pos, owned(f.as_str()));
            proof {
                assert forall|i: int, j: int|
                    0 <= i < j < out@.len() implies !path_before(
                    os,
                    #[trigger] out@[j]@,
                    #[trigger] out@[i]@,
                ) by {
                    if j < pos {
                        assert(out@[i] == before[i] && out@[j] == before[j]);
                        assert(!path_before(os, before[j]@, before[i]@));
                    } else if j == pos {
                        assert(out@[i] == before[i]);
                        assert(!path_before(os, f@, before[i]@));
                    } else if i < pos {
                        assert(out@[i] == before[i] && out@[j] == before[j - 1]);
                        assert(!path_before(os, before[j - 1]@, before[i]@));
                    } else if i == pos {
                        assert(out@[j] == before[j - 1]);
                        assert(out@[i]@ == f@);
                        assert(path_before(os, f@, before[pos as int]@));
                        if j - 1 > pos {
                            assert(!path_before(os, before[j - 1]@, before[pos as int]@));
                            if path_before(os, before[j - 1]@, f@) {
                                assert(path_before(os, before[j - 1]@, before[pos as int]@));
                            }
                        } else {
                            assert(!path_before(os, before[pos as int]@, f@));
                        }
                    } else {
                        assert(out@[i] == before[i - 1] && out@[j] == before[j - 1]);
                        assert(!path_before(os, before[j - 1]@, before[i - 1]@));
                    }
                }
                assert forall|t: int|
                    0 <= t < k + 1 && is_named_under(
                        os,
                        root@,
                        name@,
                        fs.files@[t]@,
                    ) implies exists|i: int| 0 <= i < out@.len() && #[trigger] out@[i]@ == fs.files@[t]@ by {
                    if t == k {
                        assert(out@[pos as int]@ == fs.files@[t]@);
                    } else {
                        let i0 = choose|i: int| 0 <= i < before.len() && #[trigger] before[i]@ == fs.files@[t]@;
                        if i0 < pos {
                            assert(out@[i0]@ == fs.files@[t]@);
                        } else {
                            assert(out@[i0 + 1]@ == fs.files@[t]@);
                        }
                    }
                }
                assert forall|i: int, j: int| 0 <= i < j < out@.len() implies #[trigger] out@[i]@ != #[trigger] out@[j]@ by {
                    if j < pos {
                        assert(out@[i] == before[i] && out@[j] == before[j]);
                    } else if j == pos {
                        assert(out@[i] == before[i]);
                    } else if i < pos {
                        assert(out@[i] == before[i] && out@[j] == before[j - 1]);
                    } else if i == pos {
                        assert(out@[j] == before[j - 1]);
                    } else {
                        assert(out@[i] == before[i - 1] && out@[j] == before[j - 1]);
                    }
                }
                assert forall|i: int| 0 <= i < out@.len() implies fs@.files.contains(#[trigger] out@[i]@) && is_named_under(os, root@, name@, out@[i]@) by {
                    if i < pos {
                        assert(out@[i] == before[i]);
                    } else if i == pos {
                        assert(fs@.files[k as int] == out@[i]@);
                    } else {
                        assert(out@[i] == before[i - 1]);
                    }
                }
            }
        }
        k = k + 1;
    }
    proof {
        assert forall|p: Seq<char>|
            fs@.files.contains(p) && is_named_under(os, root@, name@, p) implies exists|i: int|
                0 <= i < out@.len() && #[trigger] out@[i]@ == p by {
            let t = choose|t: int| 0 <= t < fs@.files.len() && fs@.files[t] == p;
            assert(fs.files@[t]@ == p);
        }
    }
    out
}

/// `path_before` is a strict order: irreflexive, asymmetric and transitive.
pub proof fn lemma_path_order(os: HostOS)
    ensures
        forall|a: Seq<char>| !path_before(os, a, a),
        forall|a: Seq<char>, b: Seq<char>|
            #[trigger] path_before(os, a, b) ==> !path_before(os, b, a),
        forall|a: Seq<char>, b: Seq<char>, c: Seq<char>|
            #[trigger] path_before(os, a, b) && #[trigger] path_before(os, b, c) ==> path_before(
                os,
                a,
                c,
            ),
{
    assert forall|a: Seq<char>| !path_before(os, a, a) by {
        lemma_lt_irrefl(a);
    }
    assert forall|a: Seq<char>, b: Seq<char>| #[trigger] path_before(os, a, b) implies !path_before(os, b, a) by {
        lemma_lt_asym(a, b);
    }
    assert forall|a: Seq<char>, b: Seq<char>, c: Seq<char>|
        #[trigger] path_before(os, a, b) && #[trigger] path_before(os, b, c) implies path_before(
        os,
        a,
        c,
    ) by {
        if count_char(a, sep(os)) == count_char(b, sep(os)) && count_char(b, sep(os))
            == count_char(c, sep(os)) {
            lemma_lt_trans(a, b, c);
        }
    }
}

// ---------------------------------------------------------------------------
// The dev root
// ---------------------------------------------------------------------------

/// What is known of one path while looking for a writable ancestor.
#[derive(Debug, Clone, Copy)]
pub struct PathProbe {
    pub exists: bool,
    pub writable: bool,
}

/// Writability of the first existing entry of the chain (a path, then its
/// parent, grandparent, ...); false when none exists.
pub open spec fn first_existing_writable(chain: Seq<PathProbe>) -> bool
    decreases chain.len(),
{
    if chain.len() == 0 {
        false
    } else if chain[0].exists {
        chain[0].writable
    } else {
        first_existing_writable(chain.drop_first())
    }
}

/// Return true if the path (first entry of `chain`) exists and is writable,
/// or can be created because its nearest existing ancestor is writable.
/// `chain` lists the path and then each ancestor in turn.
pub fn is_creatable(chain: &[PathProbe]) -> (r: bool)
    ensures
        r == first_existing_writable(chain@),
{
    let mut i: usize = 0;
    assert(chain@.skip(0) =~= chain@);
    while i < chain.len()
        invariant
            i <= chain@.len(),
            first_existing_writable(chain@) == first_existing_writable(chain@.skip(i as int)),
        decreases chain.len() - i,
    {
        assert(chain@.skip(i as int).drop_first() =~= chain@.skip(i + 1));
        if chain[i].exists {
            return chain[i].writable;
        }
        i = i + 1;
    }
    false
}

/// The ordered candidate `dev` roots for an OS.
pub open spec fn preferred_dev_roots_spec(os: HostOS, drive: Option<Seq<char>>, home_dir: Seq<char>) -> Seq<
    Seq<char>,
> {
    if os == HostOS::Windows {
        let d = match drive {
            Some(d) => d,
            None => "C:"@,
        };
        seq![d + "\\dev"@]
    } else {
        seq!["/opt/dev"@, join(os, home_dir, "dev"@)]
    }
}

/// Ordered candidate `dev` roots: `<SystemDrive>\dev` on Windows, else
/// `/opt/dev` then `~/dev`.
pub fn preferred_dev_roots(os: HostOS, system_drive: Option<&str>, home_dir: &str) -> (r: Vec<String>)
    ensures
        strings_view(r@) == preferred_dev_roots_spec(
            os,
            match system_drive {
                Some(d) => Some(d@),
                None => None,
            },
            home_dir@,
        ),
{
    if os == HostOS::Windows {
        let mut d = match system_drive {
            Some(d) => owned(d),
            None => owned("C:"),
        };
        d.append("\\dev");
        let r = vec![d];
        assert(strings_view(r@) =~= preferred_dev_roots_spec(
            os,
            match system_drive {
                Some(d) => Some(d@),
                None => None,
            },
            home_dir@,
        ));
        r
    } else {
        let r = vec![owned("/opt/dev"), path_join(os, home_dir, "dev")];
        assert(strings_view(r@) =~= preferred_dev_roots_spec(
            os,
            match system_drive {
                Some(d) => Some(d@),
                None => None,
            },
            home_dir@,
        ));
        r
    }
}

/// The first candidate that can be used, else `~/dev`.
pub open spec fn default_dev_root_spec(os: HostOS, candidates: Seq<(Seq<char>, bool)>, home_dir: Seq<char>) -> Seq<
    char,
>
    decreases candidates.len(),
{
    if candidates.len() == 0 {
        join(os, home_dir, "dev"@)
    } else if candidates[0].1 {
        candidates[0].0
    } else {
        default_dev_root_spec(os, candidates.drop_first(), home_dir)
    }
}

/// Return the best default `dev` folder: the first candidate marked creatable,
/// else `<home>/dev`.
pub fn default_dev_root(os: HostOS, candidates: &Vec<(String, bool)>, home_dir: &str) -> (r: String)
    ensures
        r@ == default_dev_root_spec(
            os,
            candidates@.map_values(|c: (String, bool)| (c.0@, c.1)),
            home_dir@,
        ),
{
    let ghost cs = candidates@.map_values(|c: (String, bool)| (c.0@, c.1));
    let mut i: usize = 0;
    assert(cs.skip(0) =~= cs);
    while i < candidates.len()
        invariant
            i <= candidates@.len(),
            cs == candidates@.map_values(|c: (String, bool)| (c.0@, c.1)),
            default_dev_root_spec(os, cs, home_dir@) == default_dev_root_spec(
                os,
                cs.skip(i as int),
                home_dir@,
            ),
        decreases candidates.len() - i,
    {
        assert(cs.skip(i as int).drop_first() =~= cs.skip(i + 1));
        assert(cs.skip(i as int)[0] == (candidates@[i as int].0@, candidates@[i as int].1));
        if candidates[i].1 {
            return owned(candidates[i].0.as_str());
        }
        i = i + 1;
    }
    path_join(os, home_dir, "dev")
}

/// Whether a `DEVKIT_HOME` value overrides the default root (set and non-empty).
pub fn uses_override(devkit_home: Option<&str>) -> (r: bool)
    ensures
        r == (devkit_home matches Some(h) && h@.len() > 0),
{
    match devkit_home {
        Some(h) => chars_of(h).len() > 0,
        None => false,
    }
}

/// `~` expansion: a path whose first component is `~` has it replaced by the
/// user's home folder, when that is known.
pub open spec fn expand_tilde_spec(os: HostOS, p: Seq<char>, home_dir: Option<Seq<char>>) -> Seq<char> {
    match home_dir {
        Some(h) => if p == "~"@ {
            join(os, h, Seq::empty())
        } else if p.len() >= 2 && p[0] == '~' && is_sep(os, p[1]) {
            join(os, h, p.skip(2))
        } else {
            p
        },
        None => p,
    }
}

/// Replace a leading `~` component by the home folder.
pub fn expand_tilde(os: HostOS, p: &str, home_dir: Option<&str>) -> (r: String)
    ensures
        r@ == expand_tilde_spec(
            os,
            p@,
            match home_dir {
                Some(h) => Some(h@),
                None => None,
            },
        ),
{
    match home_dir {
        None => owned(p),
        Some(h) => {
            let v = chars_of(p);
            proof {
                reveal_strlit("~");
                reveal_strlit("");
                assert("~"@.len() == 1 && "~"@[0] == '~');
                assert(""@ =~= Seq::<char>::empty());
            }
            if v.len() == 1 && v[0] == '~' {
                assert(p@ =~= "~"@);
                path_join(os, h, "")
            } else if v.len() >= 2 && v[0] == '~' && (v[1] == '/' || (os == HostOS::Windows && v[1]
                == '\\')) {
                proof {
                    reveal_strlit("~");
                }
                let rest = string_of(slice_of(v.as_slice(), 2, v.len()).as_slice());
                assert(rest@ =~= p@.skip(2));
                path_join(os, h, rest.as_str())
            } else {
                proof {
                    reveal_strlit("~");
                }
                owned(p)
            }
        },
    }
}

/// The canonical form of a path, without Windows' `\\?\` verbatim prefix.
pub open spec fn to_absolute_spec(os: HostOS, p: Seq<char>, canonical: Option<Seq<char>>) -> Seq<char> {
    let c = match canonical {
        Some(c) => c,
        None => p,
    };
    if os == HostOS::Windows && starts_with(c, "\\\\?\\"@) {
        c.skip(4)
    } else {
        c
    }
}

/// `canonicalize(path).unwrap_or(path)` with Windows' `\\?\` prefix removed;
/// `canonical` is what canonicalization returned, if it succeeded.
pub fn to_absolute(os: HostOS, path: &str, canonical: Option<&str>) -> (r: String)
    ensures
        r@ == to_absolute_spec(
            os,
            path@,
            match canonical {
                Some(c) => Some(c@),
                None => None,
            },
        ),
{
    let c = match canonical {
        Some(c) => c,
        None => path,
    };
    let v = chars_of(c);
    if os == HostOS::Windows && starts_with_str(v.as_slice(), "\\\\?\\") {
        proof {
            reveal_strlit("\\\\?\\");
        }
        string_of(slice_of(v.as_slice(), 4, v.len()).as_slice())
    } else {
        owned(c)
    }
}

/// Return the download cache under the dev root.
pub fn cache_dir(os: HostOS, home: &str) -> (r: String)
    ensures
        r@ == join(os, home@, ".cache"@),
{
    path_join(os, home, ".cache")
}

/// Return `<dev_root>/<plugin-id>`.
pub fn plugin_install_dir(os: HostOS, home: &str, plugin_id: &str) -> (r: String)
    ensures
        r@ == join(os, home@, plugin_id@),
{
    path_join(os, home, plugin_id)
}

/// Return the directory that holds installed SDKs (the dev root).
pub fn sdks_dir(home: &str) -> (r: String)
    ensures
        r@ == home@,
{
    owned(home)
}

} // verus!
