//! Decisions around downloading and extracting archives.
//!
//! Supports ZIP (Windows/macOS SDKs) and tar.gz / tar.xz (typical Linux SDKs).
//! The application moves the bytes; this module decides file names, archive
//! formats and which top-level folder to strip.
use crate::error::Error;
use crate::text::{chars_of, ends_with, ends_with_str, find, find_exec, lowercase, owned, slice_of,
    split, split_exec, string_of, to_lowercase, trim, trim_exec, trim_set, trim_set_exec};
use vstd::prelude::*;

verus! {

/// Fail fast, with a message that says what to do, when the network probe
/// found no connection.
pub fn ensure_internet_access(online: bool) -> (r: Result<(), Error>)
    ensures
        online <==> r is Ok,
        r matches Err(e) ==> e is Offline,
{
    if online {
        Ok(())
    } else {
        Err(Error::Offline)
    }
}

// ---------------------------------------------------------------------------
// File names
// ---------------------------------------------------------------------------

/// The part of a URL before its query or fragment.
pub open spec fn before_query(url: Seq<char>) -> Seq<char>
    decreases url.len(),
{
    if url.len() == 0 || url[0] == '?' || url[0] == '#' {
        Seq::empty()
    } else {
        seq![url[0]] + before_query(url.drop_first())
    }
}

/// A path component that names something: not empty and not `.`.
pub open spec fn is_named_component(s: Seq<char>) -> bool {
    s.len() > 0 && s != seq!['.']
}

/// The last named component of the `/`-separated pieces from index `i` on.
pub open spec fn last_named(pieces: Seq<Seq<char>>, i: int) -> Option<Seq<char>>
    decreases i,
{
    if i <= 0 || i > pieces.len() {
        None
    } else if is_named_component(pieces[i - 1]) {
        Some(pieces[i - 1])
    } else {
        last_named(pieces, i - 1)
    }
}

/// `Path::file_name` of a `/`-separated path: its last component, unless
/// that is `..` or there is none.
pub open spec fn path_file_name(p: Seq<char>) -> Option<Seq<char>> {
    let pieces = split(p, '/');
    match last_named(pieces, pieces.len() as int) {
        Some(n) => if n == seq!['.', '.'] {
            None
        } else {
            Some(n)
        },
        None => None,
    }
}

/// The file name a URL's path ends in, unless it is empty or `latest`.
pub open spec fn filename_from_url_spec(url: Seq<char>) -> Option<Seq<char>> {
    match path_file_name(before_query(url)) {
        Some(n) => if n.len() == 0 || n == "latest"@ {
            None
        } else {
            Some(n)
        },
        None => None,
    }
}

fn before_query_exec(url: &[char]) -> (r: Vec<char>)
    ensures
        r@ == before_query(url@),
{
    let mut i: usize = 0;
    while i < url.len() && url[i] != '?' && url[i] != '#'
        invariant
            i <= url@.len(),
            forall|j: int| 0 <= j < i ==> url@[j] != '?' && url@[j] != '#',
        decreases url.len() - i,
    {
        i = i + 1;
    }
    proof {
        lemma_before_query(url@, i as int);
    }
    slice_of(url, 0, i)
}

proof fn lemma_before_query(u: Seq<char>, i: int)
    requires
        0 <= i <= u.len(),
        forall|j: int| 0 <= j < i ==> u[j] != '?' && u[j] != '#',
        i == u.len() || u[i] == '?' || u[i] == '#',
    ensures
        before_query(u) == u.subrange(0, i),
    decreases i,
{
    if i > 0 {
        lemma_before_query(u.drop_first(), i - 1);
        assert(u.subrange(0, i) =~= seq![u[0]] + u.drop_first().subrange(0, i - 1));
    } else {
        assert(u.subrange(0, 0) =~= Seq::<char>::empty());
    }
}

/// `Path::new(p).file_name()` for a `/`-separated path.
pub fn path_file_name_exec(p: &[char]) -> (r: Option<Vec<char>>)
    ensures
        match r {
            Some(n) => path_file_name(p@) == Some(n@),
            None => path_file_name(p@) is None,
        },
{
    let pieces = split_exec(p, '/');
    let ghost ps = pieces@.map_values(|v: Vec<char>| v@);
    let mut i: usize = pieces.len();
    while i > 0
        invariant
            i <= pieces@.len(),
            ps == pieces@.map_values(|v: Vec<char>| v@),
            ps == split(p@, '/'),
            last_named(ps, ps.len() as int) == last_named(ps, i as int),
        decreases i,
    {
        let piece = &pieces[i - 1];
        assert(ps[i - 1] == piece@);
        let named = piece.len() > 0 && !(piece.len() == 1 && piece[0] == '.');
        assert(named == is_named_component(piece@)) by {
            if piece@.len() == 1 && piece@ == seq!['.'] {
                assert(piece@[0] == '.');
            }
            if piece@.len() == 1 && piece@[0] == '.' {
                assert(piece@ =~= seq!['.']);
            }
        }
        if named {
            if piece.len() == 2 && piece[0] == '.' && piece[1] == '.' {
                assert(piece@ =~= seq!['.', '.']);
                return None;
            }
            assert(piece@ != seq!['.', '.']) by {
                if piece@ == seq!['.', '.'] {
                    assert(piece@[0] == '.' && piece@[1] == '.');
                }
            }
            return Some(slice_of(piece.as_slice(), 0, piece.len()));
        }
        i = i - 1;
    }
    None
}

/// The file name a URL points at, if its path ends in one (`latest` is not
/// taken for a file name).
pub fn filename_from_url(url: &str) -> (r: Option<String>)
    ensures
        match r {
            Some(n) => filename_from_url_spec(url@) == Some(n@),
            None => filename_from_url_spec(url@) is None,
        },
{
    let path = before_query_exec(chars_of(url).as_slice());
    match path_file_name_exec(path.as_slice()) {
        Some(n) => {
            let latest = chars_of("latest");
            if n.len() == 0 || crate::text::eq(n.as_slice(), latest.as_slice()) {
                None
            } else {
                Some(string_of(n.as_slice()))
            }
        },
        None => None,
    }
}

/// The quote characters stripped around a `filename=` value.
pub open spec fn quote_chars() -> Seq<char> {
    seq!['"', '\'']
}

/// The file name a `Content-Disposition` header gives, if any.
pub open spec fn disposition_name(cd: Seq<char>) -> Option<Seq<char>> {
    match find(cd, "filename="@) {
        Some(idx) => {
            let part = trim_set(trim(cd.skip(idx + "filename="@.len())), quote_chars());
            if part.len() == 0 {
                None
            } else {
                path_file_name(part)
            }
        },
        None => None,
    }
}

/// The name a download is saved under: the explicit name, else the one in
/// `Content-Disposition`, else the file name of the final URL, else of the
/// requested URL, else `download.bin`.
pub open spec fn download_name(
    url: Seq<char>,
    explicit: Option<Seq<char>>,
    disposition: Option<Seq<char>>,
    final_url: Seq<char>,
) -> Seq<char> {
    match explicit {
        Some(n) => n,
        None => match (
            match disposition {
                Some(cd) => disposition_name(cd),
                None => None,
            }
        ) {
            Some(n) => n,
            None => match filename_from_url_spec(final_url) {
                Some(n) => n,
                None => match filename_from_url_spec(url) {
                    Some(n) => n,
                    None => "download.bin"@,
                },
            },
        },
    }
}

fn disposition_name_exec(cd: &str) -> (r: Option<Vec<char>>)
    ensures
        match r {
            Some(n) => disposition_name(cd@) == Some(n@),
            None => disposition_name(cd@) is None,
        },
{
    let c = chars_of(cd);
    let key = chars_of("filename=");
    match find_exec(c.as_slice(), key.as_slice()) {
        Some(idx) => {
            proof {
                crate::text::lemma_find(c@, key@);
                assert(crate::text::occurs_at(c@, key@, idx as int));
                assert(idx + key@.len() <= c@.len());
            }
            let clen = c.len();
            let rest = slice_of(c.as_slice(), idx + key.len(), clen);
            assert(rest@ =~= cd@.skip(idx + "filename="@.len()));
            let trimmed = trim_exec(rest.as_slice());
            let quotes: Vec<char> = vec!['"', '\''];
            assert(quotes@ =~= quote_chars());
            let part = trim_set_exec(trimmed.as_slice(), quotes.as_slice());
            if part.len() == 0 {
                None
            } else {
                path_file_name_exec(part.as_slice())
            }
        },
        None => None,
    }
}

/// Pick the file name for a download from what the response says.
pub fn filename_from_response(
    url: &str,
    explicit: Option<&str>,
    content_disposition: Option<&str>,
    final_url: &str,
) -> (r: String)
    ensures
        r@ == download_name(
            url@,
            match explicit {
                Some(n) => Some(n@),
                None => None,
            },
            match content_disposition {
                Some(cd) => Some(cd@),
                None => None,
            },
            final_url@,
        ),
{
    if let Some(name) = explicit {
        return owned(name);
    }
    if let Some(cd) = content_disposition {
        if let Some(n) = disposition_name_exec(cd) {
            return string_of(n.as_slice());
        }
    }
    if let Some(n) = filename_from_url(final_url) {
        return n;
    }
    match filename_from_url(url) {
        Some(n) => n,
        None => owned("download.bin"),
    }
}

// ---------------------------------------------------------------------------
// Top-level folders
// ---------------------------------------------------------------------------

/// `s.replace('\\', "/")`.
pub open spec fn slashes_forward(s: Seq<char>) -> Seq<char> {
    s.map_values(|c: char| if c == '\\' { '/' } else { c })
}

/// The first path component of an archive entry name, if it has one.
pub open spec fn entry_top(name: Seq<char>) -> Option<Seq<char>> {
    let n = trim_set(slashes_forward(name), seq!['/']);
    if n.len() == 0 {
        None
    } else {
        Some(split(n, '/')[0])
    }
}

/// Every entry with a top component has `t` as its top.
pub open spec fn all_tops_are(names: Seq<Seq<char>>, t: Seq<char>) -> bool {
    forall|i: int| 0 <= i < names.len() && (#[trigger] entry_top(names[i])) is Some ==> entry_top(
        names[i],
    ) == Some(t)
}

fn entry_top_exec(name: &str) -> (r: Option<Vec<char>>)
    ensures
        match r {
            Some(t) => entry_top(name@) == Some(t@),
            None => entry_top(name@) is None,
        },
{
    let c = chars_of(name);
    let mut fwd: Vec<char> = Vec::new();
    let mut i: usize = 0;
    while i < c.len()
        invariant
            i <= c@.len(),
            c@ == name@,
            fwd@ == slashes_forward(c@.take(i as int)),
        decreases c.len() - i,
    {
        let ch = if c[i] == '\\' {
            '/'
        } else {
            c[i]
        };
        fwd.push(ch);
        assert(slashes_forward(c@.take(i + 1)) =~= slashes_forward(c@.take(i as int)).push(ch));
        i = i + 1;
    }
    assert(c@.take(i as int) =~= c@);
    let slash: Vec<char> = vec!['/'];
    assert(slash@ =~= seq!['/']);
    let n = trim_set_exec(fwd.as_slice(), slash.as_slice());
    if n.len() == 0 {
        None
    } else {
        let pieces = split_exec(n.as_slice(), '/');
        proof {
            crate::text::lemma_split_len_pos(n@, '/');
        }
        assert(pieces@.map_values(|v: Vec<char>| v@)[0] == pieces@[0]@);
        Some(slice_of(pieces[0].as_slice(), 0, pieces[0].len()))
    }
}

/// The one top-level folder all entry names share, if there is exactly one.
pub fn unique_top_level(names: &[&str]) -> (r: Option<String>)
    ensures
        match r {
            Some(t) => all_tops_are(strs_of(names@), t@) && exists|i: int|
                0 <= i < names@.len() && #[trigger] entry_top(strs_of(names@)[i]) == Some(t@),
            None => (forall|i: int| 0 <= i < names@.len() ==> #[trigger] entry_top(strs_of(names@)[i])
                is None) || exists|i: int, j: int|
                0 <= i < names@.len() && 0 <= j < names@.len() && #[trigger] entry_top(
                    strs_of(names@)[i],
                ) is Some && #[trigger] entry_top(strs_of(names@)[j]) is Some && entry_top(
                    strs_of(names@)[i],
                ) != entry_top(strs_of(names@)[j]),
        },
{
    let ghost ns = strs_of(names@);
    let mut top: Option<Vec<char>> = None;
    let ghost mut first: int = 0;
    let mut i: usize = 0;
    while i < names.len()
        invariant
            i <= names@.len(),
            ns == strs_of(names@),
            match top {
                None => forall|j: int| 0 <= j < i ==> #[trigger] entry_top(ns[j]) is None,
                Some(t) => 0 <= first < i && entry_top(ns[first]) == Some(t@) && forall|j: int|
                    0 <= j < i && (#[trigger] entry_top(ns[j])) is Some ==> entry_top(ns[j]) == Some(
                        t@,
                    ),
            },
        decreases names.len() - i,
    {
        assert(ns[i as int] == names@[i as int]@);
        match entry_top_exec(names[i]) {
            Some(t) => {
                match &top {
                    Some(cur) => {
                        if !crate::text::eq(cur.as_slice(), t.as_slice()) {
                            assert(entry_top(ns[first]) != entry_top(ns[i as int]));
                            return None;
                        }
                    },
                    None => {
                        proof {
                            first = i as int;
                        }
                        top = Some(t);
                    },
                }
            },
            None => {},
        }
        i = i + 1;
    }
    match top {
        Some(t) => Some(string_of(t.as_slice())),
        None => None,
    }
}

/// The character sequences of a list of `&str`.
pub open spec fn strs_of(v: Seq<&str>) -> Seq<Seq<char>> {
    v.map_values(|s: &str| s@)
}

/// The folder a tar extraction strips: the only entry of the unpacked
/// folder, when there is exactly one and it is a folder.
pub fn single_top_dir(entries: &[(String, bool)]) -> (r: Option<String>)
    ensures
        match r {
            Some(t) => entries@.len() == 1 && entries@[0].1 && t@ == entries@[0].0@,
            None => !(entries@.len() == 1 && entries@[0].1),
        },
{
    if entries.len() == 1 && entries[0].1 {
        Some(owned(entries[0].0.as_str()))
    } else {
        None
    }
}

// ---------------------------------------------------------------------------
// Archive formats
// ---------------------------------------------------------------------------

/// The two archive families DevKit extracts.
#[derive(Debug, Clone, Copy, PartialEq, Eq, Structural)]
pub enum ArchiveFormat {
    Zip,
    Tar,
}

impl ArchiveFormat {
    /// `"zip"` or `"tar"`.
    pub fn as_str(&self) -> (r: &'static str)
        ensures
            r@ == (match self {
                ArchiveFormat::Zip => "zip"@,
                ArchiveFormat::Tar => "tar"@,
            }),
    {
        match self {
            ArchiveFormat::Zip => "zip",
            ArchiveFormat::Tar => "tar",
        }
    }
}

/// The first bytes of `magic` are `prefix`.
pub open spec fn has_magic(magic: Seq<u8>, prefix: Seq<u8>) -> bool {
    prefix.len() <= magic.len() && magic.subrange(0, prefix.len() as int) == prefix
}

pub open spec fn gzip_magic() -> Seq<u8> {
    seq![0x1fu8, 0x8bu8]
}

pub open spec fn xz_magic() -> Seq<u8> {
    seq![0xfdu8, 0x37u8, 0x7au8, 0x58u8, 0x5au8, 0x00u8]
}

pub open spec fn zip_magic() -> Seq<u8> {
    seq![0x50u8, 0x4bu8]
}

pub open spec fn ustar_magic() -> Seq<u8> {
    seq![0x75u8, 0x73u8, 0x74u8, 0x61u8, 0x72u8]
}

/// A file name (already lowercased) with a tar extension.
pub open spec fn has_tar_extension(n: Seq<char>) -> bool {
    ends_with(n, ".tar.gz"@) || ends_with(n, ".tgz"@) || ends_with(n, ".tar.xz"@) || ends_with(
        n,
        ".tar.bz2"@,
    ) || ends_with(n, ".tar"@)
}

/// The format of an archive from its lowercased file name, else from its
/// first bytes (at most six are read).
pub open spec fn archive_format_spec(lower_name: Seq<char>, magic: Seq<u8>) -> Option<ArchiveFormat> {
    if ends_with(lower_name, ".zip"@) {
        Some(ArchiveFormat::Zip)
    } else if has_tar_extension(lower_name) {
        Some(ArchiveFormat::Tar)
    } else if has_magic(magic, zip_magic()) {
        Some(ArchiveFormat::Zip)
    } else if has_magic(magic, gzip_magic()) || has_magic(magic, ustar_magic()) || has_magic(
        magic,
        xz_magic(),
    ) {
        Some(ArchiveFormat::Tar)
    } else {
        None
    }
}

fn has_magic_exec(magic: &[u8], prefix: &[u8]) -> (r: bool)
    ensures
        r == has_magic(magic@, prefix@),
{
    if prefix.len() > magic.len() {
        return false;
    }
    let mut i: usize = 0;
    while i < prefix.len()
        invariant
            i <= prefix@.len() <= magic@.len(),
            forall|j: int| 0 <= j < i ==> magic@[j] == prefix@[j],
        decreases prefix.len() - i,
    {
        if magic[i] != prefix[i] {
            assert(magic@.subrange(0, prefix@.len() as int)[i as int] != prefix@[i as int]);
            return false;
        }
        i = i + 1;
    }
    assert(magic@.subrange(0, prefix@.len() as int) =~= prefix@);
    true
}

/// The archive format from a lowercased file name and the file's first bytes.
pub fn archive_format_of(lower_name: &str, magic: &[u8]) -> (r: Result<ArchiveFormat, Error>)
    ensures
        match archive_format_spec(lower_name@, magic@) {
            Some(f) => r == Ok::<ArchiveFormat, Error>(f),
            None => r matches Err(Error::UnsupportedArchive { name }) && name@ == lower_name@,
        },
{
    let n = chars_of(lower_name);
    if ends_with_str(n.as_slice(), ".zip") {
        return Ok(ArchiveFormat::Zip);
    }
    if ends_with_str(n.as_slice(), ".tar.gz") || ends_with_str(n.as_slice(), ".tgz")
        || ends_with_str(n.as_slice(), ".tar.xz") || ends_with_str(n.as_slice(), ".tar.bz2")
        || ends_with_str(n.as_slice(), ".tar") {
        return Ok(ArchiveFormat::Tar);
    }
    let zip: Vec<u8> = vec![0x50u8, 0x4bu8];
    let gz: Vec<u8> = vec![0x1fu8, 0x8bu8];
    let ustar: Vec<u8> = vec![0x75u8, 0x73u8, 0x74u8, 0x61u8, 0x72u8];
    let xz: Vec<u8> = vec![0xfdu8, 0x37u8, 0x7au8, 0x58u8, 0x5au8, 0x00u8];
    assert(zip@ =~= zip_magic());
    assert(gz@ =~= gzip_magic());
    assert(ustar@ =~= ustar_magic());
    assert(xz@ =~= xz_magic());
    if has_magic_exec(magic, zip.as_slice()) {
        return Ok(ArchiveFormat::Zip);
    }
    if has_magic_exec(magic, gz.as_slice()) || has_magic_exec(magic, ustar.as_slice())
        || has_magic_exec(magic, xz.as_slice()) {
        return Ok(ArchiveFormat::Tar);
    }
    Err(Error::UnsupportedArchive { name: owned(lower_name) })
}

/// Return `zip` or `tar` for an archive, from its file name (compared in
/// lowercase) and its first bytes, or refuse it.
pub fn detect_archive_format(file_name: &str, magic: &[u8]) -> (r: Result<ArchiveFormat, Error>)
    ensures
        match archive_format_spec(lowercase(file_name@), magic@) {
            Some(f) => r == Ok::<ArchiveFormat, Error>(f),
            None => r matches Err(Error::UnsupportedArchive { name }) && name@ == lowercase(
                file_name@,
            ),
        },
{
    let lower = string_of(to_lowercase(chars_of(file_name).as_slice()).as_slice());
    archive_format_of(lower.as_str(), magic)
}

/// How a tar archive's bytes are compressed.
#[derive(Debug, Clone, Copy, PartialEq, Eq, Structural)]
pub enum TarCompression {
    Gzip,
    Xz,
    Plain,
}

/// The compression of a tar archive from its lowercased name, else from its
/// first bytes; bzip2 is refused.
pub open spec fn tar_compression_spec(lower_name: Seq<char>, magic: Seq<u8>) -> Option<TarCompression> {
    if ends_with(lower_name, ".tar.gz"@) || ends_with(lower_name, ".tgz"@) {
        Some(TarCompression::Gzip)
    } else if ends_with(lower_name, ".tar.xz"@) {
        Some(TarCompression::Xz)
    } else if ends_with(lower_name, ".tar.bz2"@) {
        None
    } else if has_magic(magic, gzip_magic()) {
        Some(TarCompression::Gzip)
    } else if has_magic(magic, xz_magic()) {
        Some(TarCompression::Xz)
    } else {
        Some(TarCompression::Plain)
    }
}

/// The decoder a tar archive needs, from its lowercased name and first bytes.
pub fn tar_compression_of(lower_name: &str, magic: &[u8]) -> (r: Result<TarCompression, Error>)
    ensures
        match tar_compression_spec(lower_name@, magic@) {
            Some(c) => r == Ok::<TarCompression, Error>(c),
            None => r matches Err(Error::Bzip2Unsupported { name }) && name@ == lower_name@,
        },
{
    let n = chars_of(lower_name);
    if ends_with_str(n.as_slice(), ".tar.gz") || ends_with_str(n.as_slice(), ".tgz") {
        return Ok(TarCompression::Gzip);
    }
    if ends_with_str(n.as_slice(), ".tar.xz") {
        return Ok(TarCompression::Xz);
    }
    if ends_with_str(n.as_slice(), ".tar.bz2") {
        return Err(Error::Bzip2Unsupported { name: owned(lower_name) });
    }
    let gz: Vec<u8> = vec![0x1fu8, 0x8bu8];
    let xz: Vec<u8> = vec![0xfdu8, 0x37u8, 0x7au8, 0x58u8, 0x5au8, 0x00u8];
    assert(gz@ =~= gzip_magic());
    assert(xz@ =~= xz_magic());
    if has_magic_exec(magic, gz.as_slice()) {
        return Ok(TarCompression::Gzip);
    }
    if has_magic_exec(magic, xz.as_slice()) {
        return Ok(TarCompression::Xz);
    }
    Ok(TarCompression::Plain)
}

/// The decoder for a tar archive named `file_name` (compared in lowercase).
pub fn tar_compression(file_name: &str, magic: &[u8]) -> (r: Result<TarCompression, Error>)
    ensures
        match tar_compression_spec(lowercase(file_name@), magic@) {
            Some(c) => r == Ok::<TarCompression, Error>(c),
            None => r matches Err(Error::Bzip2Unsupported { name }) && name@ == lowercase(
                file_name@,
            ),
        },
{
    let lower = string_of(to_lowercase(chars_of(file_name).as_slice()).as_slice());
    tar_compression_of(lower.as_str(), magic)
}

} // verus!
