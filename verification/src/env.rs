//! User environment PATH and variable management.
//!
//! - Windows: the user `Path` value and user variables (kept in the registry)
//! - macOS / Linux: `~/.devkit/env.sh` plus a source line in the user shell profile
//!
//! The manager holds the current texts and values; the application loads
//! them before a change and stores them afterwards. Paths in an `EnvSpec`
//! handed to the manager are already normalized (tilde expanded, links
//! resolved).
use crate::plugin::EnvSpec;
use crate::platform::HostOS;
use crate::text::{chars_of, contains, ends_with, ends_with_exec, eq, find, find_exec, join, join_exec,
    lines, lines_exec, owned, slice_of, starts_with, starts_with_exec, string_of, trim,
    trim_end, trim_end_set, trim_exec, trim_start_set, trim_end_set_exec, trim_start_set_exec};
use vstd::prelude::*;

verus! {

// ---------------------------------------------------------------------------
// The managed block
// ---------------------------------------------------------------------------

/// First line of the block DevKit manages.
pub open spec fn begin_marker() -> Seq<char> {
    "# >>> DevKit >>>"@
}

/// Last line of the block DevKit manages.
pub open spec fn end_marker() -> Seq<char> {
    "# <<< DevKit <<<"@
}

/// The line a shell profile gets so that it reads `env.sh`.
pub open spec fn source_line() -> Seq<char> {
    "source \"$HOME/.devkit/env.sh\""@
}

pub open spec fn nl() -> Seq<char> {
    seq!['\n']
}

/// Where the managed block of `text` starts and ends: from the first begin
/// marker to the end of the first end marker, when the end marker does not
/// come first.
pub open spec fn block_range(text: Seq<char>) -> Option<(int, int)> {
    match (find(text, begin_marker()), find(text, end_marker())) {
        (Some(s), Some(e)) => if e < s {
            None
        } else {
            Some((s, e + end_marker().len()))
        },
        _ => None,
    }
}

/// The managed block of `text`, markers included.
pub open spec fn extract_block(text: Seq<char>) -> Option<Seq<char>> {
    match block_range(text) {
        Some((s, e)) => Some(text.subrange(s, e)),
        None => None,
    }
}

/// `text` with the span from the first begin marker to the end of the first
/// end marker replaced by `new_block`; `new_block` appended when a marker
/// is missing.
pub open spec fn replace_block(text: Seq<char>, new_block: Seq<char>) -> Seq<char> {
    match (find(text, begin_marker()), find(text, end_marker())) {
        (Some(s), Some(e)) => text.subrange(0, s) + new_block + text.subrange(
            e + end_marker().len(),
            text.len() as int,
        ),
        _ => text + new_block,
    }
}

/// `text` without its managed block, the text before and after it joined by
/// one newline (none when either side is empty).
pub open spec fn remove_block(text: Seq<char>) -> Seq<char> {
    match (find(text, begin_marker()), find(text, end_marker())) {
        (Some(s), Some(e)) => {
            let before = trim_end_set(text.subrange(0, s), nl());
            let after = trim_start_set(text.subrange(e + end_marker().len(), text.len() as int), nl());
            if before.len() > 0 && after.len() > 0 {
                before + nl() + after
            } else {
                before + after
            }
        },
        _ => text,
    }
}

/// A line that the block keeps when merging: not a marker, not blank.
pub open spec fn is_content_line(l: Seq<char>) -> bool {
    l != begin_marker() && l != end_marker() && trim(l).len() > 0
}

/// The content lines among `s`, in order.
pub open spec fn content_only(s: Seq<Seq<char>>) -> Seq<Seq<char>>
    decreases s.len(),
{
    if s.len() == 0 {
        s
    } else if is_content_line(s.last()) {
        content_only(s.drop_last()).push(s.last())
    } else {
        content_only(s.drop_last())
    }
}

/// The content lines of a block, in order.
pub open spec fn content_lines(block: Seq<char>) -> Seq<Seq<char>> {
    content_only(lines(block))
}

/// `s` without repeats, each kept at its first place.
pub open spec fn dedup(s: Seq<Seq<char>>) -> Seq<Seq<char>>
    decreases s.len(),
{
    if s.len() == 0 {
        s
    } else {
        let rest = dedup(s.drop_last());
        if rest.contains(s.last()) {
            rest
        } else {
            rest.push(s.last())
        }
    }
}

/// Lines framed by the markers, one per row, with a final newline.
pub open spec fn framed(inner: Seq<Seq<char>>) -> Seq<char> {
    join(seq![begin_marker()] + inner + seq![end_marker()], nl()) + nl()
}

/// The block after merging `block` into the existing block `old`: the new
/// content lines first, then the old ones, without repeats.
pub open spec fn merged_block(old: Seq<char>, block: Seq<char>) -> Seq<char> {
    framed(dedup(content_lines(block) + content_lines(old)))
}

/// The separator put before an appended block: a newline unless `text` is
/// empty or already ends in one.
pub open spec fn append_sep(text: Seq<char>) -> Seq<char> {
    if text.len() > 0 && text.last() != '\n' {
        nl()
    } else {
        Seq::empty()
    }
}

/// `text` with `block` merged into its managed block, or appended when it
/// has none.
pub open spec fn replace_or_append(text: Seq<char>, block: Seq<char>) -> Seq<char> {
    match extract_block(text) {
        Some(old) => replace_block(text, merged_block(old, block)),
        None => text + append_sep(text) + block,
    }
}

fn begin_chars() -> (r: Vec<char>)
    ensures
        r@ == begin_marker(),
{
    chars_of("# >>> DevKit >>>")
}

fn end_chars() -> (r: Vec<char>)
    ensures
        r@ == end_marker(),
{
    chars_of("# <<< DevKit <<<")
}

fn nl_chars() -> (r: Vec<char>)
    ensures
        r@ == nl(),
{
    let v: Vec<char> = vec!['\n'];
    assert(v@ =~= nl());
    v
}

fn copy_chars(a: &[char]) -> (r: Vec<char>)
    ensures
        r@ == a@,
{
    let mut out: Vec<char> = Vec::new();
    out.extend_from_slice(a);
    assert(out@ =~= a@);
    out
}

fn concat(a: &[char], b: &[char]) -> (r: Vec<char>)
    ensures
        r@ == a@ + b@,
{
    let mut out: Vec<char> = Vec::new();
    out.extend_from_slice(a);
    out.extend_from_slice(b);
    assert(out@ =~= a@ + b@);
    out
}

/// The managed block of `text`, markers included.
pub fn extract_block_exec(text: &[char]) -> (r: Option<Vec<char>>)
    ensures
        match r {
            Some(b) => extract_block(text@) == Some(b@),
            None => extract_block(text@) is None,
        },
{
    let b = begin_chars();
    let e = end_chars();
    match (find_exec(text, b.as_slice()), find_exec(text, e.as_slice())) {
        (Some(s), Some(t)) => {
            if t < s {
                None
            } else {
                proof {
                    crate::text::lemma_find(text@, e@);
                }
                let elen = e.len();
                let tlen = text.len();
                assert(t + elen <= tlen);
                Some(slice_of(text, s, t + elen))
            }
        },
        _ => None,
    }
}

/// Replace the managed block of `text` with `new_block` (append when a
/// marker is missing).
pub fn replace_block_exec(text: &[char], new_block: &[char]) -> (r: Vec<char>)
    ensures
        r@ == replace_block(text@, new_block@),
{
    let b = begin_chars();
    let e = end_chars();
    match (find_exec(text, b.as_slice()), find_exec(text, e.as_slice())) {
        (Some(s), Some(t)) => {
            proof {
                crate::text::lemma_find(text@, e@);
                crate::text::lemma_find(text@, b@);
            }
            let elen = e.len();
            let tlen = text.len();
            let before = slice_of(text, 0, s);
            let after = slice_of(text, t + elen, tlen);
            let head = concat(before.as_slice(), new_block);
            concat(head.as_slice(), after.as_slice())
        },
        _ => concat(text, new_block),
    }
}

/// Remove the managed block of `text`.
pub fn remove_block_exec(text: &[char]) -> (r: Vec<char>)
    ensures
        r@ == remove_block(text@),
{
    let b = begin_chars();
    let e = end_chars();
    match (find_exec(text, b.as_slice()), find_exec(text, e.as_slice())) {
        (Some(s), Some(t)) => {
            proof {
                crate::text::lemma_find(text@, e@);
                crate::text::lemma_find(text@, b@);
            }
            let elen = e.len();
            let tlen = text.len();
            let n = nl_chars();
            let before = trim_end_set_exec(slice_of(text, 0, s).as_slice(), n.as_slice());
            let after = trim_start_set_exec(slice_of(text, t + elen, tlen).as_slice(), n.as_slice());
            if before.len() > 0 && after.len() > 0 {
                let head = concat(before.as_slice(), n.as_slice());
                concat(head.as_slice(), after.as_slice())
            } else {
                concat(before.as_slice(), after.as_slice())
            }
        },
        _ => slice_of(text, 0, text.len()),
    }
}

fn is_content_line_exec(l: &[char]) -> (r: bool)
    ensures
        r == is_content_line(l@),
{
    let b = begin_chars();
    let e = end_chars();
    !eq(l, b.as_slice()) && !eq(l, e.as_slice()) && trim_exec(l).len() > 0
}

/// The content lines of a block.
fn content_lines_exec(block: &[char]) -> (r: Vec<Vec<char>>)
    ensures
        r@.map_values(|v: Vec<char>| v@) == content_lines(block@),
{
    let ls = lines_exec(block);
    let ghost lv = ls@.map_values(|v: Vec<char>| v@);
    let mut out: Vec<Vec<char>> = Vec::new();
    let mut i: usize = 0;
    while i < ls.len()
        invariant
            i <= ls@.len(),
            lv == ls@.map_values(|v: Vec<char>| v@),
            lv == lines(block@),
            out@.map_values(|v: Vec<char>| v@) == content_only(lv.take(i as int)),
        decreases ls.len() - i,
    {
        let ghost before = out@.map_values(|v: Vec<char>| v@);
        assert(lv.take(i + 1).drop_last() =~= lv.take(i as int));
        assert(lv[i as int] == ls@[i as int]@);
        if is_content_line_exec(ls[i].as_slice()) {
            out.push(copy_chars(ls[i].as_slice()));
            assert(out@.map_values(|v: Vec<char>| v@) =~= before.push(lv[i as int]));
        }
        i = i + 1;
    }
    assert(lv.take(i as int) =~= lv);
    out
}

fn contains_line(v: &Vec<Vec<char>>, l: &[char]) -> (r: bool)
    ensures
        r == v@.map_values(|x: Vec<char>| x@).contains(l@),
{
    let ghost vv = v@.map_values(|x: Vec<char>| x@);
    let mut i: usize = 0;
    while i < v.len()
        invariant
            i <= v@.len(),
            vv == v@.map_values(|x: Vec<char>| x@),
            forall|j: int| 0 <= j < i ==> vv[j] != l@,
        decreases v.len() - i,
    {
        if eq(v[i].as_slice(), l) {
            assert(vv[i as int] == l@);
            return true;
        }
        i = i + 1;
    }
    false
}

/// Append each line of `more` to `acc` unless it is already there.
fn push_new_lines(acc: &mut Vec<Vec<char>>, more: &Vec<Vec<char>>)
    ensures
        final(acc)@.map_values(|x: Vec<char>| x@) == dedup_onto(
            old(acc)@.map_values(|x: Vec<char>| x@),
            more@.map_values(|x: Vec<char>| x@),
        ),
{
    let ghost start = acc@.map_values(|x: Vec<char>| x@);
    let ghost mv = more@.map_values(|x: Vec<char>| x@);
    let mut i: usize = 0;
    while i < more.len()
        invariant
            i <= more@.len(),
            mv == more@.map_values(|x: Vec<char>| x@),
            acc@.map_values(|x: Vec<char>| x@) == dedup_onto(start, mv.take(i as int)),
        decreases more.len() - i,
    {
        let ghost before = acc@.map_values(|x: Vec<char>| x@);
        assert(mv.take(i + 1).drop_last() =~= mv.take(i as int));
        assert(mv[i as int] == more@[i as int]@);
        if !contains_line(acc, more[i].as_slice()) {
            acc.push(copy_chars(more[i].as_slice()));
            assert(acc@.map_values(|x: Vec<char>| x@) =~= before.push(mv[i as int]));
        }
        i = i + 1;
    }
    assert(mv.take(i as int) =~= mv);
}

/// `acc` followed by the lines of `more` that are new, each once.
pub open spec fn dedup_onto(acc: Seq<Seq<char>>, more: Seq<Seq<char>>) -> Seq<Seq<char>>
    decreases more.len(),
{
    if more.len() == 0 {
        acc
    } else {
        let rest = dedup_onto(acc, more.drop_last());
        if rest.contains(more.last()) {
            rest
        } else {
            rest.push(more.last())
        }
    }
}

proof fn lemma_dedup_onto_empty(s: Seq<Seq<char>>)
    ensures
        dedup_onto(Seq::empty(), s) == dedup(s),
    decreases s.len(),
{
    if s.len() > 0 {
        lemma_dedup_onto_empty(s.drop_last());
    }
}

proof fn lemma_dedup_onto_concat(acc: Seq<Seq<char>>, a: Seq<Seq<char>>, b: Seq<Seq<char>>)
    ensures
        dedup_onto(dedup_onto(acc, a), b) == dedup_onto(acc, a + b),
    decreases b.len(),
{
    if b.len() > 0 {
        lemma_dedup_onto_concat(acc, a, b.drop_last());
        assert((a + b).drop_last() =~= a + b.drop_last());
    } else {
        assert(a + b =~= a);
    }
}

/// The lines `[begin] + inner + [end]` joined into a framed block.
fn framed_exec(inner: &Vec<Vec<char>>) -> (r: Vec<char>)
    ensures
        r@ == framed(inner@.map_values(|x: Vec<char>| x@)),
{
    let mut all: Vec<Vec<char>> = Vec::new();
    all.push(begin_chars());
    let mut i: usize = 0;
    while i < inner.len()
        invariant
            i <= inner@.len(),
            all@.map_values(|x: Vec<char>| x@) == seq![begin_marker()] + inner@.map_values(
                |x: Vec<char>| x@,
            ).take(i as int),
        decreases inner.len() - i,
    {
        let ghost before = all@.map_values(|x: Vec<char>| x@);
        all.push(copy_chars(inner[i].as_slice()));
        assert(all@.map_values(|x: Vec<char>| x@) =~= before.push(inner@[i as int]@));
        assert(inner@.map_values(|x: Vec<char>| x@).take(i + 1) =~= inner@.map_values(
            |x: Vec<char>| x@,
        ).take(i as int).push(inner@[i as int]@));
        assert(all@.map_values(|x: Vec<char>| x@) =~= seq![begin_marker()] + inner@.map_values(
            |x: Vec<char>| x@,
        ).take(i + 1));
        i = i + 1;
    }
    let ghost before = all@.map_values(|x: Vec<char>| x@);
    assert(inner@.map_values(|x: Vec<char>| x@).take(i as int) =~= inner@.map_values(|x: Vec<char>| x@));
    all.push(end_chars());
    assert(all@.map_values(|x: Vec<char>| x@) =~= seq![begin_marker()] + inner@.map_values(
        |x: Vec<char>| x@,
    ) + seq![end_marker()]);
    let n = nl_chars();
    let joined = join_exec(&all, n.as_slice());
    concat(joined.as_slice(), n.as_slice())
}

/// Merge `block` into the managed block of `text`, or append it when there
/// is none.
pub fn replace_or_append_block(text: &str, block: &str) -> (r: String)
    ensures
        r@ == replace_or_append(text@, block@),
{
    let t = chars_of(text);
    let b = chars_of(block);
    match extract_block_exec(t.as_slice()) {
        Some(old) => {
            let new_inner = content_lines_exec(b.as_slice());
            let old_lines = content_lines_exec(old.as_slice());
            let mut merged: Vec<Vec<char>> = Vec::new();
            assert(merged@.map_values(|x: Vec<char>| x@) =~= Seq::<Seq<char>>::empty());
            push_new_lines(&mut merged, &new_inner);
            push_new_lines(&mut merged, &old_lines);
            proof {
                let nv = new_inner@.map_values(|x: Vec<char>| x@);
                let ov = old_lines@.map_values(|x: Vec<char>| x@);
                lemma_dedup_onto_concat(Seq::empty(), nv, ov);
                lemma_dedup_onto_empty(nv + ov);
            }
            let nb = framed_exec(&merged);
            assert(nb@ == merged_block(old@, b@));
            string_of(replace_block_exec(t.as_slice(), nb.as_slice()).as_slice())
        },
        None => {
            let needs_sep = t.len() > 0 && t[t.len() - 1] != '\n';
            let mut out = slice_of(t.as_slice(), 0, t.len());
            if needs_sep {
                out.push('\n');
            }
            assert(out@ == t@ + append_sep(t@));
            out.extend_from_slice(b.as_slice());
            assert(out@ =~= t@ + append_sep(t@) + b@);
            string_of(out.as_slice())
        },
    }
}


// ---------------------------------------------------------------------------
// Lines of the block
// ---------------------------------------------------------------------------

/// `value.replace('"', "\\\"")`.
pub open spec fn quote_escaped(v: Seq<char>) -> Seq<char>
    decreases v.len(),
{
    if v.len() == 0 {
        v
    } else {
        let head = if v[0] == '"' {
            seq!['\\', '"']
        } else {
            seq![v[0]]
        };
        head + quote_escaped(v.drop_first())
    }
}

/// `export PATH="<p>:$PATH"`.
pub open spec fn path_line(p: Seq<char>) -> Seq<char> {
    "export PATH=\""@ + p + ":$PATH\""@
}

/// `export <name>="<value>"`, with quotes in the value escaped.
pub open spec fn var_line(name: Seq<char>, value: Seq<char>) -> Seq<char> {
    "export "@ + name + "=\""@ + quote_escaped(value) + "\""@
}

/// The lines `apply` writes for a spec: one per PATH entry, then one per
/// variable.
pub open spec fn spec_lines(paths: Seq<Seq<char>>, vars: Seq<(Seq<char>, Seq<char>)>) -> Seq<Seq<char>> {
    paths.map_values(|p: Seq<char>| path_line(p)) + vars.map_values(
        |kv: (Seq<char>, Seq<char>)| var_line(kv.0, kv.1),
    )
}

/// The block `apply` merges into `env.sh` for a spec.
pub open spec fn unix_block(spec: (Seq<Seq<char>>, Seq<(Seq<char>, Seq<char>)>)) -> Seq<char> {
    framed(spec_lines(spec.0, spec.1))
}

fn quote_escaped_exec(v: &[char]) -> (r: Vec<char>)
    ensures
        r@ == quote_escaped(v@),
{
    let mut out: Vec<char> = Vec::new();
    let mut i: usize = v.len();
    let mut acc: Vec<char> = Vec::new();
    while i > 0
        invariant
            i <= v@.len(),
            acc@ == quote_escaped(v@.skip(i as int)),
        decreases i,
    {
        let c = v[i - 1];
        let head: Vec<char> = if c == '"' {
            vec!['\\', '"']
        } else {
            vec![c]
        };
        assert(v@.skip(i - 1).drop_first() =~= v@.skip(i as int));
        assert(v@.skip(i - 1)[0] == c);
        acc = concat(head.as_slice(), acc.as_slice());
        assert(head@ =~= (if c == '"' { seq!['\\', '"'] } else { seq![c] }));
        i = i - 1;
    }
    assert(v@.skip(0) =~= v@);
    out.extend_from_slice(acc.as_slice());
    assert(out@ =~= acc@);
    out
}

fn path_line_exec(p: &str) -> (r: Vec<char>)
    ensures
        r@ == path_line(p@),
{
    let a = concat(chars_of("export PATH=\"").as_slice(), chars_of(p).as_slice());
    concat(a.as_slice(), chars_of(":$PATH\"").as_slice())
}

fn var_line_exec(name: &str, value: &str) -> (r: Vec<char>)
    ensures
        r@ == var_line(name@, value@),
{
    let a = concat(chars_of("export ").as_slice(), chars_of(name).as_slice());
    let b = concat(a.as_slice(), chars_of("=\"").as_slice());
    let c = concat(b.as_slice(), quote_escaped_exec(chars_of(value).as_slice()).as_slice());
    concat(c.as_slice(), chars_of("\"").as_slice())
}

/// The block `apply` writes for `spec` on macOS and Linux.
pub fn build_unix_block(spec: &EnvSpec) -> (r: String)
    ensures
        r@ == unix_block(spec@),
{
    let mut inner: Vec<Vec<char>> = Vec::new();
    let ghost pv = spec@.0;
    let ghost vv = spec@.1;
    let mut i: usize = 0;
    while i < spec.paths.len()
        invariant
            i <= spec.paths@.len(),
            pv == spec@.0,
            inner@.map_values(|x: Vec<char>| x@) == pv.take(i as int).map_values(|p: Seq<char>| path_line(p)),
        decreases spec.paths.len() - i,
    {
        let ghost before = inner@.map_values(|x: Vec<char>| x@);
        let line = path_line_exec(spec.paths[i].as_str());
        assert(pv[i as int] == spec.paths@[i as int]@);
        assert(line@ == path_line(pv[i as int]));
        inner.push(line);
        assert(inner@.map_values(|x: Vec<char>| x@) =~= before.push(path_line(pv[i as int])));
        assert(pv.take(i + 1) =~= pv.take(i as int).push(pv[i as int]));
        assert(inner@.map_values(|x: Vec<char>| x@) =~= pv.take(i + 1).map_values(|p: Seq<char>| path_line(p)));
        i = i + 1;
    }
    assert(pv.take(i as int) =~= pv);
    let mut j: usize = 0;
    while j < spec.vars.len()
        invariant
            j <= spec.vars@.len(),
            pv == spec@.0,
            vv == spec@.1,
            inner@.map_values(|x: Vec<char>| x@) == pv.map_values(|p: Seq<char>| path_line(p)) + vv.take(
                j as int,
            ).map_values(|kv: (Seq<char>, Seq<char>)| var_line(kv.0, kv.1)),
        decreases spec.vars.len() - j,
    {
        let ghost before = inner@.map_values(|x: Vec<char>| x@);
        let (name, value) = (&spec.vars[j].0, &spec.vars[j].1);
        let line = var_line_exec(name.as_str(), value.as_str());
        assert(vv[j as int] == (spec.vars@[j as int].0@, spec.vars@[j as int].1@));
        assert(line@ == var_line(vv[j as int].0, vv[j as int].1));
        inner.push(line);
        assert(inner@.map_values(|x: Vec<char>| x@) =~= before.push(var_line(vv[j as int].0, vv[j as int].1)));
        assert(vv.take(j + 1) =~= vv.take(j as int).push(vv[j as int]));
        assert(inner@.map_values(|x: Vec<char>| x@) =~= pv.map_values(|p: Seq<char>| path_line(p)) + vv.take(
            j + 1,
        ).map_values(|kv: (Seq<char>, Seq<char>)| var_line(kv.0, kv.1)));
        j = j + 1;
    }
    assert(vv.take(j as int) =~= vv);
    string_of(framed_exec(&inner).as_slice())
}

// ---------------------------------------------------------------------------
// Reading the block back
// ---------------------------------------------------------------------------

pub open spec fn is_ident_start(c: char) -> bool {
    ('A' <= c && c <= 'Z') || ('a' <= c && c <= 'z') || c == '_'
}

pub open spec fn is_ident_char(c: char) -> bool {
    is_ident_start(c) || ('0' <= c && c <= '9')
}

/// How many identifier characters `s` starts with.
pub open spec fn ident_len(s: Seq<char>) -> nat
    decreases s.len(),
{
    if s.len() > 0 && is_ident_char(s[0]) {
        1 + ident_len(s.drop_first())
    } else {
        0
    }
}

/// The variable a line assigns, as `^export\s+([A-Za-z_][A-Za-z0-9_]*)=`
/// reads it: `export`, whitespace, an identifier, then `=`.
pub open spec fn export_name(l: Seq<char>) -> Option<Seq<char>> {
    if !starts_with(l, "export"@) || l.len() <= 6 || !crate::text::is_ws(l[6]) {
        None
    } else {
        let t = crate::text::trim_start(l.skip(6));
        let k = ident_len(t);
        if k > 0 && is_ident_start(t[0]) && k < t.len() && t[k as int] == '=' {
            Some(t.take(k as int))
        } else {
            None
        }
    }
}

/// `line` names one of `paths` as a PATH entry.
pub open spec fn path_hit(l: Seq<char>, paths: Seq<Seq<char>>) -> bool {
    exists|i: int|
        0 <= i < paths.len() && (contains(l, "PATH=\""@ + #[trigger] paths[i] + ":"@) || contains(
            l,
            "PATH="@ + paths[i] + ":"@,
        ))
}

/// `line` exports one of `names`.
pub open spec fn var_hit(l: Seq<char>, names: Seq<Seq<char>>) -> bool {
    match export_name(l) {
        Some(n) => names.contains(n),
        None => false,
    }
}

/// The lines that stay when reverting: those naming none of the paths and
/// exporting none of the names.
pub open spec fn keep_unhit(ls: Seq<Seq<char>>, paths: Seq<Seq<char>>, names: Seq<Seq<char>>) -> Seq<
    Seq<char>,
>
    decreases ls.len(),
{
    if ls.len() == 0 {
        ls
    } else if path_hit(ls.last(), paths) || var_hit(ls.last(), names) {
        keep_unhit(ls.drop_last(), paths, names)
    } else {
        keep_unhit(ls.drop_last(), paths, names).push(ls.last())
    }
}

/// The block that replaces `block` when reverting; none when nothing but
/// the markers would be left.
pub open spec fn reverted_block(block: Seq<char>, paths: Seq<Seq<char>>, names: Seq<Seq<char>>) -> Option<
    Seq<char>,
> {
    let nb = trim(join(keep_unhit(lines(block), paths, names), nl()));
    if nb.len() == 0 || nb == begin_marker() || nb == begin_marker() + nl() + end_marker() {
        None
    } else {
        let nb1 = if !starts_with(nb, begin_marker()) {
            begin_marker() + nl() + nb + nl() + end_marker()
        } else {
            nb
        };
        let nb2 = if !ends_with(nb1, end_marker()) {
            trim_end(nb1) + nl() + end_marker()
        } else {
            nb1
        };
        Some(nb2)
    }
}

/// `env.sh` after reverting: none when it has no managed block (it is left
/// alone); else the block reduced, or removed when nothing is left in it.
pub open spec fn revert_text(text: Seq<char>, paths: Seq<Seq<char>>, names: Seq<Seq<char>>) -> Option<
    Seq<char>,
> {
    match extract_block(text) {
        None => None,
        Some(block) => Some(
            match reverted_block(block, paths, names) {
                None => remove_block(text),
                Some(nb) => replace_block(text, nb),
            },
        ),
    }
}

proof fn lemma_ident_len_bound(s: Seq<char>)
    ensures
        ident_len(s) <= s.len(),
        forall|j: int| 0 <= j < ident_len(s) ==> is_ident_char(#[trigger] s[j]),
        ident_len(s) < s.len() ==> !is_ident_char(s[ident_len(s) as int]),
    decreases s.len(),
{
    if s.len() > 0 && is_ident_char(s[0]) {
        lemma_ident_len_bound(s.drop_first());
        assert forall|j: int| 0 <= j < ident_len(s) implies is_ident_char(#[trigger] s[j]) by {
            if j > 0 {
                assert(s[j] == s.drop_first()[j - 1]);
            }
        }
    }
}

pub proof fn lemma_ident_len_exact(s: Seq<char>, k: int)
    requires
        0 <= k <= s.len(),
        forall|j: int| 0 <= j < k ==> is_ident_char(#[trigger] s[j]),
        k == s.len() || !is_ident_char(s[k]),
    ensures
        ident_len(s) == k,
    decreases k,
{
    if k > 0 {
        lemma_ident_len_exact(s.drop_first(), k - 1);
    }
}

fn is_ident_start_exec(c: char) -> (r: bool)
    ensures
        r == is_ident_start(c),
{
    ('A' <= c && c <= 'Z') || ('a' <= c && c <= 'z') || c == '_'
}

fn is_ident_char_exec(c: char) -> (r: bool)
    ensures
        r == is_ident_char(c),
{
    is_ident_start_exec(c) || ('0' <= c && c <= '9')
}

/// The variable an `export NAME=...` line assigns.
pub fn export_name_exec(l: &[char]) -> (r: Option<Vec<char>>)
    ensures
        match r {
            Some(n) => export_name(l@) == Some(n@),
            None => export_name(l@) is None,
        },
{
    let ex = chars_of("export");
    proof {
        reveal_strlit("export");
    }
    if !starts_with_exec(l, ex.as_slice()) || l.len() <= 6 || !crate::text::is_ws_exec(l[6]) {
        return None;
    }
    let n = l.len();
    let mut j: usize = 6;
    while j < n && crate::text::is_ws_exec(l[j])
        invariant
            6 <= j <= n,
            n == l@.len(),
            forall|q: int| 6 <= q < j ==> crate::text::is_ws(#[trigger] l@[q]),
        decreases n - j,
    {
        j = j + 1;
    }
    proof {
        let s6 = l@.skip(6);
        assert forall|q: int| 0 <= q < j - 6 implies crate::text::is_ws(s6[q]) by {
            assert(s6[q] == l@[q + 6]);
        }
        crate::text::lemma_trim_start_skip(s6, j - 6);
        assert(s6.subrange(j - 6, s6.len() as int) =~= l@.subrange(j as int, n as int));
        if j < n {
            assert(!crate::text::is_ws(l@.subrange(j as int, n as int)[0]));
        }
        assert(crate::text::trim_start(l@.subrange(j as int, n as int)) == l@.subrange(j as int, n as int));
    }
    let mut k: usize = j;
    while k < n && is_ident_char_exec(l[k])
        invariant
            j <= k <= n,
            n == l@.len(),
            forall|q: int| j <= q < k ==> is_ident_char(#[trigger] l@[q]),
        decreases n - k,
    {
        k = k + 1;
    }
    let ghost t = l@.subrange(j as int, n as int);
    proof {
        assert forall|q: int| 0 <= q < k - j implies is_ident_char(#[trigger] t[q]) by {
            assert(t[q] == l@[q + j]);
        }
        lemma_ident_len_exact(t, k - j);
    }
    if k > j && is_ident_start_exec(l[j]) && k < n && l[k] == '=' {
        assert(t[0] == l@[j as int]);
        assert(t[k - j] == l@[k as int]);
        let r = slice_of(l, j, k);
        assert(r@ =~= t.take(k - j));
        Some(r)
    } else {
        proof {
            if k > j {
                assert(t[0] == l@[j as int]);
            }
            if k < n {
                assert(t[k - j] == l@[k as int]);
            }
        }
        None
    }
}


fn path_hit_exec(l: &[char], paths: &Vec<String>) -> (r: bool)
    ensures
        r == path_hit(l@, paths@.map_values(|s: String| s@)),
{
    let ghost pv = paths@.map_values(|s: String| s@);
    let mut i: usize = 0;
    while i < paths.len()
        invariant
            i <= paths@.len(),
            pv == paths@.map_values(|s: String| s@),
            forall|j: int|
                0 <= j < i ==> !(contains(l@, "PATH=\""@ + #[trigger] pv[j] + ":"@) || contains(
                    l@,
                    "PATH="@ + pv[j] + ":"@,
                )),
        decreases paths.len() - i,
    {
        let pc = chars_of(paths[i].as_str());
        let a = concat(concat(chars_of("PATH=\"").as_slice(), pc.as_slice()).as_slice(), chars_of(":").as_slice());
        let b = concat(concat(chars_of("PATH=").as_slice(), pc.as_slice()).as_slice(), chars_of(":").as_slice());
        assert(pv[i as int] == paths@[i as int]@);
        if crate::text::contains_exec(l, a.as_slice()) || crate::text::contains_exec(l, b.as_slice()) {
            return true;
        }
        i = i + 1;
    }
    false
}

fn var_hit_exec(l: &[char], names: &Vec<Vec<char>>) -> (r: bool)
    ensures
        r == var_hit(l@, names@.map_values(|s: Vec<char>| s@)),
{
    match export_name_exec(l) {
        Some(n) => contains_line(names, n.as_slice()),
        None => false,
    }
}

/// The names of a spec's variables.
pub open spec fn var_names(vars: Seq<(Seq<char>, Seq<char>)>) -> Seq<Seq<char>> {
    vars.map_values(|kv: (Seq<char>, Seq<char>)| kv.0)
}

fn reverted_block_exec(block: &[char], paths: &Vec<String>, names: &Vec<Vec<char>>) -> (r: Option<Vec<char>>)
    ensures
        match r {
            Some(b) => reverted_block(block@, paths@.map_values(|s: String| s@), names@.map_values(
                |s: Vec<char>| s@,
            )) == Some(b@),
            None => reverted_block(block@, paths@.map_values(|s: String| s@), names@.map_values(
                |s: Vec<char>| s@,
            )) is None,
        },
{
    let ghost pv = paths@.map_values(|s: String| s@);
    let ghost nv = names@.map_values(|s: Vec<char>| s@);
    let ls = lines_exec(block);
    let ghost lv = ls@.map_values(|v: Vec<char>| v@);
    let mut kept: Vec<Vec<char>> = Vec::new();
    let mut i: usize = 0;
    while i < ls.len()
        invariant
            i <= ls@.len(),
            lv == ls@.map_values(|v: Vec<char>| v@),
            lv == lines(block@),
            pv == paths@.map_values(|s: String| s@),
            nv == names@.map_values(|s: Vec<char>| s@),
            kept@.map_values(|v: Vec<char>| v@) == keep_unhit(lv.take(i as int), pv, nv),
        decreases ls.len() - i,
    {
        let ghost before = kept@.map_values(|v: Vec<char>| v@);
        assert(lv.take(i + 1).drop_last() =~= lv.take(i as int));
        assert(lv[i as int] == ls@[i as int]@);
        if !(path_hit_exec(ls[i].as_slice(), paths) || var_hit_exec(ls[i].as_slice(), names)) {
            kept.push(copy_chars(ls[i].as_slice()));
            assert(kept@.map_values(|v: Vec<char>| v@) =~= before.push(lv[i as int]));
        }
        i = i + 1;
    }
    assert(lv.take(i as int) =~= lv);
    let n = nl_chars();
    let nb = trim_exec(join_exec(&kept, n.as_slice()).as_slice());
    let b = begin_chars();
    let e = end_chars();
    let be = concat(concat(b.as_slice(), n.as_slice()).as_slice(), e.as_slice());
    if nb.len() == 0 || eq(nb.as_slice(), b.as_slice()) || eq(nb.as_slice(), be.as_slice()) {
        return None;
    }
    let nb1 = if !starts_with_exec(nb.as_slice(), b.as_slice()) {
        let x = concat(concat(b.as_slice(), n.as_slice()).as_slice(), nb.as_slice());
        concat(concat(x.as_slice(), n.as_slice()).as_slice(), e.as_slice())
    } else {
        nb
    };
    let nb2 = if !ends_with_exec(nb1.as_slice(), e.as_slice()) {
        let t = crate::text::trim_end_exec(nb1.as_slice());
        concat(concat(t.as_slice(), n.as_slice()).as_slice(), e.as_slice())
    } else {
        nb1
    };
    Some(nb2)
}

/// `env.sh` after removing what `spec` declared; `None` when it has no
/// managed block (the file is then left alone).
pub fn revert_env_sh(text: &str, spec: &EnvSpec) -> (r: Option<String>)
    ensures
        match r {
            Some(t) => revert_text(text@, spec@.0, var_names(spec@.1)) == Some(t@),
            None => revert_text(text@, spec@.0, var_names(spec@.1)) is None,
        },
{
    let t = chars_of(text);
    match extract_block_exec(t.as_slice()) {
        None => None,
        Some(block) => {
            let mut names: Vec<Vec<char>> = Vec::new();
            let mut i: usize = 0;
            while i < spec.vars.len()
                invariant
                    i <= spec.vars@.len(),
                    names@.map_values(|s: Vec<char>| s@) == var_names(spec@.1).take(i as int),
                decreases spec.vars.len() - i,
            {
                let ghost before = names@.map_values(|s: Vec<char>| s@);
                names.push(chars_of(spec.vars[i].0.as_str()));
                assert(var_names(spec@.1)[i as int] == spec.vars@[i as int].0@);
                assert(names@.map_values(|s: Vec<char>| s@) =~= before.push(spec.vars@[i as int].0@));
                assert(var_names(spec@.1).take(i + 1) =~= var_names(spec@.1).take(i as int).push(
                    var_names(spec@.1)[i as int],
                ));
                assert(names@.map_values(|s: Vec<char>| s@) =~= var_names(spec@.1).take(i + 1));
                i = i + 1;
            }
            assert(var_names(spec@.1).take(i as int) =~= var_names(spec@.1));
            assert(spec@.0 == spec.paths@.map_values(|s: String| s@));
            match reverted_block_exec(block.as_slice(), &spec.paths, &names) {
                None => Some(string_of(remove_block_exec(t.as_slice()).as_slice())),
                Some(nb) => Some(string_of(replace_block_exec(t.as_slice(), nb.as_slice()).as_slice())),
            }
        },
    }
}

// ---------------------------------------------------------------------------
// Checking the block
// ---------------------------------------------------------------------------

/// `NAME="VALUE"`, the part of an assignment line after `export` and blanks.
pub open spec fn assign_literal(name: Seq<char>, value: Seq<char>) -> Seq<char> {
    name + "=\""@ + value + "\""@
}

/// From `q` on, blanks up to the end of the text or of the line (`\s*$` in
/// multi-line mode).
pub open spec fn tail_ok(text: Seq<char>, q: int) -> bool
    decreases text.len() - q,
{
    if q < 0 {
        false
    } else if q >= text.len() {
        true
    } else if text[q] == '\n' {
        true
    } else if crate::text::is_ws(text[q]) {
        tail_ok(text, q + 1)
    } else {
        false
    }
}

/// At `m`, after at least one blank, more blanks and then `lit` closing the line.
pub open spec fn ws_then_assign(text: Seq<char>, m: int, lit: Seq<char>) -> bool
    decreases text.len() - m,
{
    if m < 0 || m > text.len() {
        false
    } else if crate::text::occurs_at(text, lit, m) && tail_ok(text, m + lit.len()) {
        true
    } else if m < text.len() && crate::text::is_ws(text[m]) {
        ws_then_assign(text, m + 1, lit)
    } else {
        false
    }
}

/// A line starting at `p` matches `^export\s+LIT\s*$`.
pub open spec fn assignment_at(text: Seq<char>, p: int, lit: Seq<char>) -> bool {
    &&& 0 <= p
    &&& (p == 0 || text[p - 1] == '\n')
    &&& crate::text::occurs_at(text, "export"@, p)
    &&& p + 6 < text.len()
    &&& crate::text::is_ws(text[p + 6])
    &&& ws_then_assign(text, p + 7, lit)
}

/// Some line at or after `p` matches.
pub open spec fn assignment_from(text: Seq<char>, lit: Seq<char>, p: int) -> bool
    decreases text.len() + 1 - p,
{
    if p < 0 || p > text.len() {
        false
    } else if assignment_at(text, p, lit) {
        true
    } else {
        assignment_from(text, lit, p + 1)
    }
}

/// `(?m)^export\s+NAME="VALUE"\s*$` matches somewhere in `text`, with the
/// value's double quotes escaped as `apply` writes them.
pub open spec fn has_assignment(text: Seq<char>, name: Seq<char>, value: Seq<char>) -> bool {
    assignment_from(text, assign_literal(name, quote_escaped(value)), 0)
}

fn tail_ok_exec(text: &[char], q: usize) -> (r: bool)
    ensures
        r == tail_ok(text@, q as int),
{
    let n = text.len();
    let mut k = q;
    while k < n && text[k] != '\n' && crate::text::is_ws_exec(text[k])
        invariant
            q <= k,
            n == text@.len(),
            tail_ok(text@, q as int) == tail_ok(text@, k as int),
        decreases n - k,
    {
        k = k + 1;
    }
    k >= n || text[k] == '\n'
}

fn ws_then_assign_exec(text: &[char], m: usize, lit: &[char]) -> (r: bool)
    requires
        m <= text@.len(),
    ensures
        r == ws_then_assign(text@, m as int, lit@),
{
    let n = text.len();
    let ln = lit.len();
    let mut k = m;
    while k <= n
        invariant
            m <= k,
            n == text@.len(),
            ln == lit@.len(),
            ws_then_assign(text@, m as int, lit@) == ws_then_assign(text@, k as int, lit@),
        decreases n + 1 - k,
    {
        if crate::text::occurs_at_exec(text, lit, k) {
            let e = k + ln;
            if tail_ok_exec(text, e) {
                return true;
            }
        }
        if k < n && crate::text::is_ws_exec(text[k]) {
            k = k + 1;
        } else {
            return false;
        }
    }
    false
}

fn has_assignment_exec(text: &[char], lit: &[char]) -> (r: bool)
    ensures
        r == assignment_from(text@, lit@, 0),
{
    let ex = chars_of("export");
    proof {
        reveal_strlit("export");
    }
    let n = text.len();
    let mut p: usize = 0;
    while p < n
        invariant
            p <= n,
            n == text@.len(),
            ex@ == "export"@,
            assignment_from(text@, lit@, 0) == assignment_from(text@, lit@, p as int),
        decreases n - p,
    {
        let at_line_start = p == 0 || text[p - 1] == '\n';
        if at_line_start && crate::text::occurs_at_exec(text, ex.as_slice(), p) && n - p > 6
            && crate::text::is_ws_exec(text[p + 6]) {
            if ws_then_assign_exec(text, p + 7, lit) {
                return true;
            }
        }
        p = p + 1;
    }
    assert(!assignment_at(text@, n as int, lit@));
    assert(!assignment_from(text@, lit@, n + 1));
    assert(!assignment_from(text@, lit@, n as int));
    false
}

/// What `check` reports on macOS and Linux: one entry per PATH directory
/// (`PATH:<dir>`, whether `env.sh` mentions it), then one per variable
/// (whether an `export NAME="VALUE"` line is present).
pub open spec fn unix_checks(text: Seq<char>, spec: (Seq<Seq<char>>, Seq<(Seq<char>, Seq<char>)>)) -> Seq<
    (Seq<char>, bool),
> {
    spec.0.map_values(|p: Seq<char>| ("PATH:"@ + p, contains(text, p))) + spec.1.map_values(
        |kv: (Seq<char>, Seq<char>)| (kv.0, has_assignment(text, kv.0, kv.1)),
    )
}

pub open spec fn checks_view(v: Seq<(String, bool)>) -> Seq<(Seq<char>, bool)> {
    v.map_values(|e: (String, bool)| (e.0@, e.1))
}

/// Check `env.sh` (its text, `""` when missing) against `spec`.
pub fn check_env_sh(text: &str, spec: &EnvSpec) -> (r: Vec<(String, bool)>)
    ensures
        checks_view(r@) == unix_checks(text@, spec@),
{
    let t = chars_of(text);
    let ghost pv = spec@.0;
    let ghost vv = spec@.1;
    let mut out: Vec<(String, bool)> = Vec::new();
    let mut i: usize = 0;
    while i < spec.paths.len()
        invariant
            i <= spec.paths@.len(),
            t@ == text@,
            pv == spec@.0,
            checks_view(out@) == pv.take(i as int).map_values(|p: Seq<char>| ("PATH:"@ + p, contains(text@, p))),
        decreases spec.paths.len() - i,
    {
        let ghost before = checks_view(out@);
        let pc = chars_of(spec.paths[i].as_str());
        let key = string_of(concat(chars_of("PATH:").as_slice(), pc.as_slice()).as_slice());
        let hit = crate::text::contains_exec(t.as_slice(), pc.as_slice());
        assert(pv[i as int] == spec.paths@[i as int]@);
        out.push((key, hit));
        assert(checks_view(out@) =~= before.push(("PATH:"@ + pv[i as int], contains(text@, pv[i as int]))));
        assert(pv.take(i + 1) =~= pv.take(i as int).push(pv[i as int]));
        assert(checks_view(out@) =~= pv.take(i + 1).map_values(|p: Seq<char>| ("PATH:"@ + p, contains(text@, p))));
        i = i + 1;
    }
    assert(pv.take(i as int) =~= pv);
    let mut j: usize = 0;
    while j < spec.vars.len()
        invariant
            j <= spec.vars@.len(),
            t@ == text@,
            pv == spec@.0,
            vv == spec@.1,
            checks_view(out@) == pv.map_values(|p: Seq<char>| ("PATH:"@ + p, contains(text@, p))) + vv.take(
                j as int,
            ).map_values(|kv: (Seq<char>, Seq<char>)| (kv.0, has_assignment(text@, kv.0, kv.1))),
        decreases spec.vars.len() - j,
    {
        let ghost before = checks_view(out@);
        let name = &spec.vars[j].0;
        let value = &spec.vars[j].1;
        let escaped = quote_escaped_exec(chars_of(value.as_str()).as_slice());
        let lit = concat(
            concat(concat(chars_of(name.as_str()).as_slice(), chars_of("=\"").as_slice()).as_slice(), escaped.as_slice()).as_slice(),
            chars_of("\"").as_slice(),
        );
        let hit = has_assignment_exec(t.as_slice(), lit.as_slice());
        assert(vv[j as int] == (spec.vars@[j as int].0@, spec.vars@[j as int].1@));
        out.push((owned(name.as_str()), hit));
        assert(checks_view(out@) =~= before.push((vv[j as int].0, has_assignment(text@, vv[j as int].0, vv[j as int].1))));
        assert(vv.take(j + 1) =~= vv.take(j as int).push(vv[j as int]));
        assert(checks_view(out@) =~= pv.map_values(|p: Seq<char>| ("PATH:"@ + p, contains(text@, p))) + vv.take(
            j + 1,
        ).map_values(|kv: (Seq<char>, Seq<char>)| (kv.0, has_assignment(text@, kv.0, kv.1))));
        j = j + 1;
    }
    assert(vv.take(j as int) =~= vv);
    out
}


// ---------------------------------------------------------------------------
// The shell profile
// ---------------------------------------------------------------------------

/// The block a shell profile gets: the source line framed by the markers.
pub open spec fn profile_block() -> Seq<char> {
    begin_marker() + nl() + source_line() + nl() + end_marker() + nl()
}

/// The profile after making sure it sources `env.sh`: unchanged when it
/// already mentions the file, else with the block appended.
pub open spec fn profile_with_source(text: Seq<char>) -> Seq<char> {
    if contains(text, source_line()) || contains(text, "$HOME/.devkit/env.sh"@) {
        text
    } else {
        text + append_sep(text) + profile_block()
    }
}

/// The profile text after making sure it sources `env.sh`.
pub fn ensure_profile_source(text: &str) -> (r: String)
    ensures
        r@ == profile_with_source(text@),
{
    let t = chars_of(text);
    if crate::text::contains_exec(t.as_slice(), chars_of("source \"$HOME/.devkit/env.sh\"").as_slice())
        || crate::text::contains_exec(t.as_slice(), chars_of("$HOME/.devkit/env.sh").as_slice()) {
        return owned(text);
    }
    let n = nl_chars();
    let block = concat(
        concat(
            concat(
                concat(concat(begin_chars().as_slice(), n.as_slice()).as_slice(), chars_of("source \"$HOME/.devkit/env.sh\"").as_slice()).as_slice(),
                n.as_slice(),
            ).as_slice(),
            end_chars().as_slice(),
        ).as_slice(),
        n.as_slice(),
    );
    let needs_sep = t.len() > 0 && t[t.len() - 1] != '\n';
    let mut out = copy_chars(t.as_slice());
    if needs_sep {
        out.push('\n');
    }
    assert(out@ == t@ + append_sep(t@));
    out.extend_from_slice(block.as_slice());
    assert(out@ =~= t@ + append_sep(t@) + profile_block());
    string_of(out.as_slice())
}

// ---------------------------------------------------------------------------
// Windows user PATH
// ---------------------------------------------------------------------------

/// The non-empty pieces among `s`, in order.
pub open spec fn nonempty_only(s: Seq<Seq<char>>) -> Seq<Seq<char>>
    decreases s.len(),
{
    if s.len() == 0 {
        s
    } else if s.last().len() > 0 {
        nonempty_only(s.drop_last()).push(s.last())
    } else {
        nonempty_only(s.drop_last())
    }
}

/// The entries of a `;`-separated user PATH value.
pub open spec fn path_list(value: Seq<char>) -> Seq<Seq<char>> {
    nonempty_only(crate::text::split(value, ';'))
}

pub open spec fn lowered(s: Seq<Seq<char>>) -> Seq<Seq<char>> {
    s.map_values(|p: Seq<char>| crate::text::lowercase(p))
}

/// Put `entries[..k]` in front of `parts`, last first, skipping each one
/// whose lowercase form is already among `lower` (which grows as entries go in).
pub open spec fn prepend_missing(
    parts: Seq<Seq<char>>,
    lower: Seq<Seq<char>>,
    entries: Seq<Seq<char>>,
    k: int,
) -> Seq<Seq<char>>
    decreases k,
{
    if k <= 0 || k > entries.len() {
        parts
    } else {
        let e = entries[k - 1];
        let el = crate::text::lowercase(e);
        if lower.contains(el) {
            prepend_missing(parts, lower, entries, k - 1)
        } else {
            prepend_missing(seq![e] + parts, lower.push(el), entries, k - 1)
        }
    }
}

/// The user PATH entries after `apply`: the spec's directories not yet
/// present (ignoring case) go in front, in spec order.
pub open spec fn path_after_apply(current: Seq<char>, entries: Seq<Seq<char>>) -> Seq<Seq<char>> {
    prepend_missing(path_list(current), lowered(path_list(current)), entries, entries.len() as int)
}

/// The entries whose lowercase form is not among `drop`.
pub open spec fn keep_not_in(s: Seq<Seq<char>>, drop: Seq<Seq<char>>) -> Seq<Seq<char>>
    decreases s.len(),
{
    if s.len() == 0 {
        s
    } else if drop.contains(crate::text::lowercase(s.last())) {
        keep_not_in(s.drop_last(), drop)
    } else {
        keep_not_in(s.drop_last(), drop).push(s.last())
    }
}

/// The user PATH entries after `revert`: those equal (ignoring case) to a
/// spec directory are gone.
pub open spec fn path_after_revert(current: Seq<char>, entries: Seq<Seq<char>>) -> Seq<Seq<char>> {
    keep_not_in(path_list(current), lowered(entries))
}

pub open spec fn semi() -> Seq<char> {
    seq![';']
}

fn lower_all(v: &Vec<Vec<char>>) -> (r: Vec<Vec<char>>)
    ensures
        r@.map_values(|x: Vec<char>| x@) == lowered(v@.map_values(|x: Vec<char>| x@)),
{
    let ghost vv = v@.map_values(|x: Vec<char>| x@);
    let mut out: Vec<Vec<char>> = Vec::new();
    let mut i: usize = 0;
    while i < v.len()
        invariant
            i <= v@.len(),
            vv == v@.map_values(|x: Vec<char>| x@),
            out@.map_values(|x: Vec<char>| x@) == lowered(vv.take(i as int)),
        decreases v.len() - i,
    {
        let ghost before = out@.map_values(|x: Vec<char>| x@);
        out.push(crate::text::to_lowercase(v[i].as_slice()));
        assert(vv[i as int] == v@[i as int]@);
        assert(out@.map_values(|x: Vec<char>| x@) =~= before.push(crate::text::lowercase(vv[i as int])));
        assert(vv.take(i + 1) =~= vv.take(i as int).push(vv[i as int]));
        assert(lowered(vv.take(i + 1)) =~= lowered(vv.take(i as int)).push(crate::text::lowercase(vv[i as int])));
        i = i + 1;
    }
    assert(vv.take(i as int) =~= vv);
    out
}

/// The entries of a user PATH value.
pub fn path_list_exec(value: &str) -> (r: Vec<Vec<char>>)
    ensures
        r@.map_values(|x: Vec<char>| x@) == path_list(value@),
{
    let pieces = crate::text::split_exec(chars_of(value).as_slice(), ';');
    let ghost pv = pieces@.map_values(|x: Vec<char>| x@);
    let mut out: Vec<Vec<char>> = Vec::new();
    let mut i: usize = 0;
    while i < pieces.len()
        invariant
            i <= pieces@.len(),
            pv == pieces@.map_values(|x: Vec<char>| x@),
            pv == crate::text::split(value@, ';'),
            out@.map_values(|x: Vec<char>| x@) == nonempty_only(pv.take(i as int)),
        decreases pieces.len() - i,
    {
        let ghost before = out@.map_values(|x: Vec<char>| x@);
        assert(pv.take(i + 1).drop_last() =~= pv.take(i as int));
        assert(pv[i as int] == pieces@[i as int]@);
        if pieces[i].len() > 0 {
            out.push(copy_chars(pieces[i].as_slice()));
            assert(out@.map_values(|x: Vec<char>| x@) =~= before.push(pv[i as int]));
        }
        i = i + 1;
    }
    assert(pv.take(i as int) =~= pv);
    out
}

/// The user PATH value after `apply`.
pub fn windows_path_after_apply(current: &str, entries: &Vec<String>) -> (r: String)
    ensures
        r@ == join(path_after_apply(current@, entries@.map_values(|s: String| s@)), semi()),
{
    let ghost ev = entries@.map_values(|s: String| s@);
    let mut parts = path_list_exec(current);
    let mut lower = lower_all(&parts);
    let mut k: usize = entries.len();
    while k > 0
        invariant
            k <= entries@.len(),
            ev == entries@.map_values(|s: String| s@),
            prepend_missing(
                parts@.map_values(|x: Vec<char>| x@),
                lower@.map_values(|x: Vec<char>| x@),
                ev,
                k as int,
            ) == path_after_apply(current@, ev),
        decreases k,
    {
        let ghost pb = parts@.map_values(|x: Vec<char>| x@);
        let ghost lb = lower@.map_values(|x: Vec<char>| x@);
        let e = chars_of(entries[k - 1].as_str());
        assert(ev[k - 1] == entries@[k - 1]@);
        let el = crate::text::to_lowercase(e.as_slice());
        if !contains_line(&lower, el.as_slice()) {
            parts.insert(0, e);
            lower.push(el);
            assert(parts@.map_values(|x: Vec<char>| x@) =~= seq![ev[k - 1]] + pb);
            assert(lower@.map_values(|x: Vec<char>| x@) =~= lb.push(crate::text::lowercase(ev[k - 1])));
        }
        k = k - 1;
    }
    let sc: Vec<char> = vec![';'];
    assert(sc@ =~= semi());
    string_of(join_exec(&parts, sc.as_slice()).as_slice())
}

/// The user PATH value after `revert`.
pub fn windows_path_after_revert(current: &str, entries: &Vec<String>) -> (r: String)
    ensures
        r@ == join(path_after_revert(current@, entries@.map_values(|s: String| s@)), semi()),
{
    let ghost ev = entries@.map_values(|s: String| s@);
    let mut ents: Vec<Vec<char>> = Vec::new();
    let mut j: usize = 0;
    while j < entries.len()
        invariant
            j <= entries@.len(),
            ev == entries@.map_values(|s: String| s@),
            ents@.map_values(|x: Vec<char>| x@) == ev.take(j as int),
        decreases entries.len() - j,
    {
        let ghost before = ents@.map_values(|x: Vec<char>| x@);
        ents.push(chars_of(entries[j].as_str()));
        assert(ev[j as int] == entries@[j as int]@);
        assert(ents@.map_values(|x: Vec<char>| x@) =~= before.push(ev[j as int]));
        assert(ev.take(j + 1) =~= ev.take(j as int).push(ev[j as int]));
        j = j + 1;
    }
    assert(ev.take(j as int) =~= ev);
    let drop = lower_all(&ents);
    let parts = path_list_exec(current);
    let ghost pv = parts@.map_values(|x: Vec<char>| x@);
    let mut out: Vec<Vec<char>> = Vec::new();
    let mut i: usize = 0;
    while i < parts.len()
        invariant
            i <= parts@.len(),
            pv == parts@.map_values(|x: Vec<char>| x@),
            pv == path_list(current@),
            drop@.map_values(|x: Vec<char>| x@) == lowered(ev),
            out@.map_values(|x: Vec<char>| x@) == keep_not_in(pv.take(i as int), lowered(ev)),
        decreases parts.len() - i,
    {
        let ghost before = out@.map_values(|x: Vec<char>| x@);
        assert(pv.take(i + 1).drop_last() =~= pv.take(i as int));
        assert(pv[i as int] == parts@[i as int]@);
        let low = crate::text::to_lowercase(parts[i].as_slice());
        if !contains_line(&drop, low.as_slice()) {
            out.push(copy_chars(parts[i].as_slice()));
            assert(out@.map_values(|x: Vec<char>| x@) =~= before.push(pv[i as int]));
        }
        i = i + 1;
    }
    assert(pv.take(i as int) =~= pv);
    let sc: Vec<char> = vec![';'];
    assert(sc@ =~= semi());
    string_of(join_exec(&out, sc.as_slice()).as_slice())
}

// ---------------------------------------------------------------------------
// Windows user variables
// ---------------------------------------------------------------------------

/// The value of the first variable named `name`.
pub open spec fn var_value(vars: Seq<(Seq<char>, Seq<char>)>, name: Seq<char>) -> Option<Seq<char>>
    decreases vars.len(),
{
    if vars.len() == 0 {
        None
    } else if vars[0].0 == name {
        Some(vars[0].1)
    } else {
        var_value(vars.drop_first(), name)
    }
}

pub open spec fn vars_view(v: Seq<(String, String)>) -> Seq<(Seq<char>, Seq<char>)> {
    v.map_values(|kv: (String, String)| (kv.0@, kv.1@))
}

proof fn lemma_var_value_skip(vars: Seq<(Seq<char>, Seq<char>)>, name: Seq<char>, i: int)
    requires
        0 <= i <= vars.len(),
        forall|j: int| 0 <= j < i ==> (#[trigger] vars[j]).0 != name,
    ensures
        var_value(vars, name) == var_value(vars.skip(i), name),
    decreases i,
{
    if i > 0 {
        assert(vars.skip(1) =~= vars.drop_first());
        lemma_var_value_skip(vars.drop_first(), name, i - 1);
        assert(vars.drop_first().skip(i - 1) =~= vars.skip(i));
    } else {
        assert(vars.skip(0) =~= vars);
    }
}

proof fn lemma_var_value_none(vars: Seq<(Seq<char>, Seq<char>)>, name: Seq<char>)
    requires
        forall|j: int| 0 <= j < vars.len() ==> (#[trigger] vars[j]).0 != name,
    ensures
        var_value(vars, name) is None,
    decreases vars.len(),
{
    if vars.len() > 0 {
        lemma_var_value_none(vars.drop_first(), name);
    }
}

/// Set variable `name` to `value` (the first entry of that name, else a new one).
fn set_var(vars: &mut Vec<(String, String)>, name: &str, value: &str)
    ensures
        var_value(vars_view(final(vars)@), name@) == Some(value@),
        forall|x: Seq<char>| x != name@ ==> var_value(vars_view(final(vars)@), x) == var_value(
            vars_view(old(vars)@),
            x,
        ),
{
    let n = chars_of(name);
    let mut i: usize = 0;
    while i < vars.len()
        invariant
            i <= vars@.len(),
            n@ == name@,
            vars@ == old(vars)@,
            forall|j: int| 0 <= j < i ==> (#[trigger] vars@[j]).0@ != name@,
        decreases vars.len() - i,
    {
        if eq(chars_of(vars[i].0.as_str()).as_slice(), n.as_slice()) {
            let ghost ov = vars_view(vars@);
            vars.set(i, (owned(name), owned(value)));
            proof {
                let nv = vars_view(vars@);
                assert(nv =~= ov.update(i as int, (name@, value@)));
                assert forall|j: int| 0 <= j < i implies (#[trigger] nv[j]).0 != name@ by {
                    assert(nv[j] == ov[j]);
                }
                assert forall|j: int| 0 <= j < i implies (#[trigger] ov[j]).0 != name@ by {}
                lemma_var_value_skip(nv, name@, i as int);
                assert(nv.skip(i as int)[0] == (name@, value@));
                assert forall|x: Seq<char>| x != name@ implies var_value(nv, x) == var_value(ov, x) by {
                    lemma_var_value_eq_except(ov, nv, i as int, x);
                }
            }
            return;
        }
        i = i + 1;
    }
    let ghost ov = vars_view(vars@);
    vars.push((owned(name), owned(value)));
    proof {
        let nv = vars_view(vars@);
        assert(nv =~= ov.push((name@, value@)));
        assert forall|j: int| 0 <= j < ov.len() implies (#[trigger] nv[j]).0 != name@ by {
            assert(nv[j] == ov[j]);
        }
        lemma_var_value_skip(nv, name@, ov.len() as int);
        assert(nv.skip(ov.len() as int)[0] == (name@, value@));
        assert forall|x: Seq<char>| x != name@ implies var_value(nv, x) == var_value(ov, x) by {
            lemma_var_value_push(ov, (name@, value@), x);
        }
    }
}

proof fn lemma_var_value_eq_except(
    a: Seq<(Seq<char>, Seq<char>)>,
    b: Seq<(Seq<char>, Seq<char>)>,
    i: int,
    x: Seq<char>,
)
    requires
        a.len() == b.len(),
        0 <= i < a.len(),
        forall|j: int| 0 <= j < a.len() && j != i ==> a[j] == b[j],
        a[i].0 != x,
        b[i].0 != x,
    ensures
        var_value(a, x) == var_value(b, x),
    decreases a.len(),
{
    if a.len() > 0 {
        if i > 0 {
            if a[0].0 != x {
                lemma_var_value_eq_except(a.drop_first(), b.drop_first(), i - 1, x);
            }
        } else {
            assert(a.drop_first() =~= b.drop_first());
        }
    }
}

proof fn lemma_var_value_push(a: Seq<(Seq<char>, Seq<char>)>, e: (Seq<char>, Seq<char>), x: Seq<char>)
    requires
        e.0 != x,
    ensures
        var_value(a.push(e), x) == var_value(a, x),
{
    lemma_var_value_push_any(a, e, x);
}

/// Delete every variable named `name`.
fn remove_var(vars: &mut Vec<(String, String)>, name: &str)
    ensures
        var_value(vars_view(final(vars)@), name@) is None,
        forall|x: Seq<char>| x != name@ ==> var_value(vars_view(final(vars)@), x) == var_value(
            vars_view(old(vars)@),
            x,
        ),
{
    let n = chars_of(name);
    let ghost ov = vars_view(vars@);
    let mut kept: Vec<(String, String)> = Vec::new();
    let mut i: usize = 0;
    while i < vars.len()
        invariant
            i <= vars@.len(),
            n@ == name@,
            ov == vars_view(vars@),
            forall|j: int| 0 <= j < kept@.len() ==> (#[trigger] kept@[j]).0@ != name@,
            forall|x: Seq<char>|
                x != name@ ==> var_value(vars_view(kept@), x) == var_value(ov.take(i as int), x),
        decreases vars.len() - i,
    {
        if !eq(chars_of(vars[i].0.as_str()).as_slice(), n.as_slice()) {
            let ghost kb = vars_view(kept@);
            kept.push((owned(vars[i].0.as_str()), owned(vars[i].1.as_str())));
            proof {
                assert(vars_view(kept@) =~= kb.push(ov[i as int]));
                assert forall|x: Seq<char>| x != name@ implies var_value(vars_view(kept@), x) == var_value(
                    ov.take(i + 1),
                    x,
                ) by {
                    assert(ov.take(i + 1) =~= ov.take(i as int).push(ov[i as int]));
                    lemma_var_value_append(kb, ov.take(i as int), ov[i as int], x);
                }
            }
        } else {
            proof {
                assert forall|x: Seq<char>| x != name@ implies var_value(vars_view(kept@), x) == var_value(
                    ov.take(i + 1),
                    x,
                ) by {
                    assert(ov.take(i + 1) =~= ov.take(i as int).push(ov[i as int]));
                    lemma_var_value_push(ov.take(i as int), ov[i as int], x);
                }
            }
        }
        i = i + 1;
    }
    proof {
        assert(ov.take(i as int) =~= ov);
        assert forall|j: int| 0 <= j < vars_view(kept@).len() implies (#[trigger] vars_view(kept@)[j]).0
            != name@ by {
            assert(vars_view(kept@)[j].0 == kept@[j].0@);
        }
        lemma_var_value_none(vars_view(kept@), name@);
    }
    *vars = kept;
}

proof fn lemma_var_value_append(
    a: Seq<(Seq<char>, Seq<char>)>,
    b: Seq<(Seq<char>, Seq<char>)>,
    e: (Seq<char>, Seq<char>),
    x: Seq<char>,
)
    requires
        var_value(a, x) == var_value(b, x),
    ensures
        var_value(a.push(e), x) == var_value(b.push(e), x),
{
    lemma_var_value_push_any(a, e, x);
    lemma_var_value_push_any(b, e, x);
}

proof fn lemma_var_value_push_any(a: Seq<(Seq<char>, Seq<char>)>, e: (Seq<char>, Seq<char>), x: Seq<char>)
    ensures
        var_value(a.push(e), x) == match var_value(a, x) {
            Some(v) => Some(v),
            None => if e.0 == x {
                Some(e.1)
            } else {
                None
            },
        },
    decreases a.len(),
{
    let b = a.push(e);
    if a.len() > 0 {
        assert(b[0] == a[0]);
        assert(b.drop_first() =~= a.drop_first().push(e));
        lemma_var_value_push_any(a.drop_first(), e, x);
        if a[0].0 == x {
            assert(var_value(b, x) == Some(a[0].1));
            assert(var_value(a, x) == Some(a[0].1));
        } else {
            assert(var_value(b, x) == var_value(b.drop_first(), x));
            assert(var_value(a, x) == var_value(a.drop_first(), x));
        }
    } else {
        assert(b.drop_first() =~= Seq::<(Seq<char>, Seq<char>)>::empty());
        assert(var_value(b.drop_first(), x) is None);
        assert(b[0] == e);
    }
}


/// The value the last pair named `name` gives, if any.
pub open spec fn last_value(vars: Seq<(Seq<char>, Seq<char>)>, name: Seq<char>) -> Option<Seq<char>>
    decreases vars.len(),
{
    if vars.len() == 0 {
        None
    } else if vars.last().0 == name {
        Some(vars.last().1)
    } else {
        last_value(vars.drop_last(), name)
    }
}

/// What `check` reports on Windows: per PATH directory whether the user
/// PATH holds it (ignoring case), then per variable whether it has exactly
/// that value.
pub open spec fn windows_checks(
    user_path: Seq<char>,
    vars: Seq<(Seq<char>, Seq<char>)>,
    spec: (Seq<Seq<char>>, Seq<(Seq<char>, Seq<char>)>),
) -> Seq<(Seq<char>, bool)> {
    spec.0.map_values(
        |p: Seq<char>|
            ("PATH:"@ + p, lowered(path_list(user_path)).contains(crate::text::lowercase(p))),
    ) + spec.1.map_values(
        |kv: (Seq<char>, Seq<char>)| (kv.0, var_value(vars, kv.0) == Some(kv.1)),
    )
}

/// The user environment DevKit edits: `env.sh` and the shell profile on
/// macOS and Linux, the user `Path` and variables on Windows.
pub struct EnvManager {
    pub os: HostOS,
    /// Text of `~/.devkit/env.sh`; `None` when the file does not exist.
    pub env_sh: Option<String>,
    /// Text of the primary shell profile (`""` when it does not exist).
    pub profile: String,
    /// Where the primary shell profile lives, as shown to the user.
    pub profile_path: String,
    /// The user `Path` value (`""` when unset).
    pub user_path: String,
    /// User variables, name and value.
    pub user_vars: Vec<(String, String)>,
}

pub open spec fn opt_text(o: Option<String>) -> Option<Seq<char>> {
    match o {
        Some(s) => Some(s@),
        None => None,
    }
}

pub open spec fn text_or_empty(o: Option<String>) -> Seq<char> {
    match o {
        Some(s) => s@,
        None => Seq::empty(),
    }
}

impl EnvManager {
    /// A manager for `os` with nothing loaded: no `env.sh`, empty profile,
    /// empty user PATH, no user variables.
    pub fn new(os: HostOS) -> (r: Self)
        ensures
            r.os == os,
            r.env_sh is None,
            r.profile@.len() == 0,
            r.profile_path@.len() == 0,
            r.user_path@.len() == 0,
            r.user_vars@.len() == 0,
    {
        EnvManager {
            os,
            env_sh: None,
            profile: String::new(),
            profile_path: String::new(),
            user_path: String::new(),
            user_vars: Vec::new(),
        }
    }

    /// Prepend PATH entries and set env vars from `spec`.
    pub fn apply(&mut self, spec: &EnvSpec)
        ensures
            final(self).os == old(self).os,
            final(self).profile_path == old(self).profile_path,
            old(self).os == HostOS::Windows ==> {
                &&& final(self).user_path@ == join(path_after_apply(old(self).user_path@, spec@.0), semi())
                &&& forall|x: Seq<char>|
                    #[trigger] var_value(vars_view(final(self).user_vars@), x) == match last_value(spec@.1, x) {
                        Some(v) => Some(v),
                        None => var_value(vars_view(old(self).user_vars@), x),
                    }
                &&& final(self).env_sh == old(self).env_sh
                &&& final(self).profile == old(self).profile
            },
            old(self).os != HostOS::Windows ==> {
                &&& opt_text(final(self).env_sh) == Some(
                    replace_or_append(text_or_empty(old(self).env_sh), unix_block(spec@)),
                )
                &&& final(self).profile@ == profile_with_source(old(self).profile@)
                &&& final(self).user_path == old(self).user_path
                &&& final(self).user_vars == old(self).user_vars
            },
    {
        if self.os == HostOS::Windows {
            self.user_path = windows_path_after_apply(self.user_path.as_str(), &spec.paths);
            let ghost start = vars_view(self.user_vars@);
            let ghost s0 = *self;
            let mut i: usize = 0;
            while i < spec.vars.len()
                invariant
                    i <= spec.vars@.len(),
                    self.os == s0.os,
                    self.profile_path == s0.profile_path,
                    self.profile == s0.profile,
                    self.env_sh == s0.env_sh,
                    self.user_path == s0.user_path,
                    forall|x: Seq<char>|
                        #[trigger] var_value(vars_view(self.user_vars@), x) == match last_value(
                            spec@.1.take(i as int),
                            x,
                        ) {
                            Some(v) => Some(v),
                            None => var_value(start, x),
                        },
                decreases spec.vars.len() - i,
            {
                let ghost before = vars_view(self.user_vars@);
                set_var(&mut self.user_vars, spec.vars[i].0.as_str(), spec.vars[i].1.as_str());
                proof {
                    let t = spec@.1.take(i + 1);
                    assert(t.drop_last() =~= spec@.1.take(i as int));
                    assert(t.last() == (spec.vars@[i as int].0@, spec.vars@[i as int].1@));
                }
                i = i + 1;
            }
            assert(spec@.1.take(i as int) =~= spec@.1);
        } else {
            let current = match &self.env_sh {
                Some(t) => owned(t.as_str()),
                None => String::new(),
            };
            let block = build_unix_block(spec);
            self.env_sh = Some(replace_or_append_block(current.as_str(), block.as_str()));
            self.profile = ensure_profile_source(self.profile.as_str());
        }
    }

    /// Remove PATH entries and env vars declared by `spec`.
    pub fn revert(&mut self, spec: &EnvSpec)
        ensures
            final(self).os == old(self).os,
            final(self).profile_path == old(self).profile_path,
            final(self).profile == old(self).profile,
            old(self).os == HostOS::Windows ==> {
                &&& final(self).user_path@ == join(path_after_revert(old(self).user_path@, spec@.0), semi())
                &&& forall|x: Seq<char>|
                    #[trigger] var_value(vars_view(final(self).user_vars@), x) == if var_names(
                        spec@.1,
                    ).contains(x) {
                        None
                    } else {
                        var_value(vars_view(old(self).user_vars@), x)
                    }
                &&& final(self).env_sh == old(self).env_sh
            },
            old(self).os != HostOS::Windows ==> {
                &&& opt_text(final(self).env_sh) == match old(self).env_sh {
                    None => None,
                    Some(t) => match revert_text(t@, spec@.0, var_names(spec@.1)) {
                        Some(nt) => Some(nt),
                        None => Some(t@),
                    },
                }
                &&& final(self).user_path == old(self).user_path
                &&& final(self).user_vars == old(self).user_vars
            },
    {
        if self.os == HostOS::Windows {
            self.user_path = windows_path_after_revert(self.user_path.as_str(), &spec.paths);
            let ghost start = vars_view(self.user_vars@);
            let ghost s0 = *self;
            let mut i: usize = 0;
            while i < spec.vars.len()
                invariant
                    i <= spec.vars@.len(),
                    self.os == s0.os,
                    self.profile_path == s0.profile_path,
                    self.profile == s0.profile,
                    self.env_sh == s0.env_sh,
                    self.user_path == s0.user_path,
                    forall|x: Seq<char>|
                        #[trigger] var_value(vars_view(self.user_vars@), x) == if var_names(
                            spec@.1.take(i as int),
                        ).contains(x) {
                            None
                        } else {
                            var_value(start, x)
                        },
                decreases spec.vars.len() - i,
            {
                remove_var(&mut self.user_vars, spec.vars[i].0.as_str());
                proof {
                    let t = var_names(spec@.1.take(i + 1));
                    let t0 = var_names(spec@.1.take(i as int));
                    assert(t =~= t0.push(spec.vars@[i as int].0@));
                    assert forall|x: Seq<char>|
                        #[trigger] var_value(vars_view(self.user_vars@), x) == if t.contains(x) {
                            None
                        } else {
                            var_value(start, x)
                        } by {
                        if x == spec.vars@[i as int].0@ {
                            assert(t[i as int] == x);
                        } else {
                            if t.contains(x) {
                                let k = choose|k: int| 0 <= k < t.len() && t[k] == x;
                                assert(t0[k] == x);
                            }
                            if t0.contains(x) {
                                let k = choose|k: int| 0 <= k < t0.len() && t0[k] == x;
                                assert(t[k] == x);
                            }
                        }
                    }
                }
                i = i + 1;
            }
            assert(spec@.1.take(i as int) =~= spec@.1);
        } else {
            let reverted = match &self.env_sh {
                Some(t) => revert_env_sh(t.as_str(), spec),
                None => None,
            };
            match reverted {
                Some(nt) => {
                    self.env_sh = Some(nt);
                },
                None => {},
            }
        }
    }

    /// Return whether each expected PATH/var is present in the user env.
    pub fn check(&self, spec: &EnvSpec) -> (r: Vec<(String, bool)>)
        ensures
            self.os == HostOS::Windows ==> checks_view(r@) == windows_checks(
                self.user_path@,
                vars_view(self.user_vars@),
                spec@,
            ),
            self.os != HostOS::Windows ==> checks_view(r@) == unix_checks(
                text_or_empty(self.env_sh),
                spec@,
            ),
    {
        if self.os == HostOS::Windows {
            check_windows(self.user_path.as_str(), &self.user_vars, spec)
        } else {
            match &self.env_sh {
                Some(t) => {
                    assert(self.env_sh == Some(*t));
                    check_env_sh(t.as_str(), spec)
                },
                None => {
                    proof {
                        reveal_strlit("");
                        assert(""@ =~= Seq::<char>::empty());
                    }
                    check_env_sh("", spec)
                },
            }
        }
    }

    /// Short description of how env changes are persisted on this OS.
    pub fn backend_description(&self) -> (r: String)
        ensures
            self.os == HostOS::Windows ==> r@ == "Windows user environment (registry)"@,
            self.os != HostOS::Windows ==> r@ == crate::platform::os_label_spec(self.os)
                + " shell: ~/.devkit/env.sh (sourced from "@ + self.profile_path@ + ")"@,
    {
        if self.os == HostOS::Windows {
            owned("Windows user environment (registry)")
        } else {
            let a = concat(
                chars_of(crate::platform::os_label(self.os)).as_slice(),
                chars_of(" shell: ~/.devkit/env.sh (sourced from ").as_slice(),
            );
            let b = concat(a.as_slice(), chars_of(self.profile_path.as_str()).as_slice());
            string_of(concat(b.as_slice(), chars_of(")").as_slice()).as_slice())
        }
    }
}

fn check_windows(user_path: &str, vars: &Vec<(String, String)>, spec: &EnvSpec) -> (r: Vec<
    (String, bool),
>)
    ensures
        checks_view(r@) == windows_checks(user_path@, vars_view(vars@), spec@),
{
    let parts = path_list_exec(user_path);
    let lower = lower_all(&parts);
    let ghost pv = spec@.0;
    let ghost vv = spec@.1;
    let mut out: Vec<(String, bool)> = Vec::new();
    let mut i: usize = 0;
    while i < spec.paths.len()
        invariant
            i <= spec.paths@.len(),
            pv == spec@.0,
            lower@.map_values(|x: Vec<char>| x@) == lowered(path_list(user_path@)),
            checks_view(out@) == pv.take(i as int).map_values(
                |p: Seq<char>|
                    ("PATH:"@ + p, lowered(path_list(user_path@)).contains(crate::text::lowercase(p))),
            ),
        decreases spec.paths.len() - i,
    {
        let ghost before = checks_view(out@);
        let pc = chars_of(spec.paths[i].as_str());
        let key = string_of(concat(chars_of("PATH:").as_slice(), pc.as_slice()).as_slice());
        let hit = contains_line(&lower, crate::text::to_lowercase(pc.as_slice()).as_slice());
        assert(pv[i as int] == spec.paths@[i as int]@);
        out.push((key, hit));
        assert(checks_view(out@) =~= before.push(
            ("PATH:"@ + pv[i as int], lowered(path_list(user_path@)).contains(crate::text::lowercase(pv[i as int]))),
        ));
        assert(pv.take(i + 1) =~= pv.take(i as int).push(pv[i as int]));
        assert(checks_view(out@) =~= pv.take(i + 1).map_values(
            |p: Seq<char>|
                ("PATH:"@ + p, lowered(path_list(user_path@)).contains(crate::text::lowercase(p))),
        ));
        i = i + 1;
    }
    assert(pv.take(i as int) =~= pv);
    let mut j: usize = 0;
    while j < spec.vars.len()
        invariant
            j <= spec.vars@.len(),
            pv == spec@.0,
            vv == spec@.1,
            checks_view(out@) == pv.map_values(
                |p: Seq<char>|
                    ("PATH:"@ + p, lowered(path_list(user_path@)).contains(crate::text::lowercase(p))),
            ) + vv.take(j as int).map_values(
                |kv: (Seq<char>, Seq<char>)| (kv.0, var_value(vars_view(vars@), kv.0) == Some(kv.1)),
            ),
        decreases spec.vars.len() - j,
    {
        let ghost before = checks_view(out@);
        let name = &spec.vars[j].0;
        let value = &spec.vars[j].1;
        let hit = match lookup_var(vars, name.as_str()) {
            Some(v) => eq(chars_of(v).as_slice(), chars_of(value.as_str()).as_slice()),
            None => false,
        };
        assert(vv[j as int] == (spec.vars@[j as int].0@, spec.vars@[j as int].1@));
        out.push((owned(name.as_str()), hit));
        assert(checks_view(out@) =~= before.push(
            (vv[j as int].0, var_value(vars_view(vars@), vv[j as int].0) == Some(vv[j as int].1)),
        ));
        assert(vv.take(j + 1) =~= vv.take(j as int).push(vv[j as int]));
        assert(checks_view(out@) =~= pv.map_values(
            |p: Seq<char>|
                ("PATH:"@ + p, lowered(path_list(user_path@)).contains(crate::text::lowercase(p))),
        ) + vv.take(j + 1).map_values(
            |kv: (Seq<char>, Seq<char>)| (kv.0, var_value(vars_view(vars@), kv.0) == Some(kv.1)),
        ));
        j = j + 1;
    }
    assert(vv.take(j as int) =~= vv);
    out
}

/// The value of user variable `name`.
fn lookup_var<'a>(vars: &'a Vec<(String, String)>, name: &str) -> (r: Option<&'a str>)
    ensures
        match r {
            Some(v) => var_value(vars_view(vars@), name@) == Some(v@),
            None => var_value(vars_view(vars@), name@) is None,
        },
{
    let n = chars_of(name);
    let mut i: usize = 0;
    while i < vars.len()
        invariant
            i <= vars@.len(),
            n@ == name@,
            forall|j: int| 0 <= j < i ==> (#[trigger] vars@[j]).0@ != name@,
        decreases vars.len() - i,
    {
        if eq(chars_of(vars[i].0.as_str()).as_slice(), n.as_slice()) {
            proof {
                let vv = vars_view(vars@);
                assert forall|j: int| 0 <= j < i implies (#[trigger] vv[j]).0 != name@ by {}
                lemma_var_value_skip(vv, name@, i as int);
                assert(vv.skip(i as int)[0] == vv[i as int]);
            }
            return Some(vars[i].1.as_str());
        }
        i = i + 1;
    }
    proof {
        let vv = vars_view(vars@);
        assert forall|j: int| 0 <= j < vv.len() implies (#[trigger] vv[j]).0 != name@ by {}
        lemma_var_value_none(vv, name@);
    }
    None
}

} // verus!
