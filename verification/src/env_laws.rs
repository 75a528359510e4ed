//! Laws of the environment manager: what `check` reports after `apply`,
//! what `revert` leaves after `apply`, and that applies accumulate.
use crate::env::{keep_not_in, last_value, lowered, nonempty_only, path_after_apply, path_after_revert, path_list,
    prepend_missing, semi, var_value, windows_checks, append_sep, export_name, ident_len, is_ident_char, is_ident_start, keep_unhit, path_hit,
    profile_block, profile_with_source, remove_block, revert_text, source_line, reverted_block, var_hit, var_names, assign_literal, assignment_at, assignment_from, begin_marker, block_range, content_lines, content_only,
    dedup, end_marker, extract_block, framed, has_assignment, is_content_line, merged_block, nl, path_line,
    quote_escaped, replace_block, replace_or_append, spec_lines, tail_ok, unix_block, unix_checks, var_line,
    ws_then_assign};
use crate::text::{contains, ends_with, find, is_ws, join, lines, occurs_at, split, starts_with, strip_cr, trim, trim_end,
    trim_end_set, trim_start, trim_start_set};
use vstd::prelude::*;

verus! {

// ---------------------------------------------------------------------------
// Joining and splitting lines
// ---------------------------------------------------------------------------

/// Joining two non-empty lists puts one separator between their joins.
pub proof fn lemma_join_concat(a: Seq<Seq<char>>, b: Seq<Seq<char>>, sep: Seq<char>)
    requires
        a.len() > 0,
        b.len() > 0,
    ensures
        join(a + b, sep) == join(a, sep) + sep + join(b, sep),
    decreases b.len(),
{
    if b.len() == 1 {
        assert((a + b).drop_last() =~= a);
        assert((a + b).last() == b[0]);
    } else {
        lemma_join_concat(a, b.drop_last(), sep);
        assert((a + b).drop_last() =~= a + b.drop_last());
        assert((a + b).last() == b.last());
    }
}

/// Splitting the join of pieces that hold no separator gives the pieces back.
pub proof fn lemma_split_join(xs: Seq<Seq<char>>, c: char)
    requires
        xs.len() > 0,
        forall|i: int| 0 <= i < xs.len() ==> !(#[trigger] xs[i]).contains(c),
    ensures
        split(join(xs, seq![c]), c) == xs,
    decreases xs.len(),
{
    if xs.len() == 1 {
        crate::text::lemma_split_no_sep(xs[0], c);
        assert(seq![xs[0]] =~= xs);
    } else {
        let rest = xs.drop_first();
        lemma_join_concat(seq![xs[0]], rest, seq![c]);
        assert(seq![xs[0]] + rest =~= xs);
        assert(forall|i: int| 0 <= i < rest.len() ==> !(#[trigger] rest[i]).contains(c)) by {
            assert forall|i: int| 0 <= i < rest.len() implies !(#[trigger] rest[i]).contains(c) by {
                assert(rest[i] == xs[i + 1]);
            }
        }
        lemma_split_join(rest, c);
        assert(!xs[0].contains(c));
        crate::text::lemma_split_at(xs[0], join(rest, seq![c]), c);
        assert(split(join(xs, seq![c]), c) =~= seq![xs[0]] + rest);
    }
}

/// The lines of rows joined with newlines and ended by one are the rows,
/// when no row holds a newline or ends with a carriage return.
pub proof fn lemma_lines_of_rows(f: Seq<Seq<char>>)
    requires
        f.len() > 0,
        forall|i: int| 0 <= i < f.len() ==> !(#[trigger] f[i]).contains('\n'),
        forall|i: int| 0 <= i < f.len() ==> (#[trigger] f[i]).len() == 0 || f[i].last() != '\r',
    ensures
        lines(join(f, nl()) + nl()) == f,
{
    let g = f.push(Seq::<char>::empty());
    lemma_join_concat(f, seq![Seq::<char>::empty()], nl());
    assert(f + seq![Seq::<char>::empty()] =~= g);
    assert(join(g, nl()) =~= join(f, nl()) + nl());
    assert forall|i: int| 0 <= i < g.len() implies !(#[trigger] g[i]).contains('\n') by {
        if i < f.len() {
            assert(g[i] == f[i]);
        }
    }
    lemma_split_join(g, '\n');
    let t = join(f, nl()) + nl();
    assert(t.len() > 0 && t.last() == '\n');
    assert(split(t, '\n').drop_last() =~= f);
    assert(lines(t) =~= f);
}

// ---------------------------------------------------------------------------
// Content lines and merging
// ---------------------------------------------------------------------------

pub proof fn lemma_content_only_concat(a: Seq<Seq<char>>, b: Seq<Seq<char>>)
    ensures
        content_only(a + b) == content_only(a) + content_only(b),
    decreases b.len(),
{
    if b.len() == 0 {
        assert(a + b =~= a);
        assert(content_only(b) =~= Seq::<Seq<char>>::empty());
    } else {
        lemma_content_only_concat(a, b.drop_last());
        assert((a + b).drop_last() =~= a + b.drop_last());
        assert((a + b).last() == b.last());
    }
}

pub proof fn lemma_content_only_all(a: Seq<Seq<char>>)
    requires
        forall|i: int| 0 <= i < a.len() ==> is_content_line(#[trigger] a[i]),
    ensures
        content_only(a) == a,
    decreases a.len(),
{
    if a.len() > 0 {
        lemma_content_only_all(a.drop_last());
        assert(a.drop_last().push(a.last()) =~= a);
    }
}

/// A line kept once by `dedup` when it occurs at all.
pub proof fn lemma_dedup_contains(s: Seq<Seq<char>>, x: Seq<char>)
    requires
        s.contains(x),
    ensures
        dedup(s).contains(x),
    decreases s.len(),
{
    let rest = dedup(s.drop_last());
    if s.last() == x {
        if !rest.contains(x) {
            assert(rest.push(x)[rest.len() as int] == x);
        }
    } else {
        let k = choose|k: int| 0 <= k < s.len() && s[k] == x;
        assert(s.drop_last()[k] == x);
        lemma_dedup_contains(s.drop_last(), x);
        if !rest.contains(s.last()) {
            let j = choose|j: int| 0 <= j < rest.len() && rest[j] == x;
            assert(rest.push(s.last())[j] == x);
        }
    }
}


// ---------------------------------------------------------------------------
// Whole lines inside a text
// ---------------------------------------------------------------------------

/// `y` is a whole line of `t` starting at `p`: a newline right before it and
/// right after it.
pub open spec fn line_at(t: Seq<char>, y: Seq<char>, p: int) -> bool {
    &&& 0 < p
    &&& p + y.len() < t.len()
    &&& t[p - 1] == '\n'
    &&& t.subrange(p, p + y.len()) == y
    &&& t[p + y.len()] == '\n'
}

/// `y` is a whole line of `t` somewhere.
pub open spec fn has_line(t: Seq<char>, y: Seq<char>) -> bool {
    exists|p: int| line_at(t, y, p)
}

/// Each row of a framed block is a whole line of it.
pub proof fn lemma_framed_line(d: Seq<Seq<char>>, k: int)
    requires
        0 <= k < d.len(),
    ensures
        exists|p: int| line_at(framed(d), d[k], p),
{
    let f = seq![begin_marker()] + d + seq![end_marker()];
    let a = f.take(k + 1);
    let b = f.skip(k + 1);
    assert(a + b =~= f);
    lemma_join_concat(a, b, nl());
    assert(b[0] == d[k]);
    let rest = b.drop_first();
    assert(seq![d[k]] + rest =~= b);
    assert(rest[rest.len() - 1] == end_marker());
    lemma_join_concat(seq![d[k]], rest, nl());
    assert(join(seq![d[k]], nl()) == d[k]);
    let t = framed(d);
    let p: int = join(a, nl()).len() as int + 1;
    assert(t =~= join(a, nl()) + nl() + d[k] + nl() + join(rest, nl()) + nl());
    assert(t[p - 1] == '\n');
    assert(t.subrange(p, p + d[k].len()) =~= d[k]);
    assert(t[p + d[k].len()] == '\n');
    assert(line_at(t, d[k], p));
}

/// A whole line stays one when text is put around it.
pub proof fn lemma_line_at_embed(t: Seq<char>, y: Seq<char>, p: int, a: Seq<char>, b: Seq<char>)
    requires
        line_at(t, y, p),
    ensures
        line_at(a + t + b, y, p + a.len()),
{
    let u = a + t + b;
    assert(u[p + a.len() - 1] == t[p - 1]);
    assert(u.subrange(p + a.len(), p + a.len() + y.len()) =~= t.subrange(p, p + y.len()));
    assert(u[p + a.len() + y.len()] == t[p + y.len()]);
}

// ---------------------------------------------------------------------------
// The lines `apply` writes
// ---------------------------------------------------------------------------

/// A spec whose lines read back as written: no newline in any PATH entry,
/// variable name or value.
pub open spec fn unix_safe(spec: (Seq<Seq<char>>, Seq<(Seq<char>, Seq<char>)>)) -> bool {
    &&& forall|i: int| 0 <= i < spec.0.len() ==> !(#[trigger] spec.0[i]).contains('\n')
    &&& forall|j: int|
        0 <= j < spec.1.len() ==> !(#[trigger] spec.1[j]).0.contains('\n') && !spec.1[j].1.contains('\n')
}

proof fn lemma_no_char_concat(a: Seq<char>, b: Seq<char>, c: char)
    requires
        !a.contains(c),
        !b.contains(c),
    ensures
        !(a + b).contains(c),
{
    if (a + b).contains(c) {
        let k = choose|k: int| 0 <= k < (a + b).len() && (a + b)[k] == c;
        if k < a.len() {
            assert(a[k] == c);
        } else {
            assert(b[k - a.len()] == c);
        }
    }
}

proof fn lemma_trim_nonblank(l: Seq<char>)
    requires
        l.len() > 0,
        !is_ws(l[0]),
    ensures
        trim(l).len() > 0,
    decreases l.len(),
{
    assert(trim_start(l) == l);
    lemma_trim_end_keeps_first(l);
}

proof fn lemma_trim_end_keeps_first(l: Seq<char>)
    requires
        l.len() > 0,
        !is_ws(l[0]),
    ensures
        trim_end(l).len() > 0,
    decreases l.len(),
{
    if l.len() > 1 && is_ws(l.last()) {
        lemma_trim_end_keeps_first(l.drop_last());
    }
}

/// A written line is a content line with no newline that does not end in a
/// carriage return, when it starts with `export`.
proof fn lemma_export_line(l: Seq<char>)
    requires
        l.len() > 6,
        l.subrange(0, 6) == "export"@,
        !l.contains('\n'),
        l.last() != '\r',
    ensures
        is_content_line(l),
{
    reveal_strlit("export");
    reveal_strlit("# >>> DevKit >>>");
    reveal_strlit("# <<< DevKit <<<");
    assert(l[0] == l.subrange(0, 6)[0]);
    assert(l[0] == 'e');
    assert(begin_marker()[0] == '#');
    assert(end_marker()[0] == '#');
    lemma_trim_nonblank(l);
}

/// The PATH line of an entry, as pieces.
proof fn lemma_path_line_shape(p: Seq<char>)
    requires
        !p.contains('\n'),
    ensures
        path_line(p) == "export PATH=\""@ + p + ":$PATH\""@,
        "export PATH=\""@.len() == 13,
        path_line(p).subrange(0, 6) == "export"@,
        path_line(p).subrange(13, 13 + p.len() as int) == p,
        !path_line(p).contains('\n'),
        path_line(p).last() == '"',
        path_line(p).len() > 6,
{
    reveal_strlit("export PATH=\"");
    reveal_strlit(":$PATH\"");
    reveal_strlit("export");
    let a = "export PATH=\""@;
    let c = ":$PATH\""@;
    assert(!a.contains('\n')) by {
        if a.contains('\n') {
            let k = choose|k: int| 0 <= k < a.len() && a[k] == '\n';
        }
    }
    assert(!c.contains('\n')) by {
        if c.contains('\n') {
            let k = choose|k: int| 0 <= k < c.len() && c[k] == '\n';
        }
    }
    lemma_no_char_concat(a, p, '\n');
    lemma_no_char_concat(a + p, c, '\n');
    let l = path_line(p);
    assert(l.subrange(0, 6) =~= "export"@);
    assert(l.subrange(13, 13 + p.len() as int) =~= p);
}

/// The assignment line of a variable, as pieces: `export`, a blank, and
/// `NAME="VALUE"` with the value's quotes escaped.
proof fn lemma_var_line_shape(n: Seq<char>, v: Seq<char>)
    requires
        !n.contains('\n'),
        !v.contains('\n'),
    ensures
        var_line(n, v) == "export"@ + seq![' '] + assign_literal(n, quote_escaped(v)),
        var_line(n, v).len() == 7 + assign_literal(n, quote_escaped(v)).len(),
        var_line(n, v).subrange(0, 6) == "export"@,
        var_line(n, v)[6] == ' ',
        var_line(n, v).subrange(7, var_line(n, v).len() as int) == assign_literal(n, quote_escaped(v)),
        !var_line(n, v).contains('\n'),
        var_line(n, v).last() == '"',
{
    reveal_strlit("export ");
    reveal_strlit("export");
    reveal_strlit("=\"");
    reveal_strlit("\"");
    let q = quote_escaped(v);
    lemma_quote_escaped_no(v, '\n');
    let l = var_line(n, v);
    assert(l =~= "export"@ + seq![' '] + assign_literal(n, q));
    let a = "export "@;
    let b = "=\""@;
    let c = "\""@;
    assert(!a.contains('\n')) by {
        if a.contains('\n') {
            let k = choose|k: int| 0 <= k < a.len() && a[k] == '\n';
        }
    }
    assert(!b.contains('\n')) by {
        if b.contains('\n') {
            let k = choose|k: int| 0 <= k < b.len() && b[k] == '\n';
        }
    }
    assert(!c.contains('\n')) by {
        if c.contains('\n') {
            let k = choose|k: int| 0 <= k < c.len() && c[k] == '\n';
        }
    }
    lemma_no_char_concat(a, n, '\n');
    lemma_no_char_concat(a + n, b, '\n');
    lemma_no_char_concat(a + n + b, q, '\n');
    lemma_no_char_concat(a + n + b + q, c, '\n');
    assert(l =~= a + n + b + q + c);
    assert(l.subrange(0, 6) =~= "export"@);
    assert(l.subrange(7, l.len() as int) =~= assign_literal(n, q));
}

/// Each line `apply` writes for a safe spec: its shape, and that it is a
/// content line.
proof fn lemma_spec_lines_ok(spec: (Seq<Seq<char>>, Seq<(Seq<char>, Seq<char>)>), k: int)
    requires
        unix_safe(spec),
        0 <= k < spec_lines(spec.0, spec.1).len(),
    ensures
        !spec_lines(spec.0, spec.1)[k].contains('\n'),
        spec_lines(spec.0, spec.1)[k].len() > 0,
        spec_lines(spec.0, spec.1)[k].last() != '\r',
        is_content_line(spec_lines(spec.0, spec.1)[k]),
        k < spec.0.len() ==> spec_lines(spec.0, spec.1)[k] == path_line(spec.0[k]),
        k >= spec.0.len() ==> spec_lines(spec.0, spec.1)[k] == var_line(
            spec.1[k - spec.0.len()].0,
            spec.1[k - spec.0.len()].1,
        ),
{
    let l = spec_lines(spec.0, spec.1);
    let np = spec.0.len() as int;
    if k < np {
        assert(l[k] == path_line(spec.0[k]));
        lemma_path_line_shape(spec.0[k]);
        lemma_export_line(l[k]);
    } else {
        let j = k - np;
        assert(l[k] == var_line(spec.1[j].0, spec.1[j].1));
        assert(!spec.1[j].0.contains('\n') && !spec.1[j].1.contains('\n'));
        lemma_var_line_shape(spec.1[j].0, spec.1[j].1);
        lemma_export_line(l[k]);
    }
}

/// The content lines of the block `apply` writes are the spec's lines.
pub proof fn lemma_unix_block_content(spec: (Seq<Seq<char>>, Seq<(Seq<char>, Seq<char>)>))
    requires
        unix_safe(spec),
    ensures
        content_lines(unix_block(spec)) == spec_lines(spec.0, spec.1),
{
    reveal_strlit("# >>> DevKit >>>");
    reveal_strlit("# <<< DevKit <<<");
    let l = spec_lines(spec.0, spec.1);
    let f = seq![begin_marker()] + l + seq![end_marker()];
    assert forall|i: int| 0 <= i < f.len() implies !(#[trigger] f[i]).contains('\n') && (f[i].len() == 0
        || f[i].last() != '\r') by {
        if i == 0 {
            assert(f[i] == begin_marker());
            if begin_marker().contains('\n') {
                let k = choose|k: int| 0 <= k < begin_marker().len() && begin_marker()[k] == '\n';
            }
        } else if i == f.len() - 1 {
            assert(f[i] == end_marker());
            if end_marker().contains('\n') {
                let k = choose|k: int| 0 <= k < end_marker().len() && end_marker()[k] == '\n';
            }
        } else {
            assert(f[i] == l[i - 1]);
            lemma_spec_lines_ok(spec, i - 1);
        }
    }
    lemma_lines_of_rows(f);
    assert(lines(unix_block(spec)) == f);
    assert forall|i: int| 0 <= i < l.len() implies is_content_line(#[trigger] l[i]) by {
        lemma_spec_lines_ok(spec, i);
    }
    lemma_content_only_all(l);
    lemma_content_only_concat(seq![begin_marker()], l);
    lemma_content_only_concat(seq![begin_marker()] + l, seq![end_marker()]);
    assert(!is_content_line(begin_marker()));
    assert(!is_content_line(end_marker()));
    assert(content_only(seq![begin_marker()]) =~= Seq::<Seq<char>>::empty()) by {
        let one = seq![begin_marker()];
        assert(one.drop_last() =~= Seq::<Seq<char>>::empty());
        assert(one.last() == begin_marker());
        assert(content_only(one.drop_last()) =~= Seq::<Seq<char>>::empty());
    }
    assert(content_only(seq![end_marker()]) =~= Seq::<Seq<char>>::empty()) by {
        let one = seq![end_marker()];
        assert(one.drop_last() =~= Seq::<Seq<char>>::empty());
        assert(one.last() == end_marker());
        assert(content_only(one.drop_last()) =~= Seq::<Seq<char>>::empty());
    }
    assert(content_only(f) =~= l);
}

/// Each line `apply` writes for a safe spec is a whole line of the result.
pub proof fn lemma_applied_line(text: Seq<char>, spec: (Seq<Seq<char>>, Seq<(Seq<char>, Seq<char>)>), k: int)
    requires
        unix_safe(spec),
        0 <= k < spec_lines(spec.0, spec.1).len(),
    ensures
        exists|p: int| line_at(replace_or_append(text, unix_block(spec)), spec_lines(spec.0, spec.1)[k], p),
{
    let l = spec_lines(spec.0, spec.1);
    let t = replace_or_append(text, unix_block(spec));
    match extract_block(text) {
        None => {
            lemma_framed_line(l, k);
            let p = choose|p: int| line_at(framed(l), l[k], p);
            let a = text + crate::env::append_sep(text);
            lemma_line_at_embed(framed(l), l[k], p, a, Seq::empty());
            assert(t =~= a + framed(l) + Seq::<char>::empty());
        },
        Some(old) => {
            lemma_unix_block_content(spec);
            let all = l + content_lines(old);
            assert(all[k] == l[k]);
            lemma_dedup_contains(all, l[k]);
            let d = dedup(all);
            let kk = choose|kk: int| 0 <= kk < d.len() && d[kk] == l[k];
            lemma_framed_line(d, kk);
            let m = merged_block(old, unix_block(spec));
            assert(m == framed(d));
            let p = choose|p: int| line_at(m, l[k], p);
            let s = find(text, begin_marker())->0;
            let e = find(text, end_marker())->0;
            let a = text.subrange(0, s);
            let b = text.subrange(e + end_marker().len(), text.len() as int);
            lemma_line_at_embed(m, l[k], p, a, b);
            assert(t == replace_block(text, m));
            assert(t =~= a + m + b);
        },
    }
}

/// A matching line at `p` makes the multi-line search succeed from any
/// earlier start.
proof fn lemma_assignment_from_at(t: Seq<char>, lit: Seq<char>, q: int, p: int)
    requires
        0 <= q <= p,
        assignment_at(t, p, lit),
    ensures
        assignment_from(t, lit, q),
    decreases p - q,
{
    if q < p {
        lemma_assignment_from_at(t, lit, q + 1, p);
    }
}

/// When every line `apply` writes for a safe spec is a whole line of `t`,
/// `check` finds every PATH entry and variable of the spec in `t`.
pub proof fn lemma_lines_give_checks(t: Seq<char>, spec: (Seq<Seq<char>>, Seq<(Seq<char>, Seq<char>)>))
    requires
        unix_safe(spec),
        forall|k: int| 0 <= k < spec_lines(spec.0, spec.1).len() ==> has_line(t, #[trigger] spec_lines(spec.0, spec.1)[k]),
    ensures
        forall|i: int| 0 <= i < unix_checks(t, spec).len() ==> (#[trigger] unix_checks(t, spec)[i]).1,
{
    let c = unix_checks(t, spec);
    let l = spec_lines(spec.0, spec.1);
    let np = spec.0.len() as int;
    assert forall|i: int| 0 <= i < c.len() implies (#[trigger] c[i]).1 by {
        lemma_spec_lines_ok(spec, i);
        assert(has_line(t, l[i]));
        let p = choose|p: int| line_at(t, l[i], p);
        if i < np {
            let e = spec.0[i];
            lemma_path_line_shape(e);
            assert(t.subrange(p + 13, p + 13 + e.len()) =~= l[i].subrange(13, 13 + e.len() as int));
            assert(occurs_at(t, e, p + 13));
            assert(c[i] == ("PATH:"@ + e, contains(t, e)));
        } else {
            let j = i - np;
            let (n, v) = spec.1[j];
            assert(!n.contains('\n') && !v.contains('\n'));
            lemma_var_line_shape(n, v);
            let lit = assign_literal(n, quote_escaped(v));
            reveal_strlit("export");
            assert(t.subrange(p, p + 6) =~= l[i].subrange(0, 6));
            assert(t[p + 6] == l[i][6]);
            assert(t.subrange(p + 7, p + 7 + lit.len()) =~= l[i].subrange(7, l[i].len() as int));
            assert(occurs_at(t, lit, p + 7));
            assert(tail_ok(t, p + 7 + lit.len()));
            assert(ws_then_assign(t, p + 7, lit));
            assert(is_ws(' '));
            assert(assignment_at(t, p, lit));
            lemma_assignment_from_at(t, lit, 0, p);
            assert(c[i] == (n, has_assignment(t, n, v)));
        }
    }
}

/// Law: after `apply`, `check` on macOS and Linux reports every PATH entry
/// and every variable of the spec as present, whatever `env.sh` held before
/// (for entries, names and values without line breaks).
pub proof fn law_apply_then_check(text: Seq<char>, spec: (Seq<Seq<char>>, Seq<(Seq<char>, Seq<char>)>))
    requires
        unix_safe(spec),
    ensures
        forall|i: int|
            0 <= i < unix_checks(replace_or_append(text, unix_block(spec)), spec).len() ==> (#[trigger] unix_checks(
                replace_or_append(text, unix_block(spec)),
                spec,
            )[i]).1,
{
    let t = replace_or_append(text, unix_block(spec));
    assert forall|k: int| 0 <= k < spec_lines(spec.0, spec.1).len() implies has_line(
        t,
        #[trigger] spec_lines(spec.0, spec.1)[k],
    ) by {
        lemma_applied_line(text, spec, k);
    }
    lemma_lines_give_checks(t, spec);
}


// ---------------------------------------------------------------------------
// Where the markers are
// ---------------------------------------------------------------------------

/// `s` holds neither DevKit marker.
pub open spec fn marker_free(s: Seq<char>) -> bool {
    !contains(s, begin_marker()) && !contains(s, end_marker())
}

proof fn lemma_marker_facts()
    ensures
        begin_marker().len() == 16,
        end_marker().len() == 16,
        begin_marker()[0] == '#',
        end_marker()[0] == '#',
        forall|k: int| 1 <= k < 16 ==> begin_marker()[k] != '#' && end_marker()[k] != '#',
        begin_marker() != end_marker(),
        !begin_marker().contains('\n'),
        !end_marker().contains('\n'),
        !begin_marker().contains('='),
        !end_marker().contains('='),
        begin_marker().last() == '>',
        end_marker().last() == '<',
        !is_ws('#'),
        !is_ws('<'),
        !is_ws('>'),
{
    reveal_strlit("# >>> DevKit >>>");
    reveal_strlit("# <<< DevKit <<<");
    assert(begin_marker()[2] != end_marker()[2]);
    let b = begin_marker();
    let e = end_marker();
    if b.contains('\n') {
        let k = choose|k: int| 0 <= k < b.len() && b[k] == '\n';
    }
    if e.contains('\n') {
        let k = choose|k: int| 0 <= k < e.len() && e[k] == '\n';
    }
    if b.contains('=') {
        let k = choose|k: int| 0 <= k < b.len() && b[k] == '=';
    }
    if e.contains('=') {
        let k = choose|k: int| 0 <= k < e.len() && e[k] == '=';
    }
}

/// An occurrence with none before it is what `find` returns.
proof fn lemma_find_at(s: Seq<char>, m: Seq<char>, i: int)
    requires
        occurs_at(s, m, i),
        forall|j: int| 0 <= j < i ==> !occurs_at(s, m, j),
    ensures
        find(s, m) == Some(i),
{
    crate::text::lemma_find(s, m);
    assert(contains(s, m));
    let f = find(s, m)->0;
    assert(!(f < i));
    assert(!(i < f));
}

/// An occurrence of a text without newlines in rows joined by newlines lies
/// inside one row; inside the last row only at or after its start.
proof fn lemma_join_occurrence(f: Seq<Seq<char>>, m: Seq<char>, j: int)
    requires
        f.len() > 0,
        m.len() > 0,
        !m.contains('\n'),
        occurs_at(join(f, nl()), m, j),
    ensures
        exists|i: int|
            0 <= i < f.len() && contains(#[trigger] f[i], m) && (f.len() > 1 && i == f.len() - 1 ==> j >= join(
                f.drop_last(),
                nl(),
            ).len() + 1),
    decreases f.len(),
{
    let t = join(f, nl());
    if f.len() == 1 {
        assert(t == f[0]);
        assert(occurs_at(f[0], m, j));
    } else {
        let a = join(f.drop_last(), nl());
        assert(t == a + nl() + f.last());
        if j + m.len() <= a.len() {
            assert(t.subrange(j, j + m.len()) =~= a.subrange(j, j + m.len()));
            assert(occurs_at(a, m, j));
            lemma_join_occurrence(f.drop_last(), m, j);
            let i = choose|i: int|
                0 <= i < f.drop_last().len() && contains(#[trigger] f.drop_last()[i], m) && (f.drop_last().len() > 1
                    && i == f.drop_last().len() - 1 ==> j >= join(f.drop_last().drop_last(), nl()).len() + 1);
            assert(f[i] == f.drop_last()[i]);
            assert(contains(f[i], m));
        } else if j <= a.len() {
            assert(t[a.len() as int] == '\n');
            assert(m[a.len() - j] == t.subrange(j, j + m.len())[a.len() - j]);
            assert(m.contains('\n'));
        } else {
            let k = j - a.len() - 1;
            assert(t.subrange(j, j + m.len()) =~= f.last().subrange(k, k + m.len()));
            assert(occurs_at(f.last(), m, k));
            assert(contains(f[f.len() - 1], m));
        }
    }
}

/// A text holding a marker of the same length as another marker only holds
/// it when they are equal.
proof fn lemma_marker_in_marker()
    ensures
        !contains(begin_marker(), end_marker()),
        !contains(end_marker(), begin_marker()),
{
    lemma_marker_facts();
    if contains(begin_marker(), end_marker()) {
        let i = choose|i: int| occurs_at(begin_marker(), end_marker(), i);
        assert(i == 0);
        assert(begin_marker().subrange(0, 16) =~= begin_marker());
    }
    if contains(end_marker(), begin_marker()) {
        let i = choose|i: int| occurs_at(end_marker(), begin_marker(), i);
        assert(i == 0);
        assert(end_marker().subrange(0, 16) =~= end_marker());
    }
}

/// Text without markers keeps none when a newline is added.
proof fn lemma_marker_free_sep(text: Seq<char>)
    requires
        marker_free(text),
    ensures
        marker_free(text + append_sep(text)),
{
    lemma_marker_facts();
    let a = text + append_sep(text);
    if append_sep(text).len() == 0 {
        assert(a =~= text);
    } else {
        assert(a =~= text + nl());
        assert forall|mm: Seq<char>, j: int|
            (mm == begin_marker() || mm == end_marker()) && occurs_at(a, mm, j) implies false by {
            if j + mm.len() <= text.len() {
                assert(a.subrange(j, j + mm.len()) =~= text.subrange(j, j + mm.len()));
                assert(occurs_at(text, mm, j));
            } else {
                assert(a[text.len() as int] == '\n');
                assert(mm[text.len() - j] == a.subrange(j, j + mm.len())[text.len() - j]);
                assert(mm.contains('\n'));
            }
        }
    }
}

/// Appending a framed block to text without markers: where the markers
/// are found, and that the managed block is the framed rows.
pub proof fn lemma_appended_block(text: Seq<char>, l: Seq<Seq<char>>)
    requires
        marker_free(text),
        forall|k: int| 0 <= k < l.len() ==> !(#[trigger] l[k]).contains('\n') && marker_free(l[k]),
    ensures
        ({
            let a = text + append_sep(text);
            let f = seq![begin_marker()] + l + seq![end_marker()];
            let b = join(f, nl());
            let pe: int = a.len() as int + join(seq![begin_marker()] + l, nl()).len() as int + 1;
            &&& replace_or_append(text, framed(l)) == a + b + nl()
            &&& b == join(seq![begin_marker()] + l, nl()) + nl() + end_marker()
            &&& find(a + b + nl(), begin_marker()) == Some(a.len() as int)
            &&& find(a + b + nl(), end_marker()) == Some(pe)
            &&& pe + 16 == a.len() + b.len()
            &&& extract_block(a + b + nl()) == Some(b)
        }),
{
    lemma_marker_facts();
    lemma_marker_in_marker();
    let a = text + append_sep(text);
    let f = seq![begin_marker()] + l + seq![end_marker()];
    let b = join(f, nl());
    let p = join(seq![begin_marker()] + l, nl());
    let t = a + b + nl();
    let pe: int = a.len() as int + p.len() as int + 1;
    let al: int = a.len() as int;
    crate::text::lemma_find(text, begin_marker());
    assert(extract_block(text) is None);
    assert(replace_or_append(text, framed(l)) == t);
    lemma_join_concat(seq![begin_marker()] + l, seq![end_marker()], nl());
    assert((seq![begin_marker()] + l) + seq![end_marker()] =~= f);
    assert(b == p + nl() + end_marker());
    // The joined rows start with the begin marker.
    if l.len() > 0 {
        lemma_join_concat(seq![begin_marker()], l, nl());
        assert(p == begin_marker() + nl() + join(l, nl()));
    } else {
        assert(seq![begin_marker()] + l =~= seq![begin_marker()]);
    }
    assert(p.subrange(0, 16) =~= begin_marker());
    assert(t.subrange(al, al + 16) =~= begin_marker());
    assert(t.subrange(pe, pe + 16) =~= end_marker());
    lemma_marker_free_sep(text);
    // Nothing before the block matches either marker.
    assert forall|mm: Seq<char>, j: int|
        (mm == begin_marker() || mm == end_marker()) && 0 <= j < a.len() && occurs_at(t, mm, j) implies false by {
        if j + 16 <= a.len() {
            assert(t.subrange(j, j + 16) =~= a.subrange(j, j + 16));
            assert(occurs_at(a, mm, j));
        } else {
            assert(t[a.len() as int] == '#');
            assert(mm[a.len() - j] == t.subrange(j, j + 16)[a.len() - j]);
        }
    }
    lemma_find_at(t, begin_marker(), a.len() as int);
    // Inside the block, the end marker first occurs on its own row.
    assert forall|j: int| a.len() <= j < pe && occurs_at(t, end_marker(), j) implies false by {
        let k = j - a.len();
        if k + 16 > b.len() {
            let z: int = al + b.len();
            assert(t[z] == '\n');
            assert(end_marker()[z - j] == t.subrange(j, j + 16)[z - j]);
        } else {
            assert(t.subrange(j, j + 16) =~= b.subrange(k, k + 16));
            assert(occurs_at(b, end_marker(), k));
            lemma_join_occurrence(f, end_marker(), k);
            let i = choose|i: int|
                0 <= i < f.len() && contains(#[trigger] f[i], end_marker()) && (f.len() > 1 && i == f.len() - 1
                    ==> k >= join(f.drop_last(), nl()).len() + 1);
            assert(f.drop_last() =~= seq![begin_marker()] + l);
            if i == 0 {
                assert(f[0] == begin_marker());
            } else if i < f.len() - 1 {
                assert(f[i] == l[i - 1]);
            }
        }
    }
    lemma_find_at(t, end_marker(), pe);
    assert(t.subrange(al, pe + 16) =~= b);
}


/// The lines of rows joined with newlines, when no row holds a newline or
/// ends with a carriage return and the text does not end with a newline.
proof fn lemma_lines_of_join(f: Seq<Seq<char>>)
    requires
        f.len() > 0,
        forall|i: int| 0 <= i < f.len() ==> !(#[trigger] f[i]).contains('\n'),
        forall|i: int| 0 <= i < f.len() ==> (#[trigger] f[i]).len() == 0 || f[i].last() != '\r',
        f.last().len() > 0,
    ensures
        lines(join(f, nl())) == f,
{
    lemma_split_join(f, '\n');
    let t = join(f, nl());
    if f.len() == 1 {
        assert(t == f[0]);
    } else {
        assert(t == join(f.drop_last(), nl()) + nl() + f.last());
    }
    assert(t.len() > 0 && t.last() == f.last().last());
    assert(f[f.len() - 1] == f.last());
    assert(t.last() != '\n') by {
        if f.last().last() == '\n' {
            assert(f.last().contains('\n'));
        }
    }
    assert(lines(t) =~= f);
}

/// The content lines of rows framed by the markers are the rows, when each
/// is a content line.
proof fn lemma_frame_content(l: Seq<Seq<char>>)
    requires
        forall|i: int| 0 <= i < l.len() ==> is_content_line(#[trigger] l[i]),
    ensures
        content_only(seq![begin_marker()] + l + seq![end_marker()]) == l,
{
    let f = seq![begin_marker()] + l + seq![end_marker()];
    lemma_content_only_all(l);
    lemma_content_only_concat(seq![begin_marker()], l);
    lemma_content_only_concat(seq![begin_marker()] + l, seq![end_marker()]);
    assert(!is_content_line(begin_marker()));
    assert(!is_content_line(end_marker()));
    assert(content_only(seq![begin_marker()]) =~= Seq::<Seq<char>>::empty()) by {
        let one = seq![begin_marker()];
        assert(one.drop_last() =~= Seq::<Seq<char>>::empty());
        assert(one.last() == begin_marker());
        assert(content_only(one.drop_last()) =~= Seq::<Seq<char>>::empty());
    }
    assert(content_only(seq![end_marker()]) =~= Seq::<Seq<char>>::empty()) by {
        let one = seq![end_marker()];
        assert(one.drop_last() =~= Seq::<Seq<char>>::empty());
        assert(one.last() == end_marker());
        assert(content_only(one.drop_last()) =~= Seq::<Seq<char>>::empty());
    }
    assert(content_only(f) =~= l);
}

/// After `apply` on text without markers, the managed block holds exactly
/// the written lines, and they sit between the markers.
proof fn lemma_applied_block_lines(text: Seq<char>, spec: (Seq<Seq<char>>, Seq<(Seq<char>, Seq<char>)>))
    requires
        marker_free(text),
        forall|k: int| 0 <= k < spec_lines(spec.0, spec.1).len() ==> !(#[trigger] spec_lines(spec.0, spec.1)[k]).contains('\n')
            && marker_free(spec_lines(spec.0, spec.1)[k]) && spec_lines(spec.0, spec.1)[k].len() > 0
            && spec_lines(spec.0, spec.1)[k].last() != '\r',
    ensures
        ({
            let l = spec_lines(spec.0, spec.1);
            let f = seq![begin_marker()] + l + seq![end_marker()];
            extract_block(replace_or_append(text, unix_block(spec))) == Some(join(f, nl())) && lines(join(f, nl())) == f
        }),
{
    let l = spec_lines(spec.0, spec.1);
    let f = seq![begin_marker()] + l + seq![end_marker()];
    lemma_appended_block(text, l);
    lemma_marker_facts();
    assert forall|i: int| 0 <= i < f.len() implies !(#[trigger] f[i]).contains('\n') && (f[i].len() == 0
        || f[i].last() != '\r') by {
        if i == 0 {
            assert(f[i] == begin_marker());
        } else if i == f.len() - 1 {
            assert(f[i] == end_marker());
        } else {
            assert(f[i] == l[i - 1]);
        }
    }
    assert(f.last() == end_marker());
    lemma_lines_of_join(f);
}

/// Law: on macOS and Linux a second `apply` keeps what the first wrote:
/// starting from an `env.sh` without DevKit markers, after applying `first`
/// and then `second`, `check` reports every entry of both as present (for
/// specs as in `law_apply_then_check`, and `first`'s lines holding no marker).
pub proof fn law_applies_accumulate(
    text: Seq<char>,
    first: (Seq<Seq<char>>, Seq<(Seq<char>, Seq<char>)>),
    second: (Seq<Seq<char>>, Seq<(Seq<char>, Seq<char>)>),
)
    requires
        marker_free(text),
        unix_safe(first),
        unix_safe(second),
        forall|k: int| 0 <= k < spec_lines(first.0, first.1).len() ==> marker_free(#[trigger] spec_lines(first.0, first.1)[k]),
    ensures
        ({
            let t2 = replace_or_append(replace_or_append(text, unix_block(first)), unix_block(second));
            &&& forall|i: int| 0 <= i < unix_checks(t2, first).len() ==> (#[trigger] unix_checks(t2, first)[i]).1
            &&& forall|i: int| 0 <= i < unix_checks(t2, second).len() ==> (#[trigger] unix_checks(t2, second)[i]).1
        }),
{
    let t1 = replace_or_append(text, unix_block(first));
    let t2 = replace_or_append(t1, unix_block(second));
    law_apply_then_check(t1, second);
    let l = spec_lines(first.0, first.1);
    assert forall|k: int| 0 <= k < l.len() implies !(#[trigger] l[k]).contains('\n') && marker_free(l[k]) && l[k].len() > 0
        && l[k].last() != '\r' by {
        lemma_spec_lines_ok(first, k);
    }
    lemma_applied_block_lines(text, first);
    lemma_appended_block(text, l);
    let f = seq![begin_marker()] + l + seq![end_marker()];
    let b = join(f, nl());
    assert forall|i: int| 0 <= i < l.len() implies is_content_line(#[trigger] l[i]) by {
        lemma_spec_lines_ok(first, i);
    }
    lemma_frame_content(l);
    assert(content_lines(b) == l);
    let all = content_lines(unix_block(second)) + l;
    let d = dedup(all);
    let m = merged_block(b, unix_block(second));
    assert(m == framed(d));
    let a = text + append_sep(text);
    let pe: int = a.len() as int + join(seq![begin_marker()] + l, nl()).len() as int + 1;
    assert(t2 == replace_block(t1, m));
    let left = t1.subrange(0, a.len() as int);
    let right = t1.subrange(pe + 16, t1.len() as int);
    assert(t2 =~= left + m + right);
    assert forall|k: int| 0 <= k < spec_lines(first.0, first.1).len() implies has_line(
        t2,
        #[trigger] spec_lines(first.0, first.1)[k],
    ) by {
        let n2 = content_lines(unix_block(second)).len() as int;
        assert(all[n2 + k] == l[k]);
        lemma_dedup_contains(all, l[k]);
        let kk = choose|kk: int| 0 <= kk < d.len() && d[kk] == l[k];
        lemma_framed_line(d, kk);
        let p = choose|p: int| line_at(framed(d), d[kk], p);
        lemma_line_at_embed(m, l[k], p, left, right);
    }
    lemma_lines_give_checks(t2, first);
}


/// No line occurs twice.
pub open spec fn distinct_lines(s: Seq<Seq<char>>) -> bool {
    forall|i: int, j: int| 0 <= i < j < s.len() ==> s[i] != s[j]
}

/// `dedup` keeps a list without repeats as it is.
proof fn lemma_dedup_distinct(s: Seq<Seq<char>>)
    requires
        distinct_lines(s),
    ensures
        dedup(s) == s,
    decreases s.len(),
{
    if s.len() > 0 {
        let d = s.drop_last();
        assert forall|i: int, j: int| 0 <= i < j < d.len() implies d[i] != d[j] by {
            assert(d[i] == s[i] && d[j] == s[j]);
        }
        lemma_dedup_distinct(d);
        assert(!d.contains(s.last())) by {
            if d.contains(s.last()) {
                let k = choose|k: int| 0 <= k < d.len() && d[k] == s.last();
                assert(s[k] == s[s.len() - 1]);
            }
        }
        assert(d.push(s.last()) =~= s);
    }
}

/// Lines that all occur already add nothing to a list without repeats.
proof fn lemma_dedup_absorbs(s: Seq<Seq<char>>, t: Seq<Seq<char>>)
    requires
        distinct_lines(s),
        forall|i: int| 0 <= i < t.len() ==> s.contains(#[trigger] t[i]),
    ensures
        dedup(s + t) == s,
    decreases t.len(),
{
    if t.len() == 0 {
        assert(s + t =~= s);
        lemma_dedup_distinct(s);
    } else {
        lemma_dedup_absorbs(s, t.drop_last());
        assert((s + t).drop_last() =~= s + t.drop_last());
        assert((s + t).last() == t[t.len() - 1]);
    }
}

/// A marker found in a text is found at the same place after more text is
/// appended.
proof fn lemma_find_extend(t: Seq<char>, x: Seq<char>, m: Seq<char>)
    requires
        find(t, m) is Some,
    ensures
        find(t + x, m) == find(t, m),
{
    crate::text::lemma_find(t, m);
    let i = find(t, m)->0;
    let u = t + x;
    assert(u.subrange(i, i + m.len()) =~= t.subrange(i, i + m.len()));
    assert forall|k: int| 0 <= k < i implies !occurs_at(u, m, k) by {
        if occurs_at(u, m, k) {
            assert(u.subrange(k, k + m.len()) =~= t.subrange(k, k + m.len()));
            assert(occurs_at(t, m, k));
        }
    }
    lemma_find_at(u, m, i);
}

/// Law: on macOS and Linux, applying the same spec again leaves the managed
/// block of `env.sh` as the first `apply` wrote it: no line is added,
/// dropped or reordered (starting from an `env.sh` without DevKit markers,
/// for specs as in `law_apply_then_check` whose lines are distinct and hold
/// no marker). The text itself gains one newline after the block.
pub proof fn law_reapply_keeps_block(text: Seq<char>, spec: (Seq<Seq<char>>, Seq<(Seq<char>, Seq<char>)>))
    requires
        marker_free(text),
        unix_safe(spec),
        distinct_lines(spec_lines(spec.0, spec.1)),
        forall|k: int| 0 <= k < spec_lines(spec.0, spec.1).len() ==> marker_free(#[trigger] spec_lines(spec.0, spec.1)[k]),
    ensures
        ({
            let t1 = replace_or_append(text, unix_block(spec));
            let t2 = replace_or_append(t1, unix_block(spec));
            &&& extract_block(t2) == extract_block(t1)
            &&& t2 == t1 + nl()
        }),
{
    let l = spec_lines(spec.0, spec.1);
    assert forall|k: int| 0 <= k < l.len() implies !(#[trigger] l[k]).contains('\n') && marker_free(l[k]) && l[k].len() > 0
        && l[k].last() != '\r' by {
        lemma_spec_lines_ok(spec, k);
    }
    lemma_applied_block_lines(text, spec);
    lemma_appended_block(text, l);
    let f = seq![begin_marker()] + l + seq![end_marker()];
    let b = join(f, nl());
    let a = text + append_sep(text);
    let t1 = replace_or_append(text, unix_block(spec));
    assert(unix_block(spec) == framed(l));
    assert(t1 == a + b + nl());
    assert forall|i: int| 0 <= i < l.len() implies is_content_line(#[trigger] l[i]) by {
        lemma_spec_lines_ok(spec, i);
    }
    lemma_frame_content(l);
    assert(content_lines(b) == l);
    lemma_unix_block_content(spec);
    assert forall|i: int| 0 <= i < l.len() implies l.contains(#[trigger] l[i]) by {}
    lemma_dedup_absorbs(l, l);
    let m = merged_block(b, unix_block(spec));
    assert(m == framed(l));
    assert(framed(l) == b + nl());
    let pe: int = a.len() as int + join(seq![begin_marker()] + l, nl()).len() as int + 1;
    let t2 = replace_or_append(t1, unix_block(spec));
    assert(t2 == replace_block(t1, m));
    assert(t1.subrange(0, a.len() as int) =~= a);
    assert(t1.subrange(pe + 16, t1.len() as int) =~= nl());
    assert(t2 =~= t1 + nl());
    lemma_find_extend(t1, nl(), begin_marker());
    lemma_find_extend(t1, nl(), end_marker());
    let e = pe + 16;
    assert(t2.subrange(a.len() as int, e) =~= t1.subrange(a.len() as int, e));
}

/// Law: the first `apply` on macOS and Linux (an `env.sh` without DevKit
/// markers, or none) leaves `check` reporting every PATH entry and every
/// variable of the spec as present, whatever the entries, names and values
/// hold (line breaks and quotes included).
pub proof fn law_first_apply_then_check(text: Seq<char>, spec: (Seq<Seq<char>>, Seq<(Seq<char>, Seq<char>)>))
    requires
        marker_free(text),
    ensures
        forall|i: int|
            0 <= i < unix_checks(replace_or_append(text, unix_block(spec)), spec).len() ==> (#[trigger] unix_checks(
                replace_or_append(text, unix_block(spec)),
                spec,
            )[i]).1,
{
    let l = spec_lines(spec.0, spec.1);
    let a = text + append_sep(text);
    crate::text::lemma_find(text, begin_marker());
    assert(extract_block(text) is None);
    let t = replace_or_append(text, unix_block(spec));
    assert(t == a + framed(l) + Seq::<char>::empty());
    let c = unix_checks(t, spec);
    let np = spec.0.len() as int;
    reveal_strlit("export PATH=\"");
    reveal_strlit(":$PATH\"");
    reveal_strlit("export");
    reveal_strlit("export ");
    reveal_strlit("=\"");
    reveal_strlit("\"");
    assert forall|i: int| 0 <= i < c.len() implies (#[trigger] c[i]).1 by {
        lemma_framed_line(l, i);
        let p0 = choose|p: int| line_at(framed(l), l[i], p);
        lemma_line_at_embed(framed(l), l[i], p0, a, Seq::<char>::empty());
        let p = p0 + a.len();
        assert(line_at(t, l[i], p));
        if i < np {
            let e = spec.0[i];
            assert(l[i] == path_line(e));
            assert(path_line(e) =~= "export PATH=\""@ + e + ":$PATH\""@);
            assert("export PATH=\""@.len() == 13);
            assert(l[i].subrange(13, 13 + e.len() as int) =~= e);
            assert(t.subrange(p, p + l[i].len()) == l[i]);
            assert(t.subrange(p + 13, p + 13 + e.len()) =~= l[i].subrange(13, 13 + e.len() as int));
            assert(occurs_at(t, e, p + 13));
            assert(c[i] == ("PATH:"@ + e, contains(t, e)));
        } else {
            let j = i - np;
            let (n, v) = spec.1[j];
            assert(l[i] == var_line(n, v));
            let lit = assign_literal(n, quote_escaped(v));
            assert(var_line(n, v) =~= "export"@ + seq![' '] + lit);
            assert("export"@.len() == 6);
            assert(l[i].subrange(7, l[i].len() as int) =~= lit);
            assert(l[i].subrange(0, 6) =~= "export"@);
            assert(l[i][6] == ' ');
            assert(t.subrange(p, p + l[i].len()) == l[i]);
            assert(t.subrange(p, p + 6) =~= l[i].subrange(0, 6));
            assert(t[p + 6] == l[i][6]);
            assert(t.subrange(p + 7, p + 7 + lit.len()) =~= l[i].subrange(7, l[i].len() as int));
            assert(occurs_at(t, lit, p + 7));
            assert(t[p + l[i].len()] == '\n');
            assert(tail_ok(t, p + 7 + lit.len()));
            assert(ws_then_assign(t, p + 7, lit));
            assert(is_ws(' '));
            assert(assignment_at(t, p, lit));
            lemma_assignment_from_at(t, lit, 0, p);
            assert(c[i] == (n, has_assignment(t, n, v)));
        }
    }
}

// ---------------------------------------------------------------------------
// Reverting what `apply` wrote
// ---------------------------------------------------------------------------

/// A shell variable name: a letter or `_`, then letters, digits and `_`.
pub open spec fn is_identifier(n: Seq<char>) -> bool {
    &&& n.len() > 0
    &&& is_ident_start(n[0])
    &&& forall|j: int| 0 <= j < n.len() ==> is_ident_char(#[trigger] n[j])
}

proof fn lemma_quote_escaped_no(v: Seq<char>, c: char)
    requires
        !v.contains(c),
        c != '\\',
        c != '"',
    ensures
        !quote_escaped(v).contains(c),
    decreases v.len(),
{
    if v.len() > 0 {
        assert(!v.drop_first().contains(c)) by {
            if v.drop_first().contains(c) {
                let k = choose|k: int| 0 <= k < v.drop_first().len() && v.drop_first()[k] == c;
                assert(v[k + 1] == c);
            }
        }
        lemma_quote_escaped_no(v.drop_first(), c);
        let head = if v[0] == '"' {
            seq!['\\', '"']
        } else {
            seq![v[0]]
        };
        assert(!head.contains(c)) by {
            if head.contains(c) {
                let k = choose|k: int| 0 <= k < head.len() && head[k] == c;
                if v[0] != '"' {
                    assert(v[0] == c);
                }
            }
        }
        lemma_no_char_concat(head, quote_escaped(v.drop_first()), c);
    }
}

/// The assignment line of a variable, as pieces (quotes in the value are
/// escaped).
proof fn lemma_var_line_prefix(n: Seq<char>, v: Seq<char>)
    requires
        !n.contains('\n'),
        !v.contains('\n'),
    ensures
        var_line(n, v).subrange(0, 6) == "export"@,
        var_line(n, v)[6] == ' ',
        var_line(n, v).subrange(7, 7 + n.len() as int) == n,
        var_line(n, v)[7 + n.len() as int] == '=',
        var_line(n, v).len() > 8 + n.len(),
        !var_line(n, v).contains('\n'),
        var_line(n, v).last() == '"',
{
    reveal_strlit("export ");
    reveal_strlit("export");
    reveal_strlit("=\"");
    reveal_strlit("\"");
    let a = "export "@;
    let b = "=\""@;
    let c = "\""@;
    let q = quote_escaped(v);
    lemma_quote_escaped_no(v, '\n');
    let l = var_line(n, v);
    assert(l =~= a + n + b + q + c);
    assert(!a.contains('\n')) by {
        if a.contains('\n') {
            let k = choose|k: int| 0 <= k < a.len() && a[k] == '\n';
        }
    }
    assert(!b.contains('\n')) by {
        if b.contains('\n') {
            let k = choose|k: int| 0 <= k < b.len() && b[k] == '\n';
        }
    }
    assert(!c.contains('\n')) by {
        if c.contains('\n') {
            let k = choose|k: int| 0 <= k < c.len() && c[k] == '\n';
        }
    }
    lemma_no_char_concat(a, n, '\n');
    lemma_no_char_concat(a + n, b, '\n');
    lemma_no_char_concat(a + n + b, q, '\n');
    lemma_no_char_concat(a + n + b + q, c, '\n');
    assert(l.subrange(0, 6) =~= "export"@);
    assert(l.subrange(7, 7 + n.len() as int) =~= n);
}

/// The line exporting an identifier names it.
proof fn lemma_export_name_of_var_line(n: Seq<char>, v: Seq<char>)
    requires
        is_identifier(n),
        !v.contains('\n'),
    ensures
        export_name(var_line(n, v)) == Some(n),
{
    assert(!n.contains('\n')) by {
        if n.contains('\n') {
            let k = choose|k: int| 0 <= k < n.len() && n[k] == '\n';
            assert(is_ident_char(n[k]));
        }
    }
    lemma_var_line_prefix(n, v);
    let l = var_line(n, v);
    reveal_strlit("export");
    assert(starts_with(l, "export"@));
    assert(is_ws(l[6]));
    let s6 = l.skip(6);
    crate::text::lemma_trim_start_skip(s6, 1);
    assert(s6.subrange(1, s6.len() as int) =~= l.skip(7));
    let t = l.skip(7);
    assert(t[0] == n[0]);
    assert(!is_ws(t[0]));
    assert(trim_start(t) == t);
    assert(crate::text::trim_start(s6) == t);
    assert forall|j: int| 0 <= j < n.len() implies is_ident_char(#[trigger] t[j]) by {
        assert(t[j] == l.subrange(7, 7 + n.len() as int)[j]);
    }
    assert(t[n.len() as int] == '=');
    crate::env::lemma_ident_len_exact(t, n.len() as int);
    assert(t.take(n.len() as int) =~= n);
}

/// The PATH line of an entry names it.
proof fn lemma_path_hit_own(paths: Seq<Seq<char>>, i: int)
    requires
        0 <= i < paths.len(),
        !paths[i].contains('\n'),
    ensures
        path_hit(path_line(paths[i]), paths),
{
    let p = paths[i];
    lemma_path_line_shape(p);
    reveal_strlit("export PATH=\"");
    reveal_strlit(":$PATH\"");
    reveal_strlit("PATH=\"");
    reveal_strlit(":");
    let l = path_line(p);
    let pat = "PATH=\""@ + p + ":"@;
    assert(l.subrange(7, 7 + pat.len() as int) =~= pat);
    assert(occurs_at(l, pat, 7));
}

proof fn lemma_contains_char(s: Seq<char>, p: Seq<char>, c: char)
    requires
        contains(s, p),
        p.contains(c),
    ensures
        s.contains(c),
{
    let i = choose|i: int| occurs_at(s, p, i);
    let k = choose|k: int| 0 <= k < p.len() && p[k] == c;
    assert(s[i + k] == s.subrange(i, i + p.len())[k]);
}

/// The markers are never reverted away.
proof fn lemma_marker_unhit(mk: Seq<char>, paths: Seq<Seq<char>>, names: Seq<Seq<char>>)
    requires
        mk == begin_marker() || mk == end_marker(),
    ensures
        !path_hit(mk, paths),
        !var_hit(mk, names),
{
    lemma_marker_facts();
    reveal_strlit("PATH=\"");
    reveal_strlit("PATH=");
    reveal_strlit("export");
    assert forall|i: int| 0 <= i < paths.len() implies !contains(mk, "PATH=\""@ + #[trigger] paths[i] + ":"@)
        && !contains(mk, "PATH="@ + paths[i] + ":"@) by {
        let p1 = "PATH=\""@ + paths[i] + ":"@;
        let p2 = "PATH="@ + paths[i] + ":"@;
        assert(p1[4] == '=');
        assert(p2[4] == '=');
        if contains(mk, p1) {
            lemma_contains_char(mk, p1, '=');
        }
        if contains(mk, p2) {
            lemma_contains_char(mk, p2, '=');
        }
    }
    assert(!starts_with(mk, "export"@)) by {
        if starts_with(mk, "export"@) {
            assert(mk[0] == mk.subrange(0, 6)[0]);
        }
    }
}

proof fn lemma_keep_unhit_concat(a: Seq<Seq<char>>, b: Seq<Seq<char>>, paths: Seq<Seq<char>>, names: Seq<Seq<char>>)
    ensures
        keep_unhit(a + b, paths, names) == keep_unhit(a, paths, names) + keep_unhit(b, paths, names),
    decreases b.len(),
{
    if b.len() == 0 {
        assert(a + b =~= a);
        assert(keep_unhit(b, paths, names) =~= Seq::<Seq<char>>::empty());
    } else {
        lemma_keep_unhit_concat(a, b.drop_last(), paths, names);
        assert((a + b).drop_last() =~= a + b.drop_last());
        assert((a + b).last() == b.last());
    }
}

proof fn lemma_keep_unhit_none(l: Seq<Seq<char>>, paths: Seq<Seq<char>>, names: Seq<Seq<char>>)
    requires
        forall|i: int| 0 <= i < l.len() ==> path_hit(#[trigger] l[i], paths) || var_hit(l[i], names),
    ensures
        keep_unhit(l, paths, names) == Seq::<Seq<char>>::empty(),
    decreases l.len(),
{
    if l.len() > 0 {
        assert(l.last() == l[l.len() - 1]);
        lemma_keep_unhit_none(l.drop_last(), paths, names);
    }
}

/// Law: on macOS and Linux `revert` undoes `apply`: starting from an
/// `env.sh` without DevKit markers, applying a spec and then reverting it
/// gives back the original text, less its trailing newlines (for PATH
/// entries and values without line breaks, variable names that are shell
/// identifiers, and written lines that hold no marker).
pub proof fn law_apply_then_revert(text: Seq<char>, spec: (Seq<Seq<char>>, Seq<(Seq<char>, Seq<char>)>))
    requires
        marker_free(text),
        forall|i: int| 0 <= i < spec.0.len() ==> !(#[trigger] spec.0[i]).contains('\n'),
        forall|j: int| 0 <= j < spec.1.len() ==> is_identifier((#[trigger] spec.1[j]).0) && !spec.1[j].1.contains('\n'),
        forall|k: int| 0 <= k < spec_lines(spec.0, spec.1).len() ==> marker_free(#[trigger] spec_lines(spec.0, spec.1)[k]),
    ensures
        revert_text(replace_or_append(text, unix_block(spec)), spec.0, var_names(spec.1)) == Some(
            trim_end_set(text, nl()),
        ),
{
    lemma_marker_facts();
    let l = spec_lines(spec.0, spec.1);
    let np = spec.0.len() as int;
    let names = var_names(spec.1);
    assert forall|k: int| 0 <= k < l.len() implies !(#[trigger] l[k]).contains('\n') && marker_free(l[k])
        && l[k].len() > 0 && l[k].last() != '\r' && (path_hit(l[k], spec.0) || var_hit(l[k], names)) by {
        if k < np {
            assert(l[k] == path_line(spec.0[k]));
            lemma_path_line_shape(spec.0[k]);
            lemma_path_hit_own(spec.0, k);
        } else {
            let j = k - np;
            let (n, v) = spec.1[j];
            assert(l[k] == var_line(n, v));
            assert(is_identifier(n));
            assert(!n.contains('\n')) by {
                if n.contains('\n') {
                    let z = choose|z: int| 0 <= z < n.len() && n[z] == '\n';
                    assert(is_ident_char(n[z]));
                }
            }
            lemma_var_line_prefix(n, v);
            lemma_export_name_of_var_line(n, v);
            assert(names[j] == n);
            assert(names.contains(n));
        }
    }
    lemma_applied_block_lines(text, spec);
    lemma_appended_block(text, l);
    let f = seq![begin_marker()] + l + seq![end_marker()];
    let b = join(f, nl());
    let a = text + append_sep(text);
    let t1 = replace_or_append(text, unix_block(spec));
    assert(t1 == a + b + nl());
    // Only the markers are left of the block.
    lemma_marker_unhit(begin_marker(), spec.0, names);
    lemma_marker_unhit(end_marker(), spec.0, names);
    lemma_keep_unhit_concat(seq![begin_marker()], l, spec.0, names);
    lemma_keep_unhit_concat(seq![begin_marker()] + l, seq![end_marker()], spec.0, names);
    lemma_keep_unhit_none(l, spec.0, names);
    assert(keep_unhit(seq![begin_marker()], spec.0, names) =~= seq![begin_marker()]) by {
        let one = seq![begin_marker()];
        assert(one.drop_last() =~= Seq::<Seq<char>>::empty());
        assert(one.last() == begin_marker());
        assert(!path_hit(one.last(), spec.0) && !var_hit(one.last(), names));
        assert(keep_unhit(one.drop_last(), spec.0, names) =~= Seq::<Seq<char>>::empty());
        assert(keep_unhit(one, spec.0, names) == keep_unhit(one.drop_last(), spec.0, names).push(one.last()));
    }
    assert(keep_unhit(seq![end_marker()], spec.0, names) =~= seq![end_marker()]) by {
        let one = seq![end_marker()];
        assert(one.drop_last() =~= Seq::<Seq<char>>::empty());
        assert(one.last() == end_marker());
        assert(!path_hit(one.last(), spec.0) && !var_hit(one.last(), names));
        assert(keep_unhit(one.drop_last(), spec.0, names) =~= Seq::<Seq<char>>::empty());
        assert(keep_unhit(one, spec.0, names) == keep_unhit(one.drop_last(), spec.0, names).push(one.last()));
    }
    let kept = keep_unhit(lines(b), spec.0, names);
    assert(kept =~= seq![begin_marker(), end_marker()]);
    let two = join(kept, nl());
    assert(two == begin_marker() + nl() + end_marker()) by {
        lemma_join_concat(seq![begin_marker()], seq![end_marker()], nl());
        assert(seq![begin_marker()] + seq![end_marker()] =~= kept);
    }
    assert(trim_start(two) == two);
    assert(two.last() == '<');
    assert(trim_end(two) == two);
    assert(trim(two) == two);
    assert(reverted_block(b, spec.0, names) is None);
    // Removing the block leaves the text before it, without trailing newlines.
    let al: int = a.len() as int;
    let pe: int = al + join(seq![begin_marker()] + l, nl()).len() as int + 1;
    assert(t1.subrange(0, al) =~= a);
    assert(t1.subrange(pe + 16, t1.len() as int) =~= nl());
    assert(trim_start_set(nl(), nl()) =~= Seq::<char>::empty()) by {
        assert(nl().drop_first() =~= Seq::<char>::empty());
        assert(nl()[0] == '\n');
        assert(nl().contains(nl()[0]));
        assert(trim_start_set(nl().drop_first(), nl()) =~= Seq::<char>::empty());
    }
    assert(remove_block(t1) == trim_end_set(a, nl()));
    if append_sep(text).len() > 0 {
        assert(a.drop_last() =~= text);
        assert(nl().contains(a.last()));
    } else {
        assert(a =~= text);
    }
}


/// What `dedup` keeps comes from the list.
proof fn lemma_dedup_from(s: Seq<Seq<char>>, x: Seq<char>)
    requires
        dedup(s).contains(x),
    ensures
        s.contains(x),
    decreases s.len(),
{
    if s.len() > 0 {
        let rest = dedup(s.drop_last());
        if rest.contains(x) {
            lemma_dedup_from(s.drop_last(), x);
            let k = choose|k: int| 0 <= k < s.drop_last().len() && s.drop_last()[k] == x;
            assert(s[k] == x);
        } else {
            assert(s[s.len() - 1] == x);
        }
    }
}

/// Lines without repeats that do not occur in `s` come after what `dedup`
/// keeps of `s`, unchanged.
proof fn lemma_dedup_append(s: Seq<Seq<char>>, t: Seq<Seq<char>>)
    requires
        distinct_lines(t),
        forall|i: int| 0 <= i < t.len() ==> !s.contains(#[trigger] t[i]),
    ensures
        dedup(s + t) == dedup(s) + t,
    decreases t.len(),
{
    if t.len() == 0 {
        assert(s + t =~= s);
        assert(dedup(s) + t =~= dedup(s));
    } else {
        let d = t.drop_last();
        assert forall|i: int, j: int| 0 <= i < j < d.len() implies d[i] != d[j] by {
            assert(d[i] == t[i] && d[j] == t[j]);
        }
        assert forall|i: int| 0 <= i < d.len() implies !s.contains(#[trigger] d[i]) by {
            assert(d[i] == t[i]);
        }
        lemma_dedup_append(s, d);
        assert((s + t).drop_last() =~= s + d);
        let x = t[t.len() - 1];
        assert((s + t).last() == x);
        assert(!(dedup(s) + d).contains(x)) by {
            if (dedup(s) + d).contains(x) {
                let k = choose|k: int| 0 <= k < (dedup(s) + d).len() && (dedup(s) + d)[k] == x;
                if k < dedup(s).len() {
                    assert(dedup(s).contains(x));
                    lemma_dedup_from(s, x);
                } else {
                    assert(d[k - dedup(s).len()] == t[k - dedup(s).len()]);
                }
            }
        }
        assert((dedup(s) + d).push(x) =~= dedup(s) + t);
    }
}

/// Lines that nothing hits all stay.
proof fn lemma_keep_unhit_all(l: Seq<Seq<char>>, paths: Seq<Seq<char>>, names: Seq<Seq<char>>)
    requires
        forall|i: int| 0 <= i < l.len() ==> !path_hit(#[trigger] l[i], paths) && !var_hit(l[i], names),
    ensures
        keep_unhit(l, paths, names) == l,
    decreases l.len(),
{
    if l.len() > 0 {
        assert(l.last() == l[l.len() - 1]);
        lemma_keep_unhit_all(l.drop_last(), paths, names);
        assert(l.drop_last().push(l.last()) =~= l);
    }
}

/// What the second of two applies merges into the block: the second
/// spec's lines without repeats, then the first spec's lines.
pub open spec fn merged_lines(
    first: (Seq<Seq<char>>, Seq<(Seq<char>, Seq<char>)>),
    second: (Seq<Seq<char>>, Seq<(Seq<char>, Seq<char>)>),
) -> Seq<Seq<char>> {
    dedup(spec_lines(second.0, second.1)) + spec_lines(first.0, first.1)
}

/// The conditions of `law_revert_second_apply`.
pub open spec fn revert_second_ok(
    text: Seq<char>,
    first: (Seq<Seq<char>>, Seq<(Seq<char>, Seq<char>)>),
    second: (Seq<Seq<char>>, Seq<(Seq<char>, Seq<char>)>),
) -> bool {
    &&& marker_free(text)
    &&& unix_safe(first)
    &&& unix_safe(second)
    &&& forall|j: int| 0 <= j < second.1.len() ==> is_identifier((#[trigger] second.1[j]).0)
    &&& forall|k: int| 0 <= k < spec_lines(first.0, first.1).len() ==> marker_free(#[trigger] spec_lines(first.0, first.1)[k])
    &&& forall|k: int|
        0 <= k < spec_lines(second.0, second.1).len() ==> marker_free(#[trigger] spec_lines(second.0, second.1)[k])
    &&& spec_lines(first.0, first.1).len() > 0
    &&& distinct_lines(spec_lines(first.0, first.1))
    &&& forall|k: int|
        0 <= k < spec_lines(first.0, first.1).len() ==> !path_hit(#[trigger] spec_lines(first.0, first.1)[k], second.0)
            && !var_hit(spec_lines(first.0, first.1)[k], var_names(second.1))
}

/// The lines of both specs: their shape, and that the second spec's revert
/// hits every line of the second spec.
proof fn lemma_two_specs_lines(
    text: Seq<char>,
    first: (Seq<Seq<char>>, Seq<(Seq<char>, Seq<char>)>),
    second: (Seq<Seq<char>>, Seq<(Seq<char>, Seq<char>)>),
)
    requires
        revert_second_ok(text, first, second),
    ensures
        forall|k: int| 0 <= k < spec_lines(first.0, first.1).len() ==> {
            let y = #[trigger] spec_lines(first.0, first.1)[k];
            !y.contains('\n') && marker_free(y) && y.len() > 0 && y.last() != '\r' && is_content_line(y)
        },
        forall|k: int| 0 <= k < spec_lines(second.0, second.1).len() ==> {
            let y = #[trigger] spec_lines(second.0, second.1)[k];
            !y.contains('\n') && marker_free(y) && y.len() > 0 && y.last() != '\r' && (path_hit(y, second.0)
                || var_hit(y, var_names(second.1)))
        },
{
    let l1 = spec_lines(first.0, first.1);
    let l2 = spec_lines(second.0, second.1);
    let p2 = second.0;
    let n2 = var_names(second.1);
    let np2 = second.0.len() as int;
    assert forall|k: int| 0 <= k < l1.len() implies {
        let y = #[trigger] l1[k];
        !y.contains('\n') && marker_free(y) && y.len() > 0 && y.last() != '\r' && is_content_line(y)
    } by {
        lemma_spec_lines_ok(first, k);
    }
    assert forall|k: int| 0 <= k < l2.len() implies {
        let y = #[trigger] l2[k];
        !y.contains('\n') && marker_free(y) && y.len() > 0 && y.last() != '\r' && (path_hit(y, p2) || var_hit(y, n2))
    } by {
        lemma_spec_lines_ok(second, k);
        if k < np2 {
            lemma_path_hit_own(p2, k);
        } else {
            let j = k - np2;
            let (n, v) = second.1[j];
            assert(is_identifier(n));
            lemma_var_line_prefix(n, v);
            lemma_export_name_of_var_line(n, v);
            assert(n2[j] == n);
            assert(n2.contains(n));
        }
    }
}

/// After two applies, `env.sh` is the text with the merged lines framed,
/// plus one newline; the merged lines are well-formed rows.
#[verifier::rlimit(30)]
proof fn lemma_second_apply(
    text: Seq<char>,
    first: (Seq<Seq<char>>, Seq<(Seq<char>, Seq<char>)>),
    second: (Seq<Seq<char>>, Seq<(Seq<char>, Seq<char>)>),
)
    requires
        revert_second_ok(text, first, second),
    ensures
        replace_or_append(replace_or_append(text, unix_block(first)), unix_block(second)) == replace_or_append(
            text,
            framed(merged_lines(first, second)),
        ) + nl(),
        forall|k: int| 0 <= k < merged_lines(first, second).len() ==> {
            let y = #[trigger] merged_lines(first, second)[k];
            !y.contains('\n') && marker_free(y) && y.len() > 0 && y.last() != '\r'
        },
        forall|k: int|
            0 <= k < dedup(spec_lines(second.0, second.1)).len() ==> spec_lines(second.0, second.1).contains(
                #[trigger] dedup(spec_lines(second.0, second.1))[k],
            ),
{
    let l1 = spec_lines(first.0, first.1);
    let l2 = spec_lines(second.0, second.1);
    lemma_two_specs_lines(text, first, second);
    lemma_applied_block_lines(text, first);
    lemma_appended_block(text, l1);
    let f1 = seq![begin_marker()] + l1 + seq![end_marker()];
    let b1 = join(f1, nl());
    let a = text + append_sep(text);
    let t1 = replace_or_append(text, unix_block(first));
    assert(t1 == a + b1 + nl());
    lemma_frame_content(l1);
    assert(content_lines(b1) == l1);
    lemma_unix_block_content(second);
    assert forall|i: int| 0 <= i < l1.len() implies !l2.contains(#[trigger] l1[i]) by {
        if l2.contains(l1[i]) {
            let k = choose|k: int| 0 <= k < l2.len() && l2[k] == l1[i];
            assert(path_hit(l2[k], second.0) || var_hit(l2[k], var_names(second.1)));
        }
    }
    lemma_dedup_append(l2, l1);
    let d = merged_lines(first, second);
    let dl = dedup(l2);
    assert(dedup(l2 + l1) == d);
    let m = merged_block(b1, unix_block(second));
    assert(m == framed(d));
    let pe1: int = a.len() as int + join(seq![begin_marker()] + l1, nl()).len() as int + 1;
    let t2 = replace_or_append(t1, unix_block(second));
    assert(t2 == replace_block(t1, m));
    assert(t1.subrange(0, a.len() as int) =~= a);
    assert(t1.subrange(pe1 + 16, t1.len() as int) =~= nl());
    assert(t2 =~= a + framed(d) + nl());
    assert forall|k: int| 0 <= k < dl.len() implies l2.contains(#[trigger] dl[k]) by {
        assert(dl.contains(dl[k]));
        lemma_dedup_from(l2, dl[k]);
    }
    assert forall|k: int| 0 <= k < d.len() implies {
        let y = #[trigger] d[k];
        !y.contains('\n') && marker_free(y) && y.len() > 0 && y.last() != '\r'
    } by {
        if k < dl.len() {
            let j = choose|j: int| 0 <= j < l2.len() && l2[j] == dl[k];
        } else {
            assert(d[k] == l1[k - dl.len()]);
        }
    }
    lemma_appended_block(text, d);
}

/// Reverting the second spec from the merged block leaves exactly the block
/// the first apply wrote.
#[verifier::rlimit(30)]
proof fn lemma_revert_merged(
    text: Seq<char>,
    first: (Seq<Seq<char>>, Seq<(Seq<char>, Seq<char>)>),
    second: (Seq<Seq<char>>, Seq<(Seq<char>, Seq<char>)>),
)
    requires
        revert_second_ok(text, first, second),
    ensures
        reverted_block(
            join(seq![begin_marker()] + merged_lines(first, second) + seq![end_marker()], nl()),
            second.0,
            var_names(second.1),
        ) == Some(join(seq![begin_marker()] + spec_lines(first.0, first.1) + seq![end_marker()], nl())),
{
    lemma_marker_facts();
    let l1 = spec_lines(first.0, first.1);
    let l2 = spec_lines(second.0, second.1);
    let p2 = second.0;
    let n2 = var_names(second.1);
    lemma_two_specs_lines(text, first, second);
    lemma_second_apply(text, first, second);
    let d = merged_lines(first, second);
    let dl = dedup(l2);
    let fd = seq![begin_marker()] + d + seq![end_marker()];
    let bd = join(fd, nl());
    let f1 = seq![begin_marker()] + l1 + seq![end_marker()];
    let b1 = join(f1, nl());
    assert forall|i: int| 0 <= i < fd.len() implies !(#[trigger] fd[i]).contains('\n') && (fd[i].len() == 0
        || fd[i].last() != '\r') by {
        if i == 0 {
            assert(fd[i] == begin_marker());
        } else if i == fd.len() - 1 {
            assert(fd[i] == end_marker());
        } else {
            assert(fd[i] == d[i - 1]);
        }
    }
    assert(fd.last() == end_marker());
    lemma_lines_of_join(fd);
    assert(lines(bd) == fd);
    lemma_marker_unhit(begin_marker(), p2, n2);
    lemma_marker_unhit(end_marker(), p2, n2);
    assert forall|i: int| 0 <= i < dl.len() implies path_hit(#[trigger] dl[i], p2) || var_hit(dl[i], n2) by {
        assert(l2.contains(dl[i]));
        let j = choose|j: int| 0 <= j < l2.len() && l2[j] == dl[i];
    }
    lemma_keep_unhit_none(dl, p2, n2);
    lemma_keep_unhit_all(l1, p2, n2);
    lemma_keep_unhit_all(seq![begin_marker()], p2, n2);
    lemma_keep_unhit_all(seq![end_marker()], p2, n2);
    assert(fd =~= seq![begin_marker()] + dl + l1 + seq![end_marker()]);
    lemma_keep_unhit_concat(seq![begin_marker()], dl, p2, n2);
    lemma_keep_unhit_concat(seq![begin_marker()] + dl, l1, p2, n2);
    lemma_keep_unhit_concat(seq![begin_marker()] + dl + l1, seq![end_marker()], p2, n2);
    let kept = keep_unhit(lines(bd), p2, n2);
    assert(kept =~= f1);
    let jl = join(l1, nl());
    lemma_join_concat(seq![begin_marker()] + l1, seq![end_marker()], nl());
    assert((seq![begin_marker()] + l1) + seq![end_marker()] =~= f1);
    lemma_join_concat(seq![begin_marker()], l1, nl());
    assert(join(seq![begin_marker()], nl()) == begin_marker());
    assert(b1 =~= begin_marker() + nl() + jl + nl() + end_marker());
    assert(jl.len() > 0) by {
        assert(l1[0].len() > 0);
        if l1.len() == 1 {
            assert(jl == l1[0]);
        } else {
            assert(l1.drop_last().len() > 0);
            lemma_join_concat(l1.drop_last(), seq![l1.last()], nl());
            assert(l1.drop_last() + seq![l1.last()] =~= l1);
            assert(l1.last() == l1[l1.len() - 1]);
        }
    }
    assert(b1[0] == '#');
    assert(b1.last() == '<');
    assert(trim_start(b1) == b1);
    assert(trim_end(b1) == b1);
    assert(trim(join(kept, nl())) == b1);
    assert(b1 != begin_marker()) by {
        assert(b1.len() > 16);
    }
    assert(b1 != begin_marker() + nl() + end_marker()) by {
        assert(b1.len() > 33);
    }
    assert(starts_with(b1, begin_marker())) by {
        assert(b1.subrange(0, 16) =~= begin_marker());
    }
    assert(ends_with(b1, end_marker())) by {
        assert(b1.subrange(b1.len() - 16, b1.len() as int) =~= end_marker());
    }
}

/// Law: on macOS and Linux, reverting the second of two applied specs gives
/// back `env.sh` as the first `apply` left it, with one more newline at its
/// end: the second spec's lines leave the block and the first spec's lines
/// stay, in order. This holds starting from an `env.sh` without DevKit
/// markers, for specs as in `law_apply_then_check` and
/// `law_apply_then_revert`, a first spec that writes at least one line and
/// no line twice, and no line of the first spec naming a PATH entry or
/// variable of the second (`revert_second_ok`).
#[verifier::rlimit(30)]
pub proof fn law_revert_second_apply(
    text: Seq<char>,
    first: (Seq<Seq<char>>, Seq<(Seq<char>, Seq<char>)>),
    second: (Seq<Seq<char>>, Seq<(Seq<char>, Seq<char>)>),
)
    requires
        revert_second_ok(text, first, second),
    ensures
        revert_text(
            replace_or_append(replace_or_append(text, unix_block(first)), unix_block(second)),
            second.0,
            var_names(second.1),
        ) == Some(replace_or_append(text, unix_block(first)) + nl()),
{
    lemma_marker_facts();
    let l1 = spec_lines(first.0, first.1);
    lemma_two_specs_lines(text, first, second);
    lemma_second_apply(text, first, second);
    lemma_revert_merged(text, first, second);
    let d = merged_lines(first, second);
    lemma_appended_block(text, l1);
    lemma_appended_block(text, d);
    let a = text + append_sep(text);
    let f1 = seq![begin_marker()] + l1 + seq![end_marker()];
    let b1 = join(f1, nl());
    let fd = seq![begin_marker()] + d + seq![end_marker()];
    let bd = join(fd, nl());
    let t1 = replace_or_append(text, unix_block(first));
    assert(unix_block(first) == framed(l1));
    assert(t1 == a + b1 + nl());
    let u = replace_or_append(text, framed(d));
    assert(u == a + bd + nl());
    let t2 = u + nl();
    lemma_find_extend(u, nl(), begin_marker());
    lemma_find_extend(u, nl(), end_marker());
    let ped: int = a.len() as int + join(seq![begin_marker()] + d, nl()).len() as int + 1;
    assert(ped + 16 == a.len() + bd.len());
    assert(t2.subrange(a.len() as int, ped + 16) =~= bd);
    assert(extract_block(t2) == Some(bd));
    assert(reverted_block(bd, second.0, var_names(second.1)) == Some(b1));
    let t3 = replace_block(t2, b1);
    assert(t2.subrange(0, a.len() as int) =~= a);
    assert(t2.subrange(ped + 16, t2.len() as int) =~= nl() + nl());
    assert(t3 =~= t1 + nl());
}

// ---------------------------------------------------------------------------
// The shell profile
// ---------------------------------------------------------------------------

/// Law: after `apply` the shell profile sources `env.sh`, and a further
/// `apply` leaves the profile as it is.
pub proof fn law_profile_sources_once(text: Seq<char>)
    ensures
        contains(profile_with_source(text), source_line()) || contains(
            profile_with_source(text),
            "$HOME/.devkit/env.sh"@,
        ),
        profile_with_source(profile_with_source(text)) == profile_with_source(text),
{
    if !(contains(text, source_line()) || contains(text, "$HOME/.devkit/env.sh"@)) {
        let a = text + append_sep(text);
        let t = profile_with_source(text);
        lemma_marker_facts();
        let q: int = a.len() as int + 17;
        assert(t == a + profile_block());
        assert(profile_block() == begin_marker() + nl() + source_line() + nl() + end_marker() + nl());
        assert(t.subrange(q, q + source_line().len()) =~= source_line());
        assert(occurs_at(t, source_line(), q));
    }
}


// ---------------------------------------------------------------------------
// Windows: the user PATH and variables
// ---------------------------------------------------------------------------

/// The pieces of a split hold no separator.
proof fn lemma_split_pieces(s: Seq<char>, c: char)
    ensures
        forall|i: int| 0 <= i < split(s, c).len() ==> !(#[trigger] split(s, c)[i]).contains(c),
    decreases s.len(),
{
    if s.len() > 0 {
        let rest = split(s.drop_first(), c);
        lemma_split_pieces(s.drop_first(), c);
        crate::text::lemma_split_len_pos(s.drop_first(), c);
        if s[0] != c {
            let head = seq![s[0]] + rest[0];
            assert(!head.contains(c)) by {
                lemma_no_char_concat(seq![s[0]], rest[0], c);
                if seq![s[0]].contains(c) {
                    let k = choose|k: int| 0 <= k < 1 && seq![s[0]][k] == c;
                }
            }
            assert forall|i: int| 0 <= i < split(s, c).len() implies !(#[trigger] split(s, c)[i]).contains(c) by {
                if i == 0 {
                    assert(split(s, c)[0] == head);
                } else {
                    assert(split(s, c)[i] == rest[i]);
                }
            }
        } else {
            assert forall|i: int| 0 <= i < split(s, c).len() implies !(#[trigger] split(s, c)[i]).contains(c) by {
                if i == 0 {
                    assert(split(s, c)[0] =~= Seq::<char>::empty());
                } else {
                    assert(split(s, c)[i] == rest[i - 1]);
                }
            }
        }
    }
}

/// The kept pieces are non-empty and among the input.
proof fn lemma_nonempty_only(s: Seq<Seq<char>>)
    ensures
        forall|i: int|
            0 <= i < nonempty_only(s).len() ==> (#[trigger] nonempty_only(s)[i]).len() > 0 && s.contains(
                nonempty_only(s)[i],
            ),
        (forall|i: int| 0 <= i < s.len() ==> (#[trigger] s[i]).len() > 0) ==> nonempty_only(s) == s,
    decreases s.len(),
{
    if s.len() > 0 {
        lemma_nonempty_only(s.drop_last());
        let r = nonempty_only(s.drop_last());
        assert forall|i: int| 0 <= i < nonempty_only(s).len() implies (#[trigger] nonempty_only(s)[i]).len() > 0
            && s.contains(nonempty_only(s)[i]) by {
            if i < r.len() {
                assert(nonempty_only(s)[i] == r[i]);
                let k = choose|k: int| 0 <= k < s.drop_last().len() && s.drop_last()[k] == r[i];
                assert(s[k] == r[i]);
            } else {
                assert(nonempty_only(s)[i] == s.last());
                assert(s[s.len() - 1] == s.last());
            }
        }
        if forall|i: int| 0 <= i < s.len() ==> (#[trigger] s[i]).len() > 0 {
            assert(forall|i: int| 0 <= i < s.drop_last().len() ==> (#[trigger] s.drop_last()[i]).len() > 0) by {
                assert forall|i: int| 0 <= i < s.drop_last().len() implies (#[trigger] s.drop_last()[i]).len() > 0 by {
                    assert(s.drop_last()[i] == s[i]);
                }
            }
            assert(s[s.len() - 1].len() > 0);
            assert(s.drop_last().push(s.last()) =~= s);
        }
    }
}

/// An entry of a user PATH: non-empty, without `;`.
pub open spec fn path_entry_ok(e: Seq<char>) -> bool {
    e.len() > 0 && !e.contains(';')
}

/// The entries of a PATH value are proper entries.
proof fn lemma_path_list_ok(value: Seq<char>)
    ensures
        forall|i: int| 0 <= i < path_list(value).len() ==> path_entry_ok(#[trigger] path_list(value)[i]),
{
    let sp = split(value, ';');
    lemma_split_pieces(value, ';');
    lemma_nonempty_only(sp);
    assert forall|i: int| 0 <= i < path_list(value).len() implies path_entry_ok(#[trigger] path_list(value)[i]) by {
        let e = path_list(value)[i];
        let k = choose|k: int| 0 <= k < sp.len() && sp[k] == e;
    }
}

/// Joining proper entries with `;` and listing them again gives them back.
proof fn lemma_path_list_join(xs: Seq<Seq<char>>)
    requires
        forall|i: int| 0 <= i < xs.len() ==> path_entry_ok(#[trigger] xs[i]),
    ensures
        path_list(join(xs, semi())) == xs,
{
    if xs.len() == 0 {
        assert(join(xs, semi()) =~= Seq::<char>::empty());
        assert(split(Seq::<char>::empty(), ';') =~= seq![Seq::<char>::empty()]);
        assert(nonempty_only(seq![Seq::<char>::empty()]) =~= Seq::<Seq<char>>::empty()) by {
            let one = seq![Seq::<char>::empty()];
            assert(one.drop_last() =~= Seq::<Seq<char>>::empty());
            assert(one.last().len() == 0);
            assert(nonempty_only(one.drop_last()) =~= Seq::<Seq<char>>::empty());
        }
    } else {
        assert(semi() == seq![';']);
        assert forall|i: int| 0 <= i < xs.len() implies !(#[trigger] xs[i]).contains(';') by {
            assert(path_entry_ok(xs[i]));
        }
        lemma_split_join(xs, ';');
        lemma_nonempty_only(xs);
        assert forall|i: int| 0 <= i < xs.len() implies (#[trigger] xs[i]).len() > 0 by {
            assert(path_entry_ok(xs[i]));
        }
    }
}

/// Law: the user PATH list round trip. Listing a PATH value gives no empty
/// entry and no entry holding `;`; an empty value lists nothing; and joining
/// proper entries with `;` and listing them again gives them back.
pub proof fn law_path_list_round_trip(value: Seq<char>, xs: Seq<Seq<char>>)
    requires
        forall|i: int| 0 <= i < xs.len() ==> path_entry_ok(#[trigger] xs[i]),
    ensures
        path_list(join(xs, semi())) == xs,
        path_list(Seq::<char>::empty()) == Seq::<Seq<char>>::empty(),
        forall|i: int| 0 <= i < path_list(value).len() ==> path_entry_ok(#[trigger] path_list(value)[i]),
{
    lemma_path_list_join(xs);
    lemma_path_list_join(Seq::<Seq<char>>::empty());
    assert(join(Seq::<Seq<char>>::empty(), semi()) =~= Seq::<char>::empty());
    lemma_path_list_ok(value);
}

proof fn lemma_lowered_of(s: Seq<Seq<char>>, x: Seq<char>)
    requires
        s.contains(x),
    ensures
        lowered(s).contains(crate::text::lowercase(x)),
{
    let k = choose|k: int| 0 <= k < s.len() && s[k] == x;
    assert(lowered(s)[k] == crate::text::lowercase(x));
}

proof fn lemma_lowered_from(s: Seq<Seq<char>>, y: Seq<char>)
    requires
        lowered(s).contains(y),
    ensures
        exists|x: Seq<char>| s.contains(x) && crate::text::lowercase(x) == y,
{
    let k = choose|k: int| 0 <= k < lowered(s).len() && lowered(s)[k] == y;
    assert(s.contains(s[k]));
}

/// What `apply` puts in front keeps the old entries, and every entry of the
/// spec is then present ignoring case; every resulting entry comes from the
/// old list or the spec. `lower` holds the lowercase forms of `parts`.
proof fn lemma_prepend_missing(parts: Seq<Seq<char>>, lower: Seq<Seq<char>>, entries: Seq<Seq<char>>, k: int)
    requires
        0 <= k <= entries.len(),
        forall|y: Seq<char>| lower.contains(y) <==> lowered(parts).contains(y),
    ensures
        ({
            let r = prepend_missing(parts, lower, entries, k);
            &&& forall|x: Seq<char>| parts.contains(x) ==> r.contains(x)
            &&& forall|j: int| 0 <= j < k ==> lowered(r).contains(crate::text::lowercase(#[trigger] entries[j]))
            &&& forall|i: int|
                0 <= i < r.len() ==> parts.contains(#[trigger] r[i]) || exists|j: int| 0 <= j < k && entries[j] == r[i]
        }),
    decreases k,
{
    let r = prepend_missing(parts, lower, entries, k);
    if k > 0 {
        let e = entries[k - 1];
        let el = crate::text::lowercase(e);
        if lower.contains(el) {
            lemma_prepend_missing(parts, lower, entries, k - 1);
            assert(lowered(parts).contains(el));
            lemma_lowered_from(parts, el);
            let x = choose|x: Seq<char>| parts.contains(x) && crate::text::lowercase(x) == el;
            assert(r.contains(x));
            lemma_lowered_of(r, x);
            assert forall|j: int| 0 <= j < k implies lowered(r).contains(crate::text::lowercase(#[trigger] entries[j])) by {
                if j == k - 1 {
                    assert(entries[j] == e);
                }
            }
        } else {
            let parts2 = seq![e] + parts;
            let lower2 = lower.push(el);
            assert forall|y: Seq<char>| lower2.contains(y) <==> lowered(parts2).contains(y) by {
                assert(lowered(parts2) =~= seq![el] + lowered(parts));
                if lower2.contains(y) {
                    let i = choose|i: int| 0 <= i < lower2.len() && lower2[i] == y;
                    if i < lower.len() {
                        assert(lower.contains(y));
                        assert(lowered(parts).contains(y));
                        let m = choose|m: int| 0 <= m < lowered(parts).len() && lowered(parts)[m] == y;
                        assert(lowered(parts2)[m + 1] == y);
                    } else {
                        assert(lowered(parts2)[0] == y);
                    }
                }
                if lowered(parts2).contains(y) {
                    let i = choose|i: int| 0 <= i < lowered(parts2).len() && lowered(parts2)[i] == y;
                    if i == 0 {
                        assert(lower2[lower.len() as int] == y);
                    } else {
                        assert(lowered(parts)[i - 1] == y);
                        assert(lowered(parts).contains(y));
                        assert(lower.contains(y));
                        let m = choose|m: int| 0 <= m < lower.len() && lower[m] == y;
                        assert(lower2[m] == y);
                    }
                }
            }
            lemma_prepend_missing(parts2, lower2, entries, k - 1);
            assert(r == prepend_missing(parts2, lower2, entries, k - 1));
            assert(parts2[0] == e);
            assert(parts2.contains(e));
            assert(r.contains(e));
            lemma_lowered_of(r, e);
            assert forall|x: Seq<char>| parts.contains(x) implies r.contains(x) by {
                let m = choose|m: int| 0 <= m < parts.len() && parts[m] == x;
                assert(parts2[m + 1] == x);
            }
            assert forall|j: int| 0 <= j < k implies lowered(r).contains(crate::text::lowercase(#[trigger] entries[j])) by {
                if j == k - 1 {
                    assert(entries[j] == e);
                }
            }
            assert forall|i: int| 0 <= i < r.len() implies parts.contains(#[trigger] r[i]) || exists|j: int|
                0 <= j < k && entries[j] == r[i] by {
                if parts2.contains(r[i]) {
                    let m = choose|m: int| 0 <= m < parts2.len() && parts2[m] == r[i];
                    if m == 0 {
                        assert(entries[k - 1] == r[i]);
                    } else {
                        assert(parts[m - 1] == r[i]);
                    }
                } else {
                    let j = choose|j: int| 0 <= j < k - 1 && entries[j] == r[i];
                    assert(0 <= j < k && entries[j] == r[i]);
                }
            }
        }
    }
}


/// A spec that `check` on Windows finds complete after `apply`: PATH
/// entries non-empty and without `;`, and a variable given twice given the
/// same value both times.
pub open spec fn windows_safe(spec: (Seq<Seq<char>>, Seq<(Seq<char>, Seq<char>)>)) -> bool {
    &&& forall|i: int| 0 <= i < spec.0.len() ==> path_entry_ok(#[trigger] spec.0[i])
    &&& forall|i: int, j: int|
        0 <= i < j < spec.1.len() && (#[trigger] spec.1[i]).0 == (#[trigger] spec.1[j]).0 ==> spec.1[i].1
            == spec.1[j].1
}

proof fn lemma_last_value_consistent(vars: Seq<(Seq<char>, Seq<char>)>, j: int)
    requires
        0 <= j < vars.len(),
        forall|i: int, k: int|
            0 <= i < k < vars.len() && (#[trigger] vars[i]).0 == (#[trigger] vars[k]).0 ==> vars[i].1 == vars[k].1,
    ensures
        last_value(vars, vars[j].0) == Some(vars[j].1),
    decreases vars.len(),
{
    let n = vars.len() - 1;
    assert(vars.last() == vars[n]);
    if vars.last().0 != vars[j].0 {
        let d = vars.drop_last();
        assert(d[j] == vars[j]);
        assert forall|i: int, k: int| 0 <= i < k < d.len() && (#[trigger] d[i]).0 == (#[trigger] d[k]).0 implies d[i].1
            == d[k].1 by {
            assert(d[i] == vars[i] && d[k] == vars[k]);
        }
        lemma_last_value_consistent(d, j);
    } else if j < n {
        assert(vars[j].1 == vars[n].1);
    }
}

/// Law: on Windows, after `apply` (the user PATH becomes the spec's missing
/// entries in front of the old ones, and each variable takes the last value
/// the spec gives it), `check` reports every PATH entry and variable of the
/// spec as present.
pub proof fn law_windows_apply_then_check(
    user_path: Seq<char>,
    old_vars: Seq<(Seq<char>, Seq<char>)>,
    new_vars: Seq<(Seq<char>, Seq<char>)>,
    spec: (Seq<Seq<char>>, Seq<(Seq<char>, Seq<char>)>),
)
    requires
        windows_safe(spec),
        forall|x: Seq<char>|
            #[trigger] var_value(new_vars, x) == match last_value(spec.1, x) {
                Some(v) => Some(v),
                None => var_value(old_vars, x),
            },
    ensures
        forall|i: int|
            0 <= i < windows_checks(join(path_after_apply(user_path, spec.0), semi()), new_vars, spec).len() ==> (
            #[trigger] windows_checks(join(path_after_apply(user_path, spec.0), semi()), new_vars, spec)[i]).1,
{
    let parts = path_list(user_path);
    let n = spec.0.len() as int;
    let r = path_after_apply(user_path, spec.0);
    lemma_prepend_missing(parts, lowered(parts), spec.0, n);
    lemma_path_list_ok(user_path);
    assert forall|i: int| 0 <= i < r.len() implies path_entry_ok(#[trigger] r[i]) by {
        if parts.contains(r[i]) {
            let m = choose|m: int| 0 <= m < parts.len() && parts[m] == r[i];
        } else {
            let j = choose|j: int| 0 <= j < n && spec.0[j] == r[i];
        }
    }
    lemma_path_list_join(r);
    let c = windows_checks(join(r, semi()), new_vars, spec);
    assert forall|i: int| 0 <= i < c.len() implies (#[trigger] c[i]).1 by {
        if i >= n {
            let j = i - n;
            lemma_last_value_consistent(spec.1, j);
            assert(var_value(new_vars, spec.1[j].0) == Some(spec.1[j].1));
        }
    }
}

proof fn lemma_keep_not_in(s: Seq<Seq<char>>, drop: Seq<Seq<char>>)
    ensures
        forall|i: int|
            0 <= i < keep_not_in(s, drop).len() ==> s.contains(#[trigger] keep_not_in(s, drop)[i]) && !drop.contains(
                crate::text::lowercase(keep_not_in(s, drop)[i]),
            ),
    decreases s.len(),
{
    if s.len() > 0 {
        lemma_keep_not_in(s.drop_last(), drop);
        let r = keep_not_in(s.drop_last(), drop);
        assert forall|i: int| 0 <= i < keep_not_in(s, drop).len() implies s.contains(
            #[trigger] keep_not_in(s, drop)[i],
        ) && !drop.contains(crate::text::lowercase(keep_not_in(s, drop)[i])) by {
            if i < r.len() {
                assert(keep_not_in(s, drop)[i] == r[i]);
                let k = choose|k: int| 0 <= k < s.drop_last().len() && s.drop_last()[k] == r[i];
                assert(s[k] == r[i]);
            } else {
                assert(keep_not_in(s, drop)[i] == s.last());
                assert(s[s.len() - 1] == s.last());
            }
        }
    }
}

/// Law: on Windows, after `revert` (the spec's entries leave the user PATH,
/// ignoring case, and its variables are deleted), `check` reports none of
/// the spec's PATH entries or variables as present.
pub proof fn law_windows_revert_then_check(
    user_path: Seq<char>,
    old_vars: Seq<(Seq<char>, Seq<char>)>,
    new_vars: Seq<(Seq<char>, Seq<char>)>,
    spec: (Seq<Seq<char>>, Seq<(Seq<char>, Seq<char>)>),
)
    requires
        forall|x: Seq<char>|
            #[trigger] var_value(new_vars, x) == if var_names(spec.1).contains(x) {
                None
            } else {
                var_value(old_vars, x)
            },
    ensures
        forall|i: int|
            0 <= i < windows_checks(join(path_after_revert(user_path, spec.0), semi()), new_vars, spec).len() ==> !(
            #[trigger] windows_checks(join(path_after_revert(user_path, spec.0), semi()), new_vars, spec)[i]).1,
{
    let parts = path_list(user_path);
    let n = spec.0.len() as int;
    let r = path_after_revert(user_path, spec.0);
    lemma_keep_not_in(parts, lowered(spec.0));
    lemma_path_list_ok(user_path);
    assert forall|i: int| 0 <= i < r.len() implies path_entry_ok(#[trigger] r[i]) by {
        let m = choose|m: int| 0 <= m < parts.len() && parts[m] == r[i];
    }
    lemma_path_list_join(r);
    let c = windows_checks(join(r, semi()), new_vars, spec);
    assert forall|i: int| 0 <= i < c.len() implies !(#[trigger] c[i]).1 by {
        if i < n {
            let p = spec.0[i];
            assert(spec.0.contains(p));
            lemma_lowered_of(spec.0, p);
            if lowered(r).contains(crate::text::lowercase(p)) {
                lemma_lowered_from(r, crate::text::lowercase(p));
                let x = choose|x: Seq<char>| r.contains(x) && crate::text::lowercase(x) == crate::text::lowercase(p);
                let m = choose|m: int| 0 <= m < r.len() && r[m] == x;
            }
        } else {
            let j = i - n;
            assert(var_names(spec.1)[j] == spec.1[j].0);
            assert(var_names(spec.1).contains(spec.1[j].0));
            assert(var_value(new_vars, spec.1[j].0) is None);
        }
    }
}


/// Entries whose lowercase forms are all among `lower` add nothing.
proof fn lemma_prepend_present(parts: Seq<Seq<char>>, lower: Seq<Seq<char>>, entries: Seq<Seq<char>>, k: int)
    requires
        0 <= k <= entries.len(),
        forall|j: int| 0 <= j < k ==> lower.contains(crate::text::lowercase(#[trigger] entries[j])),
    ensures
        prepend_missing(parts, lower, entries, k) == parts,
    decreases k,
{
    if k > 0 {
        assert(lower.contains(crate::text::lowercase(entries[k - 1])));
        lemma_prepend_present(parts, lower, entries, k - 1);
    }
}

/// Law: on Windows `apply` is idempotent on the user PATH: applying the same
/// entries to the PATH that one `apply` wrote changes nothing (for entries
/// that are non-empty and hold no `;`).
pub proof fn law_windows_apply_idempotent(user_path: Seq<char>, entries: Seq<Seq<char>>)
    requires
        forall|i: int| 0 <= i < entries.len() ==> path_entry_ok(#[trigger] entries[i]),
    ensures
        path_after_apply(join(path_after_apply(user_path, entries), semi()), entries) == path_after_apply(
            user_path,
            entries,
        ),
{
    let parts = path_list(user_path);
    let n = entries.len() as int;
    let r = path_after_apply(user_path, entries);
    lemma_prepend_missing(parts, lowered(parts), entries, n);
    lemma_path_list_ok(user_path);
    assert forall|i: int| 0 <= i < r.len() implies path_entry_ok(#[trigger] r[i]) by {
        if parts.contains(r[i]) {
            let m = choose|m: int| 0 <= m < parts.len() && parts[m] == r[i];
        } else {
            let j = choose|j: int| 0 <= j < n && entries[j] == r[i];
        }
    }
    lemma_path_list_join(r);
    lemma_prepend_present(r, lowered(r), entries, n);
}

} // verus!
