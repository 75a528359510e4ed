//! Dotted version numbers and their order.
//!
//! A version such as `3.10.1` is compared by its key, the list of its
//! dot-separated parts read as numbers (a part that is not a number counts as
//! zero), in the order of `Vec<u32>`: lexicographic.
use crate::text::{parse_u32, parse_u32_exec, split, split_exec};
use vstd::prelude::*;

verus! {

/// `p.parse::<u32>().unwrap_or(0)`.
pub open spec fn part_value(p: Seq<char>) -> u32 {
    match parse_u32(p) {
        Some(n) => n,
        None => 0,
    }
}

/// `v.split('.').map(|p| p.parse().unwrap_or(0)).collect::<Vec<u32>>()`.
pub open spec fn version_order_key(v: Seq<char>) -> Seq<u32> {
    split(v, '.').map_values(|p: Seq<char>| part_value(p))
}

/// The order of `Vec<u32>`: lexicographic, a proper prefix first.
pub open spec fn key_lt(a: Seq<u32>, b: Seq<u32>) -> bool
    decreases a.len(),
{
    if a.len() == 0 {
        b.len() > 0
    } else if b.len() == 0 {
        false
    } else if a[0] != b[0] {
        a[0] < b[0]
    } else {
        key_lt(a.drop_first(), b.drop_first())
    }
}

pub proof fn lemma_key_lt_irrefl(a: Seq<u32>)
    ensures
        !key_lt(a, a),
    decreases a.len(),
{
    if a.len() > 0 {
        lemma_key_lt_irrefl(a.drop_first());
    }
}

pub proof fn lemma_key_lt_trans(a: Seq<u32>, b: Seq<u32>, c: Seq<u32>)
    ensures
        key_lt(a, b) && key_lt(b, c) ==> key_lt(a, c),
    decreases a.len(),
{
    if a.len() > 0 && b.len() > 0 && c.len() > 0 && a[0] == b[0] && b[0] == c[0] {
        lemma_key_lt_trans(a.drop_first(), b.drop_first(), c.drop_first());
    }
}

pub proof fn lemma_key_lt_total(a: Seq<u32>, b: Seq<u32>)
    ensures
        a == b || key_lt(a, b) || key_lt(b, a),
    decreases a.len(),
{
    if a.len() > 0 && b.len() > 0 && a[0] == b[0] {
        lemma_key_lt_total(a.drop_first(), b.drop_first());
        if a.drop_first() == b.drop_first() {
            assert forall|i: int| 0 <= i < a.len() implies a[i] == b[i] by {
                if i > 0 {
                    assert(a[i] == a.drop_first()[i - 1]);
                    assert(b[i] == b.drop_first()[i - 1]);
                }
            }
            assert(a =~= b);
        }
    } else if a.len() == 0 && b.len() == 0 {
        assert(a =~= b);
    }
}

/// Index `i` holds a greatest key, and every later index a smaller one: the
/// element `Iterator::max_by_key` returns (the last of several maxima).
pub open spec fn is_last_max(keys: Seq<Seq<u32>>, i: int) -> bool {
    &&& 0 <= i < keys.len()
    &&& forall|j: int| 0 <= j < keys.len() ==> !key_lt(keys[i], #[trigger] keys[j])
    &&& forall|j: int| i < j < keys.len() ==> key_lt(#[trigger] keys[j], keys[i])
}

/// Index `i` holds a greatest key, and every earlier index a smaller one: the
/// element a stable sort by descending key puts first.
pub open spec fn is_first_max(keys: Seq<Seq<u32>>, i: int) -> bool {
    &&& 0 <= i < keys.len()
    &&& forall|j: int| 0 <= j < keys.len() ==> !key_lt(keys[i], #[trigger] keys[j])
    &&& forall|j: int| 0 <= j < i ==> key_lt(#[trigger] keys[j], keys[i])
}

/// The key of a version string.
pub fn version_key_exec(v: &[char]) -> (r: Vec<u32>)
    ensures
        r@ == version_order_key(v@),
{
    let parts = split_exec(v, '.');
    let ghost ps = parts@.map_values(|p: Vec<char>| p@);
    let mut out: Vec<u32> = Vec::new();
    let mut i: usize = 0;
    while i < parts.len()
        invariant
            i <= parts@.len(),
            ps == parts@.map_values(|p: Vec<char>| p@),
            ps == split(v@, '.'),
            out@ == ps.take(i as int).map_values(|p: Seq<char>| part_value(p)),
        decreases parts.len() - i,
    {
        let n = match parse_u32_exec(parts[i].as_slice()) {
            Some(n) => n,
            None => 0,
        };
        assert(ps[i as int] == parts@[i as int]@);
        out.push(n);
        assert(ps.take(i + 1) =~= ps.take(i as int).push(ps[i as int]));
        assert(out@ =~= ps.take(i + 1).map_values(|p: Seq<char>| part_value(p)));
        i = i + 1;
    }
    assert(ps.take(i as int) =~= ps);
    out
}

/// Whether key `a` sorts before key `b`.
pub fn key_lt_exec(a: &[u32], b: &[u32]) -> (r: bool)
    ensures
        r == key_lt(a@, b@),
{
    let mut i: usize = 0;
    assert(a@.skip(0) =~= a@);
    assert(b@.skip(0) =~= b@);
    while i < a.len() && i < b.len() && a[i] == b[i]
        invariant
            i <= a@.len(),
            i <= b@.len(),
            key_lt(a@, b@) == key_lt(a@.skip(i as int), b@.skip(i as int)),
        decreases a.len() - i,
    {
        assert(a@.skip(i as int).drop_first() =~= a@.skip(i + 1));
        assert(b@.skip(i as int).drop_first() =~= b@.skip(i + 1));
        i = i + 1;
    }
    if i == a.len() {
        i < b.len()
    } else if i == b.len() {
        false
    } else {
        a[i] < b[i]
    }
}

/// The index `Iterator::max_by_key` picks among `keys` (the last greatest).
pub fn last_max_index(keys: &Vec<Vec<u32>>) -> (r: usize)
    requires
        keys@.len() > 0,
    ensures
        is_last_max(keys@.map_values(|k: Vec<u32>| k@), r as int),
{
    let ghost ks = keys@.map_values(|k: Vec<u32>| k@);
    let mut best: usize = 0;
    let mut i: usize = 1;
    proof {
        lemma_key_lt_irrefl(ks[0]);
    }
    while i < keys.len()
        invariant
            1 <= i <= keys@.len(),
            best < i,
            ks == keys@.map_values(|k: Vec<u32>| k@),
            forall|j: int| 0 <= j < i ==> !key_lt(ks[best as int], #[trigger] ks[j]),
            forall|j: int| best < j < i ==> key_lt(#[trigger] ks[j], ks[best as int]),
        decreases keys.len() - i,
    {
        assert(ks[i as int] == keys@[i as int]@);
        assert(ks[best as int] == keys@[best as int]@);
        if !key_lt_exec(keys[i].as_slice(), keys[best].as_slice()) {
            proof {
                lemma_key_lt_total(ks[i as int], ks[best as int]);
                assert forall|j: int| 0 <= j < i + 1 implies !key_lt(ks[i as int], #[trigger] ks[j]) by {
                    if j < i {
                        lemma_key_lt_trans(ks[i as int], ks[j], ks[best as int]);
                        lemma_key_lt_trans(ks[best as int], ks[i as int], ks[j]);
                        if ks[i as int] == ks[best as int] {
                        } else {
                            assert(key_lt(ks[best as int], ks[i as int]));
                            lemma_key_lt_trans(ks[best as int], ks[i as int], ks[j]);
                        }
                    } else {
                        lemma_key_lt_irrefl(ks[i as int]);
                    }
                }
            }
            best = i;
        } else {
            proof {
                lemma_key_lt_irrefl(ks[best as int]);
                assert forall|j: int| 0 <= j < i + 1 implies !key_lt(ks[best as int], #[trigger] ks[j]) by {
                    if j == i {
                        lemma_key_lt_trans(ks[best as int], ks[i as int], ks[best as int]);
                    }
                }
            }
        }
        i = i + 1;
    }
    best
}

/// The index a stable sort by descending key puts first (the first greatest).
pub fn first_max_index(keys: &Vec<Vec<u32>>) -> (r: usize)
    requires
        keys@.len() > 0,
    ensures
        is_first_max(keys@.map_values(|k: Vec<u32>| k@), r as int),
{
    let ghost ks = keys@.map_values(|k: Vec<u32>| k@);
    let mut best: usize = 0;
    let mut i: usize = 1;
    proof {
        lemma_key_lt_irrefl(ks[0]);
    }
    while i < keys.len()
        invariant
            1 <= i <= keys@.len(),
            best < i,
            ks == keys@.map_values(|k: Vec<u32>| k@),
            forall|j: int| 0 <= j < i ==> !key_lt(ks[best as int], #[trigger] ks[j]),
            forall|j: int| 0 <= j < best ==> key_lt(#[trigger] ks[j], ks[best as int]),
        decreases keys.len() - i,
    {
        assert(ks[i as int] == keys@[i as int]@);
        assert(ks[best as int] == keys@[best as int]@);
        if key_lt_exec(keys[best].as_slice(), keys[i].as_slice()) {
            proof {
                lemma_key_lt_irrefl(ks[i as int]);
                assert forall|j: int| 0 <= j < i + 1 implies !key_lt(ks[i as int], #[trigger] ks[j]) by {
                    if j < i {
                        lemma_key_lt_trans(ks[best as int], ks[i as int], ks[j]);
                    }
                }
                assert forall|j: int| 0 <= j < i implies key_lt(#[trigger] ks[j], ks[i as int]) by {
                    lemma_key_lt_total(ks[j], ks[best as int]);
                    if j < best {
                        lemma_key_lt_trans(ks[j], ks[best as int], ks[i as int]);
                    } else if ks[j] != ks[best as int] {
                        lemma_key_lt_trans(ks[j], ks[best as int], ks[i as int]);
                    }
                }
            }
            best = i;
        } else {
            proof {
                lemma_key_lt_total(ks[best as int], ks[i as int]);
                lemma_key_lt_irrefl(ks[best as int]);
            }
        }
        i = i + 1;
    }
    best
}

} // verus!
