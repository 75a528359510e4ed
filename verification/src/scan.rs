//! Pattern scans over fetched documents (release listings, metadata files),
//! done with the `regex` crate.
use vstd::prelude::*;

verus! {

/// What `regex::Regex::new(pattern)` followed by `captures_iter(text)` yields:
/// for every match, in order, the text of capture group `group` (empty where
/// the group took no part); nothing when the pattern does not compile.
pub uninterp spec fn capture_all(pattern: Seq<char>, text: Seq<char>, group: nat) -> Option<
    Seq<Seq<char>>,
>;

/// The characters `regex::escape` puts a backslash in front of.
pub open spec fn is_meta(c: char) -> bool {
    c == '\\' || c == '.' || c == '+' || c == '*' || c == '?' || c == '(' || c == ')' || c == '|'
        || c == '[' || c == ']' || c == '{' || c == '}' || c == '^' || c == '$' || c == '#' || c
        == '&' || c == '-' || c == '~'
}

/// `regex::escape`: every meta character preceded by a backslash.
pub open spec fn escaped(s: Seq<char>) -> Seq<char>
    decreases s.len(),
{
    if s.len() == 0 {
        Seq::empty()
    } else {
        let head = if is_meta(s[0]) {
            seq!['\\', s[0]]
        } else {
            seq![s[0]]
        };
        head + escaped(s.drop_first())
    }
}

/// The character sequences of an optional list of strings.
pub open spec fn opt_strings(o: Option<Vec<String>>) -> Option<Seq<Seq<char>>> {
    match o {
        Some(v) => Some(v@.map_values(|s: String| s@)),
        None => None,
    }
}

/// Calls `regex::Regex::new` and `Regex::captures_iter`; the contract names
/// the group texts, in match order, by `capture_all`.
#[verifier::external_body]
pub(crate) fn captures(pattern: &str, text: &str, group: usize) -> (r: Option<Vec<String>>)
    ensures
        opt_strings(r) == capture_all(pattern@, text@, group as nat),
{
    let re = regex::Regex::new(pattern).ok()?;
    Some(
        re.captures_iter(text).map(
            |c| c.get(group).map_or(String::new(), |m| m.as_str().to_string()),
        ).collect(),
    )
}

/// Calls `regex::escape`, which puts a backslash before each meta character.
#[verifier::external_body]
pub(crate) fn escape(s: &str) -> (r: String)
    ensures
        r@ == escaped(s@),
{
    regex::escape(s)
}

} // verus!
