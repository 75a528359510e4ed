//! Minimal ANSI color helpers for the CLI/menu output.
//!
//! Colors are skipped when NO_COLOR is set or stdout isn't a terminal; the
//! caller says which holds through `colors`.
use crate::text::{chars_of, eq_str, owned};
use vstd::prelude::*;

verus! {

/// `text` wrapped in the ANSI escape for `code`, or `text` unchanged.
pub open spec fn painted(colors: bool, code: Seq<char>, text: Seq<char>) -> Seq<char> {
    if colors {
        "\x1b["@ + code + "m"@ + text + "\x1b[0m"@
    } else {
        text
    }
}

pub fn paint(colors: bool, code: &str, text: &str) -> (r: String)
    ensures
        r@ == painted(colors, code@, text@),
{
    if colors {
        let mut s = owned("\x1b[");
        s.append(code);
        s.append("m");
        s.append(text);
        s.append("\x1b[0m");
        s
    } else {
        owned(text)
    }
}

pub fn bold(colors: bool, text: &str) -> (r: String)
    ensures
        r@ == painted(colors, "1"@, text@),
{
    paint(colors, "1", text)
}

pub fn green(colors: bool, text: &str) -> (r: String)
    ensures
        r@ == painted(colors, "32"@, text@),
{
    paint(colors, "32", text)
}

pub fn yellow(colors: bool, text: &str) -> (r: String)
    ensures
        r@ == painted(colors, "33"@, text@),
{
    paint(colors, "33", text)
}

pub fn red(colors: bool, text: &str) -> (r: String)
    ensures
        r@ == painted(colors, "31"@, text@),
{
    paint(colors, "31", text)
}

pub fn cyan(colors: bool, text: &str) -> (r: String)
    ensures
        r@ == painted(colors, "36"@, text@),
{
    paint(colors, "36", text)
}

pub fn dim(colors: bool, text: &str) -> (r: String)
    ensures
        r@ == painted(colors, "2"@, text@),
{
    paint(colors, "2", text)
}

/// Color a plugin/env status label the same way everywhere it's printed:
/// green when installed, yellow when partial, dim otherwise.
pub fn status_label(colors: bool, state: &str) -> (r: String)
    ensures
        r@ == painted(
            colors,
            if state@ == "installed"@ {
                "32"@
            } else if state@ == "partial"@ {
                "33"@
            } else {
                "2"@
            },
            state@,
        ),
{
    let s = chars_of(state);
    if eq_str(s.as_slice(), "installed") {
        green(colors, state)
    } else if eq_str(s.as_slice(), "partial") {
        yellow(colors, state)
    } else {
        dim(colors, state)
    }
}

/// A `[ ok ]` / `[missing]` marker for env checks.
pub fn check_mark(colors: bool, ok: bool) -> (r: String)
    ensures
        r@ == if ok {
            painted(colors, "32"@, "[ ok ]"@)
        } else {
            painted(colors, "31"@, "[missing]"@)
        },
{
    if ok {
        green(colors, "[ ok ]")
    } else {
        red(colors, "[missing]")
    }
}

} // verus!
