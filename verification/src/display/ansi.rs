use vstd::prelude::*;

use crate::patterns::{
    compile_pattern, pattern_replace_all, regex_compiles, regex_replace_all,
};

verus! {

/// The pattern of ANSI escape sequences: ESC `[`, digits and `;`, a letter.
pub fn ansi_pattern() -> (r: &'static str)
    ensures
        r@ == ansi_pattern_text(),
{
    "\x1b\\[[0-9;]*[A-Za-z]"
}

/// The text of `ansi_pattern`.
pub closed spec fn ansi_pattern_text() -> Seq<char> {
    "\x1b\\[[0-9;]*[A-Za-z]"@
}

/// `s` with every ANSI escape sequence removed (`s` itself should the pattern
/// fail to compile).
pub open spec fn strip_text(s: Seq<char>) -> Seq<char> {
    if regex_compiles(ansi_pattern_text()) {
        regex_replace_all(ansi_pattern_text(), s, ""@)
    } else {
        s
    }
}

/// `s` with every ANSI escape sequence removed.
pub fn strip(s: &str) -> (r: String)
    ensures
        r@ == strip_text(s@),
{
    match compile_pattern(ansi_pattern()) {
        Ok(p) => pattern_replace_all(&p, s, ""),
        Err(_) => s.to_string(),
    }
}

/// The width that output is laid out for: the terminal's columns, 80 when
/// they are unknown, at most 120.
pub open spec fn width_for(cols: Option<u16>) -> usize {
    let w: usize = match cols {
        Some(c) => c as usize,
        None => 80,
    };
    if w < 120 { w } else { 120 }
}

/// Calls `terminal_size::terminal_size`: the width and the height of the
/// process's terminal, in columns and rows. What it returns depends on that
/// terminal, so nothing is claimed of it.
#[verifier::external_body]
pub(crate) fn terminal_dims() -> Option<(u16, u16)> {
    terminal_size::terminal_size().map(|(w, h)| (w.0, h.0))
}

/// See `width_for`.
pub fn width_for_columns(cols: Option<u16>) -> (r: usize)
    ensures
        r == width_for(cols),
{
    let w: usize = match cols {
        Some(c) => c as usize,
        None => 80,
    };
    if w < 120 { w } else { 120 }
}

/// The layout width for the terminal this process writes to.
pub fn terminal_width() -> (r: usize)
    ensures
        exists|c: Option<u16>| r == width_for(c),
        r <= 120,
{
    let c = match terminal_dims() {
        Some((w, _)) => Some(w),
        None => None,
    };
    width_for_columns(c)
}

} // verus!
