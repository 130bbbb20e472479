//! A line-oriented codec for the Universal Chess Interface (UCI) protocol.
//!
//! Each protocol line is parsed into a typed value (`Command` for the
//! GUI-to-engine direction, `Message` for the engine-to-GUI direction), and
//! each typed value formats back into a canonical line. Parsing is lenient:
//! anomalies are reported to a caller-supplied warning sink while the parser
//! recovers where it can.

pub mod chess;
pub mod msg;
pub mod numbers;
pub mod parse;
pub mod score;
pub mod str;
pub mod token;
pub mod types;
pub mod warn;

use vstd::prelude::*;

verus! {

/// Unicode code points with the `White_Space` property; this is the set of
/// characters on which protocol lines split into tokens.
pub open spec fn is_space_c(c: char) -> bool {
    c == ' ' || c == '\t' || c == '\n' || c == '\u{b}' || c == '\u{c}' || c == '\r'
        || c == '\u{85}' || c == '\u{a0}' || c == '\u{1680}'
        || ('\u{2000}' <= c && c <= '\u{200a}')
        || c == '\u{2028}' || c == '\u{2029}' || c == '\u{202f}' || c == '\u{205f}'
        || c == '\u{3000}'
}

/// Decides Unicode whitespace, matching `is_space_c` exactly.
pub fn is_space(c: char) -> (r: bool)
    ensures
        r == is_space_c(c),
{
    c == ' ' || c == '\t' || c == '\n' || c == '\u{b}' || c == '\u{c}' || c == '\r'
        || c == '\u{85}' || c == '\u{a0}' || c == '\u{1680}'
        || ('\u{2000}' <= c && c <= '\u{200a}')
        || c == '\u{2028}' || c == '\u{2029}' || c == '\u{202f}' || c == '\u{205f}'
        || c == '\u{3000}'
}

} // verus!
