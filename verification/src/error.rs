//! The structured parse error: where parsing stopped and why.

use vstd::prelude::*;

verus! {

/// The three ways parsing can fail.
#[derive(Debug, Clone, Copy, PartialEq, Eq, Structural)]
pub enum ParseErrorKind {
    /// The input holds a character sequence that matches no token rule.
    Lexical,
    /// The token stream matches no production at the current state.
    Syntax,
    /// The input ends while a rule still expects more tokens.
    UnexpectedEnd,
}

/// A parse failure: the first point where derivation failed.
///
/// `pos` is the character offset of the offending character (for a
/// lexical error) or of the offending token's first character (for a
/// syntax error); at end of input it is the input length. `line` and
/// `col` are derived from `pos`, both 1-based.
#[derive(Debug, Clone, PartialEq)]
pub struct ParseError {
    pub kind: ParseErrorKind,
    pub pos: usize,
    pub line: usize,
    pub col: usize,
    /// The rule or token that was expected at the failure point.
    pub expected: String,
    /// The text actually found there, or a marker for end of input.
    pub found: String,
}

/// 1-based line number of the character offset `pos`: one more than the
/// number of line breaks before it.
pub open spec fn line_of(s: Seq<char>, pos: int) -> int
    decreases pos,
{
    if pos <= 0 {
        1
    } else {
        line_of(s, pos - 1) + if s[pos - 1] == '\n' {
            1int
        } else {
            0int
        }
    }
}

/// 1-based column of the character offset `pos` within its line.
pub open spec fn col_of(s: Seq<char>, pos: int) -> int
    decreases pos,
{
    if pos <= 0 {
        1
    } else if s[pos - 1] == '\n' {
        1
    } else {
        col_of(s, pos - 1) + 1
    }
}

/// A counter value held within the machine's range: exact until it would
/// pass `usize::MAX`, which no input that fits in memory reaches.
pub open spec fn sat_at_usize_max(x: int) -> int {
    if x > usize::MAX {
        usize::MAX as int
    } else {
        x
    }
}

/// The error's location fields agree with its position in the text `s`.
pub open spec fn error_located(s: Seq<char>, e: ParseError) -> bool {
    &&& e.pos <= s.len()
    &&& e.line == sat_at_usize_max(line_of(s, e.pos as int))
    &&& e.col == sat_at_usize_max(col_of(s, e.pos as int))
}

fn sat_inc(x: usize) -> (r: usize)
    ensures
        r == sat_at_usize_max(x + 1),
{
    if x == usize::MAX {
        x
    } else {
        x + 1
    }
}

/// 1-based line and column of the character offset `pos`, each saturating
/// at the machine limit.
fn line_col_x(s: &str, n: usize, pos: usize) -> (r: (usize, usize))
    requires
        n == s@.len(),
        pos <= n,
    ensures
        r.0 == sat_at_usize_max(line_of(s@, pos as int)),
        r.1 == sat_at_usize_max(col_of(s@, pos as int)),
{
    let mut line: usize = 1;
    let mut col: usize = 1;
    let mut idx: usize = 0;
    while idx < pos
        invariant
            n == s@.len(),
            pos <= n,
            idx <= pos,
            line == sat_at_usize_max(line_of(s@, idx as int)),
            col == sat_at_usize_max(col_of(s@, idx as int)),
        decreases pos - idx,
    {
        if s.get_char(idx) == '\n' {
            line = sat_inc(line);
            col = 1;
        } else {
            col = sat_inc(col);
        }
        idx = idx + 1;
    }
    (line, col)
}

/// Builds the error for a failure at character offset `pos`.
pub(crate) fn make_error(
    s: &str,
    n: usize,
    pos: usize,
    kind: ParseErrorKind,
    expected: &str,
    found: &str,
) -> (r: ParseError)
    requires
        n == s@.len(),
        pos <= n,
    ensures
        r.kind == kind,
        r.pos == pos,
        error_located(s@, r),
{
    let (line, col) = line_col_x(s, n, pos);
    ParseError {
        kind,
        pos,
        line,
        col,
        expected: String::from_str(expected),
        found: String::from_str(found),
    }
}

} // verus!
