//! The lexical layer: the input text as a sequence of tokens.
//!
//! Whitespace, line comments (`//` to end of line) and non-nesting block
//! comments (`/* ... */`) are insignificant and skipped between tokens.
//! Keywords are not distinguished here: they are plain identifier tokens
//! whose text the grammar rules examine, so a keyword can still stand
//! where the grammar expects an identifier.
//!
//! The whole layer is specified by [`spec_lex`]: lexing returns `Ok`
//! exactly when `spec_lex` yields a token sequence, and then returns that
//! sequence. Every token records the half-open character span `[start, end)`
//! of its lexeme, and its text is exactly the source text of that span
//! (stripped of the delimiters for `<...>` keycodes and quoted strings).

use vstd::prelude::*;

use crate::error::{error_located, make_error, ParseError, ParseErrorKind};

verus! {

/// The kinds of token the language has, besides the end-of-input
/// sentinel (which is represented by running off the token sequence).
#[derive(Debug, Clone, Copy, PartialEq, Eq, Structural)]
pub enum TokKind {
    /// A plain identifier or keyword word.
    Ident,
    /// A `<...>`-delimited keycode identifier; the text is the inner part.
    Ident2,
    /// A double-quoted string; the text is the part between the quotes.
    Str,
    LBrace,
    RBrace,
    LBracket,
    RBracket,
    LParen,
    RParen,
    Comma,
    Semi,
    Eq,
}

/// One token: its kind, its text, and the character span it was read from.
#[derive(Debug, Clone, Copy, PartialEq)]
pub struct Token<'src> {
    pub kind: TokKind,
    /// The token's text, borrowed from the source: the matched span for
    /// most kinds, the span without its delimiters for `Ident2` and `Str`.
    pub text: &'src str,
    /// Character offset of the first character of the lexeme.
    pub start: usize,
    /// Character offset one past the last character of the lexeme.
    pub end: usize,
}

/// View of a [`Token`].
pub struct TokenV {
    pub kind: TokKind,
    pub text: Seq<char>,
    pub start: int,
    pub end: int,
}

impl<'src> View for Token<'src> {
    type V = TokenV;

    open spec fn view(&self) -> TokenV {
        TokenV {
            kind: self.kind,
            text: self.text@,
            start: self.start as int,
            end: self.end as int,
        }
    }
}

/// Insignificant characters between tokens.
pub open spec fn is_ws_char(c: char) -> bool {
    c == ' ' || c == '\t' || c == '\n' || c == '\r'
}

/// A character that may begin a plain identifier.
pub open spec fn is_ident_start_char(c: char) -> bool {
    ('a' <= c && c <= 'z') || ('A' <= c && c <= 'Z') || c == '_'
}

/// A character that may continue an identifier run; `+` and `-` are
/// allowed because keysym names use them.
pub open spec fn is_ident_char(c: char) -> bool {
    is_ident_start_char(c) || ('0' <= c && c <= '9') || c == '+' || c == '-'
}

/// End of the maximal identifier run beginning at `i`: the first index at
/// or after `i` whose character is no identifier character.
pub open spec fn ident_end(s: Seq<char>, i: int) -> int
    decreases s.len() - i,
{
    if 0 <= i < s.len() && is_ident_char(s[i]) {
        ident_end(s, i + 1)
    } else {
        i
    }
}

/// End of a line comment whose body starts at `i`: the index of the next
/// line break, or the input length.
pub open spec fn line_comment_end(s: Seq<char>, i: int) -> int
    decreases s.len() - i,
{
    if 0 <= i < s.len() && s[i] != '\n' {
        line_comment_end(s, i + 1)
    } else {
        i
    }
}

/// Index of the `*` of the first `*/` at or after `i`, if any.
pub open spec fn block_comment_close(s: Seq<char>, i: int) -> Option<int>
    decreases s.len() - i,
{
    if 0 <= i && i + 1 < s.len() {
        if s[i] == '*' && s[i + 1] == '/' {
            Some(i)
        } else {
            block_comment_close(s, i + 1)
        }
    } else {
        None
    }
}

/// Index of the first `"` at or after `i`, if any.
pub open spec fn string_close(s: Seq<char>, i: int) -> Option<int>
    decreases s.len() - i,
{
    if 0 <= i < s.len() {
        if s[i] == '"' {
            Some(i)
        } else {
            string_close(s, i + 1)
        }
    } else {
        None
    }
}

pub proof fn lemma_ident_end_bounds(s: Seq<char>, i: int)
    requires
        0 <= i <= s.len(),
    ensures
        i <= ident_end(s, i) <= s.len(),
    decreases s.len() - i,
{
    if 0 <= i < s.len() && is_ident_char(s[i]) {
        lemma_ident_end_bounds(s, i + 1);
    }
}

pub proof fn lemma_line_comment_end_bounds(s: Seq<char>, i: int)
    requires
        0 <= i <= s.len(),
    ensures
        i <= line_comment_end(s, i) <= s.len(),
    decreases s.len() - i,
{
    if 0 <= i < s.len() && s[i] != '\n' {
        lemma_line_comment_end_bounds(s, i + 1);
    }
}

pub proof fn lemma_block_comment_close_bounds(s: Seq<char>, i: int)
    requires
        0 <= i,
        block_comment_close(s, i) is Some,
    ensures
        i <= block_comment_close(s, i)->Some_0,
        block_comment_close(s, i)->Some_0 + 1 < s.len(),
    decreases s.len() - i,
{
    if i + 1 < s.len() && !(s[i] == '*' && s[i + 1] == '/') {
        lemma_block_comment_close_bounds(s, i + 1);
    }
}

pub proof fn lemma_string_close_bounds(s: Seq<char>, i: int)
    requires
        0 <= i,
        string_close(s, i) is Some,
    ensures
        i <= string_close(s, i)->Some_0 < s.len(),
    decreases s.len() - i,
{
    if i < s.len() && s[i] != '"' {
        lemma_string_close_bounds(s, i + 1);
    }
}

/// Position of the first significant character at or after `i`, skipping
/// whitespace and comments; `None` when a block comment never closes.
pub open spec fn skip_trivia(s: Seq<char>, i: int) -> Option<int>
    decreases s.len() - i,
        via skip_trivia_decreases
{
    if !(0 <= i < s.len()) {
        Some(i)
    } else if is_ws_char(s[i]) {
        skip_trivia(s, i + 1)
    } else if s[i] == '/' && i + 1 < s.len() && s[i + 1] == '/' {
        skip_trivia(s, line_comment_end(s, i + 2))
    } else if s[i] == '/' && i + 1 < s.len() && s[i + 1] == '*' {
        match block_comment_close(s, i + 2) {
            Some(j) => skip_trivia(s, j + 2),
            None => None,
        }
    } else {
        Some(i)
    }
}

#[via_fn]
proof fn skip_trivia_decreases(s: Seq<char>, i: int) {
    if 0 <= i < s.len() {
        if s[i] == '/' && i + 1 < s.len() && s[i + 1] == '/' {
            lemma_line_comment_end_bounds(s, i + 2);
        }
        if s[i] == '/' && i + 1 < s.len() && s[i + 1] == '*' {
            if block_comment_close(s, i + 2) is Some {
                lemma_block_comment_close_bounds(s, i + 2);
            }
        }
    }
}

pub proof fn lemma_skip_trivia_bounds(s: Seq<char>, i: int)
    requires
        0 <= i <= s.len(),
        skip_trivia(s, i) is Some,
    ensures
        i <= skip_trivia(s, i)->Some_0 <= s.len(),
    decreases s.len() - i,
{
    if i < s.len() {
        if is_ws_char(s[i]) {
            lemma_skip_trivia_bounds(s, i + 1);
        } else if s[i] == '/' && i + 1 < s.len() && s[i + 1] == '/' {
            lemma_line_comment_end_bounds(s, i + 2);
            lemma_skip_trivia_bounds(s, line_comment_end(s, i + 2));
        } else if s[i] == '/' && i + 1 < s.len() && s[i + 1] == '*' {
            if block_comment_close(s, i + 2) is Some {
                lemma_block_comment_close_bounds(s, i + 2);
                lemma_skip_trivia_bounds(s, block_comment_close(s, i + 2)->Some_0 + 2);
            }
        }
    }
}

/// The single token beginning at the significant position `i`, and the
/// position just past it; `None` when no token rule matches there.
pub open spec fn scan_token(s: Seq<char>, i: int) -> Option<(TokenV, int)> {
    if !(0 <= i < s.len()) {
        None
    } else {
        let c = s[i];
        if is_ident_start_char(c) {
            let j = ident_end(s, i + 1);
            Some((TokenV { kind: TokKind::Ident, text: s.subrange(i, j), start: i, end: j }, j))
        } else if c == '<' {
            let j = ident_end(s, i + 1);
            if i + 1 < j && j < s.len() && s[j] == '>' {
                Some(
                    (
                        TokenV {
                            kind: TokKind::Ident2,
                            text: s.subrange(i + 1, j),
                            start: i,
                            end: j + 1,
                        },
                        j + 1,
                    ),
                )
            } else {
                None
            }
        } else if c == '"' {
            match string_close(s, i + 1) {
                Some(j) => Some(
                    (
                        TokenV {
                            kind: TokKind::Str,
                            text: s.subrange(i + 1, j),
                            start: i,
                            end: j + 1,
                        },
                        j + 1,
                    ),
                ),
                None => None,
            }
        } else {
            match punct_kind(c) {
                Some(k) => Some(
                    (TokenV { kind: k, text: s.subrange(i, i + 1), start: i, end: i + 1 }, i + 1),
                ),
                None => None,
            }
        }
    }
}

/// The punctuation token kind of a single character, if it is one.
pub open spec fn punct_kind(c: char) -> Option<TokKind> {
    if c == '{' {
        Some(TokKind::LBrace)
    } else if c == '}' {
        Some(TokKind::RBrace)
    } else if c == '[' {
        Some(TokKind::LBracket)
    } else if c == ']' {
        Some(TokKind::RBracket)
    } else if c == '(' {
        Some(TokKind::LParen)
    } else if c == ')' {
        Some(TokKind::RParen)
    } else if c == ',' {
        Some(TokKind::Comma)
    } else if c == ';' {
        Some(TokKind::Semi)
    } else if c == '=' {
        Some(TokKind::Eq)
    } else {
        None
    }
}

pub proof fn lemma_scan_token_bounds(s: Seq<char>, i: int)
    requires
        scan_token(s, i) is Some,
    ensures
        i < scan_token(s, i)->Some_0.1 <= s.len(),
    decreases s.len() - i,
{
    let c = s[i];
    if is_ident_start_char(c) {
        lemma_ident_end_bounds(s, i + 1);
    } else if c == '"' {
        lemma_string_close_bounds(s, i + 1);
    }
}

/// The token sequence of the input from position `i` on; `None` when a
/// lexical error occurs at or after `i`.
pub open spec fn spec_lex(s: Seq<char>, i: int) -> Option<Seq<TokenV>>
    decreases s.len() - i,
        via spec_lex_decreases
{
    match skip_trivia(s, i) {
        None => None,
        Some(j) => if !(0 <= i <= s.len() && j < s.len()) {
            Some(Seq::empty())
        } else {
            match scan_token(s, j) {
                None => None,
                Some((t, k)) => match spec_lex(s, k) {
                    None => None,
                    Some(rest) => Some(seq![t] + rest),
                },
            }
        },
    }
}

#[via_fn]
proof fn spec_lex_decreases(s: Seq<char>, i: int) {
    if skip_trivia(s, i) is Some {
        let j = skip_trivia(s, i)->Some_0;
        if 0 <= i <= s.len() && j < s.len() {
            lemma_skip_trivia_bounds(s, i);
            if scan_token(s, j) is Some {
                lemma_scan_token_bounds(s, j);
            }
        }
    }
}


fn is_ws_char_x(c: char) -> (b: bool)
    ensures
        b == is_ws_char(c),
{
    c == ' ' || c == '\t' || c == '\n' || c == '\r'
}

fn is_ident_start_char_x(c: char) -> (b: bool)
    ensures
        b == is_ident_start_char(c),
{
    ('a' <= c && c <= 'z') || ('A' <= c && c <= 'Z') || c == '_'
}

fn is_ident_char_x(c: char) -> (b: bool)
    ensures
        b == is_ident_char(c),
{
    is_ident_start_char_x(c) || ('0' <= c && c <= '9') || c == '+' || c == '-'
}

fn ident_end_x(s: &str, n: usize, i: usize) -> (r: usize)
    requires
        n == s@.len(),
        i <= n,
    ensures
        r == ident_end(s@, i as int),
        i <= r <= n,
{
    let mut cur: usize = i;
    loop
        invariant
            n == s@.len(),
            i <= cur <= n,
            ident_end(s@, i as int) == ident_end(s@, cur as int),
        decreases n - cur,
    {
        if cur < n && is_ident_char_x(s.get_char(cur)) {
            cur = cur + 1;
        } else {
            return cur;
        }
    }
}

fn line_comment_end_x(s: &str, n: usize, i: usize) -> (r: usize)
    requires
        n == s@.len(),
        i <= n,
    ensures
        r == line_comment_end(s@, i as int),
        i <= r <= n,
{
    let mut cur: usize = i;
    loop
        invariant
            n == s@.len(),
            i <= cur <= n,
            line_comment_end(s@, i as int) == line_comment_end(s@, cur as int),
        decreases n - cur,
    {
        if cur < n && s.get_char(cur) != '\n' {
            cur = cur + 1;
        } else {
            return cur;
        }
    }
}

fn block_comment_close_x(s: &str, n: usize, i: usize) -> (r: Option<usize>)
    requires
        n == s@.len(),
        i <= n,
    ensures
        match r {
            Some(j) => block_comment_close(s@, i as int) == Some(j as int) && i <= j && j + 1 < n,
            None => block_comment_close(s@, i as int) is None,
        },
{
    let mut cur: usize = i;
    loop
        invariant
            n == s@.len(),
            i <= cur <= n,
            block_comment_close(s@, i as int) == block_comment_close(s@, cur as int),
        decreases n - cur,
    {
        if cur < n && cur + 1 < n {
            if s.get_char(cur) == '*' && s.get_char(cur + 1) == '/' {
                return Some(cur);
            } else {
                cur = cur + 1;
            }
        } else {
            return None;
        }
    }
}

fn string_close_x(s: &str, n: usize, i: usize) -> (r: Option<usize>)
    requires
        n == s@.len(),
        i <= n,
    ensures
        match r {
            Some(j) => string_close(s@, i as int) == Some(j as int) && i <= j < n,
            None => string_close(s@, i as int) is None,
        },
{
    let mut cur: usize = i;
    loop
        invariant
            n == s@.len(),
            i <= cur <= n,
            string_close(s@, i as int) == string_close(s@, cur as int),
        decreases n - cur,
    {
        if cur < n {
            if s.get_char(cur) == '"' {
                return Some(cur);
            } else {
                cur = cur + 1;
            }
        } else {
            return None;
        }
    }
}

fn skip_trivia_x(s: &str, n: usize, i: usize) -> (r: Result<usize, usize>)
    requires
        n == s@.len(),
        i <= n,
    ensures
        match r {
            Ok(j) => skip_trivia(s@, i as int) == Some(j as int) && i <= j <= n,
            Err(p) => skip_trivia(s@, i as int) is None && p < n,
        },
{
    let mut cur: usize = i;
    loop
        invariant
            n == s@.len(),
            i <= cur <= n,
            skip_trivia(s@, i as int) == skip_trivia(s@, cur as int),
        decreases n - cur,
    {
        if cur >= n {
            return Ok(cur);
        }
        let c = s.get_char(cur);
        if is_ws_char_x(c) {
            cur = cur + 1;
        } else if c == '/' && cur + 1 < n && s.get_char(cur + 1) == '/' {
            cur = line_comment_end_x(s, n, cur + 2);
        } else if c == '/' && cur + 1 < n && s.get_char(cur + 1) == '*' {
            match block_comment_close_x(s, n, cur + 2) {
                Some(j) => {
                    cur = j + 2;
                },
                None => {
                    return Err(cur);
                },
            }
        } else {
            return Ok(cur);
        }
    }
}

fn scan_token_x<'src>(s: &'src str, n: usize, i: usize) -> (r: Option<(Token<'src>, usize)>)
    requires
        n == s@.len(),
        i < n,
    ensures
        match r {
            Some((t, k)) => scan_token(s@, i as int) == Some((t@, k as int)) && i < k <= n,
            None => scan_token(s@, i as int) is None,
        },
{
    let c = s.get_char(i);
    if is_ident_start_char_x(c) {
        let j = ident_end_x(s, n, i + 1);
        let text = s.substring_char(i, j);
        Some((Token { kind: TokKind::Ident, text, start: i, end: j }, j))
    } else if c == '<' {
        let j = ident_end_x(s, n, i + 1);
        if i + 1 < j && j < n && s.get_char(j) == '>' {
            let text = s.substring_char(i + 1, j);
            Some((Token { kind: TokKind::Ident2, text, start: i, end: j + 1 }, j + 1))
        } else {
            None
        }
    } else if c == '"' {
        match string_close_x(s, n, i + 1) {
            Some(j) => {
                let text = s.substring_char(i + 1, j);
                Some((Token { kind: TokKind::Str, text, start: i, end: j + 1 }, j + 1))
            },
            None => None,
        }
    } else {
        let kind = if c == '{' {
            Some(TokKind::LBrace)
        } else if c == '}' {
            Some(TokKind::RBrace)
        } else if c == '[' {
            Some(TokKind::LBracket)
        } else if c == ']' {
            Some(TokKind::RBracket)
        } else if c == '(' {
            Some(TokKind::LParen)
        } else if c == ')' {
            Some(TokKind::RParen)
        } else if c == ',' {
            Some(TokKind::Comma)
        } else if c == ';' {
            Some(TokKind::Semi)
        } else if c == '=' {
            Some(TokKind::Eq)
        } else {
            None
        };
        match kind {
            Some(k) => {
                let text = s.substring_char(i, i + 1);
                Some((Token { kind: k, text, start: i, end: i + 1 }, i + 1))
            },
            None => None,
        }
    }
}


/// The token's text is exactly the source text of its recorded span:
/// the whole lexeme for most kinds, the lexeme without its one-character
/// delimiters for keycode and string tokens.
pub open spec fn token_faithful(s: Seq<char>, t: TokenV) -> bool {
    &&& 0 <= t.start < t.end <= s.len()
    &&& match t.kind {
        TokKind::Ident2 | TokKind::Str => t.start + 2 <= t.end && t.text == s.subrange(
            t.start + 1,
            t.end - 1,
        ),
        _ => t.text == s.subrange(t.start, t.end),
    }
}

pub proof fn lemma_scan_token_faithful(s: Seq<char>, i: int)
    requires
        scan_token(s, i) is Some,
    ensures
        token_faithful(s, scan_token(s, i)->Some_0.0),
{
    let c = s[i];
    if is_ident_start_char(c) {
        lemma_ident_end_bounds(s, i + 1);
    } else if c == '"' {
        lemma_string_close_bounds(s, i + 1);
    }
}

/// Round-trip on leaf capture: every token a successful lexing yields is
/// faithful to the source, so re-inserting each token's text at its
/// recorded span reproduces the relevant portion of the input.
pub proof fn lemma_lex_faithful(s: Seq<char>, i: int)
    requires
        0 <= i <= s.len(),
        spec_lex(s, i) is Some,
    ensures
        forall|k: int|
            0 <= k < spec_lex(s, i)->Some_0.len() ==> token_faithful(
                s,
                #[trigger] spec_lex(s, i)->Some_0[k],
            ),
    decreases s.len() - i,
{
    let j = skip_trivia(s, i)->Some_0;
    lemma_skip_trivia_bounds(s, i);
    if j < s.len() {
        let (t, k) = scan_token(s, j)->Some_0;
        lemma_scan_token_faithful(s, j);
        lemma_scan_token_bounds(s, j);
        lemma_lex_faithful(s, k);
        let rest = spec_lex(s, k)->Some_0;
        let whole = spec_lex(s, i)->Some_0;
        assert forall|m: int| 0 <= m < whole.len() implies token_faithful(
            s,
            #[trigger] whole[m],
        ) by {
            if m == 0 {
                assert(whole[m] == t);
            } else {
                assert(whole[m] == rest[m - 1]);
            }
        }
    }
}

/// Prefixing already-read tokens onto the rest of a lexing result: how
/// the token sequence of an input relates to that of its own tail.
spec fn cons_lex(pre: Seq<TokenV>, r: Option<Seq<TokenV>>) -> Option<Seq<TokenV>> {
    match r {
        Some(rest) => Some(pre + rest),
        None => None,
    }
}

proof fn lemma_cons_lex_empty(r: Option<Seq<TokenV>>)
    ensures
        cons_lex(Seq::<TokenV>::empty(), r) == r,
{
    match r {
        Some(rest) => {
            assert(Seq::<TokenV>::empty() + rest =~= rest);
        },
        None => {},
    }
}

proof fn lemma_cons_lex_assoc(pre: Seq<TokenV>, x: TokenV, r: Option<Seq<TokenV>>)
    ensures
        cons_lex(pre + seq![x], r) == cons_lex(pre, cons_lex(seq![x], r)),
{
    match r {
        Some(rest) => {
            assert((pre + seq![x]) + rest =~= pre + (seq![x] + rest));
        },
        None => {},
    }
}

proof fn lemma_cons_lex_close(pre: Seq<TokenV>)
    ensures
        cons_lex(pre, Some(Seq::<TokenV>::empty())) == Some(pre),
{
    assert(pre + Seq::<TokenV>::empty() =~= pre);
}

/// Turns the input text into its token sequence, or reports the first
/// lexical error. Success and the tokens returned are exactly what
/// [`spec_lex`] states of the input.
pub fn lex<'src>(s: &'src str) -> (r: Result<Vec<Token<'src>>, ParseError>)
    ensures
        match r {
            Ok(toks) => spec_lex(s@, 0) == Some(toks@.map_values(|t: Token<'src>| t@)),
            Err(e) => spec_lex(s@, 0) is None && e.kind == ParseErrorKind::Lexical
                && error_located(s@, e) && e.pos < s@.len(),
        },
{
    let n = s.unicode_len();
    let mut acc: Vec<Token<'src>> = Vec::new();
    let mut pos: usize = 0;
    proof {
        lemma_cons_lex_empty(spec_lex(s@, 0));
        assert(acc@.map_values(|t: Token<'src>| t@) =~= Seq::<TokenV>::empty());
    }
    loop
        invariant
            n == s@.len(),
            pos <= n,
            spec_lex(s@, 0) == cons_lex(
                acc@.map_values(|t: Token<'src>| t@),
                spec_lex(s@, pos as int),
            ),
        decreases n - pos,
    {
        match skip_trivia_x(s, n, pos) {
            Err(p) => {
                return Err(
                    make_error(
                        s,
                        n,
                        p,
                        ParseErrorKind::Lexical,
                        "a closed block comment",
                        "an unterminated block comment",
                    ),
                );
            },
            Ok(j) => {
                if j >= n {
                    proof {
                        lemma_cons_lex_close(acc@.map_values(|t: Token<'src>| t@));
                    }
                    return Ok(acc);
                }
                match scan_token_x(s, n, j) {
                    None => {
                        return Err(
                            make_error(
                                s,
                                n,
                                j,
                                ParseErrorKind::Lexical,
                                "a token",
                                "a character that begins no token",
                            ),
                        );
                    },
                    Some((t, k)) => {
                        let ghost accv = acc@.map_values(|x: Token<'src>| x@);
                        proof {
                            lemma_cons_lex_assoc(accv, t@, spec_lex(s@, k as int));
                        }
                        acc.push(t);
                        proof {
                            assert(acc@.map_values(|x: Token<'src>| x@) =~= accv + seq![t@]);
                        }
                        pos = k;
                    },
                }
            },
        }
    }
}

} // verus!
