//! General properties of the parser, stated and proved once and for all
//! inputs.

use vstd::prelude::*;

use crate::ast::FileV;
use crate::grammar::{
    at_kind, spec_ident, spec_ident2, spec_key_names, spec_key_values, spec_parse_file,
    spec_string,
};
use crate::lex::{lemma_lex_faithful, spec_lex, token_faithful, TokKind, TokenV};

verus! {

/// Parsing is deterministic: parsing the same text twice yields
/// structurally equal results. Any two results of
/// [`crate::parse::parse_file`] on one text are each pinned to
/// [`spec_parse_file`] of that text, so their views coincide — a tree for
/// the same tree, an error for an error.
pub proof fn lemma_parse_deterministic(s: Seq<char>, r1: Option<FileV>, r2: Option<FileV>)
    requires
        r1 == spec_parse_file(s),
        r2 == spec_parse_file(s),
    ensures
        r1 == r2,
{
}

/// The two key-body shapes are exhaustive and exclusive: every key body
/// that derives at all derives exactly one of the flat symbol list and
/// the named attribute list, and which one is fixed by the first token —
/// a list exactly when the body opens with `[`.
pub proof fn lemma_key_values_exclusive(ts: Seq<TokenV>, i: int)
    requires
        spec_key_values(ts, i) is Some,
    ensures
        spec_key_values(ts, i)->Some_0.0 is KeyNames <==> at_kind(ts, i, TokKind::LBracket),
        spec_key_values(ts, i)->Some_0.0 is KeyDefs <==> !at_kind(ts, i, TokKind::LBracket),
{
}

/// Round-trip on leaf capture: in a lexed input, the text the leaf rules
/// (`ident`, `ident2`, `string`) store in a node is exactly the source
/// text of the token's recorded span — without the one-character
/// delimiters for keycodes and quoted strings — so re-inserting it at
/// that span reproduces the relevant portion of the source.
pub proof fn lemma_leaf_round_trip(s: Seq<char>, ts: Seq<TokenV>, i: int)
    requires
        spec_lex(s, 0) == Some(ts),
        0 <= i < ts.len(),
    ensures
        spec_ident(ts, i) is Some ==> spec_ident(ts, i)->Some_0.0 == s.subrange(
            ts[i].start,
            ts[i].end,
        ),
        spec_ident2(ts, i) is Some ==> spec_ident2(ts, i)->Some_0.0 == s.subrange(
            ts[i].start + 1,
            ts[i].end - 1,
        ),
        spec_string(ts, i) is Some ==> spec_string(ts, i)->Some_0.0 == s.subrange(
            ts[i].start + 1,
            ts[i].end - 1,
        ),
{
    lemma_lex_faithful(s, 0);
    assert(token_faithful(s, spec_lex(s, 0)->Some_0[i]));
}

/// An empty bracketed symbol list `[ ]` is not an error: it derives, and
/// denotes zero symbol levels.
pub proof fn lemma_empty_key_names(ts: Seq<TokenV>, i: int)
    requires
        at_kind(ts, i, TokKind::LBracket),
        at_kind(ts, i + 1, TokKind::RBracket),
    ensures
        spec_key_names(ts, i) == Some((Seq::<Seq<char>>::empty(), i + 2)),
{
}

} // verus!
