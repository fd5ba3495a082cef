//! The grammar, as a mathematical function from token sequences to trees.
//!
//! One spec function per grammar rule, each taking the token sequence and
//! a position and yielding the parsed node's view together with the
//! position just past it, or `None` when the rule does not match there.
//! Alternatives are committed choices with the bounded lookahead the
//! language needs (one token, except the one-identifier peek that tells a
//! flat symbol list from an attribute list in a key body), so each rule
//! is a function: parsing is deterministic by construction.
//!
//! Keywords are contextual: a keyword is an identifier token with a fixed
//! text, examined only where the grammar dispatches on it, so keywords
//! remain usable as ordinary identifiers elsewhere.
//!
//! [`spec_parse_file`] composes the lexical layer and the `file` rule and
//! is the contract of the executable parser.

use vstd::prelude::*;

use crate::ast::{
    DefaultPartial, DefinitionV, FileV, HiddenPartial, How, KeyDefV, KeyValuesV, ModifierV,
    Partial, SymbolV, SymbolsV, WhatV,
};
use crate::lex::{spec_lex, TokKind, TokenV};

verus! {

/// The keyword beginning a `default partial` merge mode.
pub open spec fn kw_default() -> Seq<char> {
    "default"@
}

/// The keyword beginning a `hidden partial` merge mode.
pub open spec fn kw_hidden() -> Seq<char> {
    "hidden"@
}

/// The keyword of the bare `partial` merge mode, and the second word of
/// the other two.
pub open spec fn kw_partial() -> Seq<char> {
    "partial"@
}

/// The keyword opening a symbols block.
pub open spec fn kw_xkb_symbols() -> Seq<char> {
    "xkb_symbols"@
}

/// The keyword of an inclusion statement.
pub open spec fn kw_include() -> Seq<char> {
    "include"@
}

/// The keyword of a group-label statement.
pub open spec fn kw_name() -> Seq<char> {
    "name"@
}

/// The keyword of a key statement.
pub open spec fn kw_key() -> Seq<char> {
    "key"@
}

/// The keyword of a modifier-map statement.
pub open spec fn kw_modifier_map() -> Seq<char> {
    "modifier_map"@
}

/// The keyword of a type attribute inside a key body.
pub open spec fn kw_type() -> Seq<char> {
    "type"@
}

/// The keyword of a per-group symbol attribute inside a key body.
pub open spec fn kw_symbols() -> Seq<char> {
    "symbols"@
}

/// There is a token of kind `k` at position `i`.
pub open spec fn at_kind(ts: Seq<TokenV>, i: int, k: TokKind) -> bool {
    0 <= i < ts.len() && ts[i].kind == k
}

/// There is an identifier token with text `w` at position `i`.
pub open spec fn at_kw(ts: Seq<TokenV>, i: int, w: Seq<char>) -> bool {
    at_kind(ts, i, TokKind::Ident) && ts[i].text == w
}

/// Prefixing already-parsed items onto the rest of a repetition rule's
/// result: how a repetition relates to its own tail.
pub open spec fn cons_result<T>(pre: Seq<T>, r: Option<(Seq<T>, int)>) -> Option<(Seq<T>, int)> {
    match r {
        Some((rest, k)) => Some((pre + rest, k)),
        None => None,
    }
}

pub proof fn lemma_cons_result_empty<T>(r: Option<(Seq<T>, int)>)
    ensures
        cons_result(Seq::<T>::empty(), r) == r,
{
    match r {
        Some((rest, k)) => {
            assert(Seq::<T>::empty() + rest =~= rest);
        },
        None => {},
    }
}

pub proof fn lemma_cons_result_assoc<T>(pre: Seq<T>, x: T, r: Option<(Seq<T>, int)>)
    ensures
        cons_result(pre + seq![x], r) == cons_result(pre, cons_result(seq![x], r)),
{
    match r {
        Some((rest, k)) => {
            assert((pre + seq![x]) + rest =~= pre + (seq![x] + rest));
        },
        None => {},
    }
}

pub proof fn lemma_cons_result_close<T>(pre: Seq<T>, j: int)
    ensures
        cons_result(pre, Some((Seq::<T>::empty(), j))) == Some((pre, j)),
{
    assert(pre + Seq::<T>::empty() =~= pre);
}

/// The `how` rule: one of the three merge-mode keyword phrases.
pub open spec fn spec_how(ts: Seq<TokenV>, i: int) -> Option<(How, int)> {
    if at_kw(ts, i, kw_default()) {
        if at_kw(ts, i + 1, kw_partial()) {
            Some((How::DefaultPartial(DefaultPartial), i + 2))
        } else {
            None
        }
    } else if at_kw(ts, i, kw_hidden()) {
        if at_kw(ts, i + 1, kw_partial()) {
            Some((How::HiddenPartial(HiddenPartial), i + 2))
        } else {
            None
        }
    } else if at_kw(ts, i, kw_partial()) {
        Some((How::Partial(Partial), i + 1))
    } else {
        None
    }
}

/// The `ident` rule: any identifier token, keywords included.
pub open spec fn spec_ident(ts: Seq<TokenV>, i: int) -> Option<(Seq<char>, int)> {
    if at_kind(ts, i, TokKind::Ident) {
        Some((ts[i].text, i + 1))
    } else {
        None
    }
}

/// The `ident2` rule: a delimited keycode token; its inner text.
pub open spec fn spec_ident2(ts: Seq<TokenV>, i: int) -> Option<(Seq<char>, int)> {
    if at_kind(ts, i, TokKind::Ident2) {
        Some((ts[i].text, i + 1))
    } else {
        None
    }
}

/// The `string` rule: a quoted string token; its content.
pub open spec fn spec_string(ts: Seq<TokenV>, i: int) -> Option<(Seq<char>, int)> {
    if at_kind(ts, i, TokKind::Str) {
        Some((ts[i].text, i + 1))
    } else {
        None
    }
}

/// The fragment names of a `what` preamble: identifiers up to, but not
/// including, the keyword that opens a symbols block.
pub open spec fn spec_what_names(ts: Seq<TokenV>, i: int) -> (Seq<Seq<char>>, int)
    decreases ts.len() - i,
{
    if at_kind(ts, i, TokKind::Ident) && ts[i].text != kw_xkb_symbols() {
        let (rest, j) = spec_what_names(ts, i + 1);
        (seq![ts[i].text] + rest, j)
    } else {
        (Seq::empty(), i)
    }
}

/// The `what` rule: a merge mode followed by one or more fragment names.
pub open spec fn spec_what(ts: Seq<TokenV>, i: int) -> Option<(WhatV, int)> {
    match spec_how(ts, i) {
        None => None,
        Some((how, j)) => {
            let (names, k) = spec_what_names(ts, j);
            if names.len() == 0 {
                None
            } else {
                Some((WhatV { how, name: names }, k))
            }
        },
    }
}

/// Identifiers separated by commas, at least one, no trailing comma.
pub open spec fn spec_ident_list(ts: Seq<TokenV>, i: int) -> Option<(Seq<Seq<char>>, int)>
    decreases ts.len() - i,
{
    if at_kind(ts, i, TokKind::Ident) {
        if at_kind(ts, i + 1, TokKind::Comma) {
            match spec_ident_list(ts, i + 2) {
                None => None,
                Some((rest, j)) => Some((seq![ts[i].text] + rest, j)),
            }
        } else {
            Some((seq![ts[i].text], i + 1))
        }
    } else {
        None
    }
}

/// The `key_names` rule: a bracketed, possibly empty symbol list.
pub open spec fn spec_key_names(ts: Seq<TokenV>, i: int) -> Option<(Seq<Seq<char>>, int)> {
    if at_kind(ts, i, TokKind::LBracket) {
        if at_kind(ts, i + 1, TokKind::RBracket) {
            Some((Seq::empty(), i + 2))
        } else {
            match spec_ident_list(ts, i + 1) {
                None => None,
                Some((ids, j)) => if at_kind(ts, j, TokKind::RBracket) {
                    Some((ids, j + 1))
                } else {
                    None
                },
            }
        }
    } else {
        None
    }
}

/// The `key_def` rule: a type assignment or a per-group symbol list.
pub open spec fn spec_key_def(ts: Seq<TokenV>, i: int) -> Option<(KeyDefV, int)> {
    if at_kw(ts, i, kw_type()) {
        if at_kind(ts, i + 1, TokKind::Eq) && (at_kind(ts, i + 2, TokKind::Str) || at_kind(
            ts,
            i + 2,
            TokKind::Ident,
        )) {
            Some((KeyDefV::TypeDef { content: ts[i + 2].text }, i + 3))
        } else {
            None
        }
    } else if at_kw(ts, i, kw_symbols()) {
        if at_kind(ts, i + 1, TokKind::LBracket) && at_kind(ts, i + 2, TokKind::Ident) && at_kind(
            ts,
            i + 3,
            TokKind::RBracket,
        ) && at_kind(ts, i + 4, TokKind::Eq) {
            match spec_key_names(ts, i + 5) {
                None => None,
                Some((ids, j)) => Some(
                    (KeyDefV::SymbolDef { name: ts[i + 2].text, values: ids }, j),
                ),
            }
        } else {
            None
        }
    } else {
        None
    }
}

pub proof fn lemma_spec_ident_list_bounds(ts: Seq<TokenV>, i: int)
    requires
        spec_ident_list(ts, i) is Some,
    ensures
        i < spec_ident_list(ts, i)->Some_0.1 <= ts.len(),
    decreases ts.len() - i,
{
    if at_kind(ts, i, TokKind::Ident) && at_kind(ts, i + 1, TokKind::Comma) {
        lemma_spec_ident_list_bounds(ts, i + 2);
    }
}

pub proof fn lemma_spec_key_names_bounds(ts: Seq<TokenV>, i: int)
    requires
        spec_key_names(ts, i) is Some,
    ensures
        i < spec_key_names(ts, i)->Some_0.1 <= ts.len(),
{
    if at_kind(ts, i, TokKind::LBracket) && !at_kind(ts, i + 1, TokKind::RBracket) {
        lemma_spec_ident_list_bounds(ts, i + 1);
    }
}

pub proof fn lemma_spec_key_def_bounds(ts: Seq<TokenV>, i: int)
    requires
        spec_key_def(ts, i) is Some,
    ensures
        i < spec_key_def(ts, i)->Some_0.1 <= ts.len(),
{
    if at_kw(ts, i, kw_symbols()) && spec_key_names(ts, i + 5) is Some {
        lemma_spec_key_names_bounds(ts, i + 5);
    }
}

/// After one attribute definition: further `, key_def` steps, with one
/// optional trailing comma before the closing brace.
pub open spec fn spec_key_def_rest(ts: Seq<TokenV>, i: int) -> Option<(Seq<KeyDefV>, int)>
    decreases ts.len() - i,
        via spec_key_def_rest_decreases
{
    if at_kind(ts, i, TokKind::Comma) {
        if at_kind(ts, i + 1, TokKind::Ident) {
            match spec_key_def(ts, i + 1) {
                None => None,
                Some((d, j)) => match spec_key_def_rest(ts, j) {
                    None => None,
                    Some((rest, k)) => Some((seq![d] + rest, k)),
                },
            }
        } else {
            Some((Seq::empty(), i + 1))
        }
    } else {
        Some((Seq::empty(), i))
    }
}

#[via_fn]
proof fn spec_key_def_rest_decreases(ts: Seq<TokenV>, i: int) {
    if at_kind(ts, i, TokKind::Comma) && at_kind(ts, i + 1, TokKind::Ident) {
        if spec_key_def(ts, i + 1) is Some {
            lemma_spec_key_def_bounds(ts, i + 1);
        }
    }
}

/// The `key_defs` rule: one or more attribute definitions.
pub open spec fn spec_key_defs(ts: Seq<TokenV>, i: int) -> Option<(Seq<KeyDefV>, int)> {
    match spec_key_def(ts, i) {
        None => None,
        Some((d, j)) => match spec_key_def_rest(ts, j) {
            None => None,
            Some((rest, k)) => Some((seq![d] + rest, k)),
        },
    }
}

/// The `key_values` rule: the two mutually exclusive key-body shapes,
/// told apart by one token of lookahead past a leading identifier.
pub open spec fn spec_key_values(ts: Seq<TokenV>, i: int) -> Option<(KeyValuesV, int)> {
    if at_kind(ts, i, TokKind::LBracket) {
        match spec_key_names(ts, i) {
            None => None,
            Some((ids, j)) => Some((KeyValuesV::KeyNames(ids), j)),
        }
    } else if at_kind(ts, i, TokKind::Ident) && (at_kind(ts, i + 1, TokKind::Eq) || at_kind(
        ts,
        i + 1,
        TokKind::LBracket,
    )) {
        match spec_key_defs(ts, i) {
            None => None,
            Some((ds, j)) => Some((KeyValuesV::KeyDefs(ds), j)),
        }
    } else {
        None
    }
}

/// The `modifier` rule: a keycode token or a plain identifier.
pub open spec fn spec_modifier(ts: Seq<TokenV>, i: int) -> Option<(ModifierV, int)> {
    if at_kind(ts, i, TokKind::Ident2) {
        Some((ModifierV::KeyId(ts[i].text), i + 1))
    } else if at_kind(ts, i, TokKind::Ident) {
        Some((ModifierV::Ident(ts[i].text), i + 1))
    } else {
        None
    }
}

/// Modifiers separated by commas, at least one, no trailing comma.
pub open spec fn spec_modifier_list1(ts: Seq<TokenV>, i: int) -> Option<(Seq<ModifierV>, int)>
    decreases ts.len() - i,
{
    match spec_modifier(ts, i) {
        None => None,
        Some((m, j)) => if at_kind(ts, j, TokKind::Comma) {
            match spec_modifier_list1(ts, j + 1) {
                None => None,
                Some((rest, k)) => Some((seq![m] + rest, k)),
            }
        } else {
            Some((seq![m], j))
        },
    }
}

/// The member list of a modifier map, possibly empty.
pub open spec fn spec_modifier_list(ts: Seq<TokenV>, i: int) -> Option<(Seq<ModifierV>, int)> {
    if at_kind(ts, i, TokKind::Ident2) || at_kind(ts, i, TokKind::Ident) {
        spec_modifier_list1(ts, i)
    } else {
        Some((Seq::empty(), i))
    }
}

pub proof fn lemma_spec_modifier_list1_bounds(ts: Seq<TokenV>, i: int)
    requires
        spec_modifier_list1(ts, i) is Some,
    ensures
        i < spec_modifier_list1(ts, i)->Some_0.1 <= ts.len(),
    decreases ts.len() - i,
{
    match spec_modifier(ts, i) {
        Some((m, j)) => {
            if at_kind(ts, j, TokKind::Comma) {
                lemma_spec_modifier_list1_bounds(ts, j + 1);
            }
        },
        None => {},
    }
}

pub proof fn lemma_spec_key_def_rest_bounds(ts: Seq<TokenV>, i: int)
    requires
        spec_key_def_rest(ts, i) is Some,
        i <= ts.len(),
    ensures
        i <= spec_key_def_rest(ts, i)->Some_0.1 <= ts.len(),
    decreases ts.len() - i,
{
    if at_kind(ts, i, TokKind::Comma) && at_kind(ts, i + 1, TokKind::Ident) {
        if spec_key_def(ts, i + 1) is Some {
            lemma_spec_key_def_bounds(ts, i + 1);
            lemma_spec_key_def_rest_bounds(ts, spec_key_def(ts, i + 1)->Some_0.1);
        }
    }
}

pub proof fn lemma_spec_key_values_bounds(ts: Seq<TokenV>, i: int)
    requires
        spec_key_values(ts, i) is Some,
        0 <= i <= ts.len(),
    ensures
        i < spec_key_values(ts, i)->Some_0.1 <= ts.len(),
{
    if at_kind(ts, i, TokKind::LBracket) {
        lemma_spec_key_names_bounds(ts, i);
    } else {
        if spec_key_def(ts, i) is Some {
            lemma_spec_key_def_bounds(ts, i);
            if spec_key_def_rest(ts, spec_key_def(ts, i)->Some_0.1) is Some {
                lemma_spec_key_def_rest_bounds(ts, spec_key_def(ts, i)->Some_0.1);
            }
        }
    }
}

/// The `symbol` rule: one statement, dispatched on its leading keyword.
pub open spec fn spec_symbol(ts: Seq<TokenV>, i: int) -> Option<(SymbolV, int)> {
    if at_kw(ts, i, kw_include()) {
        if at_kind(ts, i + 1, TokKind::Str) {
            Some((SymbolV::Include { name: ts[i + 1].text }, i + 2))
        } else {
            None
        }
    } else if at_kw(ts, i, kw_name()) {
        if at_kind(ts, i + 1, TokKind::LBracket) && at_kind(ts, i + 2, TokKind::Ident) && at_kind(
            ts,
            i + 3,
            TokKind::RBracket,
        ) && at_kind(ts, i + 4, TokKind::Eq) && at_kind(ts, i + 5, TokKind::Str) {
            Some((SymbolV::Name { group: ts[i + 2].text, name: ts[i + 5].text }, i + 6))
        } else {
            None
        }
    } else if at_kw(ts, i, kw_key()) {
        if at_kind(ts, i + 1, TokKind::Ident2) && at_kind(ts, i + 2, TokKind::LBrace) {
            match spec_key_values(ts, i + 3) {
                None => None,
                Some((kv, j)) => if at_kind(ts, j, TokKind::RBrace) {
                    Some((SymbolV::Key { id: ts[i + 1].text, values: kv }, j + 1))
                } else {
                    None
                },
            }
        } else {
            None
        }
    } else if at_kw(ts, i, kw_modifier_map()) {
        if at_kind(ts, i + 1, TokKind::Ident) && at_kind(ts, i + 2, TokKind::LBrace) {
            match spec_modifier_list(ts, i + 3) {
                None => None,
                Some((ms, j)) => if at_kind(ts, j, TokKind::RBrace) {
                    Some((SymbolV::ModifierMap { name: ts[i + 1].text, values: ms }, j + 1))
                } else {
                    None
                },
            }
        } else {
            None
        }
    } else {
        None
    }
}

pub proof fn lemma_spec_symbol_bounds(ts: Seq<TokenV>, i: int)
    requires
        spec_symbol(ts, i) is Some,
    ensures
        i < spec_symbol(ts, i)->Some_0.1 <= ts.len(),
{
    if at_kw(ts, i, kw_key()) {
        if at_kind(ts, i + 1, TokKind::Ident2) && at_kind(ts, i + 2, TokKind::LBrace) {
            if spec_key_values(ts, i + 3) is Some {
                lemma_spec_key_values_bounds(ts, i + 3);
            }
        }
    }
    if at_kw(ts, i, kw_modifier_map()) {
        if spec_modifier_list1(ts, i + 3) is Some {
            lemma_spec_modifier_list1_bounds(ts, i + 3);
        }
    }
}

/// The statement list of a symbols block: statements each terminated by a
/// semicolon, up to the closing brace.
pub open spec fn spec_symbol_list(ts: Seq<TokenV>, i: int) -> Option<(Seq<SymbolV>, int)>
    decreases ts.len() - i,
        via spec_symbol_list_decreases
{
    if at_kind(ts, i, TokKind::Ident) {
        match spec_symbol(ts, i) {
            None => None,
            Some((sym, j)) => if at_kind(ts, j, TokKind::Semi) {
                match spec_symbol_list(ts, j + 1) {
                    None => None,
                    Some((rest, k)) => Some((seq![sym] + rest, k)),
                }
            } else {
                None
            },
        }
    } else {
        Some((Seq::empty(), i))
    }
}

#[via_fn]
proof fn spec_symbol_list_decreases(ts: Seq<TokenV>, i: int) {
    if at_kind(ts, i, TokKind::Ident) && spec_symbol(ts, i) is Some {
        lemma_spec_symbol_bounds(ts, i);
    }
}

/// The `symbols` rule: the block keyword, the block name, and the braced
/// statement list.
pub open spec fn spec_symbols_block(ts: Seq<TokenV>, i: int) -> Option<(SymbolsV, int)> {
    if at_kw(ts, i, kw_xkb_symbols()) && at_kind(ts, i + 1, TokKind::Str) && at_kind(
        ts,
        i + 2,
        TokKind::LBrace,
    ) {
        match spec_symbol_list(ts, i + 3) {
            None => None,
            Some((syms, j)) => if at_kind(ts, j, TokKind::RBrace) {
                Some((SymbolsV { name: ts[i + 1].text, symbols: syms }, j + 1))
            } else {
                None
            },
        }
    } else {
        None
    }
}

pub proof fn lemma_spec_symbol_list_bounds(ts: Seq<TokenV>, i: int)
    requires
        spec_symbol_list(ts, i) is Some,
        i <= ts.len(),
    ensures
        i <= spec_symbol_list(ts, i)->Some_0.1 <= ts.len(),
    decreases ts.len() - i,
{
    if at_kind(ts, i, TokKind::Ident) && spec_symbol(ts, i) is Some {
        lemma_spec_symbol_bounds(ts, i);
        let j = spec_symbol(ts, i)->Some_0.1;
        if at_kind(ts, j, TokKind::Semi) && spec_symbol_list(ts, j + 1) is Some {
            lemma_spec_symbol_list_bounds(ts, j + 1);
        }
    }
}

/// The `definition` rule: an optional preamble and one symbols block,
/// terminated by a semicolon.
pub open spec fn spec_definition(ts: Seq<TokenV>, i: int) -> Option<(DefinitionV, int)> {
    if at_kw(ts, i, kw_default()) || at_kw(ts, i, kw_hidden()) || at_kw(ts, i, kw_partial()) {
        match spec_what(ts, i) {
            None => None,
            Some((w, j)) => spec_definition_tail(ts, j, Some(w)),
        }
    } else {
        spec_definition_tail(ts, i, None)
    }
}

/// The symbols block and terminating semicolon of a definition.
pub open spec fn spec_definition_tail(ts: Seq<TokenV>, i: int, what: Option<WhatV>) -> Option<
    (DefinitionV, int),
> {
    match spec_symbols_block(ts, i) {
        None => None,
        Some((sym, j)) => if at_kind(ts, j, TokKind::Semi) {
            Some((DefinitionV { what, symbols: sym }, j + 1))
        } else {
            None
        },
    }
}

pub proof fn lemma_spec_what_names_bounds(ts: Seq<TokenV>, i: int)
    requires
        i <= ts.len(),
    ensures
        i <= spec_what_names(ts, i).1 <= ts.len(),
        spec_what_names(ts, i).0.len() > 0 ==> i < spec_what_names(ts, i).1,
    decreases ts.len() - i,
{
    if at_kind(ts, i, TokKind::Ident) && ts[i].text != kw_xkb_symbols() {
        lemma_spec_what_names_bounds(ts, i + 1);
    }
}

pub proof fn lemma_spec_definition_bounds(ts: Seq<TokenV>, i: int)
    requires
        spec_definition(ts, i) is Some,
        0 <= i <= ts.len(),
    ensures
        i < spec_definition(ts, i)->Some_0.1 <= ts.len(),
{
    if at_kw(ts, i, kw_default()) || at_kw(ts, i, kw_hidden()) || at_kw(ts, i, kw_partial()) {
        if spec_what(ts, i) is Some {
            let j = spec_what(ts, i)->Some_0.1;
            match spec_how(ts, i) {
                Some((how, h)) => {
                    lemma_spec_what_names_bounds(ts, h);
                },
                None => {},
            }
            lemma_spec_definition_tail_bounds(ts, j, Some(spec_what(ts, i)->Some_0.0));
        }
    } else {
        lemma_spec_definition_tail_bounds(ts, i, None);
    }
}

pub proof fn lemma_spec_definition_tail_bounds(ts: Seq<TokenV>, i: int, what: Option<WhatV>)
    requires
        spec_definition_tail(ts, i, what) is Some,
        0 <= i <= ts.len(),
    ensures
        i < spec_definition_tail(ts, i, what)->Some_0.1 <= ts.len(),
{
    if spec_symbols_block(ts, i) is Some {
        lemma_spec_symbol_list_bounds(ts, i + 3);
    }
}

/// The `file` rule from position `i`: definitions until the end of the
/// token sequence; anything that is neither a definition nor the end
/// fails the parse.
pub open spec fn spec_file_defs(ts: Seq<TokenV>, i: int) -> Option<(Seq<DefinitionV>, int)>
    decreases ts.len() - i,
        via spec_file_defs_decreases
{
    if 0 <= i < ts.len() {
        match spec_definition(ts, i) {
            None => None,
            Some((d, j)) => match spec_file_defs(ts, j) {
                None => None,
                Some((rest, k)) => Some((seq![d] + rest, k)),
            },
        }
    } else {
        Some((Seq::empty(), i))
    }
}

#[via_fn]
proof fn spec_file_defs_decreases(ts: Seq<TokenV>, i: int) {
    if 0 <= i < ts.len() && spec_definition(ts, i) is Some {
        lemma_spec_definition_bounds(ts, i);
    }
}

/// What parsing a whole document means: lex the text, then derive the
/// `file` rule over all of the tokens. This function is the contract of
/// the executable parser, so everything it returns is fixed by the input
/// text alone.
pub open spec fn spec_parse_file(s: Seq<char>) -> Option<FileV> {
    match spec_lex(s, 0) {
        None => None,
        Some(ts) => match spec_file_defs(ts, 0) {
            None => None,
            Some((defs, k)) => Some(FileV { definitions: defs }),
        },
    }
}

/// Parsing a prefix of the text as one `how` rule.
pub open spec fn spec_parse_how(s: Seq<char>) -> Option<How> {
    match spec_lex(s, 0) {
        None => None,
        Some(ts) => match spec_how(ts, 0) {
            None => None,
            Some((h, j)) => Some(h),
        },
    }
}

/// Parsing a prefix of the text as one `ident` rule.
pub open spec fn spec_parse_ident(s: Seq<char>) -> Option<Seq<char>> {
    match spec_lex(s, 0) {
        None => None,
        Some(ts) => match spec_ident(ts, 0) {
            None => None,
            Some((t, j)) => Some(t),
        },
    }
}

/// Parsing a prefix of the text as one `what` rule.
pub open spec fn spec_parse_what(s: Seq<char>) -> Option<WhatV> {
    match spec_lex(s, 0) {
        None => None,
        Some(ts) => match spec_what(ts, 0) {
            None => None,
            Some((w, j)) => Some(w),
        },
    }
}

/// Parsing a prefix of the text as one `symbol` rule.
pub open spec fn spec_parse_symbol(s: Seq<char>) -> Option<SymbolV> {
    match spec_lex(s, 0) {
        None => None,
        Some(ts) => match spec_symbol(ts, 0) {
            None => None,
            Some((sym, j)) => Some(sym),
        },
    }
}

} // verus!
