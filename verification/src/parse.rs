//! The recursive-descent parser: one executable function per grammar
//! rule, each proved to return exactly what the rule's spec function in
//! [`crate::grammar`] states, or the first error.
//!
//! The public entry points at the bottom compose the lexer and a rule:
//! [`parse_file`] derives the whole document and is the library's main
//! interface; [`parse_how`], [`parse_ident`], [`parse_what`] and
//! [`parse_symbol`] derive a single rule over a prefix of the input's
//! token sequence.

use vstd::prelude::*;

use crate::ast::{
    DefaultPartial, Definition, DefinitionV, File, HiddenPartial, How, Ident, Ident2, Include,
    Key, KeyDef, KeyDefV, KeyDefs, KeyNames, KeyValues, Modifier, ModifierMap, ModifierV, Name,
    Partial, StringContent, Symbol, SymbolDef, SymbolV, Symbols, TypeDef, What,
};
use crate::error::{error_located, make_error, ParseError, ParseErrorKind};
use crate::grammar::{
    at_kind, at_kw, cons_result, lemma_cons_result_assoc, lemma_cons_result_close,
    lemma_cons_result_empty, spec_definition, spec_definition_tail, spec_file_defs, spec_how, spec_ident,
    spec_ident2, spec_ident_list, spec_key_def, spec_key_def_rest, spec_key_defs, spec_key_names,
    spec_key_values, spec_modifier, spec_modifier_list, spec_modifier_list1, spec_parse_file,
    spec_parse_how, spec_parse_ident, spec_parse_symbol, spec_parse_what, spec_string, spec_symbol,
    spec_symbol_list, spec_symbols_block, spec_what, spec_what_names,
};
use crate::lex::{lex, spec_lex, token_faithful, TokKind, Token, TokenV};
use crate::lex::lemma_lex_faithful;

verus! {

/// Character-by-character string equality.
fn str_eq(a: &str, b: &str) -> (r: bool)
    ensures
        r == (a@ == b@),
{
    let na = a.unicode_len();
    let nb = b.unicode_len();
    if na != nb {
        return false;
    }
    let mut k: usize = 0;
    while k < na
        invariant
            na == a@.len(),
            na == b@.len(),
            k <= na,
            forall|m: int| 0 <= m < k ==> a@[m] == b@[m],
        decreases na - k,
    {
        if a.get_char(k) != b.get_char(k) {
            return false;
        }
        k += 1;
    }
    proof {
        assert(a@ =~= b@);
    }
    true
}

/// The parser's read-only state: the token sequence, and the source text
/// it came from, for locating errors.
#[derive(Clone, Copy)]
struct Parser<'t, 'src> {
    toks: &'t Vec<Token<'src>>,
    src: &'src str,
    n: usize,
}

impl<'t, 'src> Parser<'t, 'src> {
    /// The token sequence, as the grammar's spec functions see it.
    spec fn ts(self) -> Seq<TokenV> {
        self.toks@.map_values(|t: Token<'src>| t@)
    }

    /// The state is well formed: `n` is the source length and every token
    /// is faithful to the source (which bounds its span).
    spec fn wf(self) -> bool {
        &&& self.n == self.src@.len()
        &&& self.ts().len() <= usize::MAX
        &&& forall|k: int|
            0 <= k < self.ts().len() ==> token_faithful(self.src@, #[trigger] self.ts()[k])
    }

    /// What every error a rule function reports satisfies: located in the
    /// source, and an end-of-input error exactly when the failure is at
    /// the end of the input.
    spec fn good_err(self, e: ParseError) -> bool {
        &&& error_located(self.src@, e)
        &&& e.kind == ParseErrorKind::Syntax || e.kind == ParseErrorKind::UnexpectedEnd
        &&& (e.kind == ParseErrorKind::UnexpectedEnd <==> e.pos == self.n)
    }

    fn len(self) -> (r: usize)
        ensures
            r == self.ts().len(),
    {
        self.toks.len()
    }

    /// There is a token of kind `k` at position `i`.
    fn peek_kind(self, i: usize, k: TokKind) -> (r: bool)
        ensures
            r == at_kind(self.ts(), i as int, k),
    {
        i < self.toks.len() && self.toks[i].kind == k
    }

    /// There is an identifier token with text `w` at position `i`.
    fn peek_kw(self, i: usize, w: &str) -> (r: bool)
        ensures
            r == at_kw(self.ts(), i as int, w@),
    {
        i < self.toks.len() && self.toks[i].kind == TokKind::Ident && str_eq(self.toks[i].text, w)
    }

    /// The error for a failure at token position `i`: an unexpected-end
    /// error past the last token, a syntax error at a present token.
    fn err(self, i: usize, expected: &str) -> (e: ParseError)
        requires
            self.wf(),
            i <= self.ts().len(),
        ensures
            self.good_err(e),
    {
        if i < self.toks.len() {
            let t = self.toks[i];
            proof {
                assert(token_faithful(self.src@, self.ts()[i as int]));
            }
            make_error(self.src, self.n, t.start, ParseErrorKind::Syntax, expected, t.text)
        } else {
            make_error(
                self.src,
                self.n,
                self.n,
                ParseErrorKind::UnexpectedEnd,
                expected,
                "end of input",
            )
        }
    }

    /// Wraps a lexed token sequence. The lexer's contract supplies well-
    /// formedness: each token is faithful to the source, and counting the
    /// tokens shows that their number fits the machine word.
    fn new(toks: &'t Vec<Token<'src>>, src: &'src str, n: usize) -> (p: Parser<'t, 'src>)
        requires
            n == src@.len(),
            spec_lex(src@, 0) == Some(toks@.map_values(|t: Token<'src>| t@)),
        ensures
            p.wf(),
            p.ts() == spec_lex(src@, 0)->Some_0,
            p.src == src,
            p.n == n,
    {
        let nt: usize = toks.len();
        let p = Parser { toks, src, n };
        proof {
            lemma_lex_faithful(src@, 0);
            assert(p.ts() == spec_lex(src@, 0)->Some_0);
            assert forall|k: int| 0 <= k < p.ts().len() implies token_faithful(
                src@,
                #[trigger] p.ts()[k],
            ) by {
                assert(p.ts()[k] == spec_lex(src@, 0)->Some_0[k]);
            }
        }
        p
    }

    /// The `ident` rule.
    fn p_ident(self, i: usize) -> (r: Result<(Ident<'src>, usize), ParseError>)
        requires
            self.wf(),
            i <= self.ts().len(),
        ensures
            match r {
                Ok((v, j)) => spec_ident(self.ts(), i as int) == Some((v@, j as int)) && i < j
                    <= self.ts().len(),
                Err(e) => spec_ident(self.ts(), i as int) is None && self.good_err(e),
            },
    {
        if self.peek_kind(i, TokKind::Ident) {
            Ok((Ident { content: self.toks[i].text }, i + 1))
        } else {
            Err(self.err(i, "an identifier"))
        }
    }

    /// The `ident2` rule.
    fn p_ident2(self, i: usize) -> (r: Result<(Ident2<'src>, usize), ParseError>)
        requires
            self.wf(),
            i <= self.ts().len(),
        ensures
            match r {
                Ok((v, j)) => spec_ident2(self.ts(), i as int) == Some((v@, j as int)) && i < j
                    <= self.ts().len(),
                Err(e) => spec_ident2(self.ts(), i as int) is None && self.good_err(e),
            },
    {
        if self.peek_kind(i, TokKind::Ident2) {
            Ok((Ident2 { content: self.toks[i].text }, i + 1))
        } else {
            Err(self.err(i, "a <...> keycode identifier"))
        }
    }

    /// The `string` rule.
    fn p_string(self, i: usize) -> (r: Result<(StringContent<'src>, usize), ParseError>)
        requires
            self.wf(),
            i <= self.ts().len(),
        ensures
            match r {
                Ok((v, j)) => spec_string(self.ts(), i as int) == Some((v@, j as int)) && i < j
                    <= self.ts().len(),
                Err(e) => spec_string(self.ts(), i as int) is None && self.good_err(e),
            },
    {
        if self.peek_kind(i, TokKind::Str) {
            Ok((StringContent { content: self.toks[i].text }, i + 1))
        } else {
            Err(self.err(i, "a quoted string"))
        }
    }

    /// The `how` rule.
    fn p_how(self, i: usize) -> (r: Result<(How, usize), ParseError>)
        requires
            self.wf(),
            i <= self.ts().len(),
        ensures
            match r {
                Ok((v, j)) => spec_how(self.ts(), i as int) == Some((v, j as int)) && i < j
                    <= self.ts().len(),
                Err(e) => spec_how(self.ts(), i as int) is None && self.good_err(e),
            },
    {
        if self.peek_kw(i, "default") {
            if self.peek_kw(i + 1, "partial") {
                Ok((How::DefaultPartial(DefaultPartial), i + 2))
            } else {
                Err(self.err(i + 1, "the keyword `partial`"))
            }
        } else if self.peek_kw(i, "hidden") {
            if self.peek_kw(i + 1, "partial") {
                Ok((How::HiddenPartial(HiddenPartial), i + 2))
            } else {
                Err(self.err(i + 1, "the keyword `partial`"))
            }
        } else if self.peek_kw(i, "partial") {
            Ok((How::Partial(Partial), i + 1))
        } else {
            Err(self.err(i, "`default partial`, `hidden partial` or `partial`"))
        }
    }

    /// The fragment names of a `what` preamble; never fails.
    fn p_what_names(self, i: usize) -> (r: (Vec<Ident<'src>>, usize))
        requires
            self.wf(),
            i <= self.ts().len(),
        ensures
            spec_what_names(self.ts(), i as int) == (
                r.0@.map_values(|x: Ident<'src>| x@),
                r.1 as int,
            ),
            i <= r.1 <= self.ts().len(),
    {
        let mut acc: Vec<Ident<'src>> = Vec::new();
        let mut pos: usize = i;
        proof {
            assert(acc@.map_values(|x: Ident<'src>| x@) =~= Seq::<Seq<char>>::empty());
            assert(Seq::<Seq<char>>::empty() + spec_what_names(self.ts(), i as int).0
                =~= spec_what_names(self.ts(), i as int).0);
        }
        loop
            invariant
                self.wf(),
                i <= pos <= self.ts().len(),
                spec_what_names(self.ts(), i as int).0 == acc@.map_values(|x: Ident<'src>| x@)
                    + spec_what_names(self.ts(), pos as int).0,
                spec_what_names(self.ts(), i as int).1 == spec_what_names(self.ts(), pos as int).1,
            decreases self.ts().len() - pos,
        {
            if self.peek_kind(pos, TokKind::Ident) && !str_eq(self.toks[pos].text, "xkb_symbols") {
                let id = Ident { content: self.toks[pos].text };
                let ghost accv = acc@.map_values(|x: Ident<'src>| x@);
                proof {
                    assert((accv + seq![id@]) + spec_what_names(self.ts(), (pos + 1) as int).0
                        =~= accv + (seq![id@] + spec_what_names(self.ts(), (pos + 1) as int).0));
                }
                acc.push(id);
                proof {
                    assert(acc@.map_values(|x: Ident<'src>| x@) =~= accv + seq![id@]);
                }
                pos = pos + 1;
            } else {
                proof {
                    let accv = acc@.map_values(|x: Ident<'src>| x@);
                    assert(accv + Seq::<Seq<char>>::empty() =~= accv);
                }
                return (acc, pos);
            }
        }
    }

    /// The `what` rule.
    fn p_what(self, i: usize) -> (r: Result<(What<'src>, usize), ParseError>)
        requires
            self.wf(),
            i <= self.ts().len(),
        ensures
            match r {
                Ok((v, j)) => spec_what(self.ts(), i as int) == Some((v@, j as int)) && i < j
                    <= self.ts().len(),
                Err(e) => spec_what(self.ts(), i as int) is None && self.good_err(e),
            },
    {
        match self.p_how(i) {
            Err(e) => Err(e),
            Ok((how, j)) => {
                let (names, k) = self.p_what_names(j);
                if names.len() == 0 {
                    Err(self.err(j, "at least one fragment name"))
                } else {
                    Ok((What { how, name: names }, k))
                }
            },
        }
    }

    /// Identifiers separated by commas, at least one.
    fn p_ident_list(self, i: usize) -> (r: Result<(Vec<Ident<'src>>, usize), ParseError>)
        requires
            self.wf(),
            i <= self.ts().len(),
        ensures
            match r {
                Ok((v, j)) => spec_ident_list(self.ts(), i as int) == Some(
                    (v@.map_values(|x: Ident<'src>| x@), j as int),
                ) && i < j <= self.ts().len(),
                Err(e) => spec_ident_list(self.ts(), i as int) is None && self.good_err(e),
            },
    {
        let mut acc: Vec<Ident<'src>> = Vec::new();
        let mut pos: usize = i;
        proof {
            lemma_cons_result_empty(spec_ident_list(self.ts(), i as int));
            assert(acc@.map_values(|x: Ident<'src>| x@) =~= Seq::<Seq<char>>::empty());
        }
        loop
            invariant
                self.wf(),
                i <= pos <= self.ts().len(),
                spec_ident_list(self.ts(), i as int) == cons_result(
                    acc@.map_values(|x: Ident<'src>| x@),
                    spec_ident_list(self.ts(), pos as int),
                ),
            decreases self.ts().len() - pos,
        {
            match self.p_ident(pos) {
                Err(e) => {
                    return Err(e);
                },
                Ok((id, j)) => {
                    let ghost accv = acc@.map_values(|x: Ident<'src>| x@);
                    if self.peek_kind(j, TokKind::Comma) {
                        proof {
                            lemma_cons_result_assoc(
                                accv,
                                id@,
                                spec_ident_list(self.ts(), (j + 1) as int),
                            );
                        }
                        acc.push(id);
                        proof {
                            assert(acc@.map_values(|x: Ident<'src>| x@) =~= accv + seq![id@]);
                        }
                        pos = j + 1;
                    } else {
                        acc.push(id);
                        proof {
                            assert(acc@.map_values(|x: Ident<'src>| x@) =~= accv + seq![id@]);
                        }
                        return Ok((acc, j));
                    }
                },
            }
        }
    }

    /// The `key_names` rule.
    fn p_key_names(self, i: usize) -> (r: Result<(KeyNames<'src>, usize), ParseError>)
        requires
            self.wf(),
            i <= self.ts().len(),
        ensures
            match r {
                Ok((v, j)) => spec_key_names(self.ts(), i as int) == Some((v@, j as int)) && i < j
                    <= self.ts().len(),
                Err(e) => spec_key_names(self.ts(), i as int) is None && self.good_err(e),
            },
    {
        if self.peek_kind(i, TokKind::LBracket) {
            if self.peek_kind(i + 1, TokKind::RBracket) {
                let kn = KeyNames { values: Vec::new() };
                proof {
                    assert(kn@ =~= Seq::<Seq<char>>::empty());
                }
                Ok((kn, i + 2))
            } else {
                match self.p_ident_list(i + 1) {
                    Err(e) => Err(e),
                    Ok((ids, j)) => {
                        if self.peek_kind(j, TokKind::RBracket) {
                            Ok((KeyNames { values: ids }, j + 1))
                        } else {
                            Err(self.err(j, "`]`"))
                        }
                    },
                }
            }
        } else {
            Err(self.err(i, "`[`"))
        }
    }

    /// The `key_def` rule.
    fn p_key_def(self, i: usize) -> (r: Result<(KeyDef<'src>, usize), ParseError>)
        requires
            self.wf(),
            i <= self.ts().len(),
        ensures
            match r {
                Ok((v, j)) => spec_key_def(self.ts(), i as int) == Some((v@, j as int)) && i < j
                    <= self.ts().len(),
                Err(e) => spec_key_def(self.ts(), i as int) is None && self.good_err(e),
            },
    {
        if self.peek_kw(i, "type") {
            if !self.peek_kind(i + 1, TokKind::Eq) {
                return Err(self.err(i + 1, "`=`"));
            }
            if self.peek_kind(i + 2, TokKind::Str) || self.peek_kind(i + 2, TokKind::Ident) {
                Ok((KeyDef::TypeDef(TypeDef { content: self.toks[i + 2].text }), i + 3))
            } else {
                Err(self.err(i + 2, "a type name"))
            }
        } else if self.peek_kw(i, "symbols") {
            if !self.peek_kind(i + 1, TokKind::LBracket) {
                return Err(self.err(i + 1, "`[`"));
            }
            if !self.peek_kind(i + 2, TokKind::Ident) {
                return Err(self.err(i + 2, "a group identifier"));
            }
            if !self.peek_kind(i + 3, TokKind::RBracket) {
                return Err(self.err(i + 3, "`]`"));
            }
            if !self.peek_kind(i + 4, TokKind::Eq) {
                return Err(self.err(i + 4, "`=`"));
            }
            match self.p_key_names(i + 5) {
                Err(e) => Err(e),
                Ok((kn, j)) => Ok(
                    (
                        KeyDef::SymbolDef(
                            SymbolDef { name: Ident { content: self.toks[i + 2].text }, values: kn },
                        ),
                        j,
                    ),
                ),
            }
        } else {
            Err(self.err(i, "`type` or `symbols`"))
        }
    }

    /// Further `, key_def` steps after one attribute definition.
    fn p_key_def_rest(self, i: usize) -> (r: Result<(Vec<KeyDef<'src>>, usize), ParseError>)
        requires
            self.wf(),
            i <= self.ts().len(),
        ensures
            match r {
                Ok((v, j)) => spec_key_def_rest(self.ts(), i as int) == Some(
                    (v@.map_values(|x: KeyDef<'src>| x@), j as int),
                ) && i <= j <= self.ts().len(),
                Err(e) => spec_key_def_rest(self.ts(), i as int) is None && self.good_err(e),
            },
    {
        let mut acc: Vec<KeyDef<'src>> = Vec::new();
        let mut pos: usize = i;
        proof {
            lemma_cons_result_empty(spec_key_def_rest(self.ts(), i as int));
            assert(acc@.map_values(|x: KeyDef<'src>| x@) =~= Seq::<KeyDefV>::empty());
        }
        loop
            invariant
                self.wf(),
                i <= pos <= self.ts().len(),
                spec_key_def_rest(self.ts(), i as int) == cons_result(
                    acc@.map_values(|x: KeyDef<'src>| x@),
                    spec_key_def_rest(self.ts(), pos as int),
                ),
            decreases self.ts().len() - pos,
        {
            if !self.peek_kind(pos, TokKind::Comma) {
                proof {
                    lemma_cons_result_close(acc@.map_values(|x: KeyDef<'src>| x@), pos as int);
                }
                return Ok((acc, pos));
            }
            if !self.peek_kind(pos + 1, TokKind::Ident) {
                proof {
                    lemma_cons_result_close(
                        acc@.map_values(|x: KeyDef<'src>| x@),
                        (pos + 1) as int,
                    );
                }
                return Ok((acc, pos + 1));
            }
            match self.p_key_def(pos + 1) {
                Err(e) => {
                    return Err(e);
                },
                Ok((d, j)) => {
                    let ghost accv = acc@.map_values(|x: KeyDef<'src>| x@);
                    proof {
                        lemma_cons_result_assoc(accv, d@, spec_key_def_rest(self.ts(), j as int));
                    }
                    acc.push(d);
                    proof {
                        assert(acc@.map_values(|x: KeyDef<'src>| x@) =~= accv + seq![d@]);
                    }
                    pos = j;
                },
            }
        }
    }

    /// The `key_defs` rule.
    fn p_key_defs(self, i: usize) -> (r: Result<(KeyDefs<'src>, usize), ParseError>)
        requires
            self.wf(),
            i <= self.ts().len(),
        ensures
            match r {
                Ok((v, j)) => spec_key_defs(self.ts(), i as int) == Some(
                    (v.values@.map_values(|x: KeyDef<'src>| x@), j as int),
                ) && i < j <= self.ts().len(),
                Err(e) => spec_key_defs(self.ts(), i as int) is None && self.good_err(e),
            },
    {
        match self.p_key_def(i) {
            Err(e) => Err(e),
            Ok((d, j)) => {
                match self.p_key_def_rest(j) {
                    Err(e) => Err(e),
                    Ok((mut rest, k)) => {
                        let ghost restv = rest@.map_values(|x: KeyDef<'src>| x@);
                        rest.insert(0, d);
                        proof {
                            assert(rest@.map_values(|x: KeyDef<'src>| x@) =~= seq![d@] + restv);
                        }
                        Ok((KeyDefs { values: rest }, k))
                    },
                }
            },
        }
    }

    /// The `key_values` rule, with its one-identifier lookahead.
    fn p_key_values(self, i: usize) -> (r: Result<(KeyValues<'src>, usize), ParseError>)
        requires
            self.wf(),
            i <= self.ts().len(),
        ensures
            match r {
                Ok((v, j)) => spec_key_values(self.ts(), i as int) == Some((v@, j as int)) && i < j
                    <= self.ts().len(),
                Err(e) => spec_key_values(self.ts(), i as int) is None && self.good_err(e),
            },
    {
        if self.peek_kind(i, TokKind::LBracket) {
            match self.p_key_names(i) {
                Err(e) => Err(e),
                Ok((kn, j)) => Ok((KeyValues::KeyNames(kn), j)),
            }
        } else if self.peek_kind(i, TokKind::Ident) && (self.peek_kind(i + 1, TokKind::Eq)
            || self.peek_kind(i + 1, TokKind::LBracket)) {
            match self.p_key_defs(i) {
                Err(e) => Err(e),
                Ok((ds, j)) => Ok((KeyValues::KeyDefs(ds), j)),
            }
        } else {
            Err(self.err(i, "`[` or an attribute definition"))
        }
    }

    /// The `modifier` rule.
    fn p_modifier(self, i: usize) -> (r: Result<(Modifier<'src>, usize), ParseError>)
        requires
            self.wf(),
            i <= self.ts().len(),
        ensures
            match r {
                Ok((v, j)) => spec_modifier(self.ts(), i as int) == Some((v@, j as int)) && i < j
                    <= self.ts().len(),
                Err(e) => spec_modifier(self.ts(), i as int) is None && self.good_err(e),
            },
    {
        if self.peek_kind(i, TokKind::Ident2) {
            Ok((Modifier::KeyId(Ident2 { content: self.toks[i].text }), i + 1))
        } else if self.peek_kind(i, TokKind::Ident) {
            Ok((Modifier::Ident(Ident { content: self.toks[i].text }), i + 1))
        } else {
            Err(self.err(i, "a keycode or an identifier"))
        }
    }

    /// Modifiers separated by commas, at least one.
    fn p_modifier_list1(self, i: usize) -> (r: Result<(Vec<Modifier<'src>>, usize), ParseError>)
        requires
            self.wf(),
            i <= self.ts().len(),
        ensures
            match r {
                Ok((v, j)) => spec_modifier_list1(self.ts(), i as int) == Some(
                    (v@.map_values(|x: Modifier<'src>| x@), j as int),
                ) && i < j <= self.ts().len(),
                Err(e) => spec_modifier_list1(self.ts(), i as int) is None && self.good_err(e),
            },
    {
        let mut acc: Vec<Modifier<'src>> = Vec::new();
        let mut pos: usize = i;
        proof {
            lemma_cons_result_empty(spec_modifier_list1(self.ts(), i as int));
            assert(acc@.map_values(|x: Modifier<'src>| x@) =~= Seq::<ModifierV>::empty());
        }
        loop
            invariant
                self.wf(),
                i <= pos <= self.ts().len(),
                spec_modifier_list1(self.ts(), i as int) == cons_result(
                    acc@.map_values(|x: Modifier<'src>| x@),
                    spec_modifier_list1(self.ts(), pos as int),
                ),
            decreases self.ts().len() - pos,
        {
            match self.p_modifier(pos) {
                Err(e) => {
                    return Err(e);
                },
                Ok((m, j)) => {
                    let ghost accv = acc@.map_values(|x: Modifier<'src>| x@);
                    if self.peek_kind(j, TokKind::Comma) {
                        proof {
                            lemma_cons_result_assoc(
                                accv,
                                m@,
                                spec_modifier_list1(self.ts(), (j + 1) as int),
                            );
                        }
                        acc.push(m);
                        proof {
                            assert(acc@.map_values(|x: Modifier<'src>| x@) =~= accv + seq![m@]);
                        }
                        pos = j + 1;
                    } else {
                        acc.push(m);
                        proof {
                            assert(acc@.map_values(|x: Modifier<'src>| x@) =~= accv + seq![m@]);
                        }
                        return Ok((acc, j));
                    }
                },
            }
        }
    }

    /// The member list of a modifier map, possibly empty.
    fn p_modifier_list(self, i: usize) -> (r: Result<(Vec<Modifier<'src>>, usize), ParseError>)
        requires
            self.wf(),
            i <= self.ts().len(),
        ensures
            match r {
                Ok((v, j)) => spec_modifier_list(self.ts(), i as int) == Some(
                    (v@.map_values(|x: Modifier<'src>| x@), j as int),
                ) && i <= j <= self.ts().len(),
                Err(e) => spec_modifier_list(self.ts(), i as int) is None && self.good_err(e),
            },
    {
        if self.peek_kind(i, TokKind::Ident2) || self.peek_kind(i, TokKind::Ident) {
            self.p_modifier_list1(i)
        } else {
            let v: Vec<Modifier<'src>> = Vec::new();
            proof {
                assert(v@.map_values(|x: Modifier<'src>| x@) =~= Seq::<ModifierV>::empty());
            }
            Ok((v, i))
        }
    }

    /// The `symbol` rule, dispatched on the leading keyword.
    fn p_symbol(self, i: usize) -> (r: Result<(Symbol<'src>, usize), ParseError>)
        requires
            self.wf(),
            i <= self.ts().len(),
        ensures
            match r {
                Ok((v, j)) => spec_symbol(self.ts(), i as int) == Some((v@, j as int)) && i < j
                    <= self.ts().len(),
                Err(e) => spec_symbol(self.ts(), i as int) is None && self.good_err(e),
            },
    {
        if self.peek_kw(i, "include") {
            match self.p_string(i + 1) {
                Err(e) => Err(e),
                Ok((name, j)) => Ok((Symbol::Include(Include { name }), j)),
            }
        } else if self.peek_kw(i, "name") {
            if !self.peek_kind(i + 1, TokKind::LBracket) {
                return Err(self.err(i + 1, "`[`"));
            }
            if !self.peek_kind(i + 2, TokKind::Ident) {
                return Err(self.err(i + 2, "a group identifier"));
            }
            if !self.peek_kind(i + 3, TokKind::RBracket) {
                return Err(self.err(i + 3, "`]`"));
            }
            if !self.peek_kind(i + 4, TokKind::Eq) {
                return Err(self.err(i + 4, "`=`"));
            }
            if !self.peek_kind(i + 5, TokKind::Str) {
                return Err(self.err(i + 5, "a quoted string"));
            }
            Ok(
                (
                    Symbol::Name(
                        Name {
                            group: Ident { content: self.toks[i + 2].text },
                            name: StringContent { content: self.toks[i + 5].text },
                        },
                    ),
                    i + 6,
                ),
            )
        } else if self.peek_kw(i, "key") {
            let id = match self.p_ident2(i + 1) {
                Err(e) => {
                    return Err(e);
                },
                Ok((id, _)) => id,
            };
            if !self.peek_kind(i + 2, TokKind::LBrace) {
                return Err(self.err(i + 2, "`{`"));
            }
            match self.p_key_values(i + 3) {
                Err(e) => Err(e),
                Ok((kv, j)) => {
                    if self.peek_kind(j, TokKind::RBrace) {
                        Ok((Symbol::Key(Key { id, values: kv }), j + 1))
                    } else {
                        Err(self.err(j, "`}`"))
                    }
                },
            }
        } else if self.peek_kw(i, "modifier_map") {
            if !self.peek_kind(i + 1, TokKind::Ident) {
                return Err(self.err(i + 1, "a modifier name"));
            }
            if !self.peek_kind(i + 2, TokKind::LBrace) {
                return Err(self.err(i + 2, "`{`"));
            }
            match self.p_modifier_list(i + 3) {
                Err(e) => Err(e),
                Ok((ms, j)) => {
                    if self.peek_kind(j, TokKind::RBrace) {
                        Ok(
                            (
                                Symbol::ModifierMap(
                                    ModifierMap {
                                        name: Ident { content: self.toks[i + 1].text },
                                        values: ms,
                                    },
                                ),
                                j + 1,
                            ),
                        )
                    } else {
                        Err(self.err(j, "`,` or `}`"))
                    }
                },
            }
        } else {
            Err(self.err(i, "`include`, `name`, `key` or `modifier_map`"))
        }
    }

    /// The statement list of a symbols block.
    fn p_symbol_list(self, i: usize) -> (r: Result<(Vec<Symbol<'src>>, usize), ParseError>)
        requires
            self.wf(),
            i <= self.ts().len(),
        ensures
            match r {
                Ok((v, j)) => spec_symbol_list(self.ts(), i as int) == Some(
                    (v@.map_values(|x: Symbol<'src>| x@), j as int),
                ) && i <= j <= self.ts().len(),
                Err(e) => spec_symbol_list(self.ts(), i as int) is None && self.good_err(e),
            },
    {
        let mut acc: Vec<Symbol<'src>> = Vec::new();
        let mut pos: usize = i;
        proof {
            lemma_cons_result_empty(spec_symbol_list(self.ts(), i as int));
            assert(acc@.map_values(|x: Symbol<'src>| x@) =~= Seq::<SymbolV>::empty());
        }
        loop
            invariant
                self.wf(),
                i <= pos <= self.ts().len(),
                spec_symbol_list(self.ts(), i as int) == cons_result(
                    acc@.map_values(|x: Symbol<'src>| x@),
                    spec_symbol_list(self.ts(), pos as int),
                ),
            decreases self.ts().len() - pos,
        {
            if !self.peek_kind(pos, TokKind::Ident) {
                proof {
                    lemma_cons_result_close(acc@.map_values(|x: Symbol<'src>| x@), pos as int);
                }
                return Ok((acc, pos));
            }
            match self.p_symbol(pos) {
                Err(e) => {
                    return Err(e);
                },
                Ok((sym, j)) => {
                    if !self.peek_kind(j, TokKind::Semi) {
                        return Err(self.err(j, "`;`"));
                    }
                    let ghost accv = acc@.map_values(|x: Symbol<'src>| x@);
                    proof {
                        lemma_cons_result_assoc(
                            accv,
                            sym@,
                            spec_symbol_list(self.ts(), (j + 1) as int),
                        );
                    }
                    acc.push(sym);
                    proof {
                        assert(acc@.map_values(|x: Symbol<'src>| x@) =~= accv + seq![sym@]);
                    }
                    pos = j + 1;
                },
            }
        }
    }

    /// The `symbols` rule.
    fn p_symbols_block(self, i: usize) -> (r: Result<(Symbols<'src>, usize), ParseError>)
        requires
            self.wf(),
            i <= self.ts().len(),
        ensures
            match r {
                Ok((v, j)) => spec_symbols_block(self.ts(), i as int) == Some((v@, j as int)) && i
                    < j <= self.ts().len(),
                Err(e) => spec_symbols_block(self.ts(), i as int) is None && self.good_err(e),
            },
    {
        if !self.peek_kw(i, "xkb_symbols") {
            return Err(self.err(i, "the keyword `xkb_symbols`"));
        }
        if !self.peek_kind(i + 1, TokKind::Str) {
            return Err(self.err(i + 1, "a block name string"));
        }
        if !self.peek_kind(i + 2, TokKind::LBrace) {
            return Err(self.err(i + 2, "`{`"));
        }
        match self.p_symbol_list(i + 3) {
            Err(e) => Err(e),
            Ok((syms, j)) => {
                if self.peek_kind(j, TokKind::RBrace) {
                    Ok(
                        (
                            Symbols {
                                name: StringContent { content: self.toks[i + 1].text },
                                symbols: syms,
                            },
                            j + 1,
                        ),
                    )
                } else {
                    Err(self.err(j, "`}` or a symbol statement"))
                }
            },
        }
    }

    /// The symbols block and terminating semicolon of a definition.
    fn p_definition_tail(self, i: usize, what: Option<What<'src>>) -> (r: Result<
        (Definition<'src>, usize),
        ParseError,
    >)
        requires
            self.wf(),
            i <= self.ts().len(),
        ensures
            ({
                let whatv = match what {
                    Some(w) => Some(w@),
                    None => None,
                };
                match r {
                    Ok((v, j)) => spec_definition_tail(self.ts(), i as int, whatv) == Some(
                        (v@, j as int),
                    ) && i < j <= self.ts().len(),
                    Err(e) => spec_definition_tail(self.ts(), i as int, whatv) is None
                        && self.good_err(e),
                }
            }),
    {
        match self.p_symbols_block(i) {
            Err(e) => Err(e),
            Ok((sym, j)) => {
                if self.peek_kind(j, TokKind::Semi) {
                    Ok((Definition { what, symbols: sym }, j + 1))
                } else {
                    Err(self.err(j, "`;`"))
                }
            },
        }
    }

    /// The `definition` rule.
    fn p_definition(self, i: usize) -> (r: Result<(Definition<'src>, usize), ParseError>)
        requires
            self.wf(),
            i <= self.ts().len(),
        ensures
            match r {
                Ok((v, j)) => spec_definition(self.ts(), i as int) == Some((v@, j as int)) && i < j
                    <= self.ts().len(),
                Err(e) => spec_definition(self.ts(), i as int) is None && self.good_err(e),
            },
    {
        if self.peek_kw(i, "default") || self.peek_kw(i, "hidden") || self.peek_kw(i, "partial") {
            match self.p_what(i) {
                Err(e) => Err(e),
                Ok((w, j)) => self.p_definition_tail(j, Some(w)),
            }
        } else {
            self.p_definition_tail(i, None)
        }
    }

    /// The `file` rule from position `i`: definitions to the end of the
    /// The `file` rule from position `i`: definitions to the end of the
    /// token sequence.
    fn p_file_defs(self, i: usize) -> (r: Result<(Vec<Definition<'src>>, usize), ParseError>)
        requires
            self.wf(),
            i <= self.ts().len(),
        ensures
            match r {
                Ok((v, j)) => spec_file_defs(self.ts(), i as int) == Some(
                    (v@.map_values(|x: Definition<'src>| x@), j as int),
                ) && i <= j <= self.ts().len(),
                Err(e) => spec_file_defs(self.ts(), i as int) is None && self.good_err(e),
            },
    {
        let mut acc: Vec<Definition<'src>> = Vec::new();
        let mut pos: usize = i;
        proof {
            lemma_cons_result_empty(spec_file_defs(self.ts(), i as int));
            assert(acc@.map_values(|x: Definition<'src>| x@) =~= Seq::<DefinitionV>::empty());
        }
        loop
            invariant
                self.wf(),
                i <= pos <= self.ts().len(),
                spec_file_defs(self.ts(), i as int) == cons_result(
                    acc@.map_values(|x: Definition<'src>| x@),
                    spec_file_defs(self.ts(), pos as int),
                ),
            decreases self.ts().len() - pos,
        {
            if pos >= self.len() {
                proof {
                    lemma_cons_result_close(
                        acc@.map_values(|x: Definition<'src>| x@),
                        pos as int,
                    );
                }
                return Ok((acc, pos));
            }
            match self.p_definition(pos) {
                Err(e) => {
                    return Err(e);
                },
                Ok((d, j)) => {
                    let ghost accv = acc@.map_values(|x: Definition<'src>| x@);
                    proof {
                        lemma_cons_result_assoc(accv, d@, spec_file_defs(self.ts(), j as int));
                    }
                    acc.push(d);
                    proof {
                        assert(acc@.map_values(|x: Definition<'src>| x@) =~= accv + seq![d@]);
                    }
                    pos = j;
                },
            }
        }
    }
}

/// Parses a whole symbols document.
///
/// Returns the syntax tree exactly when [`spec_parse_file`] yields one of
/// the input, and then returns that tree; otherwise the first error, in
/// reading order, located in the input. The error is lexical exactly when
/// the text does not even form tokens.
pub fn parse_file<'src>(s: &'src str) -> (r: Result<File<'src>, ParseError>)
    ensures
        match r {
            Ok(f) => spec_parse_file(s@) == Some(f@),
            Err(e) => spec_parse_file(s@) is None && error_located(s@, e) && (e.kind
                == ParseErrorKind::Lexical <==> spec_lex(s@, 0) is None) && (e.kind
                == ParseErrorKind::UnexpectedEnd <==> e.pos == s@.len()),
        },
{
    let n = s.unicode_len();
    match lex(s) {
        Err(e) => Err(e),
        Ok(toks) => {
            let p = Parser::new(&toks, s, n);
            match p.p_file_defs(0) {
                Err(e) => Err(e),
                Ok((defs, _j)) => Ok(File { definitions: defs }),
            }
        },
    }
}

/// Parses a prefix of the input as one `how` rule.
pub fn parse_how<'src>(s: &'src str) -> (r: Result<How, ParseError>)
    ensures
        match r {
            Ok(h) => spec_parse_how(s@) == Some(h),
            Err(e) => spec_parse_how(s@) is None && error_located(s@, e) && (e.kind
                == ParseErrorKind::Lexical <==> spec_lex(s@, 0) is None) && (e.kind
                == ParseErrorKind::UnexpectedEnd <==> e.pos == s@.len()),
        },
{
    let n = s.unicode_len();
    match lex(s) {
        Err(e) => Err(e),
        Ok(toks) => {
            let p = Parser::new(&toks, s, n);
            match p.p_how(0) {
                Err(e) => Err(e),
                Ok((h, _j)) => Ok(h),
            }
        },
    }
}

/// Parses a prefix of the input as one `ident` rule.
pub fn parse_ident<'src>(s: &'src str) -> (r: Result<Ident<'src>, ParseError>)
    ensures
        match r {
            Ok(v) => spec_parse_ident(s@) == Some(v@),
            Err(e) => spec_parse_ident(s@) is None && error_located(s@, e) && (e.kind
                == ParseErrorKind::Lexical <==> spec_lex(s@, 0) is None) && (e.kind
                == ParseErrorKind::UnexpectedEnd <==> e.pos == s@.len()),
        },
{
    let n = s.unicode_len();
    match lex(s) {
        Err(e) => Err(e),
        Ok(toks) => {
            let p = Parser::new(&toks, s, n);
            match p.p_ident(0) {
                Err(e) => Err(e),
                Ok((v, _j)) => Ok(v),
            }
        },
    }
}

/// Parses a prefix of the input as one `what` rule.
pub fn parse_what<'src>(s: &'src str) -> (r: Result<What<'src>, ParseError>)
    ensures
        match r {
            Ok(v) => spec_parse_what(s@) == Some(v@),
            Err(e) => spec_parse_what(s@) is None && error_located(s@, e) && (e.kind
                == ParseErrorKind::Lexical <==> spec_lex(s@, 0) is None) && (e.kind
                == ParseErrorKind::UnexpectedEnd <==> e.pos == s@.len()),
        },
{
    let n = s.unicode_len();
    match lex(s) {
        Err(e) => Err(e),
        Ok(toks) => {
            let p = Parser::new(&toks, s, n);
            match p.p_what(0) {
                Err(e) => Err(e),
                Ok((v, _j)) => Ok(v),
            }
        },
    }
}

/// Parses a prefix of the input as one `symbol` rule.
pub fn parse_symbol<'src>(s: &'src str) -> (r: Result<Symbol<'src>, ParseError>)
    ensures
        match r {
            Ok(v) => spec_parse_symbol(s@) == Some(v@),
            Err(e) => spec_parse_symbol(s@) is None && error_located(s@, e) && (e.kind
                == ParseErrorKind::Lexical <==> spec_lex(s@, 0) is None) && (e.kind
                == ParseErrorKind::UnexpectedEnd <==> e.pos == s@.len()),
        },
{
    let n = s.unicode_len();
    match lex(s) {
        Err(e) => Err(e),
        Ok(toks) => {
            let p = Parser::new(&toks, s, n);
            match p.p_symbol(0) {
                Err(e) => Err(e),
                Ok((v, _j)) => Ok(v),
            }
        },
    }
}

} // verus!
