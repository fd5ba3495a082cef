//! Whole-document parsing, boundary cases, and error reporting.

use xkb_symbols::ast::{
    DefaultPartial, Definition, How, Ident, Ident2, Include, Key, KeyNames, KeyValues, Modifier,
    ModifierMap, Name, StringContent, Symbol, Symbols, What,
};
use xkb_symbols::error::ParseErrorKind;
use xkb_symbols::parse::{parse_file, parse_symbol};

#[test]
fn whole_file() {
    let src = r#"
// a small fragment, with comments
default partial alphanumeric_keys
xkb_symbols "basic" {
    include "srvr_ctrl(fkey2vt)"
    ;
    name[Group1]= "US/ASCII";
    key <ESC> { [ Escape ] };
    /* a block
       comment */
    modifier_map Mod4 { <META>, Meta_L };
};

xkb_symbols "extras" {
};
"#;
    let file = parse_file(src).unwrap();
    assert_eq!(file.definitions.len(), 2);
    assert_eq!(
        file.definitions[0],
        Definition {
            what: Some(What {
                how: How::DefaultPartial(DefaultPartial),
                name: vec![Ident { content: "alphanumeric_keys" }],
            }),
            symbols: Symbols {
                name: StringContent { content: "basic" },
                symbols: vec![
                    Symbol::Include(Include {
                        name: StringContent { content: "srvr_ctrl(fkey2vt)" },
                    }),
                    Symbol::Name(Name {
                        group: Ident { content: "Group1" },
                        name: StringContent { content: "US/ASCII" },
                    }),
                    Symbol::Key(Key {
                        id: Ident2 { content: "ESC" },
                        values: KeyValues::KeyNames(KeyNames {
                            values: vec![Ident { content: "Escape" }],
                        }),
                    }),
                    Symbol::ModifierMap(ModifierMap {
                        name: Ident { content: "Mod4" },
                        values: vec![
                            Modifier::KeyId(Ident2 { content: "META" }),
                            Modifier::Ident(Ident { content: "Meta_L" }),
                        ],
                    }),
                ],
            },
        },
    );
    assert_eq!(
        file.definitions[1],
        Definition {
            what: None,
            symbols: Symbols { name: StringContent { content: "extras" }, symbols: vec![] },
        },
    );
}

#[test]
fn empty_input_is_empty_file() {
    let file = parse_file("").unwrap();
    assert_eq!(file.definitions, vec![]);
    let file = parse_file("  // only trivia\n/* here */ ").unwrap();
    assert_eq!(file.definitions, vec![]);
}

#[test]
fn parsing_is_deterministic() {
    let src = "partial keypad_keys\nxkb_symbols \"kp\" { key <KP0> { [ KP_0 ] }; };";
    assert_eq!(parse_file(src), parse_file(src));
    let bad = "xkb_symbols \"kp\" { key";
    assert_eq!(parse_file(bad), parse_file(bad));
}

#[test]
fn leaf_text_reproduces_source() {
    let src = "key <ESC> { [ Escape ] };";
    match parse_symbol(src).unwrap() {
        Symbol::Key(k) => {
            // each leaf's text is exactly the source at its span
            assert_eq!(k.id.content, &src[5..8]);
            match k.values {
                KeyValues::KeyNames(n) => assert_eq!(n.values[0].content, &src[14..20]),
                KeyValues::KeyDefs(_) => panic!("expected a flat list"),
            }
        }
        other => panic!("expected a key, got {:?}", other),
    }
}

#[test]
fn empty_key_names_is_valid() {
    let sym = parse_symbol("key <X> { [ ] };").unwrap();
    assert_eq!(
        sym,
        Symbol::Key(Key {
            id: Ident2 { content: "X" },
            values: KeyValues::KeyNames(KeyNames { values: vec![] }),
        }),
    );
}

#[test]
fn key_body_shapes_are_exclusive() {
    // a body opening with `[` is always a flat list, anything else an
    // attribute list
    match parse_symbol("key <A> { [ a ] };").unwrap() {
        Symbol::Key(k) => assert!(matches!(k.values, KeyValues::KeyNames(_))),
        _ => panic!("expected a key"),
    }
    match parse_symbol("key <A> { type= \"X\" };").unwrap() {
        Symbol::Key(k) => assert!(matches!(k.values, KeyValues::KeyDefs(_))),
        _ => panic!("expected a key"),
    }
}

#[test]
fn unterminated_key_block_is_unexpected_end() {
    let err = parse_symbol("key <ESC> { [ Escape ] ").unwrap_err();
    assert_eq!(err.kind, ParseErrorKind::UnexpectedEnd);
    assert_eq!(err.expected, "`}`");
    assert_eq!(err.found, "end of input");
    assert_eq!(err.pos, 23);
}

#[test]
fn trailing_comma_in_key_defs_is_allowed() {
    let sym = parse_symbol("key <A> { type= \"X\", };");
    assert!(sym.is_ok());
}

#[test]
fn trailing_comma_in_key_names_is_an_error() {
    let err = parse_symbol("key <A> { [ a, ] };").unwrap_err();
    assert_eq!(err.kind, ParseErrorKind::Syntax);
}

#[test]
fn lexical_error_is_located() {
    let err = parse_file("xkb_symbols \"x\" {\n  ?").unwrap_err();
    assert_eq!(err.kind, ParseErrorKind::Lexical);
    assert_eq!(err.pos, 20);
    assert_eq!(err.line, 2);
    assert_eq!(err.col, 3);
}

#[test]
fn unterminated_block_comment_is_lexical() {
    let err = parse_file("/* never closed").unwrap_err();
    assert_eq!(err.kind, ParseErrorKind::Lexical);
    assert_eq!(err.pos, 0);
}

#[test]
fn unknown_statement_names_the_alternatives() {
    let err = parse_file("xkb_symbols \"x\" { foo };").unwrap_err();
    assert_eq!(err.kind, ParseErrorKind::Syntax);
    assert_eq!(err.expected, "`include`, `name`, `key` or `modifier_map`");
    assert_eq!(err.found, "foo");
    assert_eq!(err.line, 1);
    assert_eq!(err.col, 19);
}

#[test]
fn definition_needs_terminating_semicolon() {
    let err = parse_file("xkb_symbols \"x\" { }").unwrap_err();
    assert_eq!(err.kind, ParseErrorKind::UnexpectedEnd);
    assert_eq!(err.expected, "`;`");
}

#[test]
fn what_needs_a_fragment_name() {
    let err = parse_file("partial xkb_symbols \"x\" { };").unwrap_err();
    assert_eq!(err.kind, ParseErrorKind::Syntax);
    assert_eq!(err.expected, "at least one fragment name");
}

#[test]
fn stray_text_after_a_definition_is_an_error() {
    let err = parse_file("xkb_symbols \"x\" { }; ]").unwrap_err();
    assert_eq!(err.kind, ParseErrorKind::Syntax);
}

#[test]
fn keywords_remain_usable_as_identifiers() {
    // `key` as a modifier-map member is an ordinary identifier
    let sym = parse_symbol("modifier_map Mod1 { key, default };").unwrap();
    assert_eq!(
        sym,
        Symbol::ModifierMap(ModifierMap {
            name: Ident { content: "Mod1" },
            values: vec![
                Modifier::Ident(Ident { content: "key" }),
                Modifier::Ident(Ident { content: "default" }),
            ],
        }),
    );
}

#[test]
fn empty_modifier_map_is_valid() {
    let sym = parse_symbol("modifier_map Mod1 { };").unwrap();
    assert_eq!(
        sym,
        Symbol::ModifierMap(ModifierMap { name: Ident { content: "Mod1" }, values: vec![] }),
    );
}

#[test]
fn bare_type_name_is_accepted() {
    let sym = parse_symbol("key <A> { type= FOUR_LEVEL };");
    assert!(sym.is_ok());
}

#[test]
fn how_cut_short_is_unexpected_end() {
    let err = xkb_symbols::parse::parse_how("default").unwrap_err();
    assert_eq!(err.kind, ParseErrorKind::UnexpectedEnd);
    assert_eq!(err.expected, "the keyword `partial`");
}

#[test]
fn unterminated_string_is_lexical() {
    let err = parse_file("xkb_symbols \"basic").unwrap_err();
    assert_eq!(err.kind, ParseErrorKind::Lexical);
    assert_eq!(err.pos, 12);
}

#[test]
fn comments_are_insignificant_inside_brackets() {
    let sym = parse_symbol("key <A> { [ a /* x */, // y\n b ] };").unwrap();
    assert_eq!(
        sym,
        Symbol::Key(Key {
            id: Ident2 { content: "A" },
            values: KeyValues::KeyNames(KeyNames {
                values: vec![Ident { content: "a" }, Ident { content: "b" }],
            }),
        }),
    );
}

#[test]
fn symbols_attribute_needs_its_group_qualifier() {
    let err = parse_symbol("key <A> { symbols = [ a ] };").unwrap_err();
    assert_eq!(err.kind, ParseErrorKind::Syntax);
    assert_eq!(err.expected, "`[`");
}
