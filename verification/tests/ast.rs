//! Per-rule parsing of small inputs into the expected tree shapes.

use xkb_symbols::ast::{
    DefaultPartial, HiddenPartial, How, Ident, Ident2, Include, Key, KeyDef, KeyDefs, KeyNames,
    KeyValues, Modifier, ModifierMap, Partial, StringContent, Symbol, SymbolDef, TypeDef, What,
};
use xkb_symbols::parse::{parse_how, parse_ident, parse_symbol, parse_what};

#[test]
fn test_ast_how() {
    assert_eq!(parse_how("default partial\n").unwrap(), How::DefaultPartial(DefaultPartial));
    assert_eq!(parse_how("hidden partial\n").unwrap(), How::HiddenPartial(HiddenPartial));
    assert_eq!(parse_how("partial\n").unwrap(), How::Partial(Partial));
}

#[test]
fn test_ast_ident() {
    assert_eq!(parse_ident("foobar\n").unwrap(), Ident { content: "foobar" });
}

#[test]
fn test_ast_what() {
    assert_eq!(
        parse_what("default partial alphanumeric_keys\n").unwrap(),
        What {
            how: How::DefaultPartial(DefaultPartial),
            name: vec![Ident { content: "alphanumeric_keys" }],
        },
    );

    assert_eq!(
        parse_what("default partial alphanumeric_keys modifier_keys\n").unwrap(),
        What {
            how: How::DefaultPartial(DefaultPartial),
            name: vec![
                Ident { content: "alphanumeric_keys" },
                Ident { content: "modifier_keys" },
            ],
        },
    );
}

#[test]
fn test_ast_symbol() {
    assert_eq!(
        parse_symbol("key <ESC>  {\t[ Escape\t\t]\t};").unwrap(),
        Symbol::Key(Key {
            id: Ident2 { content: "ESC" },
            values: KeyValues::KeyNames(KeyNames { values: vec![Ident { content: "Escape" }] }),
        }),
    );

    assert_eq!(
        parse_symbol("key <LSGT> {\t[ less, greater, bar, brokenbar ] };").unwrap(),
        Symbol::Key(Key {
            id: Ident2 { content: "LSGT" },
            values: KeyValues::KeyNames(KeyNames {
                values: vec![
                    Ident { content: "less" },
                    Ident { content: "greater" },
                    Ident { content: "bar" },
                    Ident { content: "brokenbar" },
                ],
            }),
        }),
    );

    assert_eq!(
        parse_symbol(
            "key <PRSC> {\n\ttype= \"PC_ALT_LEVEL2\",\n\tsymbols[Group1]= [ Print, Sys_Req ]\n    };",
        )
        .unwrap(),
        Symbol::Key(Key {
            id: Ident2 { content: "PRSC" },
            values: KeyValues::KeyDefs(KeyDefs {
                values: vec![
                    KeyDef::TypeDef(TypeDef { content: "PC_ALT_LEVEL2" }),
                    KeyDef::SymbolDef(SymbolDef {
                        name: Ident { content: "Group1" },
                        values: KeyNames {
                            values: vec![
                                Ident { content: "Print" },
                                Ident { content: "Sys_Req" },
                            ],
                        },
                    }),
                ],
            }),
        }),
    );

    assert_eq!(
        parse_symbol(r#"include "srvr_ctrl(fkey2vt)""#).unwrap(),
        Symbol::Include(Include { name: StringContent { content: "srvr_ctrl(fkey2vt)" } }),
    );

    assert_eq!(
        parse_symbol("modifier_map Shift  { Shift_L, Shift_R };").unwrap(),
        Symbol::ModifierMap(ModifierMap {
            name: Ident { content: "Shift" },
            values: vec![
                Modifier::Ident(Ident { content: "Shift_L" }),
                Modifier::Ident(Ident { content: "Shift_R" }),
            ],
        }),
    );

    assert_eq!(
        parse_symbol("modifier_map Mod4 { <META>, Meta_L, Meta_R };").unwrap(),
        Symbol::ModifierMap(ModifierMap {
            name: Ident { content: "Mod4" },
            values: vec![
                Modifier::KeyId(Ident2 { content: "META" }),
                Modifier::Ident(Ident { content: "Meta_L" }),
                Modifier::Ident(Ident { content: "Meta_R" }),
            ],
        }),
    );
}
