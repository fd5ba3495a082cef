//! The abstract syntax tree of a parsed symbols file.
//!
//! One type per grammar rule. Leaf nodes (`Ident`, `Ident2`,
//! `StringContent`, `TypeDef`) borrow a slice of the source text rather
//! than owning a copy. Each type has a mathematical view (`FileV` and so
//! on) over `Seq<char>`, which the parser's contracts speak of.

use vstd::prelude::*;

verus! {

/// A whole parsed document: the ordered top-level fragments.
#[derive(Debug, Clone, PartialEq)]
pub struct File<'src> {
    pub definitions: Vec<Definition<'src>>,
}

/// One top-level layout fragment: an optional visibility/merge preamble
/// and exactly one symbols block.
#[derive(Debug, Clone, PartialEq)]
pub struct Definition<'src> {
    pub what: Option<What<'src>>,
    pub symbols: Symbols<'src>,
}

/// The preamble of a fragment: a merge mode and one or more fragment names.
#[derive(Debug, Clone, PartialEq)]
pub struct What<'src> {
    pub how: How,
    pub name: Vec<Ident<'src>>,
}

/// The merge-mode tag: exactly one of the three keyword phrases.
#[derive(Debug, Clone, PartialEq)]
pub enum How {
    DefaultPartial(DefaultPartial),
    HiddenPartial(HiddenPartial),
    Partial(Partial),
}

/// The `default partial` merge mode.
#[derive(Debug, Clone, PartialEq)]
pub struct DefaultPartial;

/// The `hidden partial` merge mode.
#[derive(Debug, Clone, PartialEq)]
pub struct HiddenPartial;

/// The bare `partial` merge mode.
#[derive(Debug, Clone, PartialEq)]
pub struct Partial;

/// A named block of symbol statements.
#[derive(Debug, Clone, PartialEq)]
pub struct Symbols<'src> {
    pub name: StringContent<'src>,
    pub symbols: Vec<Symbol<'src>>,
}

/// One statement inside a symbols block. Statement order is kept:
/// later statements may override earlier ones downstream.
#[derive(Debug, Clone, PartialEq)]
pub enum Symbol<'src> {
    Include(Include<'src>),
    Name(Name<'src>),
    Key(Key<'src>),
    ModifierMap(ModifierMap<'src>),
}

/// A reference to another fragment, kept as the opaque quoted text.
#[derive(Debug, Clone, PartialEq)]
pub struct Include<'src> {
    pub name: StringContent<'src>,
}

/// A group-label assignment: `name[Group1]="...";`.
#[derive(Debug, Clone, PartialEq)]
pub struct Name<'src> {
    pub group: Ident<'src>,
    pub name: StringContent<'src>,
}

/// A single key's symbol mapping: `key <CODE> { ... };`.
#[derive(Debug, Clone, PartialEq)]
pub struct Key<'src> {
    pub id: Ident2<'src>,
    pub values: KeyValues<'src>,
}

/// The two mutually exclusive shapes of a key body: a flat symbol list
/// or a set of named attribute definitions, never both.
#[derive(Debug, Clone, PartialEq)]
pub enum KeyValues<'src> {
    KeyNames(KeyNames<'src>),
    KeyDefs(KeyDefs<'src>),
}

/// A flat per-level symbol list; position in the list is the level.
#[derive(Debug, Clone, PartialEq)]
pub struct KeyNames<'src> {
    pub values: Vec<Ident<'src>>,
}

/// A list of named attribute definitions inside a key body.
#[derive(Debug, Clone, PartialEq)]
pub struct KeyDefs<'src> {
    pub values: Vec<KeyDef<'src>>,
}

/// One attribute inside a key body: a type name or a per-group symbol list.
#[derive(Debug, Clone, PartialEq)]
pub enum KeyDef<'src> {
    TypeDef(TypeDef<'src>),
    SymbolDef(SymbolDef<'src>),
}

/// A key type assignment: `type="..."`; the raw type name text.
#[derive(Debug, Clone, PartialEq)]
pub struct TypeDef<'src> {
    pub content: &'src str,
}

/// A per-group symbol list inside a key body: `symbols[Group1]=[...]`.
#[derive(Debug, Clone, PartialEq)]
pub struct SymbolDef<'src> {
    pub name: Ident<'src>,
    pub values: KeyNames<'src>,
}

/// A named set of keys and identifiers forming a modifier:
/// `modifier_map Mod4 { ... };`.
#[derive(Debug, Clone, PartialEq)]
pub struct ModifierMap<'src> {
    pub name: Ident<'src>,
    pub values: Vec<Modifier<'src>>,
}

/// One member of a modifier map: a keycode token or a plain identifier.
#[derive(Debug, Clone, PartialEq)]
pub enum Modifier<'src> {
    KeyId(Ident2<'src>),
    Ident(Ident<'src>),
}

/// A plain identifier leaf: the raw borrowed text.
#[derive(Debug, Clone, PartialEq)]
pub struct Ident<'src> {
    pub content: &'src str,
}

/// A delimited keycode identifier leaf: the text between `<` and `>`.
#[derive(Debug, Clone, PartialEq)]
pub struct Ident2<'src> {
    pub content: &'src str,
}

/// A quoted string leaf: the text between the quotes, unescaped.
#[derive(Debug, Clone, PartialEq)]
pub struct StringContent<'src> {
    pub content: &'src str,
}

/// View of a [`File`].
pub struct FileV {
    pub definitions: Seq<DefinitionV>,
}

/// View of a [`Definition`].
pub struct DefinitionV {
    pub what: Option<WhatV>,
    pub symbols: SymbolsV,
}

/// View of a [`What`]; fragment names are the identifiers' text.
pub struct WhatV {
    pub how: How,
    pub name: Seq<Seq<char>>,
}

/// View of a [`Symbols`] block.
pub struct SymbolsV {
    pub name: Seq<char>,
    pub symbols: Seq<SymbolV>,
}

/// View of a [`Symbol`] statement.
pub enum SymbolV {
    Include { name: Seq<char> },
    Name { group: Seq<char>, name: Seq<char> },
    Key { id: Seq<char>, values: KeyValuesV },
    ModifierMap { name: Seq<char>, values: Seq<ModifierV> },
}

/// View of a [`KeyValues`] body.
pub enum KeyValuesV {
    KeyNames(Seq<Seq<char>>),
    KeyDefs(Seq<KeyDefV>),
}

/// View of a [`KeyDef`].
pub enum KeyDefV {
    TypeDef { content: Seq<char> },
    SymbolDef { name: Seq<char>, values: Seq<Seq<char>> },
}

/// View of a [`Modifier`].
pub enum ModifierV {
    KeyId(Seq<char>),
    Ident(Seq<char>),
}

impl<'src> View for Ident<'src> {
    type V = Seq<char>;

    open spec fn view(&self) -> Seq<char> {
        self.content@
    }
}

impl<'src> View for Ident2<'src> {
    type V = Seq<char>;

    open spec fn view(&self) -> Seq<char> {
        self.content@
    }
}

impl<'src> View for StringContent<'src> {
    type V = Seq<char>;

    open spec fn view(&self) -> Seq<char> {
        self.content@
    }
}

impl<'src> View for What<'src> {
    type V = WhatV;

    open spec fn view(&self) -> WhatV {
        WhatV { how: self.how, name: self.name@.map_values(|i: Ident<'src>| i@) }
    }
}

impl<'src> View for KeyNames<'src> {
    type V = Seq<Seq<char>>;

    open spec fn view(&self) -> Seq<Seq<char>> {
        self.values@.map_values(|i: Ident<'src>| i@)
    }
}

impl<'src> View for KeyDef<'src> {
    type V = KeyDefV;

    open spec fn view(&self) -> KeyDefV {
        match self {
            KeyDef::TypeDef(t) => KeyDefV::TypeDef { content: t.content@ },
            KeyDef::SymbolDef(s) => KeyDefV::SymbolDef { name: s.name@, values: s.values@ },
        }
    }
}

impl<'src> View for KeyValues<'src> {
    type V = KeyValuesV;

    open spec fn view(&self) -> KeyValuesV {
        match self {
            KeyValues::KeyNames(n) => KeyValuesV::KeyNames(n@),
            KeyValues::KeyDefs(d) => KeyValuesV::KeyDefs(
                d.values@.map_values(|k: KeyDef<'src>| k@),
            ),
        }
    }
}

impl<'src> View for Modifier<'src> {
    type V = ModifierV;

    open spec fn view(&self) -> ModifierV {
        match self {
            Modifier::KeyId(k) => ModifierV::KeyId(k@),
            Modifier::Ident(i) => ModifierV::Ident(i@),
        }
    }
}

impl<'src> View for Symbol<'src> {
    type V = SymbolV;

    open spec fn view(&self) -> SymbolV {
        match self {
            Symbol::Include(i) => SymbolV::Include { name: i.name@ },
            Symbol::Name(n) => SymbolV::Name { group: n.group@, name: n.name@ },
            Symbol::Key(k) => SymbolV::Key { id: k.id@, values: k.values@ },
            Symbol::ModifierMap(m) => SymbolV::ModifierMap {
                name: m.name@,
                values: m.values@.map_values(|v: Modifier<'src>| v@),
            },
        }
    }
}

impl<'src> View for Symbols<'src> {
    type V = SymbolsV;

    open spec fn view(&self) -> SymbolsV {
        SymbolsV {
            name: self.name@,
            symbols: self.symbols@.map_values(|s: Symbol<'src>| s@),
        }
    }
}

impl<'src> View for Definition<'src> {
    type V = DefinitionV;

    open spec fn view(&self) -> DefinitionV {
        DefinitionV {
            what: match self.what {
                Some(w) => Some(w@),
                None => None,
            },
            symbols: self.symbols@,
        }
    }
}

impl<'src> View for File<'src> {
    type V = FileV;

    open spec fn view(&self) -> FileV {
        FileV { definitions: self.definitions@.map_values(|d: Definition<'src>| d@) }
    }
}

} // verus!
