//! The syntactic model of a source file: the sequence of its top-level items
//! as a fixed-grammar concrete syntax tree exposes them, each with its kind
//! tag, the texts of its `name` and `body` fields, and the kind and text of
//! every direct child. Producing the model from raw bytes is delegated to the
//! tree-sitter Rust grammar behind one trusted wrapper; everything that reads
//! the model is verified.

use vstd::prelude::*;

verus! {

/// A direct child of a top-level item: its node kind and its source text.
pub struct SourceKid {
    pub kind: String,
    pub text: Vec<u8>,
}

/// A top-level item of a parsed source file: its node kind, the text of its
/// `name` and `body` fields where the grammar provides them, and all of its
/// direct children.
pub struct SourceItem {
    pub kind: String,
    pub name: Option<Vec<u8>>,
    pub body: Option<Vec<u8>>,
    pub kids: Vec<SourceKid>,
}

/// Mathematical image of a `SourceKid`.
pub ghost struct SourceKidView {
    pub kind: Seq<char>,
    pub text: Seq<u8>,
}

/// Mathematical image of a `SourceItem`.
pub ghost struct SourceItemView {
    pub kind: Seq<char>,
    pub name: Option<Seq<u8>>,
    pub body: Option<Seq<u8>>,
    pub kids: Seq<SourceKidView>,
}

impl View for SourceKid {
    type V = SourceKidView;

    open spec fn view(&self) -> SourceKidView {
        SourceKidView { kind: self.kind@, text: self.text@ }
    }
}

impl View for SourceItem {
    type V = SourceItemView;

    open spec fn view(&self) -> SourceItemView {
        SourceItemView {
            kind: self.kind@,
            name: match self.name {
                Some(n) => Some(n@),
                None => None,
            },
            body: match self.body {
                Some(b) => Some(b@),
                None => None,
            },
            kids: self.kids@.map_values(|k: SourceKid| k@),
        }
    }
}

/// The images of a sequence of items.
pub open spec fn views_of(items: Seq<SourceItem>) -> Seq<SourceItemView> {
    items.map_values(|t: SourceItem| t@)
}

/// The top-level items that parsing a byte string with the tree-sitter Rust
/// grammar yields, or `None` where no tree can be produced. Parsing is a pure
/// function of the bytes, so the items are too; nothing further is assumed
/// about their shape.
pub uninterp spec fn source_items(bytes: Seq<u8>) -> Option<Seq<SourceItemView>>;

/// Relies on tree-sitter with the Rust grammar: `Parser::new`,
/// `Parser::set_language` with `tree_sitter_rust::language` (which cannot fail
/// for this matching grammar version), `Parser::parse` (deterministic on the
/// bytes; `None` only when no tree can be produced), `Tree::root_node`,
/// `Node::children`, `Node::kind`, `Node::child_by_field_name`, and
/// `Node::byte_range`, whose range always lies within the parsed text.
#[verifier::external_body]
pub(crate) fn parse_top_items(content: &Vec<u8>) -> (r: Option<Vec<SourceItem>>)
    ensures
        r is Some <==> source_items(content@) is Some,
        r is Some ==> views_of(r.unwrap()@) == source_items(content@).unwrap(),
{
    let mut parser = tree_sitter::Parser::new();
    parser.set_language(tree_sitter_rust::language()).unwrap();
    let tree = parser.parse(content, None)?;
    let root = tree.root_node();
    let text = |n: tree_sitter::Node| content[n.byte_range()].to_vec();
    let items = root.children(&mut root.walk()).map(|n| SourceItem {
        kind: n.kind().to_string(),
        name: n.child_by_field_name("name").map(text),
        body: n.child_by_field_name("body").map(text),
        kids: n.children(&mut n.walk()).map(|k| SourceKid { kind: k.kind().to_string(), text: text(k) }).collect(),
    }).collect();
    Some(items)
}

/// The closed set of item kinds the library heuristic consults, decoded once
/// from the grammar's kind strings.
#[derive(Clone, Copy, PartialEq, Eq, Structural, Debug)]
pub enum ItemKind {
    Function,
    Const,
    Enum,
    ForeignMod,
    Mod,
    Struct,
    Static,
    Trait,
    TypeAlias,
    Use,
}

/// The item kind a grammar kind string decodes to, if any.
pub open spec fn spec_item_kind(k: Seq<char>) -> Option<ItemKind> {
    if k == "function_item"@ {
        Some(ItemKind::Function)
    } else if k == "const_item"@ {
        Some(ItemKind::Const)
    } else if k == "enum_item"@ {
        Some(ItemKind::Enum)
    } else if k == "foreign_mod_item"@ {
        Some(ItemKind::ForeignMod)
    } else if k == "mod_item"@ {
        Some(ItemKind::Mod)
    } else if k == "struct_item"@ {
        Some(ItemKind::Struct)
    } else if k == "static_item"@ {
        Some(ItemKind::Static)
    } else if k == "trait_item"@ {
        Some(ItemKind::Trait)
    } else if k == "type_item"@ {
        Some(ItemKind::TypeAlias)
    } else if k == "use_declaration"@ {
        Some(ItemKind::Use)
    } else {
        None
    }
}

/// Decodes a grammar kind string into the closed set of consulted item kinds.
pub fn item_kind_of(k: &String) -> (r: Option<ItemKind>)
    ensures
        r == spec_item_kind(k@),
{
    if *k == "function_item".to_owned() {
        Some(ItemKind::Function)
    } else if *k == "const_item".to_owned() {
        Some(ItemKind::Const)
    } else if *k == "enum_item".to_owned() {
        Some(ItemKind::Enum)
    } else if *k == "foreign_mod_item".to_owned() {
        Some(ItemKind::ForeignMod)
    } else if *k == "mod_item".to_owned() {
        Some(ItemKind::Mod)
    } else if *k == "struct_item".to_owned() {
        Some(ItemKind::Struct)
    } else if *k == "static_item".to_owned() {
        Some(ItemKind::Static)
    } else if *k == "trait_item".to_owned() {
        Some(ItemKind::Trait)
    } else if *k == "type_item".to_owned() {
        Some(ItemKind::TypeAlias)
    } else if *k == "use_declaration".to_owned() {
        Some(ItemKind::Use)
    } else {
        None
    }
}

} // verus!
