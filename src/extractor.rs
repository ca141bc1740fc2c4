//! Language adapters of the semantic chunker.
//!
//! A syntax node reaches the adapters as plain values: its kind, the kinds
//! of its parent and grandparent, the text of each named field that it has
//! (`name`, `parameters`, ...), its previous named sibling, the first
//! statement of its body, and for C/C++ the innermost of its nested
//! declarators. Each adapter lists the node kinds that are definitions in
//! its language, classifies a definition into a [`ChunkKind`], names it,
//! builds its one-line signature, finds its documentation and labels it.
use vstd::prelude::*;
use crate::text::{str_equal, concat_str};

verus! {

/// What a chunk holds.
#[derive(Debug, Clone, Copy, PartialEq, Eq, Structural)]
pub enum ChunkKind {
    Function,
    Method,
    Class,
    Struct,
    Enum,
    Trait,
    Interface,
    Impl,
    Mod,
    TypeAlias,
    Const,
    Static,
    Block,
    Anchor,
    Other,
}

/// Source languages the walker tells apart.
#[derive(Debug, Clone, Copy, PartialEq, Eq, Structural)]
pub enum Language {
    Rust,
    Python,
    JavaScript,
    TypeScript,
    CSharp,
    Go,
    Java,
    C,
    Cpp,
    Ruby,
    Php,
    Shell,
    Markdown,
    Text,
}

/// A named field of a node: the field name, the child's kind and its text.
pub struct NodeField {
    pub name: String,
    pub kind: String,
    pub text: String,
}

/// A node's kind and text.
pub struct NodeText {
    pub kind: String,
    pub text: String,
}

/// The first statement of a definition's body, with its named children.
pub struct BodyStatement {
    pub kind: String,
    pub children: Vec<NodeText>,
}

/// The innermost of a chain of nested C/C++ declarators: its kind, its
/// text, the text of its `name` field, and the text of its first named
/// child that is an identifier.
pub struct Declarator {
    pub kind: String,
    pub text: String,
    pub name: Option<String>,
    pub first_identifier: Option<String>,
}

/// A named child of a node: its kind and the text of its `name` field.
pub struct NamedChild {
    pub kind: String,
    pub name: Option<String>,
}

/// A syntax node as the adapters read it.
pub struct SyntaxNode {
    pub kind: String,
    pub parent_kind: Option<String>,
    pub grandparent_kind: Option<String>,
    pub fields: Vec<NodeField>,
    /// The named sibling just before the node, if any.
    pub prev_sibling: Option<NodeText>,
    /// The first named child of the node's `body` field, if any.
    pub body_first: Option<BodyStatement>,
    /// Following `declarator` fields down from the node, the last one
    /// reached, if the node has a `declarator` field.
    pub innermost_declarator: Option<Declarator>,
    /// The node's named children.
    pub named_children: Vec<NamedChild>,
}

/// The text of the first field called `name`, if any.
pub open spec fn field_text(fields: Seq<NodeField>, name: Seq<char>) -> Option<Seq<char>>
    decreases fields.len(),
{
    if fields.len() == 0 {
        None
    } else if fields[0].name@ == name {
        Some(fields[0].text@)
    } else {
        field_text(fields.drop_first(), name)
    }
}

/// One piece of a signature.
pub enum Piece {
    /// Fixed text.
    Lit(&'static str),
    /// A field's text, or nothing when the field is absent.
    Field(&'static str),
    /// When the field is present: the text before, the field's text, the
    /// text after; otherwise nothing.
    Around(&'static str, &'static str, &'static str),
}

/// The text of one piece for a node's fields.
pub open spec fn render_piece(p: Piece, fields: Seq<NodeField>) -> Seq<char> {
    match p {
        Piece::Lit(s) => s@,
        Piece::Field(n) => match field_text(fields, n@) {
            Some(t) => t,
            None => Seq::empty(),
        },
        Piece::Around(b, n, a) => match field_text(fields, n@) {
            Some(t) => b@ + t + a@,
            None => Seq::empty(),
        },
    }
}

/// The text of a sequence of pieces.
pub open spec fn render(ps: Seq<Piece>, fields: Seq<NodeField>) -> Seq<char>
    decreases ps.len(),
{
    if ps.len() == 0 {
        Seq::empty()
    } else {
        render(ps.drop_last(), fields) + render_piece(ps.last(), fields)
    }
}

/// The first field called `name`.
pub fn find_field<'a>(fields: &'a Vec<NodeField>, name: &str) -> (r: Option<&'a String>)
    ensures
        match field_text(fields@, name@) {
            Some(t) => r matches Some(s) && s@ == t,
            None => r is None,
        },
{
    let mut i: usize = 0;
    proof {
        assert(fields@.subrange(0, fields@.len() as int) =~= fields@);
    }
    while i < fields.len()
        invariant
            i <= fields@.len(),
            field_text(fields@, name@) == field_text(fields@.subrange(i as int, fields@.len() as int), name@),
        decreases fields@.len() - i,
    {
        let ghost rest = fields@.subrange(i as int, fields@.len() as int);
        if str_equal(fields[i].name.as_str(), name) {
            proof {
                assert(rest[0] == fields@[i as int]);
            }
            return Some(&fields[i].text);
        }
        proof {
            assert(rest.drop_first() =~= fields@.subrange(i + 1, fields@.len() as int));
        }
        i = i + 1;
    }
    proof {
        assert(fields@.subrange(i as int, fields@.len() as int) =~= Seq::<NodeField>::empty());
    }
    None
}

/// Renders pieces against a node's fields.
pub fn render_pieces(ps: &Vec<Piece>, fields: &Vec<NodeField>) -> (r: String)
    ensures
        r@ == render(ps@, fields@),
{
    let mut r = String::new();
    let mut i: usize = 0;
    while i < ps.len()
        invariant
            i <= ps@.len(),
            r@ == render(ps@.subrange(0, i as int), fields@),
        decreases ps@.len() - i,
    {
        let ghost before = r@;
        match &ps[i] {
            Piece::Lit(s) => {
                r.append(s);
            },
            Piece::Field(n) => {
                match find_field(fields, n) {
                    Some(t) => r.append(t.as_str()),
                    None => {},
                }
            },
            Piece::Around(b, n, a) => {
                match find_field(fields, n) {
                    Some(t) => {
                        r.append(b);
                        r.append(t.as_str());
                        r.append(a);
                    },
                    None => {},
                }
            },
        }
        proof {
            let t = ps@.subrange(0, i + 1);
            assert(t.drop_last() =~= ps@.subrange(0, i as int));
            assert(t.last() == ps@[i as int]);
            assert(r@ =~= before + render_piece(ps@[i as int], fields@));
        }
        i = i + 1;
    }
    proof {
        assert(ps@.subrange(0, ps@.len() as int) =~= ps@);
    }
    r
}

/// The language adapters.
#[derive(Debug, Clone, Copy, PartialEq, Eq, Structural)]
pub enum Extractor {
    Rust,
    Python,
    TypeScript,
    CSharp,
    Go,
    Java,
    Cpp,
    Ruby,
    Php,
    Bash,
}

/// The node kinds that are definitions for an adapter.
pub open spec fn spec_definition_types(e: Extractor) -> Seq<&'static str> {
    match e {
        Extractor::Rust => seq!["function_item", "struct_item", "enum_item", "impl_item", "trait_item", "type_item", "mod_item", "const_item", "static_item"],
        Extractor::Python => seq!["function_definition", "class_definition"],
        Extractor::TypeScript => seq!["function_declaration", "function", "method_definition", "class_declaration", "class", "interface_declaration", "type_alias_declaration", "enum_declaration", "lexical_declaration", "variable_declaration"],
        Extractor::CSharp => seq!["method_declaration", "class_declaration", "struct_declaration", "interface_declaration", "enum_declaration", "record_declaration", "property_declaration", "constructor_declaration", "namespace_declaration", "delegate_declaration"],
        Extractor::Go => seq!["function_declaration", "method_declaration", "type_declaration", "type_spec"],
        Extractor::Java => seq!["method_declaration", "constructor_declaration", "class_declaration", "interface_declaration", "enum_declaration", "annotation_type_declaration", "record_declaration"],
        Extractor::Cpp => seq!["function_definition", "declaration", "struct_specifier", "class_specifier", "enum_specifier", "namespace_definition", "template_declaration"],
        Extractor::Ruby => seq!["method", "singleton_method", "class", "module"],
        Extractor::Php => seq!["function_definition", "method_declaration", "class_declaration", "interface_declaration", "trait_declaration", "enum_declaration"],
        Extractor::Bash => seq!["function_definition"],
    }
}

/// How an adapter classifies a definition node of kind `k`, whose parent
/// and grandparent have the given kinds.
pub open spec fn spec_classify(e: Extractor, k: Seq<char>, parent: Option<Seq<char>>, grand: Option<Seq<char>>) -> ChunkKind {
    match e {
        Extractor::Rust => if k == "function_item"@ { if parent == Some("declaration_list"@) && grand == Some("impl_item"@) { ChunkKind::Method } else { ChunkKind::Function } } else if k == "struct_item"@ { ChunkKind::Struct } else if k == "enum_item"@ { ChunkKind::Enum } else if k == "impl_item"@ { ChunkKind::Impl } else if k == "trait_item"@ { ChunkKind::Trait } else if k == "type_item"@ { ChunkKind::TypeAlias } else if k == "mod_item"@ { ChunkKind::Mod } else if k == "const_item"@ { ChunkKind::Const } else if k == "static_item"@ { ChunkKind::Static } else { ChunkKind::Other },
        Extractor::Python => if k == "function_definition"@ { if parent == Some("block"@) && grand == Some("class_definition"@) { ChunkKind::Method } else { ChunkKind::Function } } else if k == "class_definition"@ { ChunkKind::Class } else { ChunkKind::Other },
        Extractor::TypeScript => if k == "function_declaration"@ || k == "function"@ { ChunkKind::Function } else if k == "method_definition"@ { ChunkKind::Method } else if k == "class_declaration"@ || k == "class"@ { ChunkKind::Class } else if k == "interface_declaration"@ { ChunkKind::Interface } else if k == "type_alias_declaration"@ { ChunkKind::TypeAlias } else if k == "enum_declaration"@ { ChunkKind::Enum } else if k == "lexical_declaration"@ || k == "variable_declaration"@ { ChunkKind::Function } else { ChunkKind::Other },
        Extractor::CSharp => if k == "method_declaration"@ || k == "constructor_declaration"@ { if parent == Some("declaration_list"@) { ChunkKind::Method } else { ChunkKind::Function } } else if k == "class_declaration"@ || k == "record_declaration"@ { ChunkKind::Class } else if k == "struct_declaration"@ { ChunkKind::Struct } else if k == "interface_declaration"@ { ChunkKind::Interface } else if k == "enum_declaration"@ { ChunkKind::Enum } else if k == "namespace_declaration"@ { ChunkKind::Mod } else if k == "property_declaration"@ { ChunkKind::Other } else if k == "delegate_declaration"@ { ChunkKind::TypeAlias } else { ChunkKind::Other },
        Extractor::Go => if k == "function_declaration"@ { ChunkKind::Function } else if k == "method_declaration"@ { ChunkKind::Method } else if k == "type_declaration"@ || k == "type_spec"@ { ChunkKind::Struct } else { ChunkKind::Other },
        Extractor::Java => if k == "method_declaration"@ || k == "constructor_declaration"@ { ChunkKind::Method } else if k == "class_declaration"@ || k == "record_declaration"@ { ChunkKind::Class } else if k == "interface_declaration"@ { ChunkKind::Interface } else if k == "enum_declaration"@ { ChunkKind::Enum } else if k == "annotation_type_declaration"@ { ChunkKind::Interface } else { ChunkKind::Other },
        Extractor::Cpp => if k == "function_definition"@ { ChunkKind::Function } else if k == "struct_specifier"@ { ChunkKind::Struct } else if k == "class_specifier"@ { ChunkKind::Class } else if k == "enum_specifier"@ { ChunkKind::Enum } else if k == "namespace_definition"@ { ChunkKind::Mod } else { ChunkKind::Other },
        Extractor::Ruby => if k == "method"@ || k == "singleton_method"@ { if parent == Some("class"@) || parent == Some("module"@) { ChunkKind::Method } else { ChunkKind::Function } } else if k == "class"@ { ChunkKind::Class } else if k == "module"@ { ChunkKind::Mod } else { ChunkKind::Other },
        Extractor::Php => if k == "function_definition"@ { ChunkKind::Function } else if k == "method_declaration"@ { ChunkKind::Method } else if k == "class_declaration"@ { ChunkKind::Class } else if k == "interface_declaration"@ { ChunkKind::Interface } else if k == "trait_declaration"@ { ChunkKind::Trait } else if k == "enum_declaration"@ { ChunkKind::Enum } else { ChunkKind::Other },
        Extractor::Bash => if k == "function_definition"@ { ChunkKind::Function } else { ChunkKind::Other },
    }
}

/// The pieces of an adapter's signature for a node of kind `k`; `None`
/// when the adapter gives that kind no signature.
pub open spec fn signature_pieces(e: Extractor, k: Seq<char>) -> Option<Seq<Piece>> {
    match e {
        Extractor::Rust => if k == "function_item"@ { Some(seq![Piece::Lit("fn "), Piece::Field("name"), Piece::Field("type_parameters"), Piece::Field("parameters"), Piece::Around(" -> ", "return_type", "")]) } else if k == "struct_item"@ { Some(seq![Piece::Lit("struct "), Piece::Field("name"), Piece::Field("type_parameters")]) } else if k == "enum_item"@ { Some(seq![Piece::Lit("enum "), Piece::Field("name"), Piece::Field("type_parameters")]) } else if k == "trait_item"@ { Some(seq![Piece::Lit("trait "), Piece::Field("name"), Piece::Field("type_parameters")]) } else if k == "impl_item"@ { Some(seq![Piece::Lit("impl"), Piece::Field("type_parameters"), Piece::Around(" ", "trait", " for"), Piece::Around(" ", "type", "")]) } else { None },
        Extractor::Python => if k == "function_definition"@ { Some(seq![Piece::Lit("def "), Piece::Field("name"), Piece::Field("parameters"), Piece::Around(" -> ", "return_type", "")]) } else if k == "class_definition"@ { Some(seq![Piece::Lit("class "), Piece::Field("name"), Piece::Field("superclasses")]) } else { None },
        Extractor::TypeScript => if k == "function_declaration"@ || k == "function"@ { Some(seq![Piece::Lit("function "), Piece::Field("name"), Piece::Field("parameters"), Piece::Around(": ", "return_type", "")]) } else if k == "class_declaration"@ || k == "class"@ { Some(seq![Piece::Lit("class "), Piece::Field("name")]) } else { None },
        Extractor::CSharp => if k == "method_declaration"@ { Some(seq![Piece::Around("", "type", " "), Piece::Field("name"), Piece::Field("type_parameters"), Piece::Field("parameters")]) } else if k == "class_declaration"@ { Some(seq![Piece::Lit("class "), Piece::Field("name"), Piece::Field("type_parameters")]) } else if k == "struct_declaration"@ { Some(seq![Piece::Lit("struct "), Piece::Field("name"), Piece::Field("type_parameters")]) } else if k == "interface_declaration"@ { Some(seq![Piece::Lit("interface "), Piece::Field("name"), Piece::Field("type_parameters")]) } else { None },
        Extractor::Go => if k == "function_declaration"@ { Some(seq![Piece::Lit("func "), Piece::Field("name"), Piece::Field("parameters"), Piece::Around(" ", "result", "")]) } else if k == "method_declaration"@ { Some(seq![Piece::Lit("func "), Piece::Around("", "receiver", " "), Piece::Field("name"), Piece::Field("parameters")]) } else if k == "type_spec"@ { Some(seq![Piece::Lit("type "), Piece::Field("name")]) } else { None },
        Extractor::Java => if k == "method_declaration"@ { Some(seq![Piece::Around("", "type", " "), Piece::Field("name"), Piece::Field("parameters")]) } else if k == "class_declaration"@ { Some(seq![Piece::Lit("class "), Piece::Field("name")]) } else if k == "interface_declaration"@ { Some(seq![Piece::Lit("interface "), Piece::Field("name")]) } else if k == "enum_declaration"@ { Some(seq![Piece::Lit("enum "), Piece::Field("name")]) } else { None },
        Extractor::Cpp => if k == "function_definition"@ { Some(seq![Piece::Around("", "type", " "), Piece::Field("declarator")]) } else if k == "struct_specifier"@ { Some(seq![Piece::Lit("struct "), Piece::Field("name")]) } else if k == "class_specifier"@ { Some(seq![Piece::Lit("class "), Piece::Field("name")]) } else { None },
        Extractor::Ruby => if k == "method"@ || k == "singleton_method"@ { Some(seq![Piece::Lit("def "), Piece::Field("name"), Piece::Field("parameters")]) } else if k == "class"@ { Some(seq![Piece::Lit("class "), Piece::Field("name")]) } else if k == "module"@ { Some(seq![Piece::Lit("module "), Piece::Field("name")]) } else { None },
        Extractor::Php => if k == "function_definition"@ || k == "method_declaration"@ { Some(seq![Piece::Lit("function "), Piece::Field("name"), Piece::Field("parameters")]) } else if k == "class_declaration"@ { Some(seq![Piece::Lit("class "), Piece::Field("name")]) } else if k == "interface_declaration"@ { Some(seq![Piece::Lit("interface "), Piece::Field("name")]) } else if k == "trait_declaration"@ { Some(seq![Piece::Lit("trait "), Piece::Field("name")]) } else { None },
        Extractor::Bash => if k == "function_definition"@ { Some(seq![Piece::Lit("function "), Piece::Field("name")]) } else { None },
    }
}

/// The view of an optional kind.
pub open spec fn opt_view(k: Option<String>) -> Option<Seq<char>> {
    match k {
        Some(x) => Some(x@),
        None => None,
    }
}

/// Whether an optional kind is `s`.
fn opt_is(k: &Option<String>, s: &str) -> (r: bool)
    ensures
        r == (opt_view(*k) == Some(s@)),
{
    match k {
        Some(x) => str_equal(x.as_str(), s),
        None => false,
    }
}

impl Extractor {
    /// The node kinds that are definitions in the adapter's language.
    pub fn definition_types(&self) -> (r: Vec<&'static str>)
        ensures
            r@ == spec_definition_types(*self),
    {
        match self {
            Extractor::Rust => vec!["function_item", "struct_item", "enum_item", "impl_item", "trait_item", "type_item", "mod_item", "const_item", "static_item"],
            Extractor::Python => vec!["function_definition", "class_definition"],
            Extractor::TypeScript => vec!["function_declaration", "function", "method_definition", "class_declaration", "class", "interface_declaration", "type_alias_declaration", "enum_declaration", "lexical_declaration", "variable_declaration"],
            Extractor::CSharp => vec!["method_declaration", "class_declaration", "struct_declaration", "interface_declaration", "enum_declaration", "record_declaration", "property_declaration", "constructor_declaration", "namespace_declaration", "delegate_declaration"],
            Extractor::Go => vec!["function_declaration", "method_declaration", "type_declaration", "type_spec"],
            Extractor::Java => vec!["method_declaration", "constructor_declaration", "class_declaration", "interface_declaration", "enum_declaration", "annotation_type_declaration", "record_declaration"],
            Extractor::Cpp => vec!["function_definition", "declaration", "struct_specifier", "class_specifier", "enum_specifier", "namespace_definition", "template_declaration"],
            Extractor::Ruby => vec!["method", "singleton_method", "class", "module"],
            Extractor::Php => vec!["function_definition", "method_declaration", "class_declaration", "interface_declaration", "trait_declaration", "enum_declaration"],
            Extractor::Bash => vec!["function_definition"],
        }
    }

    /// Whether the node is a definition.
    pub fn is_definition(&self, node: &SyntaxNode) -> (r: bool)
        ensures
            r == exists|i: int| 0 <= i < spec_definition_types(*self).len() && #[trigger] spec_definition_types(*self)[i]@ == node.kind@,
    {
        let types = self.definition_types();
        let mut i: usize = 0;
        while i < types.len()
            invariant
                types@ == spec_definition_types(*self),
                i <= types@.len(),
                forall|j: int| 0 <= j < i ==> types@[j]@ != node.kind@,
            decreases types@.len() - i,
        {
            if str_equal(types[i], node.kind.as_str()) {
                return true;
            }
            i = i + 1;
        }
        false
    }

    /// The chunk kind of a definition node.
    pub fn classify(&self, node: &SyntaxNode) -> (r: ChunkKind)
        ensures
            r == spec_classify(*self, node.kind@, opt_view(node.parent_kind), opt_view(node.grandparent_kind)),
    {
        let k = node.kind.as_str();
        match self {
            Extractor::Rust => { if str_equal(k, "function_item") { if opt_is(&node.parent_kind, "declaration_list") && opt_is(&node.grandparent_kind, "impl_item") { ChunkKind::Method } else { ChunkKind::Function } } else if str_equal(k, "struct_item") { ChunkKind::Struct } else if str_equal(k, "enum_item") { ChunkKind::Enum } else if str_equal(k, "impl_item") { ChunkKind::Impl } else if str_equal(k, "trait_item") { ChunkKind::Trait } else if str_equal(k, "type_item") { ChunkKind::TypeAlias } else if str_equal(k, "mod_item") { ChunkKind::Mod } else if str_equal(k, "const_item") { ChunkKind::Const } else if str_equal(k, "static_item") { ChunkKind::Static } else { ChunkKind::Other } },
            Extractor::Python => { if str_equal(k, "function_definition") { if opt_is(&node.parent_kind, "block") && opt_is(&node.grandparent_kind, "class_definition") { ChunkKind::Method } else { ChunkKind::Function } } else if str_equal(k, "class_definition") { ChunkKind::Class } else { ChunkKind::Other } },
            Extractor::TypeScript => { if str_equal(k, "function_declaration") || str_equal(k, "function") { ChunkKind::Function } else if str_equal(k, "method_definition") { ChunkKind::Method } else if str_equal(k, "class_declaration") || str_equal(k, "class") { ChunkKind::Class } else if str_equal(k, "interface_declaration") { ChunkKind::Interface } else if str_equal(k, "type_alias_declaration") { ChunkKind::TypeAlias } else if str_equal(k, "enum_declaration") { ChunkKind::Enum } else if str_equal(k, "lexical_declaration") || str_equal(k, "variable_declaration") { ChunkKind::Function } else { ChunkKind::Other } },
            Extractor::CSharp => { if str_equal(k, "method_declaration") || str_equal(k, "constructor_declaration") { if opt_is(&node.parent_kind, "declaration_list") { ChunkKind::Method } else { ChunkKind::Function } } else if str_equal(k, "class_declaration") || str_equal(k, "record_declaration") { ChunkKind::Class } else if str_equal(k, "struct_declaration") { ChunkKind::Struct } else if str_equal(k, "interface_declaration") { ChunkKind::Interface } else if str_equal(k, "enum_declaration") { ChunkKind::Enum } else if str_equal(k, "namespace_declaration") { ChunkKind::Mod } else if str_equal(k, "property_declaration") { ChunkKind::Other } else if str_equal(k, "delegate_declaration") { ChunkKind::TypeAlias } else { ChunkKind::Other } },
            Extractor::Go => { if str_equal(k, "function_declaration") { ChunkKind::Function } else if str_equal(k, "method_declaration") { ChunkKind::Method } else if str_equal(k, "type_declaration") || str_equal(k, "type_spec") { ChunkKind::Struct } else { ChunkKind::Other } },
            Extractor::Java => { if str_equal(k, "method_declaration") || str_equal(k, "constructor_declaration") { ChunkKind::Method } else if str_equal(k, "class_declaration") || str_equal(k, "record_declaration") { ChunkKind::Class } else if str_equal(k, "interface_declaration") { ChunkKind::Interface } else if str_equal(k, "enum_declaration") { ChunkKind::Enum } else if str_equal(k, "annotation_type_declaration") { ChunkKind::Interface } else { ChunkKind::Other } },
            Extractor::Cpp => { if str_equal(k, "function_definition") { ChunkKind::Function } else if str_equal(k, "struct_specifier") { ChunkKind::Struct } else if str_equal(k, "class_specifier") { ChunkKind::Class } else if str_equal(k, "enum_specifier") { ChunkKind::Enum } else if str_equal(k, "namespace_definition") { ChunkKind::Mod } else { ChunkKind::Other } },
            Extractor::Ruby => { if str_equal(k, "method") || str_equal(k, "singleton_method") { if opt_is(&node.parent_kind, "class") || opt_is(&node.parent_kind, "module") { ChunkKind::Method } else { ChunkKind::Function } } else if str_equal(k, "class") { ChunkKind::Class } else if str_equal(k, "module") { ChunkKind::Mod } else { ChunkKind::Other } },
            Extractor::Php => { if str_equal(k, "function_definition") { ChunkKind::Function } else if str_equal(k, "method_declaration") { ChunkKind::Method } else if str_equal(k, "class_declaration") { ChunkKind::Class } else if str_equal(k, "interface_declaration") { ChunkKind::Interface } else if str_equal(k, "trait_declaration") { ChunkKind::Trait } else if str_equal(k, "enum_declaration") { ChunkKind::Enum } else { ChunkKind::Other } },
            Extractor::Bash => { if str_equal(k, "function_definition") { ChunkKind::Function } else { ChunkKind::Other } },
        }
    }

    /// The signature pieces for a node kind.
    fn pieces(&self, k: &str) -> (r: Option<Vec<Piece>>)
        ensures
            match signature_pieces(*self, k@) {
                Some(ps) => r matches Some(v) && v@ == ps,
                None => r is None,
            },
    {
        match self {
            Extractor::Rust => { if str_equal(k, "function_item") { Some(vec![Piece::Lit("fn "), Piece::Field("name"), Piece::Field("type_parameters"), Piece::Field("parameters"), Piece::Around(" -> ", "return_type", "")]) } else if str_equal(k, "struct_item") { Some(vec![Piece::Lit("struct "), Piece::Field("name"), Piece::Field("type_parameters")]) } else if str_equal(k, "enum_item") { Some(vec![Piece::Lit("enum "), Piece::Field("name"), Piece::Field("type_parameters")]) } else if str_equal(k, "trait_item") { Some(vec![Piece::Lit("trait "), Piece::Field("name"), Piece::Field("type_parameters")]) } else if str_equal(k, "impl_item") { Some(vec![Piece::Lit("impl"), Piece::Field("type_parameters"), Piece::Around(" ", "trait", " for"), Piece::Around(" ", "type", "")]) } else { None } },
            Extractor::Python => { if str_equal(k, "function_definition") { Some(vec![Piece::Lit("def "), Piece::Field("name"), Piece::Field("parameters"), Piece::Around(" -> ", "return_type", "")]) } else if str_equal(k, "class_definition") { Some(vec![Piece::Lit("class "), Piece::Field("name"), Piece::Field("superclasses")]) } else { None } },
            Extractor::TypeScript => { if str_equal(k, "function_declaration") || str_equal(k, "function") { Some(vec![Piece::Lit("function "), Piece::Field("name"), Piece::Field("parameters"), Piece::Around(": ", "return_type", "")]) } else if str_equal(k, "class_declaration") || str_equal(k, "class") { Some(vec![Piece::Lit("class "), Piece::Field("name")]) } else { None } },
            Extractor::CSharp => { if str_equal(k, "method_declaration") { Some(vec![Piece::Around("", "type", " "), Piece::Field("name"), Piece::Field("type_parameters"), Piece::Field("parameters")]) } else if str_equal(k, "class_declaration") { Some(vec![Piece::Lit("class "), Piece::Field("name"), Piece::Field("type_parameters")]) } else if str_equal(k, "struct_declaration") { Some(vec![Piece::Lit("struct "), Piece::Field("name"), Piece::Field("type_parameters")]) } else if str_equal(k, "interface_declaration") { Some(vec![Piece::Lit("interface "), Piece::Field("name"), Piece::Field("type_parameters")]) } else { None } },
            Extractor::Go => { if str_equal(k, "function_declaration") { Some(vec![Piece::Lit("func "), Piece::Field("name"), Piece::Field("parameters"), Piece::Around(" ", "result", "")]) } else if str_equal(k, "method_declaration") { Some(vec![Piece::Lit("func "), Piece::Around("", "receiver", " "), Piece::Field("name"), Piece::Field("parameters")]) } else if str_equal(k, "type_spec") { Some(vec![Piece::Lit("type "), Piece::Field("name")]) } else { None } },
            Extractor::Java => { if str_equal(k, "method_declaration") { Some(vec![Piece::Around("", "type", " "), Piece::Field("name"), Piece::Field("parameters")]) } else if str_equal(k, "class_declaration") { Some(vec![Piece::Lit("class "), Piece::Field("name")]) } else if str_equal(k, "interface_declaration") { Some(vec![Piece::Lit("interface "), Piece::Field("name")]) } else if str_equal(k, "enum_declaration") { Some(vec![Piece::Lit("enum "), Piece::Field("name")]) } else { None } },
            Extractor::Cpp => { if str_equal(k, "function_definition") { Some(vec![Piece::Around("", "type", " "), Piece::Field("declarator")]) } else if str_equal(k, "struct_specifier") { Some(vec![Piece::Lit("struct "), Piece::Field("name")]) } else if str_equal(k, "class_specifier") { Some(vec![Piece::Lit("class "), Piece::Field("name")]) } else { None } },
            Extractor::Ruby => { if str_equal(k, "method") || str_equal(k, "singleton_method") { Some(vec![Piece::Lit("def "), Piece::Field("name"), Piece::Field("parameters")]) } else if str_equal(k, "class") { Some(vec![Piece::Lit("class "), Piece::Field("name")]) } else if str_equal(k, "module") { Some(vec![Piece::Lit("module "), Piece::Field("name")]) } else { None } },
            Extractor::Php => { if str_equal(k, "function_definition") || str_equal(k, "method_declaration") { Some(vec![Piece::Lit("function "), Piece::Field("name"), Piece::Field("parameters")]) } else if str_equal(k, "class_declaration") { Some(vec![Piece::Lit("class "), Piece::Field("name")]) } else if str_equal(k, "interface_declaration") { Some(vec![Piece::Lit("interface "), Piece::Field("name")]) } else if str_equal(k, "trait_declaration") { Some(vec![Piece::Lit("trait "), Piece::Field("name")]) } else { None } },
            Extractor::Bash => { if str_equal(k, "function_definition") { Some(vec![Piece::Lit("function "), Piece::Field("name")]) } else { None } },
        }
    }

    /// The one-line signature of a definition node, when the adapter gives
    /// its kind one.
    pub fn extract_signature(&self, node: &SyntaxNode) -> (r: Option<String>)
        ensures
            match signature_pieces(*self, node.kind@) {
                Some(ps) => r matches Some(s) && s@ == render(ps, node.fields@),
                None => r is None,
            },
    {
        match self.pieces(node.kind.as_str()) {
            Some(ps) => Some(render_pieces(&ps, &node.fields)),
            None => None,
        }
    }
}

/// The identifier a C/C++ declarator chain ends in, if any.
pub open spec fn declarator_name(d: Option<Declarator>) -> Option<Seq<char>> {
    match d {
        None => None,
        Some(d) => if d.kind@ == "identifier"@ || d.kind@ == "field_identifier"@ {
            Some(d.text@)
        } else if d.name is Some {
            opt_view(d.name)
        } else {
            opt_view(d.first_identifier)
        },
    }
}

/// The name of the first `variable_declarator` child that has one.
pub open spec fn first_declared_name(cs: Seq<NamedChild>) -> Option<Seq<char>>
    decreases cs.len(),
{
    if cs.len() == 0 {
        None
    } else if cs[0].kind@ == "variable_declarator"@ && cs[0].name is Some {
        opt_view(cs[0].name)
    } else {
        first_declared_name(cs.drop_first())
    }
}

/// The name of a definition node for an adapter: its `name` field; for
/// C/C++ first the identifier its declarators end in; for a JavaScript or
/// TypeScript variable declaration without one, the name of its first
/// named declarator.
pub open spec fn spec_name_of(e: Extractor, node: SyntaxNode) -> Option<Seq<char>> {
    if e == Extractor::Cpp && declarator_name(node.innermost_declarator) is Some {
        declarator_name(node.innermost_declarator)
    } else if field_text(node.fields@, "name"@) is Some {
        field_text(node.fields@, "name"@)
    } else if e == Extractor::TypeScript && (node.kind@ == "lexical_declaration"@ || node.kind@ == "variable_declaration"@) {
        first_declared_name(node.named_children@)
    } else {
        None
    }
}

fn first_declared_name_of(cs: &Vec<NamedChild>) -> (r: Option<String>)
    ensures
        opt_view(r) == first_declared_name(cs@),
{
    let mut i: usize = 0;
    proof {
        assert(cs@.subrange(0, cs@.len() as int) =~= cs@);
    }
    while i < cs.len()
        invariant
            i <= cs@.len(),
            first_declared_name(cs@) == first_declared_name(cs@.subrange(i as int, cs@.len() as int)),
        decreases cs@.len() - i,
    {
        let ghost rest = cs@.subrange(i as int, cs@.len() as int);
        proof {
            assert(rest[0] == cs@[i as int]);
            assert(rest.drop_first() =~= cs@.subrange(i + 1, cs@.len() as int));
        }
        if str_equal(cs[i].kind.as_str(), "variable_declarator") {
            if let Some(n) = &cs[i].name {
                return Some(n.clone());
            }
        }
        i = i + 1;
    }
    proof {
        assert(cs@.subrange(i as int, cs@.len() as int) =~= Seq::<NamedChild>::empty());
    }
    None
}

/// The label prefix of a chunk kind.
pub open spec fn label_prefix(k: ChunkKind) -> Seq<char> {
    match k {
        ChunkKind::Function => "Function: "@,
        ChunkKind::Method => "Method: "@,
        ChunkKind::Class => "Class: "@,
        ChunkKind::Struct => "Struct: "@,
        ChunkKind::Enum => "Enum: "@,
        ChunkKind::Trait => "Trait: "@,
        ChunkKind::Interface => "Interface: "@,
        ChunkKind::Impl => "Impl: "@,
        ChunkKind::Mod => "Module: "@,
        ChunkKind::TypeAlias => "Type: "@,
        ChunkKind::Const => "Const: "@,
        ChunkKind::Static => "Static: "@,
        _ => "Symbol: "@,
    }
}

fn prefix_of(k: ChunkKind) -> (r: &'static str)
    ensures
        r@ == label_prefix(k),
{
    match k {
        ChunkKind::Function => "Function: ",
        ChunkKind::Method => "Method: ",
        ChunkKind::Class => "Class: ",
        ChunkKind::Struct => "Struct: ",
        ChunkKind::Enum => "Enum: ",
        ChunkKind::Trait => "Trait: ",
        ChunkKind::Interface => "Interface: ",
        ChunkKind::Impl => "Impl: ",
        ChunkKind::Mod => "Module: ",
        ChunkKind::TypeAlias => "Type: ",
        ChunkKind::Const => "Const: ",
        ChunkKind::Static => "Static: ",
        _ => "Symbol: ",
    }
}

impl Extractor {
    /// The name of a definition (see `spec_name_of`).
    pub fn extract_name(&self, node: &SyntaxNode) -> (r: Option<String>)
        ensures
            opt_view(r) == spec_name_of(*self, *node),
    {
        if let Extractor::Cpp = self {
            if let Some(d) = &node.innermost_declarator {
                if str_equal(d.kind.as_str(), "identifier") || str_equal(d.kind.as_str(), "field_identifier") {
                    return Some(d.text.clone());
                }
                if let Some(n) = &d.name {
                    return Some(n.clone());
                }
                if let Some(n) = &d.first_identifier {
                    return Some(n.clone());
                }
            }
        }
        match find_field(&node.fields, "name") {
            Some(t) => Some(t.clone()),
            None => {
                if let Extractor::TypeScript = self {
                    let k = node.kind.as_str();
                    if str_equal(k, "lexical_declaration") || str_equal(k, "variable_declaration") {
                        return first_declared_name_of(&node.named_children);
                    }
                }
                None
            },
        }
    }

    /// The label of a definition (`Function: foo`, `Class: Bar`); none
    /// when it has no name.
    pub fn build_label(&self, node: &SyntaxNode) -> (r: Option<String>)
        ensures
            match spec_name_of(*self, *node) {
                Some(n) => r matches Some(l) && l@ == label_prefix(
                    spec_classify(*self, node.kind@, opt_view(node.parent_kind), opt_view(node.grandparent_kind)),
                ) + n,
                None => r is None,
            },
    {
        match self.extract_name(node) {
            Some(name) => {
                let kind = self.classify(node);
                Some(concat_str(prefix_of(kind), name.as_str()))
            },
            None => None,
        }
    }
}

/// The adapter of a language, if it has one.
pub open spec fn spec_extractor_for(l: Language) -> Option<Extractor> {
    match l {
        Language::Rust => Some(Extractor::Rust),
        Language::Python => Some(Extractor::Python),
        Language::JavaScript => Some(Extractor::TypeScript),
        Language::TypeScript => Some(Extractor::TypeScript),
        Language::CSharp => Some(Extractor::CSharp),
        Language::Go => Some(Extractor::Go),
        Language::Java => Some(Extractor::Java),
        Language::C => Some(Extractor::Cpp),
        Language::Cpp => Some(Extractor::Cpp),
        Language::Ruby => Some(Extractor::Ruby),
        Language::Php => Some(Extractor::Php),
        Language::Shell => Some(Extractor::Bash),
        _ => None,
    }
}

/// The adapter of a language, if it has one.
pub fn get_extractor(language: Language) -> (r: Option<Extractor>)
    ensures
        r == spec_extractor_for(language),
{
    match language {
        Language::Rust => Some(Extractor::Rust),
        Language::Python => Some(Extractor::Python),
        Language::JavaScript | Language::TypeScript => Some(Extractor::TypeScript),
        Language::CSharp => Some(Extractor::CSharp),
        Language::Go => Some(Extractor::Go),
        Language::Java => Some(Extractor::Java),
        Language::C | Language::Cpp => Some(Extractor::Cpp),
        Language::Ruby => Some(Extractor::Ruby),
        Language::Php => Some(Extractor::Php),
        Language::Shell => Some(Extractor::Bash),
        _ => None,
    }
}

/// The Rust adapter.
pub struct RustExtractor;

impl RustExtractor {
    /// The adapter this stands for.
    pub fn adapter(&self) -> (r: Extractor)
        ensures
            r == Extractor::Rust,
    {
        Extractor::Rust
    }

    /// The node kinds that are definitions.
    pub fn definition_types(&self) -> (r: Vec<&'static str>)
        ensures
            r@ == spec_definition_types(Extractor::Rust),
    {
        Extractor::Rust.definition_types()
    }

    /// The chunk kind of a definition node.
    pub fn classify(&self, node: &SyntaxNode) -> (r: ChunkKind)
        ensures
            r == spec_classify(Extractor::Rust, node.kind@, opt_view(node.parent_kind), opt_view(node.grandparent_kind)),
    {
        Extractor::Rust.classify(node)
    }

    /// The one-line signature of a definition node.
    pub fn extract_signature(&self, node: &SyntaxNode) -> (r: Option<String>)
        ensures
            match signature_pieces(Extractor::Rust, node.kind@) {
                Some(ps) => r matches Some(s) && s@ == render(ps, node.fields@),
                None => r is None,
            },
    {
        Extractor::Rust.extract_signature(node)
    }
}

/// The Python adapter.
pub struct PythonExtractor;

impl PythonExtractor {
    /// The adapter this stands for.
    pub fn adapter(&self) -> (r: Extractor)
        ensures
            r == Extractor::Python,
    {
        Extractor::Python
    }

    /// The node kinds that are definitions.
    pub fn definition_types(&self) -> (r: Vec<&'static str>)
        ensures
            r@ == spec_definition_types(Extractor::Python),
    {
        Extractor::Python.definition_types()
    }

    /// The chunk kind of a definition node.
    pub fn classify(&self, node: &SyntaxNode) -> (r: ChunkKind)
        ensures
            r == spec_classify(Extractor::Python, node.kind@, opt_view(node.parent_kind), opt_view(node.grandparent_kind)),
    {
        Extractor::Python.classify(node)
    }

    /// The one-line signature of a definition node.
    pub fn extract_signature(&self, node: &SyntaxNode) -> (r: Option<String>)
        ensures
            match signature_pieces(Extractor::Python, node.kind@) {
                Some(ps) => r matches Some(s) && s@ == render(ps, node.fields@),
                None => r is None,
            },
    {
        Extractor::Python.extract_signature(node)
    }
}

/// The TypeScript adapter.
pub struct TypeScriptExtractor;

impl TypeScriptExtractor {
    /// The adapter this stands for.
    pub fn adapter(&self) -> (r: Extractor)
        ensures
            r == Extractor::TypeScript,
    {
        Extractor::TypeScript
    }

    /// The node kinds that are definitions.
    pub fn definition_types(&self) -> (r: Vec<&'static str>)
        ensures
            r@ == spec_definition_types(Extractor::TypeScript),
    {
        Extractor::TypeScript.definition_types()
    }

    /// The chunk kind of a definition node.
    pub fn classify(&self, node: &SyntaxNode) -> (r: ChunkKind)
        ensures
            r == spec_classify(Extractor::TypeScript, node.kind@, opt_view(node.parent_kind), opt_view(node.grandparent_kind)),
    {
        Extractor::TypeScript.classify(node)
    }

    /// The one-line signature of a definition node.
    pub fn extract_signature(&self, node: &SyntaxNode) -> (r: Option<String>)
        ensures
            match signature_pieces(Extractor::TypeScript, node.kind@) {
                Some(ps) => r matches Some(s) && s@ == render(ps, node.fields@),
                None => r is None,
            },
    {
        Extractor::TypeScript.extract_signature(node)
    }
}

/// The CSharp adapter.
pub struct CSharpExtractor;

impl CSharpExtractor {
    /// The adapter this stands for.
    pub fn adapter(&self) -> (r: Extractor)
        ensures
            r == Extractor::CSharp,
    {
        Extractor::CSharp
    }

    /// The node kinds that are definitions.
    pub fn definition_types(&self) -> (r: Vec<&'static str>)
        ensures
            r@ == spec_definition_types(Extractor::CSharp),
    {
        Extractor::CSharp.definition_types()
    }

    /// The chunk kind of a definition node.
    pub fn classify(&self, node: &SyntaxNode) -> (r: ChunkKind)
        ensures
            r == spec_classify(Extractor::CSharp, node.kind@, opt_view(node.parent_kind), opt_view(node.grandparent_kind)),
    {
        Extractor::CSharp.classify(node)
    }

    /// The one-line signature of a definition node.
    pub fn extract_signature(&self, node: &SyntaxNode) -> (r: Option<String>)
        ensures
            match signature_pieces(Extractor::CSharp, node.kind@) {
                Some(ps) => r matches Some(s) && s@ == render(ps, node.fields@),
                None => r is None,
            },
    {
        Extractor::CSharp.extract_signature(node)
    }
}

/// The Go adapter.
pub struct GoExtractor;

impl GoExtractor {
    /// The adapter this stands for.
    pub fn adapter(&self) -> (r: Extractor)
        ensures
            r == Extractor::Go,
    {
        Extractor::Go
    }

    /// The node kinds that are definitions.
    pub fn definition_types(&self) -> (r: Vec<&'static str>)
        ensures
            r@ == spec_definition_types(Extractor::Go),
    {
        Extractor::Go.definition_types()
    }

    /// The chunk kind of a definition node.
    pub fn classify(&self, node: &SyntaxNode) -> (r: ChunkKind)
        ensures
            r == spec_classify(Extractor::Go, node.kind@, opt_view(node.parent_kind), opt_view(node.grandparent_kind)),
    {
        Extractor::Go.classify(node)
    }

    /// The one-line signature of a definition node.
    pub fn extract_signature(&self, node: &SyntaxNode) -> (r: Option<String>)
        ensures
            match signature_pieces(Extractor::Go, node.kind@) {
                Some(ps) => r matches Some(s) && s@ == render(ps, node.fields@),
                None => r is None,
            },
    {
        Extractor::Go.extract_signature(node)
    }
}

/// The Java adapter.
pub struct JavaExtractor;

impl JavaExtractor {
    /// The adapter this stands for.
    pub fn adapter(&self) -> (r: Extractor)
        ensures
            r == Extractor::Java,
    {
        Extractor::Java
    }

    /// The node kinds that are definitions.
    pub fn definition_types(&self) -> (r: Vec<&'static str>)
        ensures
            r@ == spec_definition_types(Extractor::Java),
    {
        Extractor::Java.definition_types()
    }

    /// The chunk kind of a definition node.
    pub fn classify(&self, node: &SyntaxNode) -> (r: ChunkKind)
        ensures
            r == spec_classify(Extractor::Java, node.kind@, opt_view(node.parent_kind), opt_view(node.grandparent_kind)),
    {
        Extractor::Java.classify(node)
    }

    /// The one-line signature of a definition node.
    pub fn extract_signature(&self, node: &SyntaxNode) -> (r: Option<String>)
        ensures
            match signature_pieces(Extractor::Java, node.kind@) {
                Some(ps) => r matches Some(s) && s@ == render(ps, node.fields@),
                None => r is None,
            },
    {
        Extractor::Java.extract_signature(node)
    }
}

/// The Cpp adapter.
pub struct CppExtractor;

impl CppExtractor {
    /// The adapter this stands for.
    pub fn adapter(&self) -> (r: Extractor)
        ensures
            r == Extractor::Cpp,
    {
        Extractor::Cpp
    }

    /// The node kinds that are definitions.
    pub fn definition_types(&self) -> (r: Vec<&'static str>)
        ensures
            r@ == spec_definition_types(Extractor::Cpp),
    {
        Extractor::Cpp.definition_types()
    }

    /// The chunk kind of a definition node.
    pub fn classify(&self, node: &SyntaxNode) -> (r: ChunkKind)
        ensures
            r == spec_classify(Extractor::Cpp, node.kind@, opt_view(node.parent_kind), opt_view(node.grandparent_kind)),
    {
        Extractor::Cpp.classify(node)
    }

    /// The one-line signature of a definition node.
    pub fn extract_signature(&self, node: &SyntaxNode) -> (r: Option<String>)
        ensures
            match signature_pieces(Extractor::Cpp, node.kind@) {
                Some(ps) => r matches Some(s) && s@ == render(ps, node.fields@),
                None => r is None,
            },
    {
        Extractor::Cpp.extract_signature(node)
    }
}

/// The Ruby adapter.
pub struct RubyExtractor;

impl RubyExtractor {
    /// The adapter this stands for.
    pub fn adapter(&self) -> (r: Extractor)
        ensures
            r == Extractor::Ruby,
    {
        Extractor::Ruby
    }

    /// The node kinds that are definitions.
    pub fn definition_types(&self) -> (r: Vec<&'static str>)
        ensures
            r@ == spec_definition_types(Extractor::Ruby),
    {
        Extractor::Ruby.definition_types()
    }

    /// The chunk kind of a definition node.
    pub fn classify(&self, node: &SyntaxNode) -> (r: ChunkKind)
        ensures
            r == spec_classify(Extractor::Ruby, node.kind@, opt_view(node.parent_kind), opt_view(node.grandparent_kind)),
    {
        Extractor::Ruby.classify(node)
    }

    /// The one-line signature of a definition node.
    pub fn extract_signature(&self, node: &SyntaxNode) -> (r: Option<String>)
        ensures
            match signature_pieces(Extractor::Ruby, node.kind@) {
                Some(ps) => r matches Some(s) && s@ == render(ps, node.fields@),
                None => r is None,
            },
    {
        Extractor::Ruby.extract_signature(node)
    }
}

/// The Php adapter.
pub struct PhpExtractor;

impl PhpExtractor {
    /// The adapter this stands for.
    pub fn adapter(&self) -> (r: Extractor)
        ensures
            r == Extractor::Php,
    {
        Extractor::Php
    }

    /// The node kinds that are definitions.
    pub fn definition_types(&self) -> (r: Vec<&'static str>)
        ensures
            r@ == spec_definition_types(Extractor::Php),
    {
        Extractor::Php.definition_types()
    }

    /// The chunk kind of a definition node.
    pub fn classify(&self, node: &SyntaxNode) -> (r: ChunkKind)
        ensures
            r == spec_classify(Extractor::Php, node.kind@, opt_view(node.parent_kind), opt_view(node.grandparent_kind)),
    {
        Extractor::Php.classify(node)
    }

    /// The one-line signature of a definition node.
    pub fn extract_signature(&self, node: &SyntaxNode) -> (r: Option<String>)
        ensures
            match signature_pieces(Extractor::Php, node.kind@) {
                Some(ps) => r matches Some(s) && s@ == render(ps, node.fields@),
                None => r is None,
            },
    {
        Extractor::Php.extract_signature(node)
    }
}

/// The Bash adapter.
pub struct BashExtractor;

impl BashExtractor {
    /// The adapter this stands for.
    pub fn adapter(&self) -> (r: Extractor)
        ensures
            r == Extractor::Bash,
    {
        Extractor::Bash
    }

    /// The node kinds that are definitions.
    pub fn definition_types(&self) -> (r: Vec<&'static str>)
        ensures
            r@ == spec_definition_types(Extractor::Bash),
    {
        Extractor::Bash.definition_types()
    }

    /// The chunk kind of a definition node.
    pub fn classify(&self, node: &SyntaxNode) -> (r: ChunkKind)
        ensures
            r == spec_classify(Extractor::Bash, node.kind@, opt_view(node.parent_kind), opt_view(node.grandparent_kind)),
    {
        Extractor::Bash.classify(node)
    }

    /// The one-line signature of a definition node.
    pub fn extract_signature(&self, node: &SyntaxNode) -> (r: Option<String>)
        ensures
            match signature_pieces(Extractor::Bash, node.kind@) {
                Some(ps) => r matches Some(s) && s@ == render(ps, node.fields@),
                None => r is None,
            },
    {
        Extractor::Bash.extract_signature(node)
    }
}

/// What `str::trim_start` returns for a text.
pub uninterp spec fn trim_start_of(s: Seq<char>) -> Seq<char>;

/// Relies on `str::trim_start`: the text without leading whitespace, a
/// function of the characters alone.
#[verifier::external_body]
fn trim_start(s: &str) -> (r: &str)
    ensures
        r@ == trim_start_of(s@),
{
    s.trim_start()
}

/// A comment before a definition is its documentation: the comment kinds
/// the language uses, and the prefixes that mark documentation (none:
/// every such comment counts), looked for after leading whitespace when
/// `trimmed`.
pub open spec fn doc_rule(e: Extractor) -> (Seq<Seq<char>>, Seq<Seq<char>>, bool) {
    match e {
        Extractor::Rust => (seq!["line_comment"@, "block_comment"@], seq!["///"@, "/**"@], true),
        Extractor::TypeScript => (seq!["comment"@], seq!["/**"@], true),
        Extractor::CSharp => (seq!["comment"@], seq!["///"@, "/**"@], true),
        Extractor::Java => (seq!["block_comment"@], seq!["/**"@], false),
        Extractor::Cpp => (seq!["comment"@], seq!["/**"@, "///"@], false),
        Extractor::Php => (seq!["comment"@], seq!["/**"@], false),
        _ => (seq!["comment"@], Seq::empty(), false),
    }
}

/// The documentation a comment before a definition gives, by the rule.
pub open spec fn comment_doc(e: Extractor, prev: Option<(Seq<char>, Seq<char>)>) -> Option<Seq<char>> {
    let (kinds, prefixes, trimmed) = doc_rule(e);
    match prev {
        None => None,
        Some((k, t)) => {
            let probe = if trimmed { trim_start_of(t) } else { t };
            if kinds.contains(k) && (prefixes.len() == 0 || exists|i: int| 0 <= i < prefixes.len() && crate::text::is_prefix(#[trigger] prefixes[i], probe)) {
                Some(t)
            } else {
                None
            }
        },
    }
}

/// The first child of kind `string`, if any.
pub open spec fn first_string(cs: Seq<NodeText>) -> Option<Seq<char>>
    decreases cs.len(),
{
    if cs.len() == 0 {
        None
    } else if cs[0].kind@ == "string"@ {
        Some(cs[0].text@)
    } else {
        first_string(cs.drop_first())
    }
}

/// A Python docstring: the first string of the body's first statement,
/// when that statement is an expression.
pub open spec fn python_doc(body_first: Option<BodyStatement>) -> Option<Seq<char>> {
    match body_first {
        Some(b) => if b.kind@ == "expression_statement"@ { first_string(b.children@) } else { None },
        None => None,
    }
}

/// The view of an optional node.
pub open spec fn node_text_view(n: Option<NodeText>) -> Option<(Seq<char>, Seq<char>)> {
    match n {
        Some(x) => Some((x.kind@, x.text@)),
        None => None,
    }
}

/// The documentation of a definition node for an adapter.
pub open spec fn spec_docstring(e: Extractor, node: SyntaxNode) -> Option<Seq<char>> {
    if e == Extractor::Python {
        python_doc(node.body_first)
    } else {
        comment_doc(e, node_text_view(node.prev_sibling))
    }
}

fn first_string_of(cs: &Vec<NodeText>) -> (r: Option<String>)
    ensures
        opt_view(r) == first_string(cs@),
{
    let mut i: usize = 0;
    proof {
        assert(cs@.subrange(0, cs@.len() as int) =~= cs@);
    }
    while i < cs.len()
        invariant
            i <= cs@.len(),
            first_string(cs@) == first_string(cs@.subrange(i as int, cs@.len() as int)),
        decreases cs@.len() - i,
    {
        let ghost rest = cs@.subrange(i as int, cs@.len() as int);
        if str_equal(cs[i].kind.as_str(), "string") {
            proof {
                assert(rest[0] == cs@[i as int]);
            }
            return Some(cs[i].text.clone());
        }
        proof {
            assert(rest.drop_first() =~= cs@.subrange(i + 1, cs@.len() as int));
        }
        i = i + 1;
    }
    proof {
        assert(cs@.subrange(i as int, cs@.len() as int) =~= Seq::<NodeText>::empty());
    }
    None
}

/// Whether `t` starts with one of the prefixes.
fn has_any_prefix(t: &str, prefixes: &Vec<&'static str>) -> (r: bool)
    ensures
        r == exists|i: int| 0 <= i < prefixes@.len() && crate::text::is_prefix(#[trigger] prefixes@[i]@, t@),
{
    let mut i: usize = 0;
    while i < prefixes.len()
        invariant
            i <= prefixes@.len(),
            forall|j: int| 0 <= j < i ==> !crate::text::is_prefix(#[trigger] prefixes@[j]@, t@),
        decreases prefixes@.len() - i,
    {
        if crate::text::starts_with(t, prefixes[i]) {
            return true;
        }
        i = i + 1;
    }
    false
}

impl Extractor {
    /// The comment kinds, documentation prefixes and trimming of the adapter.
    fn doc_rule_exec(&self) -> (r: (Vec<&'static str>, Vec<&'static str>, bool))
        ensures
            r.0@.map_values(|s: &'static str| s@) == doc_rule(*self).0,
            r.1@.map_values(|s: &'static str| s@) == doc_rule(*self).1,
            r.2 == doc_rule(*self).2,
    {
        let r = match self {
            Extractor::Rust => (vec!["line_comment", "block_comment"], vec!["///", "/**"], true),
            Extractor::TypeScript => (vec!["comment"], vec!["/**"], true),
            Extractor::CSharp => (vec!["comment"], vec!["///", "/**"], true),
            Extractor::Java => (vec!["block_comment"], vec!["/**"], false),
            Extractor::Cpp => (vec!["comment"], vec!["/**", "///"], false),
            Extractor::Php => (vec!["comment"], vec!["/**"], false),
            _ => (vec!["comment"], Vec::new(), false),
        };
        proof {
            assert(r.0@.map_values(|s: &'static str| s@) =~= doc_rule(*self).0);
            assert(r.1@.map_values(|s: &'static str| s@) =~= doc_rule(*self).1);
        }
        r
    }

    /// The documentation of a definition node: for Python the string that
    /// opens its body, for the other languages the documentation comment
    /// just before it.
    pub fn extract_docstring(&self, node: &SyntaxNode) -> (r: Option<String>)
        ensures
            opt_view(r) == spec_docstring(*self, *node),
    {
        if let Extractor::Python = self {
            return match &node.body_first {
                Some(b) => if str_equal(b.kind.as_str(), "expression_statement") { first_string_of(&b.children) } else { None },
                None => None,
            };
        }
        let (kinds, prefixes, trimmed) = self.doc_rule_exec();
        match &node.prev_sibling {
            None => None,
            Some(prev) => {
                let mut kind_ok = false;
                let mut i: usize = 0;
                while i < kinds.len()
                    invariant
                        i <= kinds@.len(),
                        kind_ok == exists|j: int| 0 <= j < i && kinds@[j]@ == prev.kind@,
                    decreases kinds@.len() - i,
                {
                    if str_equal(kinds[i], prev.kind.as_str()) {
                        kind_ok = true;
                    }
                    i = i + 1;
                }
                let ghost kv = kinds@.map_values(|s: &'static str| s@);
                proof {
                    if kind_ok {
                        let j = choose|j: int| 0 <= j < kinds@.len() && kinds@[j]@ == prev.kind@;
                        assert(kv[j] == prev.kind@);
                    }
                    if kv.contains(prev.kind@) {
                        let j = choose|j: int| 0 <= j < kv.len() && kv[j] == prev.kind@;
                        assert(kinds@[j]@ == prev.kind@);
                    }
                }
                let probe: &str = if trimmed { trim_start(prev.text.as_str()) } else { prev.text.as_str() };
                let ghost pv = prefixes@.map_values(|s: &'static str| s@);
                let prefix_ok = prefixes.len() == 0 || has_any_prefix(probe, &prefixes);
                proof {
                    if prefixes@.len() > 0 && prefix_ok {
                        let j = choose|j: int| 0 <= j < prefixes@.len() && crate::text::is_prefix(#[trigger] prefixes@[j]@, probe@);
                        assert(pv[j] == prefixes@[j]@);
                    }
                    if prefixes@.len() > 0 && exists|i: int| 0 <= i < pv.len() && crate::text::is_prefix(#[trigger] pv[i], probe@) {
                        let j = choose|j: int| 0 <= j < pv.len() && crate::text::is_prefix(#[trigger] pv[j], probe@);
                        assert(pv[j] == prefixes@[j]@);
                    }
                }
                if kind_ok && prefix_ok {
                    Some(prev.text.clone())
                } else {
                    None
                }
            },
        }
    }
}

} // verus!
