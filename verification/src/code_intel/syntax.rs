use vstd::prelude::*;

use crate::bytes::{str_bytes, sub_bytes, utf8_decode};
use crate::code_intel::graph::{
    GraphModel, RepoCodeGraph, record_call_spec, record_import_spec, record_symbol_spec,
};
use crate::code_intel::manifests::opt_view;
use crate::code_intel::names::{
    rust_symbol_kind, rust_symbol_kind_spec, symbol_uri_for_file, symbol_uri_spec,
};
use crate::code_intel::scan::{rust_import_root, rust_import_root_spec};
use crate::text::{push_str, starts_with, starts_with_seq, str_eq};
use crate::words::{trim_start, trim_start_spec};

verus! {

/// A node of a Rust syntax tree, as the code graph reads it: its kind, its byte range in
/// the source, the byte ranges of its `name` and `function` fields where it has them, and
/// its children in order.
pub struct SyntaxNode {
    pub kind: String,
    pub start: usize,
    pub end: usize,
    pub name: Option<(usize, usize)>,
    pub function: Option<(usize, usize)>,
    pub children: Vec<SyntaxNode>,
}

/// Why a Rust source could not be parsed.
pub enum RustParseError {
    /// The parser did not take the Rust grammar; the text says why.
    Init(String),
    /// The parser gave no tree.
    Parse,
}

#[verifier::external_type_specification]
#[verifier::external_body]
pub struct ExTreeSitterNode<'tree>(tree_sitter::Node<'tree>);

/// The syntax tree that tree-sitter's Rust grammar gives a source, or why there is none.
pub uninterp spec fn rust_syntax_tree(source: Seq<char>) -> Result<SyntaxNode, RustParseError>;

/// Copies a tree-sitter node and its subtree into a `SyntaxNode`: `kind`, `start_byte`,
/// `end_byte`, the byte ranges of `child_by_field_name("name")` and of
/// `child_by_field_name("function")`, and the nodes that `children` walks. Nothing is
/// stated of the copy: the node is opaque here.
#[verifier::external_body]
fn syntax_node(node: tree_sitter::Node<'_>) -> SyntaxNode {
    let mut cursor = node.walk();
    SyntaxNode {
        kind: node.kind().to_string(),
        start: node.start_byte(),
        end: node.end_byte(),
        name: node.child_by_field_name("name").map(|n| (n.start_byte(), n.end_byte())),
        function: node.child_by_field_name("function").map(|n| (n.start_byte(), n.end_byte())),
        children: node.children(&mut cursor).map(syntax_node).collect(),
    }
}

/// Parses a Rust source with tree-sitter (`Parser::new`, `set_language` with
/// `tree_sitter_rust::LANGUAGE`, `parse`) and copies the tree. The result is named
/// `rust_syntax_tree` of the source: parsing is a function of the text and the grammar.
/// A refused grammar gives `Init` with the text of tree-sitter's `LanguageError`; no tree
/// gives `Parse`.
#[verifier::external_body]
pub fn parse_rust_syntax(source: &str) -> (r: Result<SyntaxNode, RustParseError>)
    ensures
        r == rust_syntax_tree(source@),
{
    let mut parser = tree_sitter::Parser::new();
    let language: tree_sitter::Language = tree_sitter_rust::LANGUAGE.into();
    if let Err(error) = parser.set_language(&language) {
        return Err(RustParseError::Init(error.to_string()));
    }
    match parser.parse(source, None) {
        Some(tree) => Ok(syntax_node(tree.root_node())),
        None => Err(RustParseError::Parse),
    }
}

/// The text of bytes `start..end` of the source, or nothing where they are out of range or
/// not UTF-8.
pub open spec fn node_text_spec(src: Seq<u8>, start: int, end: int) -> Seq<char> {
    if 0 <= start <= end <= src.len() && vstd::utf8::valid_utf8(src.subrange(start, end)) {
        vstd::utf8::decode_utf8(src.subrange(start, end))
    } else {
        Seq::empty()
    }
}

/// The text of bytes `start..end` of the source, as `node_text_spec` states it.
pub fn node_text(source: &Vec<u8>, start: usize, end: usize) -> (r: String)
    ensures
        r@ == node_text_spec(source@, start as int, end as int),
{
    if start <= end && end <= source.len() {
        let b = sub_bytes(source.as_slice(), start, end);
        match utf8_decode(b.as_slice()) {
            Ok(s) => s,
            Err(_) => String::new(),
        }
    } else {
        String::new()
    }
}

/// A node kind that defines a symbol.
pub open spec fn is_symbol_kind(k: Seq<char>) -> bool {
    k == "function_item"@ || k == "struct_item"@ || k == "enum_item"@ || k == "trait_item"@ || k
        == "impl_item"@
}

/// The byte range of what a call expression calls: its `function` field, else its first
/// child.
pub open spec fn call_target(node: SyntaxNode) -> Option<(usize, usize)> {
    match node.function {
        Some(r) => Some(r),
        None => if node.children@.len() > 0 {
            Some((node.children@[0].start, node.children@[0].end))
        } else {
            None
        },
    }
}

/// The graph after visiting a node and its subtree: a `use` records its import, a symbol
/// definition with a name records the symbol (a function becomes the caller of what it
/// holds), a call inside a function records the call.
pub open spec fn visit_spec(
    g: GraphModel,
    file: Seq<char>,
    src: Seq<u8>,
    node: SyntaxNode,
    cur: Option<Seq<char>>,
) -> GraphModel
    decreases node, 1nat, 0int,
{
    let kind = node.kind@;
    if kind == "use_declaration"@ {
        let g1 = match rust_import_root_spec(node_text_spec(src, node.start as int, node.end as int)) {
            Some(n) => record_import_spec(g, file, n),
            None => g,
        };
        visit_children_spec(g1, file, src, node, 0, cur)
    } else if is_symbol_kind(kind) && node.name is Some {
        let r = node.name->0;
        let name = node_text_spec(src, r.0 as int, r.1 as int);
        let symbol = symbol_uri_spec(file, name);
        let exported = starts_with_seq(
            trim_start_spec(node_text_spec(src, node.start as int, node.end as int)),
            "pub "@,
        );
        let g1 = record_symbol_spec(g, file, symbol, name, rust_symbol_kind_spec(kind), exported);
        let ctx = if kind == "function_item"@ {
            Some(symbol)
        } else {
            cur
        };
        visit_children_spec(g1, file, src, node, 0, ctx)
    } else if kind == "call_expression"@ {
        let g1 = match cur {
            Some(caller) => match call_target(node) {
                Some(r) => record_call_spec(g, caller, node_text_spec(src, r.0 as int, r.1 as int)),
                None => g,
            },
            None => g,
        };
        visit_children_spec(g1, file, src, node, 0, cur)
    } else {
        visit_children_spec(g, file, src, node, 0, cur)
    }
}

/// The graph after visiting the children of a node from the `i`-th on, in order.
pub open spec fn visit_children_spec(
    g: GraphModel,
    file: Seq<char>,
    src: Seq<u8>,
    node: SyntaxNode,
    i: int,
    cur: Option<Seq<char>>,
) -> GraphModel
    decreases node, 0nat, node.children@.len() - i,
{
    if 0 <= i < node.children@.len() {
        let g1 = visit_spec(g, file, src, node.children@[i], cur);
        visit_children_spec(g1, file, src, node, i + 1, cur)
    } else {
        g
    }
}

/// Visits a node and its subtree, as `visit_spec` states it.
pub fn visit_rust_node(
    graph: &mut RepoCodeGraph,
    file_uri: &str,
    source: &Vec<u8>,
    node: &SyntaxNode,
    current_symbol: Option<String>,
)
    requires
        old(graph).wf(),
    ensures
        final(graph).wf(),
        final(graph).model() == visit_spec(
            old(graph).model(),
            file_uri@,
            source@,
            *node,
            opt_view(current_symbol),
        ),
    decreases *node, 1nat, 0int,
{
    let kind = node.kind.as_str();
    if str_eq(kind, "use_declaration") {
        let text = node_text(source, node.start, node.end);
        match rust_import_root(text.as_str()) {
            Some(import_name) => graph.record_import(file_uri, import_name.as_str()),
            None => {},
        }
        visit_children(graph, file_uri, source, node, current_symbol);
        return;
    }
    let symbol_kind = str_eq(kind, "function_item") || str_eq(kind, "struct_item") || str_eq(
        kind,
        "enum_item",
    ) || str_eq(kind, "trait_item") || str_eq(kind, "impl_item");
    if symbol_kind {
        match node.name {
            Some((a, b)) => {
                let name = node_text(source, a, b);
                let symbol_uri = symbol_uri_for_file(file_uri, name.as_str());
                let whole = node_text(source, node.start, node.end);
                let exported = starts_with(trim_start(whole.as_str()).as_str(), "pub ");
                graph.record_symbol(
                    file_uri,
                    symbol_uri.as_str(),
                    name.as_str(),
                    rust_symbol_kind(kind),
                    exported,
                );
                let context = if str_eq(kind, "function_item") {
                    Some(symbol_uri)
                } else {
                    current_symbol
                };
                visit_children(graph, file_uri, source, node, context);
                return;
            },
            None => {},
        }
    }
    if str_eq(kind, "call_expression") {
        match &current_symbol {
            Some(caller) => {
                let target = match node.function {
                    Some(r) => Some(r),
                    None => if node.children.len() > 0 {
                        Some((node.children[0].start, node.children[0].end))
                    } else {
                        None
                    },
                };
                match target {
                    Some((a, b)) => {
                        let text = node_text(source, a, b);
                        graph.record_call(caller.as_str(), text.as_str());
                    },
                    None => {},
                }
            },
            None => {},
        }
    }
    visit_children(graph, file_uri, source, node, current_symbol);
}

/// Visits the children of a node in order, as `visit_children_spec` states it.
pub fn visit_children(
    graph: &mut RepoCodeGraph,
    file_uri: &str,
    source: &Vec<u8>,
    node: &SyntaxNode,
    current_symbol: Option<String>,
)
    requires
        old(graph).wf(),
    ensures
        final(graph).wf(),
        final(graph).model() == visit_children_spec(
            old(graph).model(),
            file_uri@,
            source@,
            *node,
            0,
            opt_view(current_symbol),
        ),
    decreases *node, 0nat, node.children@.len() + 1,
{
    let ghost g0 = graph.model();
    let ghost cur = opt_view(current_symbol);
    let mut i: usize = 0;
    while i < node.children.len()
        invariant
            i <= node.children@.len(),
            graph.wf(),
            cur == opt_view(current_symbol),
            visit_children_spec(g0, file_uri@, source@, *node, 0, cur) == visit_children_spec(
                graph.model(),
                file_uri@,
                source@,
                *node,
                i as int,
                cur,
            ),
        decreases node.children.len() - i,
    {
        let c = match &current_symbol {
            Some(s) => Some(s.clone()),
            None => None,
        };
        visit_rust_node(graph, file_uri, source, &node.children[i], c);
        i = i + 1;
    }
}

/// What analysing a Rust file gives, once its parse is known: the graph after visiting
/// the tree, or the message of the failure.
pub open spec fn record_rust_syntax_spec(
    g: GraphModel,
    file: Seq<char>,
    path: Seq<char>,
    content: Seq<char>,
    parsed: Result<SyntaxNode, RustParseError>,
) -> Result<GraphModel, Seq<char>> {
    match parsed {
        Ok(tree) => Ok(
            visit_spec(g, file, vstd::utf8::encode_utf8(content), tree, None),
        ),
        Err(RustParseError::Init(e)) => Err(
            "Failed to initialize Rust parser for "@ + path + ": "@ + e@,
        ),
        Err(RustParseError::Parse) => Err("Failed to parse Rust source "@ + path),
    }
}

/// Records what a parsed Rust file defines, imports and calls, as `record_rust_syntax_spec`
/// states it; on a failed parse the graph is left as it was.
pub fn record_rust_syntax(
    graph: &mut RepoCodeGraph,
    file_uri: &str,
    path_text: &str,
    content: &str,
    parsed: Result<SyntaxNode, RustParseError>,
) -> (r: Result<(), String>)
    requires
        old(graph).wf(),
    ensures
        final(graph).wf(),
        match record_rust_syntax_spec(old(graph).model(), file_uri@, path_text@, content@, parsed) {
            Ok(g) => r is Ok && final(graph).model() == g,
            Err(e) => r matches Err(x) && x@ == e && final(graph).model() == old(graph).model(),
        },
{
    match parsed {
        Ok(tree) => {
            let source = str_bytes(content);
            visit_rust_node(graph, file_uri, &source, &tree, None);
            Ok(())
        },
        Err(RustParseError::Init(e)) => {
            let mut m = String::new();
            push_str(&mut m, "Failed to initialize Rust parser for ");
            push_str(&mut m, path_text);
            push_str(&mut m, ": ");
            push_str(&mut m, e.as_str());
            Err(m)
        },
        Err(RustParseError::Parse) => {
            let mut m = String::new();
            push_str(&mut m, "Failed to parse Rust source ");
            push_str(&mut m, path_text);
            Err(m)
        },
    }
}

/// Parses a Rust file and records what it defines, imports and calls.
pub fn analyze_rust_file(
    graph: &mut RepoCodeGraph,
    file_uri: &str,
    path_text: &str,
    content: &str,
) -> (r: Result<(), String>)
    requires
        old(graph).wf(),
    ensures
        final(graph).wf(),
        match record_rust_syntax_spec(
            old(graph).model(),
            file_uri@,
            path_text@,
            content@,
            rust_syntax_tree(content@),
        ) {
            Ok(g) => r is Ok && final(graph).model() == g,
            Err(e) => r matches Err(x) && x@ == e && final(graph).model() == old(graph).model(),
        },
{
    let parsed = parse_rust_syntax(content);
    record_rust_syntax(graph, file_uri, path_text, content, parsed)
}

} // verus!
