use vstd::prelude::*;

verus! {

/// One node of a parsed syntax tree, in the only shape the analysis reads:
/// the grammar's kind name for the node, the field name the node occupies in
/// its parent (if any), the verbatim source text the node spans, and its
/// children in source order.
pub struct SyntaxNode {
    pub kind: String,
    pub field: Option<String>,
    pub text: String,
    pub children: Vec<SyntaxNode>,
}

/// The syntax tree that the C grammar assigns to a source text, or `None`
/// where parsing fails outright. The grammar is a fixed pure function of the
/// text alone, so the result is the same on every call, in every process and
/// on every machine; nothing further is assumed about its shape.
pub uninterp spec fn c_parse_result(text: Seq<char>) -> Option<SyntaxNode>;

#[verifier::external_type_specification]
#[verifier::external_body]
pub struct ExNode<'tree>(tree_sitter::Node<'tree>);

/// Conversion half of `parse_c_source`, which is its only caller. Relies on
/// `tree_sitter::TreeCursor`'s child navigation and `Node::utf8_text`: the
/// cursor enumerates the children of a node in source order, `kind` and
/// `field_name` name the node and its slot in the grammar, and `utf8_text`
/// is the text the node spans.
#[verifier::external_body]
fn convert_node(n: tree_sitter::Node<'_>, field: Option<&str>, src: &str) -> SyntaxNode {
    let kind = n.kind().to_string();
    let text = n.utf8_text(src.as_bytes()).unwrap_or("").to_string();
    let field = field.map(|f| f.to_string());
    let mut children: Vec<SyntaxNode> = Vec::new();
    let mut cur = n.walk();
    if cur.goto_first_child() {
        loop {
            children.push(convert_node(cur.node(), cur.field_name(), src));
            if !cur.goto_next_sibling() {
                break;
            }
        }
    }
    SyntaxNode { kind, field, text, children }
}

/// Relies on `tree_sitter::Parser::parse` under the C grammar of
/// `tree_sitter_c`: parsing is a pure function of the source text (no state
/// survives between calls and no old tree is supplied), it tolerates
/// malformed input by producing a partial tree, and it returns `None` only
/// when no language is set, which `set_language` rules out here.
#[verifier::external_body]
pub(crate) fn parse_c_source(text: &str) -> (r: Option<SyntaxNode>)
    ensures
        r == c_parse_result(text@),
{
    let mut parser = tree_sitter::Parser::new();
    let language = tree_sitter::Language::new(tree_sitter_c::LANGUAGE);
    if parser.set_language(&language).is_err() {
        return None;
    }
    let tree = parser.parse(text, None)?;
    Some(convert_node(tree.root_node(), None, text))
}

} // verus!
