//! The trusted boundary around the markup parser: `roxmltree` turns file
//! contents into a tree, and the conversion below flattens that tree into
//! the crate's own `Doc` value. Everything downstream is verified against
//! `parse_of`, the name given to what parsing a given text yields.
use vstd::prelude::*;
use crate::document::{doc_wf, Doc, ElementV};

verus! {

#[verifier::external_type_specification]
#[verifier::external_body]
pub struct ExNode<'a, 'input: 'a>(roxmltree::Node<'a, 'input>);

/// What parsing a text yields: `None` for malformed markup, otherwise the
/// document's elements in document order. A pure function of the characters
/// alone.
pub uninterp spec fn parse_of(s: Seq<char>) -> Option<Seq<ElementV>>;

/// Relies on `roxmltree::Node::tag_name` (the element's local name),
/// `attributes` (its attributes in document order, local names),
/// and `text` (the inline text of its first child when that child is a text
/// node): copies one element into the crate's own representation.
#[verifier::external_body]
fn convert_node(n: &roxmltree::Node, parent: usize) -> (node: crate::document::Element)
    ensures
        node.parent == parent,
{
    crate::document::Element {
        tag: n.tag_name().name().to_string(),
        attrs: n.attributes().map(|a| (a.name().to_string(), a.value().to_string())).collect(),
        text: n.text().map(|t| t.to_string()),
        parent,
    }
}

/// Relies on `roxmltree::Node::children` (direct children in document
/// order) and `is_element` (which node kinds are elements): appends the
/// subtree under `n` in preorder, each element carrying its parent's index.
#[verifier::external_body]
fn convert_into(n: &roxmltree::Node, parent: usize, nodes: &mut Vec<crate::document::Element>) {
    let idx = nodes.len();
    let converted = convert_node(n, parent);
    nodes.push(converted);
    for c in n.children() {
        if c.is_element() {
            convert_into(&c, idx, nodes);
        }
    }
}

/// Relies on `roxmltree::Document::parse`: it returns `Ok` exactly on
/// well-formed markup, and `root_element` is then the document's single
/// root element. The result is a function of the contents alone, named
/// `parse_of`; a parsed document is well-formed in the sense of `doc_wf`.
#[verifier::external_body]
pub fn parse_xml(contents: &str) -> (r: Option<Doc>)
    ensures
        (match r {
            Option::Some(d) => parse_of(contents@) == Option::Some(d@) && doc_wf(d@),
            Option::None => parse_of(contents@) is None,
        }),
{
    match roxmltree::Document::parse(contents) {
        Ok(doc) => {
            let mut nodes: Vec<crate::document::Element> = Vec::new();
            convert_into(&doc.root_element(), 0, &mut nodes);
            Some(Doc { nodes })
        },
        Err(_) => None,
    }
}

} // verus!
