//! A parsed XML document as the list of its nodes in document order.
//!
//! Each node records whether it is an element, its local tag name, its text
//! (for an element, the text of its first child when that child is text) and
//! its depth. The descendants of a node are the nodes that follow it, up to the
//! first one that is not deeper than it.

use vstd::prelude::*;

verus! {

/// One node of a parsed document.
pub struct XmlNode {
    pub is_element: bool,
    pub name: String,
    pub text: Option<String>,
    pub depth: usize,
}

/// The mathematical value of an [`XmlNode`].
pub struct NodeView {
    pub is_element: bool,
    pub name: Seq<char>,
    pub text: Option<Seq<char>>,
    pub depth: nat,
}

impl View for XmlNode {
    type V = NodeView;

    open spec fn view(&self) -> NodeView {
        NodeView {
            is_element: self.is_element,
            name: self.name@,
            text: match self.text {
                Some(t) => Some(t@),
                None => None,
            },
            depth: self.depth as nat,
        }
    }
}

impl XmlNode {
    pub fn new(is_element: bool, name: String, text: Option<String>, depth: usize) -> (r: XmlNode)
        ensures
            r == (XmlNode { is_element, name, text, depth }),
    {
        XmlNode { is_element, name, text, depth }
    }
}

pub open spec fn view_nodes(nodes: Seq<XmlNode>) -> Seq<NodeView> {
    nodes.map_values(|n: XmlNode| n@)
}

/// A name for the node list that roxmltree builds from a text: `None` where
/// the text is not a well-formed document.
pub uninterp spec fn parsed_nodes(text: Seq<char>) -> Option<Seq<NodeView>>;

#[verifier::external_type_specification]
#[verifier::external_body]
pub struct ExXmlError(roxmltree::Error);

/// Relies on `roxmltree::Document::parse` (fails on text that is not
/// well-formed), and on `descendants` of the document, which walks every node
/// in document order, with `is_element`, `tag_name().name()`, `text` and the
/// count of `ancestors` of each node.
#[verifier::external_body]
pub(crate) fn parse_nodes(text: &str) -> (r: Result<Vec<XmlNode>, roxmltree::Error>)
    ensures
        r is Ok <==> parsed_nodes(text@) is Some,
        r is Ok ==> view_nodes(r->Ok_0@) == parsed_nodes(text@)->0,
{
    let doc = roxmltree::Document::parse(text)?;
    Ok(doc.descendants().map(|n| XmlNode::new(
        n.is_element(),
        n.tag_name().name().to_string(),
        n.text().map(|t| t.to_string()),
        n.ancestors().count(),
    )).collect())
}

/// The node is an element with the local name `tag`.
pub open spec fn has_tag(n: NodeView, tag: Seq<char>) -> bool {
    n.is_element && n.name == tag
}

/// The first position from `j` on whose node is not deeper than `depth`, or
/// the length of the list.
pub open spec fn scan_end(nodes: Seq<NodeView>, depth: nat, j: int) -> int
    decreases nodes.len() - j,
{
    if j >= nodes.len() {
        nodes.len() as int
    } else if nodes[j].depth <= depth {
        j
    } else {
        scan_end(nodes, depth, j + 1)
    }
}

/// The end (exclusive) of the subtree of node `i`: node `i` and its
/// descendants are the positions `i .. subtree_end(nodes, i)`.
pub open spec fn subtree_end(nodes: Seq<NodeView>, i: int) -> int {
    scan_end(nodes, nodes[i].depth, i + 1)
}

/// The first position in `lo .. hi` whose node has the tag.
pub open spec fn first_tagged(nodes: Seq<NodeView>, lo: int, hi: int, tag: Seq<char>) -> Option<int>
    decreases hi - lo,
{
    if lo >= hi {
        None
    } else if has_tag(nodes[lo], tag) {
        Some(lo)
    } else {
        first_tagged(nodes, lo + 1, hi, tag)
    }
}

/// All positions in `lo .. hi` whose node has the tag, in order.
pub open spec fn all_tagged(nodes: Seq<NodeView>, lo: int, hi: int, tag: Seq<char>) -> Seq<int>
    decreases hi - lo,
{
    if lo >= hi {
        Seq::empty()
    } else if has_tag(nodes[lo], tag) {
        seq![lo] + all_tagged(nodes, lo + 1, hi, tag)
    } else {
        all_tagged(nodes, lo + 1, hi, tag)
    }
}

pub fn node_has_tag(node: &XmlNode, tag: &String) -> (r: bool)
    ensures
        r == has_tag(node@, tag@),
{
    node.is_element && node.name == *tag
}

/// The end (exclusive) of the subtree of node `i`.
pub fn find_subtree_end(nodes: &Vec<XmlNode>, i: usize) -> (r: usize)
    requires
        i < nodes.len(),
    ensures
        r as int == subtree_end(view_nodes(nodes@), i as int),
        i < r <= nodes.len(),
{
    let ghost v = view_nodes(nodes@);
    let depth = nodes[i].depth;
    let mut j: usize = i + 1;
    while j < nodes.len() && nodes[j].depth > depth
        invariant
            v == view_nodes(nodes@),
            i < j <= nodes.len(),
            depth == v[i as int].depth,
            scan_end(v, v[i as int].depth, j as int) == subtree_end(v, i as int),
        decreases nodes.len() - j,
    {
        j = j + 1;
    }
    j
}

/// The first position in `lo .. hi` whose node has the tag.
pub fn find_tagged(nodes: &Vec<XmlNode>, lo: usize, hi: usize, tag: &String) -> (r: Option<usize>)
    requires
        hi <= nodes.len(),
    ensures
        r matches Some(k) ==> lo <= k < hi,
        r matches Some(k) ==> first_tagged(view_nodes(nodes@), lo as int, hi as int, tag@) == Some(k as int),
        r is None ==> first_tagged(view_nodes(nodes@), lo as int, hi as int, tag@) is None,
{
    let ghost v = view_nodes(nodes@);
    let mut k: usize = lo;
    while k < hi
        invariant
            v == view_nodes(nodes@),
            hi <= nodes.len(),
            lo <= k,
            first_tagged(v, k as int, hi as int, tag@) == first_tagged(v, lo as int, hi as int, tag@),
        decreases hi - k,
    {
        if node_has_tag(&nodes[k], tag) {
            return Some(k);
        }
        k = k + 1;
    }
    None
}

/// All positions in `lo .. hi` whose node has the tag, in order.
pub fn collect_tagged(nodes: &Vec<XmlNode>, lo: usize, hi: usize, tag: &String) -> (r: Vec<usize>)
    requires
        hi <= nodes.len(),
    ensures
        r@.map_values(|x: usize| x as int) == all_tagged(view_nodes(nodes@), lo as int, hi as int, tag@),
        forall|j: int| 0 <= j < r@.len() ==> lo <= #[trigger] r@[j] < hi,
{
    let ghost v = view_nodes(nodes@);
    let mut out: Vec<usize> = Vec::new();
    let mut k: usize = lo;
    if lo < hi {
        while k < hi
            invariant
                v == view_nodes(nodes@),
                hi <= nodes.len(),
                lo <= k <= hi,
                all_tagged(v, lo as int, hi as int, tag@)
                    == out@.map_values(|x: usize| x as int) + all_tagged(v, k as int, hi as int, tag@),
                forall|j: int| 0 <= j < out@.len() ==> lo <= #[trigger] out@[j] < k,
            decreases hi - k,
        {
            let ghost before = out@;
            if node_has_tag(&nodes[k], tag) {
                out.push(k);
                assert(out@.map_values(|x: usize| x as int) =~= before.map_values(|x: usize| x as int)
                    + seq![k as int]);
            }
            k = k + 1;
        }
    }
    assert(out@.map_values(|x: usize| x as int) + Seq::<int>::empty()
        =~= out@.map_values(|x: usize| x as int));
    out
}

} // verus!
