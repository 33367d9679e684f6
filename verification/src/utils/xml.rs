//! The nodes of an XML document, as the `roxmltree` crate reads it.

use vstd::prelude::*;

verus! {

/// One node of a document, as plain values.
pub struct NodeFacts {
    /// The local name of the tag; empty where the node is no element.
    pub name: Seq<char>,
    /// Whether the node is an element.
    pub element: bool,
    /// The place of the parent among the nodes of the document; nothing for the root.
    pub parent: Option<int>,
    /// Where the node starts in the text, in bytes.
    pub start: int,
    /// Where the node ends in the text, in bytes.
    pub end: int,
}

/// One node of a document.
#[derive(Debug, PartialEq, Eq)]
pub struct XmlNode {
    /// The local name of the tag; empty where the node is no element.
    pub name: String,
    /// Whether the node is an element.
    pub element: bool,
    /// The place of the parent among the nodes of the document; nothing for the root.
    pub parent: Option<usize>,
    /// Where the node starts in the text, in bytes.
    pub start: usize,
    /// Where the node ends in the text, in bytes.
    pub end: usize,
}

impl View for XmlNode {
    type V = NodeFacts;

    open spec fn view(&self) -> NodeFacts {
        NodeFacts {
            name: self.name@,
            element: self.element,
            parent: match self.parent {
                Some(place) => Some(place as int),
                None => None,
            },
            start: self.start as int,
            end: self.end as int,
        }
    }
}

/// What a list of nodes looks like to a reader.
pub open spec fn facts_of(nodes: Seq<XmlNode>) -> Seq<NodeFacts> {
    Seq::new(nodes.len(), |i: int| nodes[i]@)
}

/// The nodes that `roxmltree::Document::parse` finds in `text`, in the order in which
/// `roxmltree::Document::descendants` walks them, the root first; nothing where the text is
/// no XML document.
pub uninterp spec fn xml_nodes(text: Seq<char>) -> Option<Seq<NodeFacts>>;

/// Calls `roxmltree::Document::parse` and walks the document with
/// `roxmltree::Document::descendants`, taking from each node its tag name, whether it is an
/// element, the place of its parent and its range in the text. Where the crate refuses the
/// text, its reason is written out. The contract only names the result.
#[verifier::external_body]
pub(crate) fn parse_nodes(text: &str) -> (parsed: Result<Vec<XmlNode>, String>)
    ensures
        match parsed {
            Ok(nodes) => xml_nodes(text@) == Some(facts_of(nodes@)),
            Err(_) => xml_nodes(text@).is_none(),
        },
{
    let document = roxmltree::Document::parse(text).map_err(|error| error.to_string())?;
    Ok(document.descendants().map(|node| XmlNode {
        name: node.tag_name().name().to_string(),
        element: node.is_element(),
        parent: node.parent().map(|parent| parent.id().get_usize()),
        start: node.range().start,
        end: node.range().end,
    }).collect())
}

} // verus!
