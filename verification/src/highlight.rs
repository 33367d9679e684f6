//! Positions and ranges inside a manifest.

use crate::utils::rope::{
    byte_line, byte_to_line, len_lines, line_byte, line_bytes, line_len_bytes, line_to_byte, line_total, rope_from_str,
    rope_text,
};
use crate::utils::text::same_text;
use crate::utils::xml::{facts_of, parse_nodes, xml_nodes, NodeFacts, XmlNode};
use vstd::prelude::*;

verus! {

/// A place in a text: a line and the offset inside that line, both counted from zero.
#[derive(Copy, Clone, Debug, Eq, PartialEq, Ord, PartialOrd, Hash)]
pub struct Position {
    pub line: usize,
    pub position: usize,
}

impl Position {
    /// The position written as line, colon, offset.
    pub open spec fn text(self) -> Seq<char> {
        crate::utils::text::decimal_text(self.line as nat) + ":"@ + crate::utils::text::decimal_text(self.position as nat)
    }

    /// The position written as line, colon, offset.
    pub fn to_text(&self) -> (text: String)
        ensures
            text@ == self.text(),
    {
        let mut text = crate::utils::text::decimal(self.line);
        text.append(":");
        let offset = crate::utils::text::decimal(self.position);
        text.append(offset.as_str());
        text
    }

    /// The line and the character as an editor counts them, in 32 bits each. Numbers that
    /// do not fit are cut down to their low 32 bits.
    pub fn to_line_and_character(&self) -> (pair: (u32, u32))
        ensures
            pair.0 == self.line as u32,
            pair.1 == self.position as u32,
    {
        (#[verifier::truncate] (self.line as u32), #[verifier::truncate] (self.position as u32))
    }

    /// The position that an editor means by a line and a character.
    pub fn from_line_and_character(line: u32, character: u32) -> (position: Self)
        ensures
            position.line == line,
            position.position == character,
    {
        Position { line: line as usize, position: character as usize }
    }
}

impl Default for Position {
    fn default() -> (origin: Self)
        ensures
            origin == (Position { line: 0, position: 0 }),
    {
        Position { line: 0, position: 0 }
    }
}

/// A stretch of text between two positions, the end not included.
#[derive(Copy, Clone, Debug, Eq, PartialEq, Hash)]
pub struct Range {
    pub start: Position,
    pub end: Position,
}

impl Range {
    /// The empty range at the very start of a text.
    pub open spec fn origin() -> Range {
        Range { start: Position { line: 0, position: 0 }, end: Position { line: 0, position: 0 } }
    }
}

impl Default for Range {
    fn default() -> (empty: Self)
        ensures
            empty == Range::origin(),
    {
        Range { start: Position::default(), end: Position::default() }
    }
}

/// Why a place in a document could not be found.
#[derive(Debug, PartialEq, Eq)]
pub enum Error {
    /// The text is no XML document; the message says why.
    Parse(String),
    /// A node lies where the text has no line.
    OutOfBounds,
}

/// The line and offset of the byte at `offset`: the line on which it stands, and its
/// distance in bytes from the start of that line. Nothing where the text has no such place.
pub open spec fn byte_position(text: Seq<char>, offset: int) -> Option<Position> {
    match byte_line(text, offset) {
        Some(line) => match line_byte(text, line) {
            Some(first) => if 0 <= first <= offset && 0 <= line <= usize::MAX {
                Some(Position { line: line as usize, position: (offset - first) as usize })
            } else {
                None
            },
            None => None,
        },
        None => None,
    }
}

/// The range in lines and offsets that a node covers, or the failure to place it.
pub open spec fn node_range(text: Seq<char>, node: NodeFacts) -> Result<Range, Error> {
    match (byte_position(text, node.start), byte_position(text, node.end)) {
        (Some(start), Some(end)) => Ok(Range { start, end }),
        _ => Err(Error::OutOfBounds),
    }
}

/// The place of the first node from `from` on that satisfies `wanted`.
pub open spec fn first_node(nodes: Seq<NodeFacts>, from: int, wanted: spec_fn(NodeFacts) -> bool) -> Option<int>
    decreases nodes.len() - from,
{
    if from < 0 || from >= nodes.len() {
        None
    } else if wanted(nodes[from]) {
        Some(from)
    } else {
        first_node(nodes, from + 1, wanted)
    }
}

/// Whether a node is named `name`. Only elements have a name that is not empty.
pub open spec fn is_tag(node: NodeFacts, name: Seq<char>) -> bool {
    node.name == name
}

/// Whether a node is an element directly below the node at `parent`.
pub open spec fn is_element_below(node: NodeFacts, parent: int) -> bool {
    node.element && node.parent == Some(parent)
}

/// The root element of a document: the first element below the root node.
pub open spec fn root_element(nodes: Seq<NodeFacts>) -> Option<int> {
    first_node(nodes, 0, |node: NodeFacts| is_element_below(node, 0))
}

/// The first node below the node at `parent` that is named `name`.
pub open spec fn child_named(nodes: Seq<NodeFacts>, parent: int, name: Seq<char>) -> Option<int> {
    first_node(nodes, 0, |node: NodeFacts| node.parent == Some(parent) && is_tag(node, name))
}

/// The range of the node at `at`, where there is a node to look for.
pub open spec fn range_at(text: Seq<char>, nodes: Seq<NodeFacts>, at: Option<int>) -> Result<Option<Range>, Error> {
    match at {
        Some(place) => match node_range(text, nodes[place]) {
            Ok(range) => Ok(Some(range)),
            Err(error) => Err(error),
        },
        None => Ok(None),
    }
}

/// The range of the first node named `name` directly below the root element.
pub open spec fn below_root(text: Seq<char>, nodes: Seq<NodeFacts>, name: Seq<char>) -> Result<Option<Range>, Error> {
    match root_element(nodes) {
        Some(root) => range_at(text, nodes, child_named(nodes, root, name)),
        None => Ok(None),
    }
}

/// The range of the first node named `inner` directly below the first node named `outer`
/// directly below the root element.
pub open spec fn nested(text: Seq<char>, nodes: Seq<NodeFacts>, outer: Seq<char>, inner: Seq<char>) -> Result<
    Option<Range>,
    Error,
> {
    match root_element(nodes) {
        Some(root) => match child_named(nodes, root, outer) {
            Some(section) => range_at(text, nodes, child_named(nodes, section, inner)),
            None => Ok(None),
        },
        None => Ok(None),
    }
}

/// The whole of a text as a range: from the start to the end of the last line.
pub open spec fn whole_range(text: Seq<char>) -> Range {
    let last = line_total(text) - 1;
    match line_bytes(text, last) {
        Some(length) => Range {
            start: Position { line: 0, position: 0 },
            end: Position { line: last as usize, position: length as usize },
        },
        None => Range::origin(),
    }
}

/// Finds the places of the elements of an XML document.
pub struct Highlighter {
    rope: ropey::Rope,
    nodes: Vec<XmlNode>,
}

impl Highlighter {
    /// The text of the document.
    pub closed spec fn text(&self) -> Seq<char> {
        rope_text(self.rope)
    }

    /// The nodes of the document, the root first.
    pub closed spec fn nodes(&self) -> Seq<NodeFacts> {
        facts_of(self.nodes@)
    }

    /// Reads `content` as an XML document.
    pub fn new(content: &str) -> (made: Result<Highlighter, Error>)
        ensures
            match made {
                Ok(highlighter) => highlighter.text() == content@ && xml_nodes(content@) == Some(highlighter.nodes()),
                Err(error) => xml_nodes(content@).is_none() && error is Parse,
            },
    {
        let rope = rope_from_str(content);
        match parse_nodes(content) {
            Ok(nodes) => Ok(Highlighter { rope, nodes }),
            Err(reason) => Err(Error::Parse(reason)),
        }
    }

    /// The whole document as a range.
    pub fn full_range(&self) -> (range: Range)
        ensures
            range == whole_range(self.text()),
    {
        let lines = len_lines(&self.rope);
        let last = lines - 1;
        match line_len_bytes(&self.rope, last) {
            Some(position) => Range { start: Position::default(), end: Position { line: last, position } },
            None => Range::default(),
        }
    }

    /// The line and offset of the byte at `offset`.
    fn make_position(&self, offset: usize) -> (found: Option<Position>)
        ensures
            found == byte_position(self.text(), offset as int),
    {
        let line = match byte_to_line(&self.rope, offset) {
            Some(line) => line,
            None => return None,
        };
        let first = match line_to_byte(&self.rope, line) {
            Some(first) => first,
            None => return None,
        };
        match offset.checked_sub(first) {
            Some(position) => Some(Position { line, position }),
            None => None,
        }
    }

    /// The range that the node at `at` covers.
    fn make_range(&self, at: usize) -> (range: Result<Range, Error>)
        requires
            at < self.nodes().len(),
        ensures
            range == node_range(self.text(), self.nodes()[at as int]),
    {
        let start = match self.make_position(self.nodes[at].start) {
            Some(start) => start,
            None => return Err(Error::OutOfBounds),
        };
        let end = match self.make_position(self.nodes[at].end) {
            Some(end) => end,
            None => return Err(Error::OutOfBounds),
        };
        Ok(Range { start, end })
    }

    /// The range of the first node of the document, in document order, that is named
    /// `name`; nothing where there is none.
    pub fn find(&self, name: &str) -> (found: Result<Option<Range>, Error>)
        ensures
            found == (match first_node(self.nodes(), 0, |node: NodeFacts| is_tag(node, name@)) {
                Some(at) => match node_range(self.text(), self.nodes()[at]) {
                    Ok(range) => Ok(Some(range)),
                    Err(error) => Err(error),
                },
                None => Ok(None),
            }),
    {
        let ghost wanted = |node: NodeFacts| is_tag(node, name@);
        let mut i: usize = 0;
        while i < self.nodes.len()
            invariant
                i <= self.nodes.len(),
                wanted == (|node: NodeFacts| is_tag(node, name@)),
                first_node(self.nodes(), 0, wanted) == first_node(self.nodes(), i as int, wanted),
            decreases self.nodes.len() - i,
        {
            if same_text(self.nodes[i].name.as_str(), name) {
                return match self.make_range(i) {
                    Ok(range) => Ok(Some(range)),
                    Err(error) => Err(error),
                };
            }
            i += 1;
        }
        Ok(None)
    }

    /// The place of the first node that satisfies what `root` and `name` ask for: a node
    /// named `name` below the node at `parent`.
    fn child(&self, parent: usize, name: &str) -> (found: Option<usize>)
        ensures
            match found {
                Some(at) => at < self.nodes().len() && child_named(self.nodes(), parent as int, name@)
                    == Some(at as int),
                None => child_named(self.nodes(), parent as int, name@).is_none(),
            },
    {
        let ghost wanted = |node: NodeFacts| node.parent == Some(parent as int) && is_tag(node, name@);
        let mut i: usize = 0;
        while i < self.nodes.len()
            invariant
                i <= self.nodes.len(),
                wanted == (|node: NodeFacts| node.parent == Some(parent as int) && is_tag(node, name@)),
                first_node(self.nodes(), 0, wanted) == first_node(self.nodes(), i as int, wanted),
            decreases self.nodes.len() - i,
        {
            let below = match self.nodes[i].parent {
                Some(place) => place == parent,
                None => false,
            };
            if below && same_text(self.nodes[i].name.as_str(), name) {
                return Some(i);
            }
            i += 1;
        }
        None
    }

    /// The place of the root element: the first element below the root node.
    fn root_element(&self) -> (found: Option<usize>)
        ensures
            match found {
                Some(at) => at < self.nodes().len() && root_element(self.nodes()) == Some(at as int),
                None => root_element(self.nodes()).is_none(),
            },
    {
        let ghost wanted = |node: NodeFacts| is_element_below(node, 0);
        let mut i: usize = 0;
        while i < self.nodes.len()
            invariant
                i <= self.nodes.len(),
                wanted == (|node: NodeFacts| is_element_below(node, 0)),
                first_node(self.nodes(), 0, wanted) == first_node(self.nodes(), i as int, wanted),
            decreases self.nodes.len() - i,
        {
            let below = match self.nodes[i].parent {
                Some(place) => place == 0,
                None => false,
            };
            if below && self.nodes[i].element {
                return Some(i);
            }
            i += 1;
        }
        None
    }

    /// The range of the first node named `name` directly below the root element; nothing
    /// where there is none.
    pub fn find_below_root(&self, name: &str) -> (found: Result<Option<Range>, Error>)
        ensures
            found == below_root(self.text(), self.nodes(), name@),
    {
        let root = match self.root_element() {
            Some(root) => root,
            None => return Ok(None),
        };
        match self.child(root, name) {
            Some(at) => match self.make_range(at) {
                Ok(range) => Ok(Some(range)),
                Err(error) => Err(error),
            },
            None => Ok(None),
        }
    }

    /// The range of the first node named `inner` directly below the first node named
    /// `outer` directly below the root element; nothing where there is none.
    pub fn find_in(&self, outer: &str, inner: &str) -> (found: Result<Option<Range>, Error>)
        ensures
            found == nested(self.text(), self.nodes(), outer@, inner@),
    {
        let root = match self.root_element() {
            Some(root) => root,
            None => return Ok(None),
        };
        let section = match self.child(root, outer) {
            Some(section) => section,
            None => return Ok(None),
        };
        match self.child(section, inner) {
            Some(at) => match self.make_range(at) {
                Ok(range) => Ok(Some(range)),
                Err(error) => Err(error),
            },
            None => Ok(None),
        }
    }
}

} // verus!
