//! The front end's serialized tree, and its conversion to the tree model.
//! Decoding the serialized text itself is left to the caller.

use crate::ast::{
    known_kind, Comment, CommentPosition, CommentType, FormattingInfo, Location, Metadata, Node, NodeType,
};
use crate::error::RfmtError;
use vstd::prelude::*;

verus! {

/// A span as the front end writes it.
#[derive(Debug, Clone, Copy, PartialEq, Eq, Structural)]
pub struct PrismLocation {
    pub start_line: usize,
    pub start_column: usize,
    pub end_line: usize,
    pub end_column: usize,
    pub start_offset: usize,
    pub end_offset: usize,
}

/// A comment's marker family as the front end writes it.
#[derive(Debug, Clone, Copy, PartialEq, Eq, Structural)]
pub enum PrismCommentType {
    Line,
    Block,
}

/// A comment's placement hint as the front end writes it.
#[derive(Debug, Clone, Copy, PartialEq, Eq, Structural)]
pub enum PrismCommentPosition {
    Leading,
    Trailing,
    Inner,
}

/// A comment as the front end writes it.
#[derive(Debug, Clone)]
pub struct PrismComment {
    pub text: String,
    pub location: PrismLocation,
    pub comment_type: PrismCommentType,
    pub position: PrismCommentPosition,
}

/// Formatting hints as the front end writes them.
#[derive(Debug, Clone)]
pub struct PrismFormattingInfo {
    pub indent_level: usize,
    pub needs_blank_line_before: bool,
    pub needs_blank_line_after: bool,
    pub preserve_newlines: bool,
    pub multiline: bool,
    pub original_formatting: Option<String>,
}

/// A node as the front end writes it: its kind is still a tag.
#[derive(Debug)]
pub struct PrismNode {
    pub node_type: String,
    pub location: PrismLocation,
    pub children: Vec<PrismNode>,
    pub metadata: Metadata,
    pub comments: Vec<PrismComment>,
    pub formatting: PrismFormattingInfo,
}

/// A tree together with the comments that no node owns.
#[derive(Debug)]
pub struct PrismWrapper {
    pub ast: PrismNode,
    pub comments: Vec<PrismComment>,
}

/// The span that a front-end span stands for.
pub open spec fn location_of(l: PrismLocation) -> Location {
    Location {
        start_line: l.start_line,
        start_column: l.start_column,
        end_line: l.end_line,
        end_column: l.end_column,
        start_offset: l.start_offset,
        end_offset: l.end_offset,
    }
}

/// The kind that a front-end tag stands for.
pub open spec fn kind_matches(tag: Seq<char>, k: NodeType) -> bool {
    match known_kind(tag) {
        Some(known) => k == known,
        None => k matches NodeType::Unknown(n) && n@ == tag,
    }
}

/// `c` is the comment that `p` stands for.
pub open spec fn comment_matches(p: PrismComment, c: Comment) -> bool {
    &&& c.text@ == p.text@
    &&& c.location == location_of(p.location)
    &&& c.comment_type == (match p.comment_type {
        PrismCommentType::Line => CommentType::Line,
        PrismCommentType::Block => CommentType::Block,
    })
    &&& c.position == (match p.position {
        PrismCommentPosition::Leading => CommentPosition::Leading,
        PrismCommentPosition::Trailing => CommentPosition::Trailing,
        PrismCommentPosition::Inner => CommentPosition::Inner,
    })
}

/// Both metadata maps hold the same entries, in order.
pub open spec fn same_entries(a: Metadata, b: Metadata) -> bool {
    &&& a.entries@.len() == b.entries@.len()
    &&& forall|i: int| 0 <= i < a.entries@.len() ==>
        (#[trigger] a.entries@[i]).0@ == b.entries@[i].0@ && a.entries@[i].1@ == b.entries@[i].1@
}

/// `n` is the node that `p` stands for, down the whole subtree.
pub open spec fn converted(p: PrismNode, n: Node) -> bool
    decreases p,
{
    &&& kind_matches(p.node_type@, n.node_type)
    &&& n.location == location_of(p.location)
    &&& same_entries(p.metadata, n.metadata)
    &&& n.comments@.len() == p.comments@.len()
    &&& (forall|i: int| 0 <= i < p.comments@.len() ==> comment_matches(#[trigger] p.comments@[i], n.comments@[i]))
    &&& n.formatting.indent_level == p.formatting.indent_level
    &&& n.formatting.multiline == p.formatting.multiline
    &&& n.children@.len() == p.children@.len()
    &&& (forall|i: int| 0 <= i < p.children@.len() ==> converted(#[trigger] p.children@[i], n.children@[i]))
}

/// Turns the front end's serialized tree into the tree model.
pub struct PrismAdapter;

impl PrismAdapter {
    /// The adapter.
    pub fn new() -> (r: PrismAdapter) {
        PrismAdapter
    }

    /// The span that `l` stands for.
    fn convert_location(l: &PrismLocation) -> (r: Location)
        ensures
            r == location_of(*l),
    {
        Location::new(l.start_line, l.start_column, l.end_line, l.end_column, l.start_offset, l.end_offset)
    }

    /// The comment that `comment` stands for.
    pub fn convert_comment(comment: &PrismComment) -> (r: Comment)
        ensures
            comment_matches(*comment, r),
    {
        Comment {
            text: comment.text.clone(),
            location: PrismAdapter::convert_location(&comment.location),
            comment_type: match comment.comment_type {
                PrismCommentType::Line => CommentType::Line,
                PrismCommentType::Block => CommentType::Block,
            },
            position: match comment.position {
                PrismCommentPosition::Leading => CommentPosition::Leading,
                PrismCommentPosition::Trailing => CommentPosition::Trailing,
                PrismCommentPosition::Inner => CommentPosition::Inner,
            },
        }
    }

    /// A copy of `m`.
    fn copy_metadata(m: &Metadata) -> (r: Metadata)
        ensures
            same_entries(*m, r),
    {
        let mut entries: Vec<(String, String)> = Vec::new();
        let mut i: usize = 0;
        while i < m.entries.len()
            invariant
                i <= m.entries@.len(),
                entries@.len() == i,
                forall|k: int| 0 <= k < i ==>
                    (#[trigger] m.entries@[k]).0@ == entries@[k].0@ && m.entries@[k].1@ == entries@[k].1@,
            decreases m.entries@.len() - i,
        {
            entries.push((m.entries[i].0.clone(), m.entries[i].1.clone()));
            i += 1;
        }
        Metadata { entries }
    }

    /// The node that `prism_node` stands for, with its whole subtree. An
    /// unrecognized tag becomes the catch-all kind; this never fails.
    pub fn convert_node(prism_node: &PrismNode) -> (r: Result<Node, RfmtError>)
        ensures
            r matches Ok(n) && converted(*prism_node, n),
        decreases prism_node,
    {
        let node_type = NodeType::from_str(prism_node.node_type.as_str());
        let location = PrismAdapter::convert_location(&prism_node.location);
        let mut children: Vec<Node> = Vec::new();
        let mut i: usize = 0;
        while i < prism_node.children.len()
            invariant
                i <= prism_node.children@.len(),
                children@.len() == i,
                forall|k: int| 0 <= k < i ==> converted(#[trigger] prism_node.children@[k], children@[k]),
            decreases prism_node.children@.len() - i,
        {
            match PrismAdapter::convert_node(&prism_node.children[i]) {
                Ok(child) => children.push(child),
                Err(e) => return Err(e),
            }
            i += 1;
        }
        let mut comments: Vec<Comment> = Vec::new();
        let mut j: usize = 0;
        while j < prism_node.comments.len()
            invariant
                j <= prism_node.comments@.len(),
                comments@.len() == j,
                forall|k: int| 0 <= k < j ==> comment_matches(#[trigger] prism_node.comments@[k], comments@[k]),
            decreases prism_node.comments@.len() - j,
        {
            comments.push(PrismAdapter::convert_comment(&prism_node.comments[j]));
            j += 1;
        }
        let f = &prism_node.formatting;
        let formatting = FormattingInfo {
            indent_level: f.indent_level,
            needs_blank_line_before: f.needs_blank_line_before,
            needs_blank_line_after: f.needs_blank_line_after,
            preserve_newlines: f.preserve_newlines,
            multiline: f.multiline,
            original_formatting: match &f.original_formatting {
                Some(s) => Some(s.clone()),
                None => None,
            },
        };
        Ok(Node {
            node_type,
            location,
            children,
            metadata: PrismAdapter::copy_metadata(&prism_node.metadata),
            comments,
            formatting,
        })
    }

    /// The tree that `doc` stands for; the comments that no node owns are
    /// attached to the root after its own.
    pub fn convert_document(&self, doc: &PrismWrapper) -> (r: Result<Node, RfmtError>)
        ensures
            r matches Ok(n) && {
                &&& kind_matches(doc.ast.node_type@, n.node_type)
                &&& n.location == location_of(doc.ast.location)
                &&& n.children@.len() == doc.ast.children@.len()
                &&& (forall|i: int| 0 <= i < doc.ast.children@.len() ==>
                    converted(#[trigger] doc.ast.children@[i], n.children@[i]))
                &&& n.comments@.len() == doc.ast.comments@.len() + doc.comments@.len()
                &&& (forall|i: int| 0 <= i < doc.ast.comments@.len() ==>
                    comment_matches(#[trigger] doc.ast.comments@[i], n.comments@[i]))
                &&& (forall|i: int| 0 <= i < doc.comments@.len() ==>
                    comment_matches(#[trigger] doc.comments@[i], n.comments@[doc.ast.comments@.len() + i]))
            },
    {
        let mut node = match PrismAdapter::convert_node(&doc.ast) {
            Ok(n) => n,
            Err(e) => return Err(e),
        };
        let ghost own = node.comments@;
        let ghost n0 = node;
        let mut k: usize = 0;
        while k < doc.comments.len()
            invariant
                converted(doc.ast, n0),
                own == n0.comments@,
                node.node_type == n0.node_type,
                node.location == n0.location,
                node.children == n0.children,
                k <= doc.comments@.len(),
                node.comments@.len() == own.len() + k,
                forall|i: int| 0 <= i < own.len() ==> node.comments@[i] == own[i],
                forall|i: int| 0 <= i < k ==> comment_matches(#[trigger] doc.comments@[i], node.comments@[own.len() + i]),
            decreases doc.comments@.len() - k,
        {
            node.comments.push(PrismAdapter::convert_comment(&doc.comments[k]));
            k += 1;
        }
        Ok(node)
    }
}

impl Default for PrismAdapter {
    fn default() -> (r: PrismAdapter) {
        PrismAdapter::new()
    }
}

} // verus!
