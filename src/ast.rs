//! The syntax tree, its comments and their source spans.

use crate::text::str_eq;
use vstd::prelude::*;

verus! {

/// Source extent of a node or a comment.
#[derive(Debug, Clone, Copy, PartialEq, Eq, Structural)]
pub struct Location {
    pub start_line: usize,
    pub start_column: usize,
    pub end_line: usize,
    pub end_column: usize,
    pub start_offset: usize,
    pub end_offset: usize,
}

impl Location {
    /// Creates a location from its six coordinates.
    pub fn new(
        start_line: usize,
        start_column: usize,
        end_line: usize,
        end_column: usize,
        start_offset: usize,
        end_offset: usize,
    ) -> (r: Location)
        ensures
            r == (Location { start_line, start_column, end_line, end_column, start_offset, end_offset }),
    {
        Location { start_line, start_column, end_line, end_column, start_offset, end_offset }
    }

    /// The location with every coordinate at zero.
    pub fn zero() -> (r: Location)
        ensures
            r == (Location {
                start_line: 0,
                start_column: 0,
                end_line: 0,
                end_column: 0,
                start_offset: 0,
                end_offset: 0,
            }),
    {
        Location::new(0, 0, 0, 0, 0, 0)
    }
}

/// Kind of a syntax node: the constructs the emitter knows by name, and a
/// catch-all that keeps the front end's tag.
#[derive(Debug, Clone, PartialEq, Eq)]
pub enum NodeType {
    ProgramNode,
    StatementsNode,
    ClassNode,
    ModuleNode,
    DefNode,
    CallNode,
    IfNode,
    UnlessNode,
    ElseNode,
    StringNode,
    IntegerNode,
    FloatNode,
    ArrayNode,
    HashNode,
    TrueNode,
    FalseNode,
    NilNode,
    BlockNode,
    ConstantReadNode,
    ConstantWriteNode,
    ConstantPathNode,
    RequiredParameterNode,
    OptionalParameterNode,
    RestParameterNode,
    KeywordParameterNode,
    KeywordRestParameterNode,
    BlockParameterNode,
    Unknown(String),
}

/// The kind that a front-end tag names, if it is one of the known kinds.
pub open spec fn known_kind(s: Seq<char>) -> Option<NodeType> {
    if s == "program_node"@ {
        Some(NodeType::ProgramNode)
    } else if s == "statements_node"@ {
        Some(NodeType::StatementsNode)
    } else if s == "class_node"@ {
        Some(NodeType::ClassNode)
    } else if s == "module_node"@ {
        Some(NodeType::ModuleNode)
    } else if s == "def_node"@ {
        Some(NodeType::DefNode)
    } else if s == "call_node"@ {
        Some(NodeType::CallNode)
    } else if s == "if_node"@ {
        Some(NodeType::IfNode)
    } else if s == "unless_node"@ {
        Some(NodeType::UnlessNode)
    } else if s == "else_node"@ {
        Some(NodeType::ElseNode)
    } else if s == "string_node"@ {
        Some(NodeType::StringNode)
    } else if s == "integer_node"@ {
        Some(NodeType::IntegerNode)
    } else if s == "float_node"@ {
        Some(NodeType::FloatNode)
    } else if s == "array_node"@ {
        Some(NodeType::ArrayNode)
    } else if s == "hash_node"@ {
        Some(NodeType::HashNode)
    } else if s == "true_node"@ {
        Some(NodeType::TrueNode)
    } else if s == "false_node"@ {
        Some(NodeType::FalseNode)
    } else if s == "nil_node"@ {
        Some(NodeType::NilNode)
    } else if s == "block_node"@ {
        Some(NodeType::BlockNode)
    } else if s == "constant_read_node"@ {
        Some(NodeType::ConstantReadNode)
    } else if s == "constant_write_node"@ {
        Some(NodeType::ConstantWriteNode)
    } else if s == "constant_path_node"@ {
        Some(NodeType::ConstantPathNode)
    } else if s == "required_parameter_node"@ {
        Some(NodeType::RequiredParameterNode)
    } else if s == "optional_parameter_node"@ {
        Some(NodeType::OptionalParameterNode)
    } else if s == "rest_parameter_node"@ {
        Some(NodeType::RestParameterNode)
    } else if s == "keyword_parameter_node"@ {
        Some(NodeType::KeywordParameterNode)
    } else if s == "keyword_rest_parameter_node"@ {
        Some(NodeType::KeywordRestParameterNode)
    } else if s == "block_parameter_node"@ {
        Some(NodeType::BlockParameterNode)
    } else {
        None
    }
}

impl NodeType {
    /// Maps a front-end tag to a kind; an unrecognized tag gives `Unknown`
    /// holding the tag, never an error.
    pub fn from_str(s: &str) -> (r: NodeType)
        ensures
            match known_kind(s@) {
                Some(k) => r == k,
                None => r matches NodeType::Unknown(n) && n@ == s@,
            },
    {
        if str_eq(s, "program_node") {
            NodeType::ProgramNode
        } else if str_eq(s, "statements_node") {
            NodeType::StatementsNode
        } else if str_eq(s, "class_node") {
            NodeType::ClassNode
        } else if str_eq(s, "module_node") {
            NodeType::ModuleNode
        } else if str_eq(s, "def_node") {
            NodeType::DefNode
        } else if str_eq(s, "call_node") {
            NodeType::CallNode
        } else if str_eq(s, "if_node") {
            NodeType::IfNode
        } else if str_eq(s, "unless_node") {
            NodeType::UnlessNode
        } else if str_eq(s, "else_node") {
            NodeType::ElseNode
        } else if str_eq(s, "string_node") {
            NodeType::StringNode
        } else if str_eq(s, "integer_node") {
            NodeType::IntegerNode
        } else if str_eq(s, "float_node") {
            NodeType::FloatNode
        } else if str_eq(s, "array_node") {
            NodeType::ArrayNode
        } else if str_eq(s, "hash_node") {
            NodeType::HashNode
        } else if str_eq(s, "true_node") {
            NodeType::TrueNode
        } else if str_eq(s, "false_node") {
            NodeType::FalseNode
        } else if str_eq(s, "nil_node") {
            NodeType::NilNode
        } else if str_eq(s, "block_node") {
            NodeType::BlockNode
        } else if str_eq(s, "constant_read_node") {
            NodeType::ConstantReadNode
        } else if str_eq(s, "constant_write_node") {
            NodeType::ConstantWriteNode
        } else if str_eq(s, "constant_path_node") {
            NodeType::ConstantPathNode
        } else if str_eq(s, "required_parameter_node") {
            NodeType::RequiredParameterNode
        } else if str_eq(s, "optional_parameter_node") {
            NodeType::OptionalParameterNode
        } else if str_eq(s, "rest_parameter_node") {
            NodeType::RestParameterNode
        } else if str_eq(s, "keyword_parameter_node") {
            NodeType::KeywordParameterNode
        } else if str_eq(s, "keyword_rest_parameter_node") {
            NodeType::KeywordRestParameterNode
        } else if str_eq(s, "block_parameter_node") {
            NodeType::BlockParameterNode
        } else {
            NodeType::Unknown(s.to_owned())
        }
    }

    /// Class, module and method definitions.
    pub open spec fn spec_is_definition(&self) -> bool {
        self matches NodeType::ClassNode || self matches NodeType::ModuleNode
            || self matches NodeType::DefNode
    }

    /// Whether this kind is a class, module or method definition.
    pub fn is_definition(&self) -> (r: bool)
        ensures
            r == self.spec_is_definition(),
    {
        match self {
            NodeType::ClassNode | NodeType::ModuleNode | NodeType::DefNode => true,
            _ => false,
        }
    }
}

/// Marker family of a comment.
#[derive(Debug, Clone, Copy, PartialEq, Eq, Structural)]
pub enum CommentType {
    /// `# ...`
    Line,
    /// `=begin ... =end`
    Block,
}

/// Advisory placement of a comment relative to the node that owns it.
#[derive(Debug, Clone, Copy, PartialEq, Eq, Structural)]
pub enum CommentPosition {
    Leading,
    Trailing,
    Inner,
}

/// A comment: its text with the marker, its span, and two advisory tags.
#[derive(Debug, Clone)]
pub struct Comment {
    pub text: String,
    pub location: Location,
    pub comment_type: CommentType,
    pub position: CommentPosition,
}

impl Comment {
    /// A field-by-field copy.
    pub fn duplicate(&self) -> (r: Comment)
        ensures
            r.text@ == self.text@,
            r.location == self.location,
            r.comment_type == self.comment_type,
            r.position == self.position,
    {
        Comment {
            text: self.text.clone(),
            location: self.location,
            comment_type: self.comment_type,
            position: self.position,
        }
    }
}

/// Formatting hints attached to a node by the front end.
#[derive(Debug, Clone)]
pub struct FormattingInfo {
    pub indent_level: usize,
    pub needs_blank_line_before: bool,
    pub needs_blank_line_after: bool,
    pub preserve_newlines: bool,
    pub multiline: bool,
    pub original_formatting: Option<String>,
}

impl Default for FormattingInfo {
    fn default() -> (r: FormattingInfo)
        ensures
            r.indent_level == 0,
            !r.needs_blank_line_before,
            !r.needs_blank_line_after,
            !r.preserve_newlines,
            !r.multiline,
            r.original_formatting is None,
    {
        FormattingInfo {
            indent_level: 0,
            needs_blank_line_before: false,
            needs_blank_line_after: false,
            preserve_newlines: false,
            multiline: false,
            original_formatting: None,
        }
    }
}

/// The value stored under `key`: the first entry with that key.
pub open spec fn entry_value(entries: Seq<(String, String)>, key: Seq<char>) -> Option<Seq<char>>
    decreases entries.len(),
{
    if entries.len() == 0 {
        None
    } else if entries[0].0@ == key {
        Some(entries[0].1@)
    } else {
        entry_value(entries.subrange(1, entries.len() as int), key)
    }
}

/// String-keyed facts that the front end extracted for a node.
#[derive(Debug, Clone)]
pub struct Metadata {
    pub entries: Vec<(String, String)>,
}

impl Metadata {
    /// The value stored under `key`, if any.
    pub open spec fn value(&self, key: Seq<char>) -> Option<Seq<char>> {
        entry_value(self.entries@, key)
    }

    /// No entries.
    pub fn new() -> (r: Metadata)
        ensures
            r.entries@.len() == 0,
    {
        Metadata { entries: Vec::new() }
    }

    /// Index of the first entry whose key is `key`.
    fn find(&self, key: &str) -> (r: Option<usize>)
        ensures
            match r {
                Some(i) => i < self.entries@.len() && self.entries@[i as int].0@ == key@
                    && self.value(key@) == Some(self.entries@[i as int].1@)
                    && forall|j: int| 0 <= j < i ==> self.entries@[j].0@ != key@,
                None => self.value(key@) is None,
            },
    {
        let n = self.entries.len();
        let mut i: usize = 0;
        assert(self.entries@.subrange(0, n as int) =~= self.entries@);
        while i < n
            invariant
                n == self.entries@.len(),
                0 <= i <= n,
                self.value(key@) == entry_value(self.entries@.subrange(i as int, n as int), key@),
                forall|j: int| 0 <= j < i ==> self.entries@[j].0@ != key@,
            decreases n - i,
        {
            let ghost rest = self.entries@.subrange(i as int, n as int);
            assert(rest.subrange(1, rest.len() as int) =~= self.entries@.subrange(i + 1, n as int));
            if str_eq(self.entries[i].0.as_str(), key) {
                return Some(i);
            }
            i += 1;
        }
        None
    }

    /// The value stored under `key`, if any.
    pub fn get(&self, key: &str) -> (r: Option<&String>)
        ensures
            match r {
                Some(v) => self.value(key@) == Some(v@),
                None => self.value(key@) is None,
            },
    {
        match self.find(key) {
            Some(i) => Some(&self.entries[i].1),
            None => None,
        }
    }

    /// Stores `value` under `key`, replacing the value stored there before.
    pub fn insert(&mut self, key: String, value: String)
        ensures
            final(self).value(key@) == Some(value@),
            forall|k: Seq<char>| k != key@ ==> final(self).value(k) == old(self).value(k),
    {
        match self.find(key.as_str()) {
            Some(i) => {
                let ghost before = self.entries@;
                self.entries.set(i, (key, value));
                proof { lemma_entry_value_update(before, i as int, key@, value@, self.entries@); }
            },
            None => {
                let ghost before = self.entries@;
                self.entries.push((key, value));
                proof { lemma_entry_value_push(before, self.entries@, key@, value@); }
            },
        }
    }
}

proof fn lemma_entry_value_update(
    before: Seq<(String, String)>,
    i: int,
    key: Seq<char>,
    value: Seq<char>,
    after: Seq<(String, String)>,
)
    requires
        0 <= i < before.len(),
        after.len() == before.len(),
        before[i].0@ == key,
        forall|j: int| 0 <= j < i ==> before[j].0@ != key,
        after[i].0@ == key,
        after[i].1@ == value,
        forall|j: int| 0 <= j < before.len() && j != i ==> after[j] == before[j],
    ensures
        entry_value(after, key) == Some(value),
        forall|k: Seq<char>| k != key ==> entry_value(after, k) == entry_value(before, k),
    decreases before.len(),
{
    if i > 0 {
        let b1 = before.subrange(1, before.len() as int);
        let a1 = after.subrange(1, after.len() as int);
        assert(before[0].0@ != key);
        lemma_entry_value_update(b1, i - 1, key, value, a1);
        assert forall|k: Seq<char>| k != key implies entry_value(after, k) == entry_value(before, k) by {
            assert(after[0] == before[0]);
            if after[0].0@ == k {
                assert(entry_value(after, k) == Some(after[0].1@));
                assert(entry_value(before, k) == Some(before[0].1@));
            } else {
                assert(entry_value(after, k) == entry_value(a1, k));
                assert(entry_value(before, k) == entry_value(b1, k));
            }
        }
    } else {
        assert forall|k: Seq<char>| k != key implies entry_value(after, k) == entry_value(before, k) by {
            assert(after.subrange(1, after.len() as int) =~= before.subrange(1, before.len() as int));
        }
    }
}

proof fn lemma_entry_value_push(
    before: Seq<(String, String)>,
    after: Seq<(String, String)>,
    key: Seq<char>,
    value: Seq<char>,
)
    requires
        entry_value(before, key) is None,
        after.len() == before.len() + 1,
        forall|j: int| 0 <= j < before.len() ==> after[j] == before[j],
        after[before.len() as int].0@ == key,
        after[before.len() as int].1@ == value,
    ensures
        entry_value(after, key) == Some(value),
        forall|k: Seq<char>| k != key ==> entry_value(after, k) == entry_value(before, k),
    decreases before.len(),
{
    let a1 = after.subrange(1, after.len() as int);
    if before.len() > 0 {
        let b1 = before.subrange(1, before.len() as int);
        assert(before[0].0@ != key);
        lemma_entry_value_push(b1, a1, key, value);
        assert forall|k: Seq<char>| k != key implies entry_value(after, k) == entry_value(before, k) by {
            assert(after[0] == before[0]);
            if after[0].0@ == k {
                assert(entry_value(after, k) == Some(after[0].1@));
                assert(entry_value(before, k) == Some(before[0].1@));
            } else {
                assert(entry_value(after, k) == entry_value(a1, k));
                assert(entry_value(before, k) == entry_value(b1, k));
            }
        }
    } else {
        assert(entry_value(a1, key) is None);
        assert forall|k: Seq<char>| k != key implies entry_value(after, k) == entry_value(before, k) by {
            assert(after[0].0@ != k);
            assert(entry_value(a1, k) is None);
            assert(entry_value(after, k) == entry_value(a1, k));
        }
    }
}

/// A syntax-tree node.
#[derive(Debug)]
pub struct Node {
    pub node_type: NodeType,
    pub location: Location,
    pub children: Vec<Node>,
    pub metadata: Metadata,
    pub comments: Vec<Comment>,
    pub formatting: FormattingInfo,
}

impl Node {
    /// A node of the given kind and span, with no children, metadata or comments.
    pub fn new(node_type: NodeType, location: Location) -> (r: Node)
        ensures
            r.node_type == node_type,
            r.location == location,
            r.children@.len() == 0,
            r.metadata.entries@.len() == 0,
            r.comments@.len() == 0,
            r.formatting.indent_level == 0,
            !r.formatting.multiline,
    {
        Node {
            node_type,
            location,
            children: Vec::new(),
            metadata: Metadata::new(),
            comments: Vec::new(),
            formatting: FormattingInfo::default(),
        }
    }

    /// The same node with `children` in place of its children.
    pub fn with_children(self, children: Vec<Node>) -> (r: Node)
        ensures
            r == (Node { children, ..self }),
    {
        Node { children, ..self }
    }

    /// The same node with `metadata` in place of its metadata.
    pub fn with_metadata(self, metadata: Metadata) -> (r: Node)
        ensures
            r == (Node { metadata, ..self }),
    {
        Node { metadata, ..self }
    }

    /// The same node with `comments` in place of its comments.
    pub fn with_comments(self, comments: Vec<Comment>) -> (r: Node)
        ensures
            r == (Node { comments, ..self }),
    {
        Node { comments, ..self }
    }

    /// Whether the node's span covers more than one line.
    pub fn is_multiline(&self) -> (r: bool)
        ensures
            r == (self.location.start_line != self.location.end_line),
    {
        self.location.start_line != self.location.end_line
    }

    /// Number of lines the node spans, both ends included.
    pub fn line_count(&self) -> (r: usize)
        requires
            self.location.start_line <= self.location.end_line,
            self.location.end_line - self.location.start_line + 1 <= usize::MAX,
        ensures
            r == self.location.end_line - self.location.start_line + 1,
    {
        self.location.end_line - self.location.start_line + 1
    }

    /// Whether the node's kind is the catch-all.
    pub fn is_unknown(&self) -> (r: bool)
        ensures
            r == (self.node_type is Unknown),
    {
        match self.node_type {
            NodeType::Unknown(_) => true,
            _ => false,
        }
    }

    /// The front end's tag for a node of the catch-all kind.
    pub fn unknown_type(&self) -> (r: Option<&str>)
        ensures
            match self.node_type {
                NodeType::Unknown(n) => r matches Some(s) && s@ == n@,
                _ => r is None,
            },
    {
        match &self.node_type {
            NodeType::Unknown(name) => Some(name.as_str()),
            _ => None,
        }
    }
}

} // verus!
