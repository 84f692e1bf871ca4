use rfmt::ast::{Comment, CommentPosition, CommentType, Location, Metadata, Node, NodeType};
use rfmt::config::{Config, IndentStyle};
use rfmt::emitter::Emitter;
use rfmt::prism::{
    PrismAdapter, PrismComment, PrismCommentPosition, PrismCommentType, PrismFormattingInfo, PrismLocation,
    PrismNode, PrismWrapper,
};

fn node(kind: NodeType, lines: (usize, usize), offsets: (usize, usize), children: Vec<Node>) -> Node {
    Node::new(kind, Location::new(lines.0, 0, lines.1, 0, offsets.0, offsets.1)).with_children(children)
}

fn named(mut n: Node, key: &str, value: &str) -> Node {
    n.metadata.insert(key.to_string(), value.to_string());
    n
}

fn comment(text: &str, line: usize, offsets: (usize, usize)) -> Comment {
    Comment {
        text: text.to_string(),
        location: Location::new(line, 0, line, 0, offsets.0, offsets.1),
        comment_type: CommentType::Line,
        position: CommentPosition::Leading,
    }
}

fn format(source: &str, tree: &Node) -> String {
    let mut emitter = Emitter::with_source(Config::default(), source.to_string());
    emitter.emit(tree).unwrap()
}

fn number(line: usize, offsets: (usize, usize)) -> Node {
    node(NodeType::IntegerNode, (line, line), offsets, vec![])
}

#[test]
fn class_with_method_is_unchanged() {
    let src = "class Foo\n  def bar\n    1\n  end\nend\n";
    let body = node(NodeType::StatementsNode, (3, 3), (24, 25), vec![number(3, (24, 25))]);
    let def = named(node(NodeType::DefNode, (2, 4), (12, 31), vec![body]), "name", "bar");
    let stmts = node(NodeType::StatementsNode, (2, 4), (12, 31), vec![def]);
    let cname = node(NodeType::ConstantReadNode, (1, 1), (6, 9), vec![]);
    let class = named(node(NodeType::ClassNode, (1, 5), (0, 35), vec![cname, stmts]), "name", "Foo");
    let program = node(NodeType::ProgramNode, (1, 5), (0, 35), vec![class]);
    assert_eq!(format(src, &program), src);
}

#[test]
fn comment_stays_above_method() {
    let src = "class Foo\n  # doc\n  def bar\n  end\nend\n";
    let def = named(node(NodeType::DefNode, (3, 4), (20, 33), vec![]), "name", "bar");
    let stmts = node(NodeType::StatementsNode, (3, 4), (20, 33), vec![def]);
    let class = named(node(NodeType::ClassNode, (1, 5), (0, 37), vec![stmts]), "name", "Foo");
    let program =
        node(NodeType::ProgramNode, (1, 5), (0, 37), vec![class]).with_comments(vec![comment("# doc", 2, (12, 17))]);
    assert_eq!(format(src, &program), src);
}

#[test]
fn if_elsif_else_has_one_end() {
    let src = "if true\n  1\nelsif false\n  2\nelse\n  3\nend\n";
    let else_branch = node(
        NodeType::ElseNode,
        (5, 7),
        (28, 40),
        vec![node(NodeType::StatementsNode, (6, 6), (35, 36), vec![number(6, (35, 36))])],
    );
    let elsif = node(
        NodeType::IfNode,
        (3, 7),
        (12, 40),
        vec![
            node(NodeType::FalseNode, (3, 3), (18, 23), vec![]),
            node(NodeType::StatementsNode, (4, 4), (26, 27), vec![number(4, (26, 27))]),
            else_branch,
        ],
    );
    let top = node(
        NodeType::IfNode,
        (1, 7),
        (0, 40),
        vec![
            node(NodeType::TrueNode, (1, 1), (3, 7), vec![]),
            node(NodeType::StatementsNode, (2, 2), (10, 11), vec![number(2, (10, 11))]),
            elsif,
        ],
    );
    let program = node(NodeType::ProgramNode, (1, 7), (0, 40), vec![top]);
    let out = format(src, &program);
    assert_eq!(out, src);
    assert_eq!(out.matches("end").count(), 1);
}

#[test]
fn blank_lines_collapse_to_one() {
    let src = "1\n\n\n\n2\n";
    let program = node(NodeType::ProgramNode, (1, 5), (0, 7), vec![number(1, (0, 1)), number(5, (5, 6))]);
    assert_eq!(format(src, &program), "1\n\n2\n");
}

#[test]
fn adjacent_statements_stay_adjacent() {
    let src = "1\n2\n";
    let program = node(NodeType::ProgramNode, (1, 2), (0, 3), vec![number(1, (0, 1)), number(2, (2, 3))]);
    assert_eq!(format(src, &program), "1\n2\n");
}

#[test]
fn unknown_kind_is_copied_verbatim() {
    let src = "x   =  [1,\n  2]\n";
    let weird = node(NodeType::Unknown("strange_node".to_string()), (1, 2), (0, 15), vec![]);
    let program = node(NodeType::ProgramNode, (1, 2), (0, 15), vec![weird]);
    assert_eq!(format(src, &program), src);
}

#[test]
fn brace_block_on_one_line_is_kept() {
    let src = "foo.each { |x| puts x }\n";
    let block = node(NodeType::BlockNode, (1, 1), (9, 23), vec![]);
    let call = node(NodeType::CallNode, (1, 1), (0, 23), vec![block]);
    let program = node(NodeType::ProgramNode, (1, 1), (0, 23), vec![call]);
    assert_eq!(format(src, &program), src);
}

#[test]
fn do_block_keeps_keyword_style() {
    let src = "foo.each do |x|\n  puts x\nend\n";
    let body = node(
        NodeType::StatementsNode,
        (2, 2),
        (18, 24),
        vec![node(NodeType::CallNode, (2, 2), (18, 24), vec![])],
    );
    let block = node(NodeType::BlockNode, (1, 3), (9, 28), vec![body]);
    let call = node(NodeType::CallNode, (1, 3), (0, 28), vec![block]);
    let program = node(NodeType::ProgramNode, (1, 3), (0, 28), vec![call]);
    assert_eq!(format(src, &program), src);
}

#[test]
fn multiline_brace_block_keeps_braces() {
    let src = "foo.each { |x|\n  puts x\n}\n";
    let body = node(
        NodeType::StatementsNode,
        (2, 2),
        (17, 23),
        vec![node(NodeType::CallNode, (2, 2), (17, 23), vec![])],
    );
    let block = node(NodeType::BlockNode, (1, 3), (9, 25), vec![body]);
    let call = node(NodeType::CallNode, (1, 3), (0, 25), vec![block]);
    let program = node(NodeType::ProgramNode, (1, 3), (0, 25), vec![call]);
    let out = format(src, &program);
    assert_eq!(out, src);
    assert!(!out.contains(" do"));
}

#[test]
fn trailing_newlines_become_one() {
    let src = "1\n\n\n";
    let program = node(NodeType::ProgramNode, (1, 1), (0, 1), vec![number(1, (0, 1))]);
    assert_eq!(format(src, &program), "1\n");
    let bare = "1";
    let program = node(NodeType::ProgramNode, (1, 1), (0, 1), vec![number(1, (0, 1))]);
    assert_eq!(format(bare, &program), "1\n");
}

#[test]
fn every_comment_appears_once() {
    let src = "# a\n# b\n1 # c\n\n# d\n2\n# e\n";
    let program = node(NodeType::ProgramNode, (1, 6), (0, 24), vec![number(3, (8, 9)), number(6, (19, 20))]).with_comments(vec![
        comment("# a", 1, (0, 3)),
        comment("# b", 2, (4, 7)),
        comment("# c", 3, (10, 13)),
        comment("# d", 5, (15, 18)),
        comment("# e", 7, (21, 24)),
    ]);
    let out = format(src, &program);
    for t in ["# a", "# b", "# c", "# d", "# e"] {
        assert_eq!(out.matches(t).count(), 1, "{}", t);
    }
    assert_eq!(out, "# a\n# b\n1 # c\n\n# d\n2\n# e\n");
}

#[test]
fn postfix_conditional_stays_on_one_line() {
    let src = "puts x if ready\n";
    let top = node(
        NodeType::IfNode,
        (1, 1),
        (0, 15),
        vec![
            node(NodeType::CallNode, (1, 1), (10, 15), vec![]),
            node(NodeType::StatementsNode, (1, 1), (0, 6), vec![node(NodeType::CallNode, (1, 1), (0, 6), vec![])]),
        ],
    );
    let program = node(NodeType::ProgramNode, (1, 1), (0, 15), vec![top]);
    assert_eq!(format(src, &program), src);
}

#[test]
fn method_parameters_come_from_source() {
    let src = "def add(a, b)\n  a\nend\n";
    let body = node(NodeType::StatementsNode, (2, 2), (16, 17), vec![node(NodeType::CallNode, (2, 2), (16, 17), vec![])]);
    let params = node(NodeType::RequiredParameterNode, (1, 1), (8, 9), vec![]);
    let def = named(named(node(NodeType::DefNode, (1, 3), (0, 21), vec![params, body]), "name", "add"), "parameters_count", "2");
    let program = node(NodeType::ProgramNode, (1, 3), (0, 21), vec![def]);
    assert_eq!(format(src, &program), src);
}

#[test]
fn tabs_indent_one_per_level() {
    let src = "module M\nend\n";
    let module = named(node(NodeType::ModuleNode, (1, 2), (0, 12), vec![]), "name", "M");
    let program = node(NodeType::ProgramNode, (1, 2), (0, 12), vec![module]);
    let mut config = Config::default();
    config.formatting.indent_style = IndentStyle::Tabs;
    let mut emitter = Emitter::with_source(config, src.to_string());
    assert_eq!(emitter.emit(&program).unwrap(), src);
}

#[test]
fn inverted_span_is_skipped() {
    let src = "1\n2\n";
    let program = node(NodeType::ProgramNode, (1, 2), (0, 3), vec![number(1, (3, 1)), number(2, (2, 3))]);
    assert_eq!(format(src, &program), "\n2\n");
}

#[test]
fn superclass_is_written() {
    let src = "class A < B\nend\n";
    let class = named(named(node(NodeType::ClassNode, (1, 2), (0, 15), vec![]), "name", "A"), "superclass", "B");
    let program = node(NodeType::ProgramNode, (1, 2), (0, 15), vec![class]);
    assert_eq!(format(src, &program), src);
}

fn ploc(line: usize, s: usize, e: usize) -> PrismLocation {
    PrismLocation { start_line: line, start_column: 0, end_line: line, end_column: 0, start_offset: s, end_offset: e }
}

fn pfmt() -> PrismFormattingInfo {
    PrismFormattingInfo {
        indent_level: 0,
        needs_blank_line_before: false,
        needs_blank_line_after: false,
        preserve_newlines: false,
        multiline: false,
        original_formatting: None,
    }
}

#[test]
fn adapter_converts_tags_and_comments() {
    let child = PrismNode {
        node_type: "totally_unknown_node".to_string(),
        location: ploc(1, 0, 10),
        children: vec![],
        metadata: Metadata::new(),
        comments: vec![],
        formatting: pfmt(),
    };
    let mut meta = Metadata::new();
    meta.insert("name".to_string(), "Foo".to_string());
    let root = PrismNode {
        node_type: "program_node".to_string(),
        location: ploc(1, 0, 14),
        children: vec![child],
        metadata: meta,
        comments: vec![],
        formatting: pfmt(),
    };
    let doc = PrismWrapper {
        ast: root,
        comments: vec![PrismComment {
            text: "# top".to_string(),
            location: ploc(2, 15, 20),
            comment_type: PrismCommentType::Line,
            position: PrismCommentPosition::Trailing,
        }],
    };
    let tree = PrismAdapter::new().convert_document(&doc).unwrap();
    assert_eq!(tree.node_type, NodeType::ProgramNode);
    assert_eq!(tree.metadata.get("name"), Some(&"Foo".to_string()));
    assert_eq!(tree.children.len(), 1);
    assert_eq!(tree.children[0].unknown_type(), Some("totally_unknown_node"));
    assert_eq!(tree.comments.len(), 1);
    assert_eq!(tree.comments[0].text, "# top");
    assert_eq!(tree.comments[0].position, CommentPosition::Trailing);
}

#[test]
fn default_emitter_without_source_skips_slices() {
    let program = node(NodeType::ProgramNode, (1, 1), (0, 1), vec![number(1, (0, 1))]);
    let mut emitter = Emitter::default();
    assert_eq!(emitter.emit(&program).unwrap(), "\n");
}

#[test]
fn comment_inside_verbatim_slice_is_not_repeated() {
    let src = "foo(1, # note\n  2)\n";
    let call = node(NodeType::CallNode, (1, 2), (0, 18), vec![]);
    let program = node(NodeType::ProgramNode, (1, 2), (0, 18), vec![call])
        .with_comments(vec![comment("# note", 1, (7, 13))]);
    let out = format(src, &program);
    assert_eq!(out, src);
    assert_eq!(out.matches("# note").count(), 1);
}

#[test]
fn trailing_comment_after_unknown_node() {
    let src = "x = 1 # one\n";
    let stmt = node(NodeType::Unknown("local_variable_write_node".to_string()), (1, 1), (0, 5), vec![]);
    let program = node(NodeType::ProgramNode, (1, 1), (0, 5), vec![stmt])
        .with_comments(vec![comment("# one", 1, (6, 11))]);
    assert_eq!(format(src, &program), src);
}

#[test]
fn formatting_formatted_text_again_is_stable() {
    let src = "1\n\n\n\n2 # two\n\n\n";
    let program = node(NodeType::ProgramNode, (1, 5), (0, 7), vec![number(1, (0, 1)), number(5, (5, 6))])
        .with_comments(vec![comment("# two", 5, (7, 12))]);
    let once = format(src, &program);
    assert_eq!(once, "1\n\n2 # two\n");
    let again_tree = node(NodeType::ProgramNode, (1, 3), (0, 4), vec![number(1, (0, 1)), number(3, (3, 4))])
        .with_comments(vec![comment("# two", 3, (5, 10))]);
    assert_eq!(format(&once, &again_tree), once);
}
