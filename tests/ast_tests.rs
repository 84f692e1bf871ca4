use rfmt::ast::{Location, Node, NodeType};

#[test]
fn test_node_creation() {
    let node = Node::new(NodeType::ProgramNode, Location::zero());
    assert_eq!(node.node_type, NodeType::ProgramNode);
    assert_eq!(node.children.len(), 0);
}

#[test]
fn test_node_with_children() {
    let child = Node::new(NodeType::ClassNode, Location::zero());
    let node = Node::new(NodeType::ProgramNode, Location::zero()).with_children(vec![child]);

    assert_eq!(node.children.len(), 1);
    assert_eq!(node.children[0].node_type, NodeType::ClassNode);
}

#[test]
fn test_node_type_from_str() {
    assert_eq!(NodeType::from_str("program_node"), NodeType::ProgramNode);
    assert_eq!(NodeType::from_str("class_node"), NodeType::ClassNode);
    assert_eq!(NodeType::from_str("def_node"), NodeType::DefNode);

    match NodeType::from_str("unknown_node") {
        NodeType::Unknown(s) => assert_eq!(s, "unknown_node"),
        _ => panic!("Expected Unknown variant"),
    }
}

#[test]
fn test_node_type_is_definition() {
    assert!(NodeType::ClassNode.is_definition());
    assert!(NodeType::ModuleNode.is_definition());
    assert!(NodeType::DefNode.is_definition());
    assert!(!NodeType::CallNode.is_definition());
    assert!(!NodeType::IntegerNode.is_definition());
}

#[test]
fn test_location_zero() {
    let loc = Location::zero();
    assert_eq!(loc.start_line, 0);
    assert_eq!(loc.start_offset, 0);
}

#[test]
fn test_node_is_multiline() {
    let single_line = Node::new(NodeType::CallNode, Location::new(1, 0, 1, 10, 0, 10));
    assert!(!single_line.is_multiline());

    let multi_line = Node::new(NodeType::ClassNode, Location::new(1, 0, 5, 3, 0, 50));
    assert!(multi_line.is_multiline());
}

#[test]
fn test_node_line_count() {
    let node = Node::new(NodeType::DefNode, Location::new(10, 0, 15, 3, 100, 200));
    assert_eq!(node.line_count(), 6);
}

#[test]
fn test_node_is_unknown() {
    let known_node = Node::new(NodeType::ClassNode, Location::zero());
    assert!(!known_node.is_unknown());
    assert_eq!(known_node.unknown_type(), None);

    let unknown_node = Node::new(NodeType::Unknown("custom_node".to_string()), Location::zero());
    assert!(unknown_node.is_unknown());
    assert_eq!(unknown_node.unknown_type(), Some("custom_node"));
}

#[test]
fn test_node_type_from_str_returns_unknown_for_unsupported() {
    let node_type = NodeType::from_str("unsupported_node_type");
    match node_type {
        NodeType::Unknown(name) => assert_eq!(name, "unsupported_node_type"),
        _ => panic!("Expected Unknown variant"),
    }
}

#[test]
fn node_type_from_str_maps_else_and_blocks() {
    assert_eq!(NodeType::from_str("else_node"), NodeType::ElseNode);
    assert_eq!(NodeType::from_str("block_node"), NodeType::BlockNode);
    assert_eq!(NodeType::from_str(""), NodeType::Unknown(String::new()));
}

#[test]
fn metadata_insert_replaces_value() {
    let mut m = rfmt::ast::Metadata::new();
    m.insert("name".to_string(), "Foo".to_string());
    m.insert("superclass".to_string(), "Bar".to_string());
    m.insert("name".to_string(), "Baz".to_string());
    assert_eq!(m.get("name"), Some(&"Baz".to_string()));
    assert_eq!(m.get("superclass"), Some(&"Bar".to_string()));
    assert_eq!(m.get("missing"), None);
    assert_eq!(m.entries.len(), 2);
}
