//! Tests for node statements and their attribute lists.

use dot_ast::lex::tokenize;
use dot_ast::Assignment;
use dot_ast::DotParseable;
use dot_ast::GraphKind;
use dot_ast::Node;

#[test]
fn node_statement_sanity1_test() {
    let test_str = "A [color = blue, height = s10][length = long]";
    let toks = tokenize(test_str).unwrap();
    let node = Node::from_lexer(&toks, 0, GraphKind::Directed).unwrap().0;
    let asgng_1 = vec![
        Assignment::new("color", "blue"),
        Assignment::new("height", "s10"),
    ];
    assert_eq!(node.attribute_list.unwrap()[0], asgng_1);
}

#[test]
fn node_statement_basic_node_test() {
    let test_str = "A";
    let toks = tokenize(test_str).unwrap();
    let node = Node::from_lexer(&toks, 0, GraphKind::Directed).unwrap();
    assert_eq!(node.0.id, String::from("A"));
}

#[test]
fn node_statement_underscore_test() {
    let test_str = "nd_1 [label = \"Node 1\"]";
    let toks = tokenize(test_str).unwrap();
    let node = Node::from_lexer(&toks, 0, GraphKind::Directed).unwrap();
    assert_eq!(node.0.id, String::from("nd_1"));
    assert_eq!(node.0.attribute_list.unwrap().len(), 1);
}

#[test]
fn node_without_brackets_consumes_only_identifier() {
    let toks = tokenize("A ; B").unwrap();
    let (node, next) = Node::from_lexer(&toks, 0, GraphKind::Directed).unwrap();
    assert_eq!(node.id, String::from("A"));
    assert!(node.attribute_list.is_none());
    // the failed attribute probe left the cursor right after the identifier
    assert_eq!(next, 1);
}

#[test]
fn node_two_groups_kept_separate() {
    let toks = tokenize("A [x=1][y=2]").unwrap();
    let node = Node::from_lexer(&toks, 0, GraphKind::Directed).unwrap().0;
    let al = node.attribute_list.unwrap();
    assert_eq!(al.len(), 2);
    assert_eq!(al[0], vec![Assignment::new("x", "1")]);
    assert_eq!(al[1], vec![Assignment::new("y", "2")]);
}

#[test]
fn node_empty_brackets_present_but_empty() {
    let toks = tokenize("A []").unwrap();
    let node = Node::from_lexer(&toks, 0, GraphKind::Directed).unwrap().0;
    let al = node.attribute_list.unwrap();
    assert_eq!(al.len(), 1);
    assert!(al[0].is_empty());
}

#[test]
fn node_trailing_separator_tolerated() {
    let toks = tokenize("A [x=1, y=2,]").unwrap();
    let node = Node::from_lexer(&toks, 0, GraphKind::Directed).unwrap().0;
    let al = node.attribute_list.unwrap();
    assert_eq!(al.len(), 1);
    assert_eq!(al[0].len(), 2);
}
