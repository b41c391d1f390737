//! Round-trip tests: serializing the assignment / attribute-list / node
//! subset back to text and reparsing yields an AST equal in content.

use dot_ast::lex::tokenize;
use dot_ast::print::assignment_to_dot;
use dot_ast::print::attribute_list_to_dot;
use dot_ast::print::node_to_dot;
use dot_ast::Assignment;
use dot_ast::DotParseable;
use dot_ast::GraphKind;
use dot_ast::Node;

#[test]
fn assignment_round_trip() {
    let a = Assignment::new("color", "blue");
    let text = assignment_to_dot(&a);
    assert_eq!(text, String::from("color=blue"));
    let toks = tokenize(text.as_str()).unwrap();
    let back = Assignment::from_lexer(&toks, 0, GraphKind::Directed).unwrap().0;
    assert_eq!(back, a);
}

#[test]
fn attribute_list_round_trip() {
    let al = vec![
        vec![Assignment::new("x", "1"), Assignment::new("y", "2")],
        vec![Assignment::new("z", "3")],
    ];
    let text = attribute_list_to_dot(&al);
    assert_eq!(text, String::from("[x=1,y=2][z=3]"));
    let toks = tokenize(text.as_str()).unwrap();
    let back = <Vec<Vec<Assignment>>>::from_lexer(&toks, 0, GraphKind::Directed)
        .unwrap()
        .0;
    assert_eq!(back, al);
}

#[test]
fn node_round_trip() {
    let n = Node {
        id: String::from("A"),
        attribute_list: Some(vec![
            vec![Assignment::new("x", "1")],
            vec![Assignment::new("y", "2")],
        ]),
    };
    let text = node_to_dot(&n);
    assert_eq!(text, String::from("A[x=1][y=2]"));
    let toks = tokenize(text.as_str()).unwrap();
    let back = Node::from_lexer(&toks, 0, GraphKind::Directed).unwrap().0;
    assert_eq!(back, n);
}

#[test]
fn bare_node_round_trip() {
    let n = Node { id: String::from("nd_1"), attribute_list: None };
    let text = node_to_dot(&n);
    assert_eq!(text, String::from("nd_1"));
    let toks = tokenize(text.as_str()).unwrap();
    let back = Node::from_lexer(&toks, 0, GraphKind::Directed).unwrap().0;
    assert_eq!(back, n);
}
