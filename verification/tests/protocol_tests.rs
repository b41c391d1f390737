//! Tests for the parse-cursor protocol: each AST type consumes a prefix of
//! the token sequence and reports the position of the remainder.

use dot_ast::lex::tokenize;
use dot_ast::Assignment;
use dot_ast::DotParseable;
use dot_ast::Edge;
use dot_ast::Endpoint;
use dot_ast::GraphKind;
use dot_ast::ParseError;
use dot_ast::Statement;
use dot_ast::Subgraph;

#[test]
fn identifier_consumes_one_token() {
    let toks = tokenize("alpha beta").unwrap();
    let (id, next) = String::from_lexer(&toks, 0, GraphKind::Directed).unwrap();
    assert_eq!(id, "alpha");
    assert_eq!(next, 1);
    let (id2, next2) = String::from_lexer(&toks, next, GraphKind::Directed).unwrap();
    assert_eq!(id2, "beta");
    assert_eq!(next2, 2);
}

#[test]
fn assignment_requires_equals() {
    let toks = tokenize("color blue").unwrap();
    let r = Assignment::from_lexer(&toks, 0, GraphKind::Directed);
    assert!(matches!(r, Err(ParseError::UnexpectedToken { position: 1, .. })));
}

#[test]
fn edge_requires_matching_operator() {
    let toks = tokenize("a -- b").unwrap();
    let r = Edge::from_lexer(&toks, 0, GraphKind::Directed);
    assert!(matches!(r, Err(ParseError::UnexpectedToken { position: 1, .. })));
    let e = Edge::from_lexer(&toks, 0, GraphKind::Undirected).unwrap().0;
    assert_eq!(e.kind, GraphKind::Undirected);
    assert_eq!(e.endpoints.len(), 2);
}

#[test]
fn subgraph_keyword_and_name_are_optional() {
    let toks = tokenize("{ a }").unwrap();
    let (sg, next) = Subgraph::from_lexer(&toks, 0, GraphKind::Directed).unwrap();
    assert!(sg.id.is_none());
    assert_eq!(sg.statements.len(), 1);
    assert_eq!(next, 3);

    let toks2 = tokenize("subgraph { a }").unwrap();
    let sg2 = Subgraph::from_lexer(&toks2, 0, GraphKind::Directed).unwrap().0;
    assert!(sg2.id.is_none());
    assert_eq!(sg2.statements.len(), 1);
}

#[test]
fn statement_prefers_edge_over_node_on_lookahead() {
    let toks = tokenize("a -> b").unwrap();
    let st = Statement::from_lexer(&toks, 0, GraphKind::Directed).unwrap().0;
    assert!(matches!(st, Statement::Edge(_)));

    let toks2 = tokenize("a b").unwrap();
    let st2 = Statement::from_lexer(&toks2, 0, GraphKind::Directed).unwrap().0;
    assert!(matches!(st2, Statement::Node(_)));
}

#[test]
fn statement_subgraph_followed_by_operator_becomes_edge() {
    let toks = tokenize("subgraph s { a } -> b").unwrap();
    let st = Statement::from_lexer(&toks, 0, GraphKind::Directed).unwrap().0;
    match st {
        Statement::Edge(e) => {
            assert_eq!(e.endpoints.len(), 2);
            assert!(matches!(&e.endpoints[0], Endpoint::Subgraph(_)));
        }
        _ => panic!("expected an edge statement"),
    }
}
