//! Tests for whole-document parsing: graphs, edges, subgraphs, statements
//! and the reported errors.

use dot_ast::lex::tokenize;
use dot_ast::lex::Token;
use dot_ast::DotParseable;
use dot_ast::DotParser;
use dot_ast::Edge;
use dot_ast::Endpoint;
use dot_ast::Graph;
use dot_ast::GraphKind;
use dot_ast::ParseError;
use dot_ast::Statement;

fn parse_doc(text: &str) -> Result<Graph, ParseError> {
    DotParser::new(String::from(text)).parse_into_graph()
}

fn edge_of(st: &Statement) -> &Edge {
    match st {
        Statement::Edge(e) => e,
        _ => panic!("expected an edge statement"),
    }
}

#[test]
fn edge_chain_is_one_edge_with_three_endpoints() {
    let g = parse_doc("digraph g { A -> B -> C; }").unwrap();
    assert_eq!(g.statements.len(), 1);
    let e = edge_of(&g.statements[0]);
    assert_eq!(e.endpoints.len(), 3);
    let names: Vec<&str> = e
        .endpoints
        .iter()
        .map(|ep| match ep {
            Endpoint::Node(id) => id.as_str(),
            Endpoint::Subgraph(_) => panic!("expected node endpoints"),
        })
        .collect();
    assert_eq!(names, vec!["A", "B", "C"]);
}

#[test]
fn separate_edges_stay_separate() {
    let g = parse_doc("digraph g { A -> B; B -> C; }").unwrap();
    assert_eq!(g.statements.len(), 2);
    assert_eq!(edge_of(&g.statements[0]).endpoints.len(), 2);
    assert_eq!(edge_of(&g.statements[1]).endpoints.len(), 2);
}

#[test]
fn mismatched_kind_rejected_at_the_operator() {
    // undirected keyword, directed operator: the edge operator is not part
    // of the undirected grammar, so the statement list ends before it and
    // the enclosing brace is required there
    let toks = tokenize("graph g { a -> b }").unwrap();
    let r = Graph::from_lexer(&toks, 0, GraphKind::Undirected);
    assert_eq!(
        r.unwrap_err(),
        ParseError::UnexpectedToken {
            expected: Token::CloseBrace,
            found: Token::DirectedOp,
            position: 4,
        }
    );
}

#[test]
fn wrong_introducer_for_kind_rejected() {
    let toks = tokenize("digraph g { a -> b }").unwrap();
    let r = Graph::from_lexer(&toks, 0, GraphKind::Undirected);
    assert_eq!(
        r.unwrap_err(),
        ParseError::UnexpectedToken {
            expected: Token::Graph,
            found: Token::Digraph,
            position: 0,
        }
    );
}

#[test]
fn nested_subgraph_owns_its_statements() {
    let g = parse_doc("digraph g { subgraph s { a; b } a -> c }").unwrap();
    assert_eq!(g.statements.len(), 2);
    match &g.statements[0] {
        Statement::Subgraph(sg) => {
            assert_eq!(sg.id, Some(String::from("s")));
            assert_eq!(sg.statements.len(), 2);
            for st in sg.statements.iter() {
                assert!(matches!(st, Statement::Node(_)));
            }
        },
        _ => panic!("expected a subgraph statement"),
    }
    assert_eq!(edge_of(&g.statements[1]).endpoints.len(), 2);
}

#[test]
fn document_kind_follows_introducer() {
    let d = parse_doc("strict digraph g { }").unwrap();
    assert_eq!(d.kind, GraphKind::Directed);
    assert!(d.is_strict);
    assert_eq!(d.id, String::from("g"));
    assert!(d.statements.is_empty());

    let u = parse_doc("graph h { a -- b }").unwrap();
    assert_eq!(u.kind, GraphKind::Undirected);
    assert!(!u.is_strict);
    assert_eq!(edge_of(&u.statements[0]).kind, GraphKind::Undirected);
}

#[test]
fn every_edge_in_a_directed_parse_is_directed() {
    let g = parse_doc("digraph g { a -> b; subgraph s { c -> d } { e } -> f }").unwrap();
    fn check(sts: &[Statement]) {
        for st in sts {
            match st {
                Statement::Edge(e) => {
                    assert_eq!(e.kind, GraphKind::Directed);
                    for ep in e.endpoints.iter() {
                        if let Endpoint::Subgraph(sg) = ep {
                            check(&sg.statements);
                        }
                    }
                },
                Statement::Subgraph(sg) => check(&sg.statements),
                _ => {},
            }
        }
    }
    check(&g.statements);
}

#[test]
fn subgraph_as_edge_endpoint() {
    let g = parse_doc("digraph g { { a b } -> c }").unwrap();
    assert_eq!(g.statements.len(), 1);
    let e = edge_of(&g.statements[0]);
    assert_eq!(e.endpoints.len(), 2);
    match &e.endpoints[0] {
        Endpoint::Subgraph(sg) => {
            assert!(sg.id.is_none());
            assert_eq!(sg.statements.len(), 2);
        },
        _ => panic!("expected a subgraph endpoint"),
    }
    assert!(matches!(&e.endpoints[1], Endpoint::Node(id) if id == "c"));
}

#[test]
fn assignment_and_default_attributes_statements() {
    let g = parse_doc("digraph g { rankdir = LR; [color=red] a }").unwrap();
    assert_eq!(g.statements.len(), 3);
    match &g.statements[0] {
        Statement::Assignment(a) => {
            assert_eq!(a.key, String::from("rankdir"));
            assert_eq!(a.value, String::from("LR"));
        },
        _ => panic!("expected an assignment statement"),
    }
    match &g.statements[1] {
        Statement::AttributeList(al) => assert_eq!(al.len(), 1),
        _ => panic!("expected a bare attribute list"),
    }
    assert!(matches!(&g.statements[2], Statement::Node(_)));
}

#[test]
fn edge_trailing_attributes_apply_to_chain() {
    let g = parse_doc("digraph g { a -> b -> c [w=1] }").unwrap();
    let e = edge_of(&g.statements[0]);
    assert_eq!(e.endpoints.len(), 3);
    let al = e.attribute_list.as_ref().unwrap();
    assert_eq!(al.len(), 1);
    assert_eq!(al[0].len(), 1);
}

#[test]
fn lex_error_reported_with_position() {
    assert_eq!(
        parse_doc("digraph g { % }").unwrap_err(),
        ParseError::LexError { position: 12 }
    );
}

#[test]
fn premature_end_reported() {
    assert_eq!(
        parse_doc("digraph g {").unwrap_err(),
        ParseError::PrematureEnd { expected: Token::CloseBrace, position: 3 }
    );
}

#[test]
fn missing_open_brace_reported() {
    assert_eq!(
        parse_doc("digraph g }").unwrap_err(),
        ParseError::UnexpectedToken {
            expected: Token::OpenBrace,
            found: Token::CloseBrace,
            position: 2,
        }
    );
}

#[test]
fn missing_introducer_reported() {
    assert_eq!(
        parse_doc("strict frog g { }").unwrap_err(),
        ParseError::UnexpectedToken {
            expected: Token::Graph,
            found: Token::Id,
            position: 1,
        }
    );
}

#[test]
fn dangling_operator_is_an_error() {
    let r = parse_doc("digraph g { a -> }");
    assert!(matches!(r, Err(ParseError::UnexpectedToken { .. })));
}
