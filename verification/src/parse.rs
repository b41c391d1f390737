//! The recursive-descent parser.
//!
//! Every AST type implements the parse-cursor protocol `DotParseable`:
//! consume some prefix of the token sequence starting at a position and
//! produce a value together with the position of the remaining sequence, or
//! fail.  Failure never moves the cursor: a caller that treats an element
//! as optional simply keeps its old position, so a failed speculative
//! attempt has no side effect.
//!
//! The grammar itself is written once, as the mutually recursive spec
//! functions `spec_parse_*` below; each executable parsing function is
//! proved to return exactly what its spec function says, for every input,
//! including which error is reported on malformed input.

use vstd::prelude::*;

use crate::ast_nodes::assignment_view;
use crate::ast_nodes::assignments_view;
use crate::ast_nodes::lemma_endpoints_view;
use crate::ast_nodes::lemma_endpoints_view_cons;
use crate::ast_nodes::lemma_endpoints_view_cons2;
use crate::ast_nodes::lemma_statements_view;
use crate::ast_nodes::lemma_statements_view_cons;
use crate::ast_nodes::attribute_list_view;
use crate::ast_nodes::edge_kind_ok;
use crate::ast_nodes::endpoint_kind_ok;
use crate::ast_nodes::graph_kind_ok;
use crate::ast_nodes::statement_kind_ok;
use crate::ast_nodes::subgraph_kind_ok;
use crate::ast_nodes::edge_view;
use crate::ast_nodes::endpoint_view;
use crate::ast_nodes::endpoints_view;
use crate::ast_nodes::graph_view;
use crate::ast_nodes::node_view;
use crate::ast_nodes::opt_attribute_list_view;
use crate::ast_nodes::statement_view;
use crate::ast_nodes::statements_view;
use crate::ast_nodes::subgraph_view;
use crate::ast_nodes::Assignment;
use crate::ast_nodes::AssignmentV;
use crate::ast_nodes::AttributeList;
use crate::ast_nodes::AttributeListV;
use crate::ast_nodes::Edge;
use crate::ast_nodes::EdgeV;
use crate::ast_nodes::Endpoint;
use crate::ast_nodes::EndpointV;
use crate::ast_nodes::Graph;
use crate::ast_nodes::GraphKind;
use crate::ast_nodes::GraphV;
use crate::ast_nodes::Node;
use crate::ast_nodes::NodeV;
use crate::ast_nodes::Statement;
use crate::ast_nodes::StatementV;
use crate::ast_nodes::Subgraph;
use crate::ast_nodes::SubgraphV;
use crate::ast_nodes::ID;
use crate::lex::spec_tokenize;
use crate::lex::Lexeme;
use crate::lex::LexemeV;
use crate::lex::Token;

verus! {

/// A parse failure.
///
/// `LexError` reports the character position of an input byte sequence that
/// matches no token pattern.  `UnexpectedToken` reports that the token at
/// `position` (an index into the token sequence) does not match what the
/// current builder requires.  `PrematureEnd` is its specialization for
/// input that ends mid-construct.
#[derive(Clone, Copy, Debug, PartialEq, Eq, Structural)]
pub enum ParseError {
    LexError { position: usize },
    UnexpectedToken { expected: Token, found: Token, position: usize },
    PrematureEnd { expected: Token, position: usize },
}

/// The token kind at a position of the token sequence, if any.
pub open spec fn tok_at(toks: Seq<LexemeV>, pos: int) -> Option<Token> {
    if 0 <= pos < toks.len() {
        Some(toks[pos].kind)
    } else {
        None
    }
}

/// The failure reported when `expected` is required at `pos`: the actual
/// token there, or premature end of input.
pub open spec fn err_expect(toks: Seq<LexemeV>, pos: int, expected: Token) -> ParseError {
    if 0 <= pos < toks.len() {
        ParseError::UnexpectedToken {
            expected: expected,
            found: toks[pos].kind,
            position: pos as usize,
        }
    } else {
        ParseError::PrematureEnd { expected: expected, position: pos as usize }
    }
}

/// The edge operator of a graph kind: `->` for directed, `--` for
/// undirected graphs.
pub open spec fn op_token(kind: GraphKind) -> Token {
    match kind {
        GraphKind::Directed => Token::DirectedOp,
        GraphKind::Undirected => Token::UndirectedOp,
    }
}

/// The introducer keyword of a graph kind: `digraph` for directed, `graph`
/// for undirected graphs.
pub open spec fn intro_token(kind: GraphKind) -> Token {
    match kind {
        GraphKind::Directed => Token::Digraph,
        GraphKind::Undirected => Token::Graph,
    }
}

/// Parse one identifier token.
pub open spec fn spec_parse_id(toks: Seq<LexemeV>, pos: int) -> Result<(Seq<char>, int), ParseError> {
    if tok_at(toks, pos) == Some(Token::Id) {
        Ok((toks[pos].text, pos + 1))
    } else {
        Err(err_expect(toks, pos, Token::Id))
    }
}

/// Parse one `key = value` binding: identifier, `=`, identifier.
pub open spec fn spec_parse_assignment(toks: Seq<LexemeV>, pos: int) -> Result<
    (AssignmentV, int),
    ParseError,
> {
    match spec_parse_id(toks, pos) {
        Err(e) => Err(e),
        Ok((key, p1)) => if tok_at(toks, p1) == Some(Token::Equals) {
            match spec_parse_id(toks, p1 + 1) {
                Err(e) => Err(e),
                Ok((value, p2)) => Ok((AssignmentV { key: key, value: value }, p2)),
            }
        } else {
            Err(err_expect(toks, p1, Token::Equals))
        },
    }
}

/// Parse the assignments inside one bracket group, stopping before the
/// closing bracket.  After each assignment one comma or semicolon separator
/// may follow; a trailing separator before `]` is tolerated.
pub open spec fn spec_parse_group_items(toks: Seq<LexemeV>, pos: int) -> Result<
    (Seq<AssignmentV>, int),
    ParseError,
>
    decreases toks.len() - pos, 0int,
{
    if tok_at(toks, pos) == Some(Token::CloseBracket) {
        Ok((Seq::empty(), pos))
    } else {
        match spec_parse_assignment(toks, pos) {
            Err(e) => Err(e),
            Ok((a, p1)) => {
                let p2 = if tok_at(toks, p1) == Some(Token::Comma) || tok_at(toks, p1)
                    == Some(Token::Semicolon) {
                    p1 + 1
                } else {
                    p1
                };
                if pos < p2 <= toks.len() {
                    match spec_parse_group_items(toks, p2) {
                        Err(e) => Err(e),
                        Ok((rest, p3)) => Ok((seq![a] + rest, p3)),
                    }
                } else {
                    Err(err_expect(toks, pos, Token::CloseBracket))
                }
            },
        }
    }
}

/// Parse one or more bracketed attribute groups.  The first token must be
/// `[`; after a group's `]`, another `[` continues the list.
pub open spec fn spec_parse_attr_groups(toks: Seq<LexemeV>, pos: int) -> Result<
    (AttributeListV, int),
    ParseError,
>
    decreases toks.len() - pos, 1int,
{
    if tok_at(toks, pos) == Some(Token::OpenBracket) {
        match spec_parse_group_items(toks, pos + 1) {
            Err(e) => Err(e),
            Ok((items, p1)) => if tok_at(toks, p1) == Some(Token::CloseBracket) {
                if tok_at(toks, p1 + 1) == Some(Token::OpenBracket) && pos < p1 + 1 {
                    match spec_parse_attr_groups(toks, p1 + 1) {
                        Err(e) => Err(e),
                        Ok((rest, p2)) => Ok((seq![items] + rest, p2)),
                    }
                } else {
                    Ok((seq![items], p1 + 1))
                }
            } else {
                Err(err_expect(toks, p1, Token::CloseBracket))
            },
        }
    } else {
        Err(err_expect(toks, pos, Token::OpenBracket))
    }
}

/// Parse a node statement: an identifier, then a speculative attribute
/// list.  A failed attribute-list attempt means the list is absent, and the
/// position stays exactly at the end of the identifier.
pub open spec fn spec_parse_node(toks: Seq<LexemeV>, pos: int) -> Result<(NodeV, int), ParseError> {
    match spec_parse_id(toks, pos) {
        Err(e) => Err(e),
        Ok((id, p1)) => match spec_parse_attr_groups(toks, p1) {
            Ok((al, p2)) => Ok((NodeV { id: id, attribute_list: Some(al) }, p2)),
            Err(_) => Ok((NodeV { id: id, attribute_list: None }, p1)),
        },
    }
}

/// Parse one edge endpoint: a node reference, or an inline subgraph
/// (introduced by the `subgraph` keyword or directly by `{`).
pub open spec fn spec_parse_endpoint(toks: Seq<LexemeV>, pos: int, kind: GraphKind) -> Result<
    (EndpointV, int),
    ParseError,
>
    decreases toks.len() - pos, 1int,
{
    match tok_at(toks, pos) {
        Some(Token::Subgraph) | Some(Token::OpenBrace) => match spec_parse_subgraph(
            toks,
            pos,
            kind,
        ) {
            Ok((sg, p)) => Ok((EndpointV::Subgraph(sg), p)),
            Err(e) => Err(e),
        },
        Some(Token::Id) => Ok((EndpointV::Node(toks[pos].text), pos + 1)),
        _ => Err(err_expect(toks, pos, Token::Id)),
    }
}

/// Parse the continuation of an edge chain: zero or more repetitions of the
/// kind's operator followed by an endpoint.  An operator with no endpoint
/// after it is a hard failure, never a shorter chain.
pub open spec fn spec_parse_edge_chain(toks: Seq<LexemeV>, pos: int, kind: GraphKind) -> Result<
    (Seq<EndpointV>, int),
    ParseError,
>
    decreases toks.len() - pos, 2int,
{
    if tok_at(toks, pos) == Some(op_token(kind)) {
        match spec_parse_endpoint(toks, pos + 1, kind) {
            Err(e) => Err(e),
            Ok((e, p1)) => if pos < p1 <= toks.len() {
                match spec_parse_edge_chain(toks, p1, kind) {
                    Err(er) => Err(er),
                    Ok((rest, p2)) => Ok((seq![e] + rest, p2)),
                }
            } else {
                Err(err_expect(toks, pos, Token::Id))
            },
        }
    } else {
        Ok((Seq::empty(), pos))
    }
}

/// Parse an edge: an endpoint, the kind's operator, an endpoint, then any
/// further `op endpoint` repetitions as one chain, then a speculative
/// trailing attribute list that applies to the whole chain.
pub open spec fn spec_parse_edge(toks: Seq<LexemeV>, pos: int, kind: GraphKind) -> Result<
    (EdgeV, int),
    ParseError,
>
    decreases toks.len() - pos, 3int,
{
    match spec_parse_endpoint(toks, pos, kind) {
        Err(e) => Err(e),
        Ok((e1, p1)) => if pos < p1 <= toks.len() {
            if tok_at(toks, p1) == Some(op_token(kind)) {
                match spec_parse_endpoint(toks, p1 + 1, kind) {
                    Err(e) => Err(e),
                    Ok((e2, p2)) => if p1 < p2 <= toks.len() {
                        match spec_parse_edge_chain(toks, p2, kind) {
                            Err(e) => Err(e),
                            Ok((rest, p3)) => {
                                let tail = match spec_parse_attr_groups(toks, p3) {
                                    Ok((al, p4)) => (Some(al), p4),
                                    Err(_) => (None, p3),
                                };
                                Ok(
                                    (
                                        EdgeV {
                                            kind: kind,
                                            endpoints: seq![e1, e2] + rest,
                                            attribute_list: tail.0,
                                        },
                                        tail.1,
                                    ),
                                )
                            },
                        }
                    } else {
                        Err(err_expect(toks, p1, Token::Id))
                    },
                }
            } else {
                Err(err_expect(toks, p1, op_token(kind)))
            }
        } else {
            Err(err_expect(toks, pos, Token::Id))
        },
    }
}

/// Parse one statement, dispatching on lookahead.
///
/// A `subgraph` keyword or `{` starts a subgraph, unless the parsed
/// subgraph is followed by the kind's edge operator, in which case the
/// statement is an edge whose first endpoint is that subgraph.  An
/// identifier followed by `=` is an assignment; followed by the edge
/// operator it starts an edge; otherwise it is a node statement.  A `[`
/// starts a bare default-attribute list.  Anything else fails.
pub open spec fn spec_parse_statement(toks: Seq<LexemeV>, pos: int, kind: GraphKind) -> Result<
    (StatementV, int),
    ParseError,
>
    decreases toks.len() - pos, 4int,
{
    match tok_at(toks, pos) {
        Some(Token::Subgraph) | Some(Token::OpenBrace) => match spec_parse_subgraph(
            toks,
            pos,
            kind,
        ) {
            Err(e) => Err(e),
            Ok((sg, p1)) => if tok_at(toks, p1) == Some(op_token(kind)) {
                match spec_parse_edge(toks, pos, kind) {
                    Err(e) => Err(e),
                    Ok((ed, p2)) => Ok((StatementV::Edge(ed), p2)),
                }
            } else {
                Ok((StatementV::Subgraph(sg), p1))
            },
        },
        Some(Token::Id) => if tok_at(toks, pos + 1) == Some(Token::Equals) {
            match spec_parse_assignment(toks, pos) {
                Err(e) => Err(e),
                Ok((a, p1)) => Ok((StatementV::Assignment(a), p1)),
            }
        } else if tok_at(toks, pos + 1) == Some(op_token(kind)) {
            match spec_parse_edge(toks, pos, kind) {
                Err(e) => Err(e),
                Ok((ed, p1)) => Ok((StatementV::Edge(ed), p1)),
            }
        } else {
            match spec_parse_node(toks, pos) {
                Err(e) => Err(e),
                Ok((n, p1)) => Ok((StatementV::Node(n), p1)),
            }
        },
        Some(Token::OpenBracket) => match spec_parse_attr_groups(toks, pos) {
            Err(e) => Err(e),
            Ok((al, p1)) => Ok((StatementV::AttributeList(al), p1)),
        },
        _ => Err(err_expect(toks, pos, Token::Id)),
    }
}

/// Parse the statement sequence of a graph or subgraph body: skip optional
/// semicolon separators, and consume statements until the first position
/// where none can be parsed.  This never fails; the caller requires the
/// closing brace at the final position.
pub open spec fn spec_parse_statements(toks: Seq<LexemeV>, pos: int, kind: GraphKind) -> Result<
    (Seq<StatementV>, int),
    ParseError,
>
    decreases toks.len() - pos, 5int,
{
    if tok_at(toks, pos) == Some(Token::Semicolon) {
        spec_parse_statements(toks, pos + 1, kind)
    } else {
        match spec_parse_statement(toks, pos, kind) {
            Err(_) => Ok((Seq::empty(), pos)),
            Ok((st, p1)) => if pos < p1 <= toks.len() {
                match spec_parse_statements(toks, p1, kind) {
                    Err(e) => Err(e),
                    Ok((rest, p2)) => Ok((seq![st] + rest, p2)),
                }
            } else {
                Err(err_expect(toks, pos, Token::CloseBrace))
            },
        }
    }
}

/// Parse a subgraph: optionally the `subgraph` keyword with an optional
/// name, then `{`, the statement sequence, and `}`.
pub open spec fn spec_parse_subgraph(toks: Seq<LexemeV>, pos: int, kind: GraphKind) -> Result<
    (SubgraphV, int),
    ParseError,
>
    decreases toks.len() - pos, 0int,
{
    let head = if tok_at(toks, pos) == Some(Token::Subgraph) {
        if tok_at(toks, pos + 1) == Some(Token::Id) {
            (Some(toks[pos + 1].text), pos + 2)
        } else {
            (None, pos + 1)
        }
    } else {
        (None, pos)
    };
    if tok_at(toks, head.1) == Some(Token::OpenBrace) {
        match spec_parse_statements(toks, head.1 + 1, kind) {
            Err(e) => Err(e),
            Ok((ss, p1)) => if tok_at(toks, p1) == Some(Token::CloseBrace) {
                Ok((SubgraphV { id: head.0, statements: ss }, p1 + 1))
            } else {
                Err(err_expect(toks, p1, Token::CloseBrace))
            },
        }
    } else {
        Err(err_expect(toks, head.1, Token::OpenBrace))
    }
}

/// Parse a whole graph of the given kind: optional `strict`, the kind's
/// introducer keyword, the graph name, `{`, the statement sequence, `}`.
/// Using the other kind's introducer is a parse failure: the caller must
/// choose the kind before parsing.
pub open spec fn spec_parse_graph(toks: Seq<LexemeV>, pos: int, kind: GraphKind) -> Result<
    (GraphV, int),
    ParseError,
> {
    let head = if tok_at(toks, pos) == Some(Token::Strict) {
        (true, pos + 1)
    } else {
        (false, pos)
    };
    if tok_at(toks, head.1) == Some(intro_token(kind)) {
        match spec_parse_id(toks, head.1 + 1) {
            Err(e) => Err(e),
            Ok((gid, p1)) => if tok_at(toks, p1) == Some(Token::OpenBrace) {
                match spec_parse_statements(toks, p1 + 1, kind) {
                    Err(e) => Err(e),
                    Ok((ss, p2)) => if tok_at(toks, p2) == Some(Token::CloseBrace) {
                        Ok(
                            (
                                GraphV {
                                    id: gid,
                                    is_strict: head.0,
                                    kind: kind,
                                    statements: ss,
                                },
                                p2 + 1,
                            ),
                        )
                    } else {
                        Err(err_expect(toks, p2, Token::CloseBrace))
                    },
                }
            } else {
                Err(err_expect(toks, p1, Token::OpenBrace))
            },
        }
    } else {
        Err(err_expect(toks, head.1, intro_token(kind)))
    }
}

/// Parse a whole document: tokenize the text, pick the graph kind from the
/// introducer keyword (after an optional `strict`), and parse against that
/// kind.  Trailing input after the closing brace is not validated.
pub open spec fn spec_parse_document(s: Seq<char>) -> Result<GraphV, ParseError> {
    match spec_tokenize(s) {
        Err(p) => Err(ParseError::LexError { position: p as usize }),
        Ok(toks) => {
            let p1 = if tok_at(toks, 0) == Some(Token::Strict) {
                1int
            } else {
                0int
            };
            if tok_at(toks, p1) == Some(Token::Digraph) {
                match spec_parse_graph(toks, 0, GraphKind::Directed) {
                    Ok((g, _)) => Ok(g),
                    Err(e) => Err(e),
                }
            } else if tok_at(toks, p1) == Some(Token::Graph) {
                match spec_parse_graph(toks, 0, GraphKind::Undirected) {
                    Ok((g, _)) => Ok(g),
                    Err(e) => Err(e),
                }
            } else {
                Err(err_expect(toks, p1, Token::Graph))
            }
        },
    }
}

proof fn lemma_endpoint_kind_sound(toks: Seq<LexemeV>, pos: int, kind: GraphKind)
    ensures
        spec_parse_endpoint(toks, pos, kind) matches Ok(vp) ==> endpoint_kind_ok(vp.0, kind),
    decreases toks.len() - pos, 1int,
{
    match tok_at(toks, pos) {
        Some(Token::Subgraph) | Some(Token::OpenBrace) => {
            lemma_subgraph_kind_sound(toks, pos, kind);
        },
        _ => {},
    }
}

proof fn lemma_edge_chain_kind_sound(toks: Seq<LexemeV>, pos: int, kind: GraphKind)
    ensures
        spec_parse_edge_chain(toks, pos, kind) matches Ok(vp) ==> forall|i: int|
            0 <= i < vp.0.len() ==> endpoint_kind_ok(#[trigger] vp.0[i], kind),
    decreases toks.len() - pos, 2int,
{
    if tok_at(toks, pos) == Some(op_token(kind)) {
        lemma_endpoint_kind_sound(toks, pos + 1, kind);
        match spec_parse_endpoint(toks, pos + 1, kind) {
            Ok((e, p1)) => {
                if pos < p1 <= toks.len() {
                    lemma_edge_chain_kind_sound(toks, p1, kind);
                    match spec_parse_edge_chain(toks, p1, kind) {
                        Ok((rest, _)) => {
                            let all = seq![e] + rest;
                            assert forall|i: int|
                                0 <= i < all.len() implies endpoint_kind_ok(
                                #[trigger] all[i],
                                kind,
                            ) by {
                                if i >= 1 {
                                    assert(all[i] == rest[i - 1]);
                                }
                            }
                        },
                        Err(_) => {},
                    }
                }
            },
            Err(_) => {},
        }
    }
}

proof fn lemma_edge_kind_sound(toks: Seq<LexemeV>, pos: int, kind: GraphKind)
    ensures
        spec_parse_edge(toks, pos, kind) matches Ok(vp) ==> edge_kind_ok(vp.0, kind),
    decreases toks.len() - pos, 3int,
{
    lemma_endpoint_kind_sound(toks, pos, kind);
    match spec_parse_endpoint(toks, pos, kind) {
        Ok((e1, p1)) => {
            if pos < p1 <= toks.len() && tok_at(toks, p1) == Some(op_token(kind)) {
                lemma_endpoint_kind_sound(toks, p1 + 1, kind);
                match spec_parse_endpoint(toks, p1 + 1, kind) {
                    Ok((e2, p2)) => {
                        if p1 < p2 <= toks.len() {
                            lemma_edge_chain_kind_sound(toks, p2, kind);
                            match spec_parse_edge_chain(toks, p2, kind) {
                                Ok((rest, _)) => {
                                    let all = seq![e1, e2] + rest;
                                    assert forall|i: int|
                                        0 <= i < all.len() implies endpoint_kind_ok(
                                        #[trigger] all[i],
                                        kind,
                                    ) by {
                                        if i >= 2 {
                                            assert(all[i] == rest[i - 2]);
                                        }
                                    }
                                },
                                Err(_) => {},
                            }
                        }
                    },
                    Err(_) => {},
                }
            }
        },
        Err(_) => {},
    }
}

proof fn lemma_statement_kind_sound(toks: Seq<LexemeV>, pos: int, kind: GraphKind)
    ensures
        spec_parse_statement(toks, pos, kind) matches Ok(vp) ==> statement_kind_ok(vp.0, kind),
    decreases toks.len() - pos, 4int,
{
    match tok_at(toks, pos) {
        Some(Token::Subgraph) | Some(Token::OpenBrace) => {
            lemma_subgraph_kind_sound(toks, pos, kind);
            match spec_parse_subgraph(toks, pos, kind) {
                Ok((_, p1)) => {
                    if tok_at(toks, p1) == Some(op_token(kind)) {
                        lemma_edge_kind_sound(toks, pos, kind);
                    }
                },
                Err(_) => {},
            }
        },
        Some(Token::Id) => {
            if tok_at(toks, pos + 1) == Some(Token::Equals) {
            } else if tok_at(toks, pos + 1) == Some(op_token(kind)) {
                lemma_edge_kind_sound(toks, pos, kind);
            }
        },
        _ => {},
    }
}

proof fn lemma_statements_kind_sound(toks: Seq<LexemeV>, pos: int, kind: GraphKind)
    ensures
        spec_parse_statements(toks, pos, kind) matches Ok(vp) ==> forall|i: int|
            0 <= i < vp.0.len() ==> statement_kind_ok(#[trigger] vp.0[i], kind),
    decreases toks.len() - pos, 5int,
{
    if tok_at(toks, pos) == Some(Token::Semicolon) {
        lemma_statements_kind_sound(toks, pos + 1, kind);
    } else {
        lemma_statement_kind_sound(toks, pos, kind);
        match spec_parse_statement(toks, pos, kind) {
            Ok((st, p1)) => {
                if pos < p1 <= toks.len() {
                    lemma_statements_kind_sound(toks, p1, kind);
                    match spec_parse_statements(toks, p1, kind) {
                        Ok((rest, _)) => {
                            let all = seq![st] + rest;
                            assert forall|i: int|
                                0 <= i < all.len() implies statement_kind_ok(
                                #[trigger] all[i],
                                kind,
                            ) by {
                                if i >= 1 {
                                    assert(all[i] == rest[i - 1]);
                                }
                            }
                        },
                        Err(_) => {},
                    }
                }
            },
            Err(_) => {},
        }
    }
}

proof fn lemma_subgraph_kind_sound(toks: Seq<LexemeV>, pos: int, kind: GraphKind)
    ensures
        spec_parse_subgraph(toks, pos, kind) matches Ok(vp) ==> subgraph_kind_ok(vp.0, kind),
    decreases toks.len() - pos, 0int,
{
    let head = if tok_at(toks, pos) == Some(Token::Subgraph) {
        if tok_at(toks, pos + 1) == Some(Token::Id) {
            (Some(toks[pos + 1].text), pos + 2)
        } else {
            (None, pos + 1)
        }
    } else {
        (None::<Seq<char>>, pos)
    };
    if tok_at(toks, head.1) == Some(Token::OpenBrace) {
        lemma_statements_kind_sound(toks, head.1 + 1, kind);
    }
}

/// A parse yields only edges of the kind it was asked for: whenever
/// parsing a graph against a kind succeeds, every edge reachable in the
/// resulting AST, transitively through nested subgraphs and subgraph
/// endpoints, carries that kind's operator, and the graph records that
/// kind.
pub proof fn lemma_graph_kind_exclusive(toks: Seq<LexemeV>, pos: int, kind: GraphKind)
    ensures
        spec_parse_graph(toks, pos, kind) matches Ok(vp) ==> graph_kind_ok(vp.0, kind),
{
    let head = if tok_at(toks, pos) == Some(Token::Strict) {
        (true, pos + 1)
    } else {
        (false, pos)
    };
    if tok_at(toks, head.1) == Some(intro_token(kind)) {
        match spec_parse_id(toks, head.1 + 1) {
            Ok((_, p1)) => {
                if tok_at(toks, p1) == Some(Token::OpenBrace) {
                    lemma_statements_kind_sound(toks, p1 + 1, kind);
                }
            },
            Err(_) => {},
        }
    }
}

/// A parsed document's kind always matches its introducer keyword: a
/// document introduced with `digraph` yields a directed AST whose edges
/// all use the directed operator, one introduced with `graph` an
/// undirected AST, and never the other way around.
pub proof fn lemma_document_kind_matches_keyword(s: Seq<char>)
    ensures
        spec_parse_document(s) matches Ok(g) ==> graph_kind_ok(g, g.kind),
        spec_parse_document(s) matches Ok(g) ==> (spec_tokenize(s) matches Ok(toks) ==> {
            let p1 = if tok_at(toks, 0) == Some(Token::Strict) {
                1int
            } else {
                0int
            };
            (g.kind == GraphKind::Directed <==> tok_at(toks, p1) == Some(Token::Digraph)) && (
            g.kind == GraphKind::Undirected <==> tok_at(toks, p1) == Some(Token::Graph))
        }),
{
    match spec_tokenize(s) {
        Ok(toks) => {
            lemma_graph_kind_exclusive(toks, 0, GraphKind::Directed);
            lemma_graph_kind_exclusive(toks, 0, GraphKind::Undirected);
        },
        Err(_) => {},
    }
}

/// Probing for an optional attribute list is position-preserving: when no
/// attribute list can be parsed after a node's identifier, the node parse
/// succeeds with an absent list and ends exactly where the identifier
/// ended — the failed speculative attempt consumes no tokens.
pub proof fn lemma_optional_probe_keeps_position(toks: Seq<LexemeV>, pos: int)
    ensures
        spec_parse_id(toks, pos) matches Ok(ip) ==> (spec_parse_attr_groups(toks, ip.1) is Err
            ==> spec_parse_node(toks, pos) == Ok::<(NodeV, int), ParseError>(
            ((NodeV { id: ip.0, attribute_list: None }), ip.1),
        )),
{
}

/// Whether the token at `pos` is exactly `k`.
fn at_kind(toks: &Vec<Lexeme>, pos: usize, k: Token) -> (r: bool)
    ensures
        r == (tok_at(toks.deep_view(), pos as int) == Some(k)),
        r ==> pos < toks@.len() <= usize::MAX,
{
    if pos < toks.len() {
        let got = toks[pos].kind;
        got == k
    } else {
        false
    }
}

/// Build the failure for a required `expected` token at `pos`.
fn err_at(toks: &Vec<Lexeme>, pos: usize, expected: Token) -> (r: ParseError)
    ensures
        r == err_expect(toks.deep_view(), pos as int, expected),
{
    if pos < toks.len() {
        ParseError::UnexpectedToken { expected: expected, found: toks[pos].kind, position: pos }
    } else {
        ParseError::PrematureEnd { expected: expected, position: pos }
    }
}

/// The edge operator of a graph kind.
fn op_token_x(kind: GraphKind) -> (r: Token)
    ensures
        r == op_token(kind),
{
    match kind {
        GraphKind::Directed => Token::DirectedOp,
        GraphKind::Undirected => Token::UndirectedOp,
    }
}

/// The introducer keyword of a graph kind.
fn intro_token_x(kind: GraphKind) -> (r: Token)
    ensures
        r == intro_token(kind),
{
    match kind {
        GraphKind::Directed => Token::Digraph,
        GraphKind::Undirected => Token::Graph,
    }
}

/// Parse one identifier token at `pos`.
pub fn parse_id_at(toks: &Vec<Lexeme>, pos: usize) -> (r: Result<(ID, usize), ParseError>)
    ensures
        match r {
            Ok(vp) => spec_parse_id(toks.deep_view(), pos as int) == Ok::<
                (Seq<char>, int),
                ParseError,
            >((vp.0@, vp.1 as int)) && pos < vp.1 <= toks@.len(),
            Err(e) => spec_parse_id(toks.deep_view(), pos as int) == Err::<
                (Seq<char>, int),
                ParseError,
            >(e),
        },
{
    if at_kind(toks, pos, Token::Id) {
        let id = toks[pos].text.clone();
        Ok((id, pos + 1))
    } else {
        Err(err_at(toks, pos, Token::Id))
    }
}

/// Parse one `key = value` binding at `pos`.
pub fn parse_assignment_at(toks: &Vec<Lexeme>, pos: usize) -> (r: Result<
    (Assignment, usize),
    ParseError,
>)
    ensures
        match r {
            Ok(vp) => spec_parse_assignment(toks.deep_view(), pos as int) == Ok::<
                (AssignmentV, int),
                ParseError,
            >((assignment_view(vp.0), vp.1 as int)) && pos < vp.1 <= toks@.len(),
            Err(e) => spec_parse_assignment(toks.deep_view(), pos as int) == Err::<
                (AssignmentV, int),
                ParseError,
            >(e),
        },
{
    match parse_id_at(toks, pos) {
        Err(e) => Err(e),
        Ok((key, p1)) => {
            if at_kind(toks, p1, Token::Equals) {
                match parse_id_at(toks, p1 + 1) {
                    Err(e) => Err(e),
                    Ok((value, p2)) => Ok((Assignment { key: key, value: value }, p2)),
                }
            } else {
                Err(err_at(toks, p1, Token::Equals))
            }
        },
    }
}

/// Parse the assignments of one bracket group at `pos`, stopping before the
/// closing bracket.
pub fn parse_group_items_at(toks: &Vec<Lexeme>, pos: usize) -> (r: Result<
    (Vec<Assignment>, usize),
    ParseError,
>)
    ensures
        match r {
            Ok(vp) => spec_parse_group_items(toks.deep_view(), pos as int) == Ok::<
                (Seq<AssignmentV>, int),
                ParseError,
            >((assignments_view(vp.0@), vp.1 as int)) && pos <= vp.1 <= toks@.len(),
            Err(e) => spec_parse_group_items(toks.deep_view(), pos as int) == Err::<
                (Seq<AssignmentV>, int),
                ParseError,
            >(e),
        },
    decreases toks@.len() - pos, 0int,
{
    if at_kind(toks, pos, Token::CloseBracket) {
        let v: Vec<Assignment> = Vec::new();
        proof {
            assert(assignments_view(v@) =~= Seq::<AssignmentV>::empty());
        }
        Ok((v, pos))
    } else {
        match parse_assignment_at(toks, pos) {
            Err(e) => Err(e),
            Ok((a, p1)) => {
                let sep = at_kind(toks, p1, Token::Comma) || at_kind(toks, p1, Token::Semicolon);
                let p2 = if sep {
                    p1 + 1
                } else {
                    p1
                };
                match parse_group_items_at(toks, p2) {
                    Err(e) => Err(e),
                    Ok((rest, p3)) => {
                        let ghost restv = assignments_view(rest@);
                        let mut out = rest;
                        out.insert(0, a);
                        proof {
                            assert(assignments_view(out@) =~= seq![assignment_view(a)] + restv);
                        }
                        Ok((out, p3))
                    },
                }
            },
        }
    }
}

/// Parse one or more bracketed attribute groups at `pos`.
pub fn parse_attr_groups_at(toks: &Vec<Lexeme>, pos: usize) -> (r: Result<
    (AttributeList, usize),
    ParseError,
>)
    ensures
        match r {
            Ok(vp) => spec_parse_attr_groups(toks.deep_view(), pos as int) == Ok::<
                (AttributeListV, int),
                ParseError,
            >((attribute_list_view(vp.0), vp.1 as int)) && pos < vp.1 <= toks@.len(),
            Err(e) => spec_parse_attr_groups(toks.deep_view(), pos as int) == Err::<
                (AttributeListV, int),
                ParseError,
            >(e),
        },
    decreases toks@.len() - pos, 1int,
{
    if at_kind(toks, pos, Token::OpenBracket) {
        match parse_group_items_at(toks, pos + 1) {
            Err(e) => Err(e),
            Ok((items, p1)) => {
                if at_kind(toks, p1, Token::CloseBracket) {
                    let ghost itemsv = assignments_view(items@);
                    if at_kind(toks, p1 + 1, Token::OpenBracket) {
                        match parse_attr_groups_at(toks, p1 + 1) {
                            Err(e) => Err(e),
                            Ok((rest, p2)) => {
                                let ghost restv = attribute_list_view(rest);
                                let mut out = rest;
                                out.insert(0, items);
                                proof {
                                    assert(attribute_list_view(out) =~= seq![itemsv] + restv);
                                }
                                Ok((out, p2))
                            },
                        }
                    } else {
                        let mut out: AttributeList = Vec::new();
                        out.push(items);
                        proof {
                            assert(attribute_list_view(out) =~= seq![itemsv]);
                        }
                        Ok((out, p1 + 1))
                    }
                } else {
                    Err(err_at(toks, p1, Token::CloseBracket))
                }
            },
        }
    } else {
        Err(err_at(toks, pos, Token::OpenBracket))
    }
}

/// Parse a node statement at `pos`: an identifier, then a speculative
/// attribute list.  When the attribute list is absent the returned position
/// is exactly the end of the identifier: the failed attempt consumes
/// nothing.
pub fn parse_node_at(toks: &Vec<Lexeme>, pos: usize) -> (r: Result<(Node, usize), ParseError>)
    ensures
        match r {
            Ok(vp) => spec_parse_node(toks.deep_view(), pos as int) == Ok::<
                (NodeV, int),
                ParseError,
            >((node_view(vp.0), vp.1 as int)) && pos < vp.1 <= toks@.len(),
            Err(e) => spec_parse_node(toks.deep_view(), pos as int) == Err::<
                (NodeV, int),
                ParseError,
            >(e),
        },
{
    match parse_id_at(toks, pos) {
        Err(e) => Err(e),
        Ok((id, p1)) => match parse_attr_groups_at(toks, p1) {
            Ok((al, p2)) => Ok((Node { id: id, attribute_list: Some(al) }, p2)),
            Err(_) => Ok((Node { id: id, attribute_list: None }, p1)),
        },
    }
}

/// Parse one edge endpoint at `pos`.
pub fn parse_endpoint_at(toks: &Vec<Lexeme>, pos: usize, kind: GraphKind) -> (r: Result<
    (Endpoint, usize),
    ParseError,
>)
    ensures
        match r {
            Ok(vp) => spec_parse_endpoint(toks.deep_view(), pos as int, kind) == Ok::<
                (EndpointV, int),
                ParseError,
            >((endpoint_view(vp.0), vp.1 as int)) && pos < vp.1 <= toks@.len(),
            Err(e) => spec_parse_endpoint(toks.deep_view(), pos as int, kind) == Err::<
                (EndpointV, int),
                ParseError,
            >(e),
        },
    decreases toks@.len() - pos, 1int,
{
    if at_kind(toks, pos, Token::Subgraph) || at_kind(toks, pos, Token::OpenBrace) {
        match parse_subgraph_at(toks, pos, kind) {
            Ok((sg, p)) => Ok((Endpoint::Subgraph(sg), p)),
            Err(e) => Err(e),
        }
    } else if at_kind(toks, pos, Token::Id) {
        let id = toks[pos].text.clone();
        Ok((Endpoint::Node(id), pos + 1))
    } else {
        Err(err_at(toks, pos, Token::Id))
    }
}

/// Parse the continuation of an edge chain at `pos`: zero or more `op
/// endpoint` repetitions.
pub fn parse_edge_chain_at(toks: &Vec<Lexeme>, pos: usize, kind: GraphKind) -> (r: Result<
    (Vec<Endpoint>, usize),
    ParseError,
>)
    requires
        pos <= toks@.len(),
    ensures
        match r {
            Ok(vp) => spec_parse_edge_chain(toks.deep_view(), pos as int, kind) == Ok::<
                (Seq<EndpointV>, int),
                ParseError,
            >((endpoints_view(vp.0@), vp.1 as int)) && pos <= vp.1 <= toks@.len(),
            Err(e) => spec_parse_edge_chain(toks.deep_view(), pos as int, kind) == Err::<
                (Seq<EndpointV>, int),
                ParseError,
            >(e),
        },
    decreases toks@.len() - pos, 2int,
{
    let op = op_token_x(kind);
    if at_kind(toks, pos, op) {
        match parse_endpoint_at(toks, pos + 1, kind) {
            Err(e) => Err(e),
            Ok((e, p1)) => match parse_edge_chain_at(toks, p1, kind) {
                Err(er) => Err(er),
                Ok((rest, p2)) => {
                    let ghost restv = rest@;
                    let mut out = rest;
                    out.insert(0, e);
                    proof {
                        restv.insert_ensures(0, e);
                        assert(out@ =~= seq![e] + restv);
                        lemma_endpoints_view_cons(e, restv);
                    }
                    Ok((out, p2))
                },
            },
        }
    } else {
        let v: Vec<Endpoint> = Vec::new();
        proof {
            lemma_endpoints_view(v@);
            assert(endpoints_view(v@) =~= Seq::<EndpointV>::empty());
        }
        Ok((v, pos))
    }
}

/// Parse an edge at `pos`: at least two endpoints joined by the kind's
/// operator, then a speculative trailing attribute list.
pub fn parse_edge_at(toks: &Vec<Lexeme>, pos: usize, kind: GraphKind) -> (r: Result<
    (Edge, usize),
    ParseError,
>)
    ensures
        match r {
            Ok(vp) => spec_parse_edge(toks.deep_view(), pos as int, kind) == Ok::<
                (EdgeV, int),
                ParseError,
            >((edge_view(vp.0), vp.1 as int)) && pos < vp.1 <= toks@.len(),
            Err(e) => spec_parse_edge(toks.deep_view(), pos as int, kind) == Err::<
                (EdgeV, int),
                ParseError,
            >(e),
        },
    decreases toks@.len() - pos, 3int,
{
    match parse_endpoint_at(toks, pos, kind) {
        Err(e) => Err(e),
        Ok((e1, p1)) => {
            let op = op_token_x(kind);
            if at_kind(toks, p1, op) {
                match parse_endpoint_at(toks, p1 + 1, kind) {
                    Err(e) => Err(e),
                    Ok((e2, p2)) => match parse_edge_chain_at(toks, p2, kind) {
                        Err(e) => Err(e),
                        Ok((rest, p3)) => {
                            let ghost e1s = e1;
                            let ghost e2s = e2;
                            let ghost restv = rest@;
                            let mut eps: Vec<Endpoint> = Vec::new();
                            eps.push(e1);
                            eps.push(e2);
                            let mut tail = rest;
                            eps.append(&mut tail);
                            proof {
                                assert(eps@ =~= seq![e1s, e2s] + restv);
                                lemma_endpoints_view_cons2(e1s, e2s, restv);
                            }
                            match parse_attr_groups_at(toks, p3) {
                                Ok((al, p4)) => Ok(
                                    (
                                        Edge {
                                            kind: kind,
                                            endpoints: eps,
                                            attribute_list: Some(al),
                                        },
                                        p4,
                                    ),
                                ),
                                Err(_) => Ok(
                                    (
                                        Edge { kind: kind, endpoints: eps, attribute_list: None },
                                        p3,
                                    ),
                                ),
                            }
                        },
                    },
                }
            } else {
                Err(err_at(toks, p1, op))
            }
        },
    }
}

/// Parse one statement at `pos`, dispatching on lookahead.
pub fn parse_statement_at(toks: &Vec<Lexeme>, pos: usize, kind: GraphKind) -> (r: Result<
    (Statement, usize),
    ParseError,
>)
    ensures
        match r {
            Ok(vp) => spec_parse_statement(toks.deep_view(), pos as int, kind) == Ok::<
                (StatementV, int),
                ParseError,
            >((statement_view(vp.0), vp.1 as int)) && pos < vp.1 <= toks@.len(),
            Err(e) => spec_parse_statement(toks.deep_view(), pos as int, kind) == Err::<
                (StatementV, int),
                ParseError,
            >(e),
        },
    decreases toks@.len() - pos, 4int,
{
    let op = op_token_x(kind);
    if at_kind(toks, pos, Token::Subgraph) || at_kind(toks, pos, Token::OpenBrace) {
        match parse_subgraph_at(toks, pos, kind) {
            Err(e) => Err(e),
            Ok((sg, p1)) => {
                if at_kind(toks, p1, op) {
                    match parse_edge_at(toks, pos, kind) {
                        Err(e) => Err(e),
                        Ok((ed, p2)) => Ok((Statement::Edge(ed), p2)),
                    }
                } else {
                    Ok((Statement::Subgraph(sg), p1))
                }
            },
        }
    } else if at_kind(toks, pos, Token::Id) {
        if at_kind(toks, pos + 1, Token::Equals) {
            match parse_assignment_at(toks, pos) {
                Err(e) => Err(e),
                Ok((a, p1)) => Ok((Statement::Assignment(a), p1)),
            }
        } else if at_kind(toks, pos + 1, op) {
            match parse_edge_at(toks, pos, kind) {
                Err(e) => Err(e),
                Ok((ed, p1)) => Ok((Statement::Edge(ed), p1)),
            }
        } else {
            match parse_node_at(toks, pos) {
                Err(e) => Err(e),
                Ok((n, p1)) => Ok((Statement::Node(n), p1)),
            }
        }
    } else if at_kind(toks, pos, Token::OpenBracket) {
        match parse_attr_groups_at(toks, pos) {
            Err(e) => Err(e),
            Ok((al, p1)) => Ok((Statement::AttributeList(al), p1)),
        }
    } else {
        Err(err_at(toks, pos, Token::Id))
    }
}

/// Parse a statement sequence at `pos`: skip semicolon separators, consume
/// statements until none can be parsed.  Never fails; the caller requires
/// the closing delimiter at the returned position.
pub fn parse_statements_at(toks: &Vec<Lexeme>, pos: usize, kind: GraphKind) -> (r: Result<
    (Vec<Statement>, usize),
    ParseError,
>)
    requires
        pos <= toks@.len(),
    ensures
        match r {
            Ok(vp) => spec_parse_statements(toks.deep_view(), pos as int, kind) == Ok::<
                (Seq<StatementV>, int),
                ParseError,
            >((statements_view(vp.0@), vp.1 as int)) && pos <= vp.1 <= toks@.len(),
            Err(e) => spec_parse_statements(toks.deep_view(), pos as int, kind) == Err::<
                (Seq<StatementV>, int),
                ParseError,
            >(e),
        },
    decreases toks@.len() - pos, 5int,
{
    if at_kind(toks, pos, Token::Semicolon) {
        parse_statements_at(toks, pos + 1, kind)
    } else {
        match parse_statement_at(toks, pos, kind) {
            Err(_) => {
                let v: Vec<Statement> = Vec::new();
                proof {
                    lemma_statements_view(v@);
                    assert(statements_view(v@) =~= Seq::<StatementV>::empty());
                }
                Ok((v, pos))
            },
            Ok((st, p1)) => match parse_statements_at(toks, p1, kind) {
                Err(e) => Err(e),
                Ok((rest, p2)) => {
                    let ghost sts = st;
                    let ghost restv = rest@;
                    let mut out = rest;
                    out.insert(0, st);
                    proof {
                        restv.insert_ensures(0, sts);
                        assert(out@ =~= seq![sts] + restv);
                        lemma_statements_view_cons(sts, restv);
                    }
                    Ok((out, p2))
                },
            },
        }
    }
}

/// Parse a subgraph at `pos`: optional `subgraph` keyword and name, then a
/// braced statement sequence.
pub fn parse_subgraph_at(toks: &Vec<Lexeme>, pos: usize, kind: GraphKind) -> (r: Result<
    (Subgraph, usize),
    ParseError,
>)
    ensures
        match r {
            Ok(vp) => spec_parse_subgraph(toks.deep_view(), pos as int, kind) == Ok::<
                (SubgraphV, int),
                ParseError,
            >((subgraph_view(vp.0), vp.1 as int)) && pos < vp.1 <= toks@.len(),
            Err(e) => spec_parse_subgraph(toks.deep_view(), pos as int, kind) == Err::<
                (SubgraphV, int),
                ParseError,
            >(e),
        },
    decreases toks@.len() - pos, 0int,
{
    let mut sid: Option<ID> = None;
    let mut p1: usize = pos;
    if at_kind(toks, pos, Token::Subgraph) {
        if at_kind(toks, pos + 1, Token::Id) {
            sid = Some(toks[pos + 1].text.clone());
            p1 = pos + 2;
        } else {
            p1 = pos + 1;
        }
    }
    if at_kind(toks, p1, Token::OpenBrace) {
        match parse_statements_at(toks, p1 + 1, kind) {
            Err(e) => Err(e),
            Ok((ss, p2)) => {
                if at_kind(toks, p2, Token::CloseBrace) {
                    Ok((Subgraph { id: sid, statements: ss }, p2 + 1))
                } else {
                    Err(err_at(toks, p2, Token::CloseBrace))
                }
            },
        }
    } else {
        Err(err_at(toks, p1, Token::OpenBrace))
    }
}

/// Parse a whole graph of the given kind at `pos`.
pub fn parse_graph_at(toks: &Vec<Lexeme>, pos: usize, kind: GraphKind) -> (r: Result<
    (Graph, usize),
    ParseError,
>)
    ensures
        match r {
            Ok(vp) => spec_parse_graph(toks.deep_view(), pos as int, kind) == Ok::<
                (GraphV, int),
                ParseError,
            >((graph_view(vp.0), vp.1 as int)) && pos < vp.1 <= toks@.len(),
            Err(e) => spec_parse_graph(toks.deep_view(), pos as int, kind) == Err::<
                (GraphV, int),
                ParseError,
            >(e),
        },
{
    let strict = at_kind(toks, pos, Token::Strict);
    let p1 = if strict {
        pos + 1
    } else {
        pos
    };
    let intro = intro_token_x(kind);
    if at_kind(toks, p1, intro) {
        match parse_id_at(toks, p1 + 1) {
            Err(e) => Err(e),
            Ok((gid, p2)) => {
                if at_kind(toks, p2, Token::OpenBrace) {
                    match parse_statements_at(toks, p2 + 1, kind) {
                        Err(e) => Err(e),
                        Ok((ss, p3)) => {
                            if at_kind(toks, p3, Token::CloseBrace) {
                                Ok(
                                    (
                                        Graph {
                                            id: gid,
                                            is_strict: strict,
                                            kind: kind,
                                            statements: ss,
                                        },
                                        p3 + 1,
                                    ),
                                )
                            } else {
                                Err(err_at(toks, p3, Token::CloseBrace))
                            }
                        },
                    }
                } else {
                    Err(err_at(toks, p2, Token::OpenBrace))
                }
            },
        }
    } else {
        Err(err_at(toks, p1, intro))
    }
}

/// The parse-cursor protocol, implemented by every AST node type.
///
/// `from_lexer` consumes a prefix of the token sequence starting at `pos`
/// and returns the parsed value with the position of the remaining
/// sequence, or the failure; the associated spec function pins the result
/// down exactly.  On success the position strictly advances and never
/// passes the end; on failure the caller's position is untouched, which is
/// what makes speculative (try-then-revert) parsing sound.
pub trait DotParseable: Sized {
    /// The mathematical view of the parsed value.
    type V;

    /// The view of one parsed value.
    spec fn viewed(&self) -> Self::V;

    /// What parsing this type at `pos` yields, as defined by the grammar.
    spec fn spec_from_lexer(toks: Seq<LexemeV>, pos: int, kind: GraphKind) -> Result<
        (Self::V, int),
        ParseError,
    >;

    /// Parse one value of this type from the token sequence at `pos`,
    /// against the given graph kind.
    fn from_lexer(toks: &Vec<Lexeme>, pos: usize, kind: GraphKind) -> (r: Result<
        (Self, usize),
        ParseError,
    >)
        ensures
            match r {
                Ok(vp) => Self::spec_from_lexer(toks.deep_view(), pos as int, kind) == Ok::<
                    (Self::V, int),
                    ParseError,
                >((vp.0.viewed(), vp.1 as int)) && pos < vp.1 <= toks@.len(),
                Err(e) => Self::spec_from_lexer(toks.deep_view(), pos as int, kind) == Err::<
                    (Self::V, int),
                    ParseError,
                >(e),
            },
    ;
}

impl DotParseable for ID {
    type V = Seq<char>;

    open spec fn viewed(&self) -> Seq<char> {
        self@
    }

    open spec fn spec_from_lexer(toks: Seq<LexemeV>, pos: int, kind: GraphKind) -> Result<
        (Seq<char>, int),
        ParseError,
    > {
        spec_parse_id(toks, pos)
    }

    fn from_lexer(toks: &Vec<Lexeme>, pos: usize, _kind: GraphKind) -> Result<
        (ID, usize),
        ParseError,
    > {
        parse_id_at(toks, pos)
    }
}

impl DotParseable for Assignment {
    type V = AssignmentV;

    open spec fn viewed(&self) -> AssignmentV {
        assignment_view(*self)
    }

    open spec fn spec_from_lexer(toks: Seq<LexemeV>, pos: int, kind: GraphKind) -> Result<
        (AssignmentV, int),
        ParseError,
    > {
        spec_parse_assignment(toks, pos)
    }

    fn from_lexer(toks: &Vec<Lexeme>, pos: usize, _kind: GraphKind) -> Result<
        (Assignment, usize),
        ParseError,
    > {
        parse_assignment_at(toks, pos)
    }
}

impl DotParseable for AttributeList {
    type V = AttributeListV;

    open spec fn viewed(&self) -> AttributeListV {
        attribute_list_view(*self)
    }

    open spec fn spec_from_lexer(toks: Seq<LexemeV>, pos: int, kind: GraphKind) -> Result<
        (AttributeListV, int),
        ParseError,
    > {
        spec_parse_attr_groups(toks, pos)
    }

    fn from_lexer(toks: &Vec<Lexeme>, pos: usize, _kind: GraphKind) -> Result<
        (AttributeList, usize),
        ParseError,
    > {
        parse_attr_groups_at(toks, pos)
    }
}

impl DotParseable for Node {
    type V = NodeV;

    open spec fn viewed(&self) -> NodeV {
        node_view(*self)
    }

    open spec fn spec_from_lexer(toks: Seq<LexemeV>, pos: int, kind: GraphKind) -> Result<
        (NodeV, int),
        ParseError,
    > {
        spec_parse_node(toks, pos)
    }

    fn from_lexer(toks: &Vec<Lexeme>, pos: usize, _kind: GraphKind) -> Result<
        (Node, usize),
        ParseError,
    > {
        parse_node_at(toks, pos)
    }
}

impl DotParseable for Endpoint {
    type V = EndpointV;

    open spec fn viewed(&self) -> EndpointV {
        endpoint_view(*self)
    }

    open spec fn spec_from_lexer(toks: Seq<LexemeV>, pos: int, kind: GraphKind) -> Result<
        (EndpointV, int),
        ParseError,
    > {
        spec_parse_endpoint(toks, pos, kind)
    }

    fn from_lexer(toks: &Vec<Lexeme>, pos: usize, kind: GraphKind) -> Result<
        (Endpoint, usize),
        ParseError,
    > {
        parse_endpoint_at(toks, pos, kind)
    }
}

impl DotParseable for Edge {
    type V = EdgeV;

    open spec fn viewed(&self) -> EdgeV {
        edge_view(*self)
    }

    open spec fn spec_from_lexer(toks: Seq<LexemeV>, pos: int, kind: GraphKind) -> Result<
        (EdgeV, int),
        ParseError,
    > {
        spec_parse_edge(toks, pos, kind)
    }

    fn from_lexer(toks: &Vec<Lexeme>, pos: usize, kind: GraphKind) -> Result<
        (Edge, usize),
        ParseError,
    > {
        parse_edge_at(toks, pos, kind)
    }
}

impl DotParseable for Subgraph {
    type V = SubgraphV;

    open spec fn viewed(&self) -> SubgraphV {
        subgraph_view(*self)
    }

    open spec fn spec_from_lexer(toks: Seq<LexemeV>, pos: int, kind: GraphKind) -> Result<
        (SubgraphV, int),
        ParseError,
    > {
        spec_parse_subgraph(toks, pos, kind)
    }

    fn from_lexer(toks: &Vec<Lexeme>, pos: usize, kind: GraphKind) -> Result<
        (Subgraph, usize),
        ParseError,
    > {
        parse_subgraph_at(toks, pos, kind)
    }
}

impl DotParseable for Statement {
    type V = StatementV;

    open spec fn viewed(&self) -> StatementV {
        statement_view(*self)
    }

    open spec fn spec_from_lexer(toks: Seq<LexemeV>, pos: int, kind: GraphKind) -> Result<
        (StatementV, int),
        ParseError,
    > {
        spec_parse_statement(toks, pos, kind)
    }

    fn from_lexer(toks: &Vec<Lexeme>, pos: usize, kind: GraphKind) -> Result<
        (Statement, usize),
        ParseError,
    > {
        parse_statement_at(toks, pos, kind)
    }
}

impl DotParseable for Graph {
    type V = GraphV;

    open spec fn viewed(&self) -> GraphV {
        graph_view(*self)
    }

    open spec fn spec_from_lexer(toks: Seq<LexemeV>, pos: int, kind: GraphKind) -> Result<
        (GraphV, int),
        ParseError,
    > {
        spec_parse_graph(toks, pos, kind)
    }

    fn from_lexer(toks: &Vec<Lexeme>, pos: usize, kind: GraphKind) -> Result<
        (Graph, usize),
        ParseError,
    > {
        parse_graph_at(toks, pos, kind)
    }
}

/// The parser front end: holds a complete in-memory document and parses it
/// into a `Graph` whose kind is chosen from the introducer keyword.
///
/// Obtaining the text (from a file, a network stream or a literal) is the
/// surrounding collaborator's concern; the parse itself performs no I/O.
pub struct DotParser {
    input: String,
}

impl DotParser {
    /// The document text this parser was built over.
    pub closed spec fn text(&self) -> Seq<char> {
        self.input@
    }

    /// Build a parser over a complete document text.
    pub fn new(input: String) -> (r: DotParser)
        ensures
            r.text() == input@,
    {
        DotParser { input: input }
    }

    /// Parse the document into its AST.
    ///
    /// The graph kind is chosen from the introducer keyword (after an
    /// optional `strict`): `digraph` parses as a directed graph, `graph`
    /// as an undirected one.  The result is exactly what the document
    /// grammar `spec_parse_document` says, error cases included; trailing
    /// input after the closing brace is not validated.
    pub fn parse_into_graph(&self) -> (r: Result<Graph, ParseError>)
        ensures
            match r {
                Ok(g) => crate::parse::spec_parse_document(self.text()) == Ok::<
                    GraphV,
                    ParseError,
                >(graph_view(g)),
                Err(e) => crate::parse::spec_parse_document(self.text()) == Err::<
                    GraphV,
                    ParseError,
                >(e),
            },
    {
        match crate::lex::tokenize(self.input.as_str()) {
            Err(p) => Err(ParseError::LexError { position: p }),
            Ok(toks) => {
                let start: usize = if at_kind(&toks, 0, Token::Strict) {
                    1
                } else {
                    0
                };
                if at_kind(&toks, start, Token::Digraph) {
                    match parse_graph_at(&toks, 0, GraphKind::Directed) {
                        Ok((g, _)) => Ok(g),
                        Err(e) => Err(e),
                    }
                } else if at_kind(&toks, start, Token::Graph) {
                    match parse_graph_at(&toks, 0, GraphKind::Undirected) {
                        Ok((g, _)) => Ok(g),
                        Err(e) => Err(e),
                    }
                } else {
                    Err(err_at(&toks, start, Token::Graph))
                }
            },
        }
    }
}

} // verus!
