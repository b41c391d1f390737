//! The abstract syntax tree produced by the parser.
//!
//! All entities are immutable owning trees: each child is exclusively owned
//! by its parent, and statement order, attribute-group order and the order
//! of assignments within a group are preserved from the source.
//!
//! Each executable type has a mathematical view (`GraphV`, `StatementV`,
//! ...) in which identifiers are character sequences and vectors are
//! sequences; the parser's contracts are stated over those views.

mod node;

use vstd::prelude::*;

pub use node::Node;
pub use node::NodeV;

verus! {

/// An identifier used inside a DOT document: an attribute name, an
/// attribute value, a graph or subgraph name, or a node name.
///
/// The parser enforces no uniqueness: duplicate node identifiers are legal
/// and denote the same logical node to downstream consumers.
pub type ID = String;

/// An attribute list: one or more bracketed groups, each an ordered
/// sequence of assignments.
///
/// `[a=1][b=2]` is kept as two separate groups, not flattened, and order is
/// preserved throughout, so that later duplicate keys can override earlier
/// ones when the list is consumed downstream.
pub type AttributeList = Vec<Vec<Assignment>>;

/// The graph kind, fixed once for an entire parse: it decides which keyword
/// introduces the graph (`digraph` vs `graph`) and which operator joins
/// edge endpoints (`->` vs `--`).
#[derive(Clone, Copy, Debug, PartialEq, Eq, Structural)]
pub enum GraphKind {
    Directed,
    Undirected,
}

/// One `key = value` attribute binding.
#[derive(Clone, Debug, PartialEq, Eq)]
pub struct Assignment {
    pub key: ID,
    pub value: ID,
}

/// An endpoint of an edge chain: a node reference, or an inline subgraph.
#[derive(Debug, PartialEq, Eq)]
pub enum Endpoint {
    Node(ID),
    Subgraph(Subgraph),
}

/// A chain of two or more endpoints joined by the kind-specific edge
/// operator, with an optional trailing attribute list that applies to every
/// segment of the chain.
///
/// `A -> B -> C` is one `Edge` value spanning three endpoints; a consumer
/// can recover either the full chain or adjacent pairs.
#[derive(Debug, PartialEq, Eq)]
pub struct Edge {
    pub kind: GraphKind,
    pub endpoints: Vec<Endpoint>,
    pub attribute_list: Option<AttributeList>,
}

/// A subgraph: an optional name and the ordered statements it owns.
/// Recursive: its statements may themselves contain subgraphs.
#[derive(Debug, PartialEq, Eq)]
pub struct Subgraph {
    pub id: Option<ID>,
    pub statements: Vec<Statement>,
}

/// One statement of a graph or subgraph body.
#[derive(Debug, PartialEq, Eq)]
pub enum Statement {
    Node(Node),
    Edge(Edge),
    Subgraph(Subgraph),
    Assignment(Assignment),
    AttributeList(AttributeList),
}

/// The top-level parse result: the graph name, whether it was marked
/// `strict`, the kind it was parsed against, and its ordered statements.
#[derive(Debug, PartialEq, Eq)]
pub struct Graph {
    pub id: ID,
    pub is_strict: bool,
    pub kind: GraphKind,
    pub statements: Vec<Statement>,
}

impl Assignment {
    /// Build an assignment from its key and value.
    pub fn new(key: &str, value: &str) -> (r: Assignment)
        ensures
            r.key@ == key@,
            r.value@ == value@,
    {
        Assignment { key: key.to_owned(), value: value.to_owned() }
    }
}

/// Mathematical view of an `Assignment`.
pub struct AssignmentV {
    pub key: Seq<char>,
    pub value: Seq<char>,
}

/// Mathematical view of an `AttributeList`.
pub type AttributeListV = Seq<Seq<AssignmentV>>;

/// Mathematical view of an `Endpoint`.
pub enum EndpointV {
    Node(Seq<char>),
    Subgraph(SubgraphV),
}

/// Mathematical view of an `Edge`.
pub struct EdgeV {
    pub kind: GraphKind,
    pub endpoints: Seq<EndpointV>,
    pub attribute_list: Option<AttributeListV>,
}

/// Mathematical view of a `Subgraph`.
pub struct SubgraphV {
    pub id: Option<Seq<char>>,
    pub statements: Seq<StatementV>,
}

/// Mathematical view of a `Statement`.
pub enum StatementV {
    Node(NodeV),
    Edge(EdgeV),
    Subgraph(SubgraphV),
    Assignment(AssignmentV),
    AttributeList(AttributeListV),
}

/// Mathematical view of a `Graph`.
pub struct GraphV {
    pub id: Seq<char>,
    pub is_strict: bool,
    pub kind: GraphKind,
    pub statements: Seq<StatementV>,
}

/// View of an assignment.
pub open spec fn assignment_view(a: Assignment) -> AssignmentV {
    AssignmentV { key: a.key@, value: a.value@ }
}

/// View of one bracket group: assignment order preserved.
pub open spec fn assignments_view(v: Seq<Assignment>) -> Seq<AssignmentV> {
    Seq::new(v.len(), |i: int| assignment_view(v[i]))
}

/// View of an attribute list: group and assignment order preserved.
pub open spec fn attribute_list_view(al: AttributeList) -> AttributeListV {
    Seq::new(al@.len(), |i: int| assignments_view(al@[i]@))
}

/// View of an optional attribute list.
pub open spec fn opt_attribute_list_view(al: Option<AttributeList>) -> Option<AttributeListV> {
    match al {
        Some(l) => Some(attribute_list_view(l)),
        None => None,
    }
}

/// View of a node.
pub open spec fn node_view(n: Node) -> NodeV {
    NodeV { id: n.id@, attribute_list: opt_attribute_list_view(n.attribute_list) }
}

/// View of an endpoint.
pub open spec fn endpoint_view(e: Endpoint) -> EndpointV
    decreases e,
{
    match e {
        Endpoint::Node(id) => EndpointV::Node(id@),
        Endpoint::Subgraph(sg) => EndpointV::Subgraph(subgraph_view(sg)),
    }
}

/// View of an endpoint sequence: order preserved.
pub open spec fn endpoints_view(v: Seq<Endpoint>) -> Seq<EndpointV>
    decreases v,
{
    if v.len() == 0 {
        Seq::empty()
    } else {
        endpoints_view(v.subrange(0, v.len() - 1)).push(endpoint_view(v[v.len() - 1]))
    }
}

/// View of an edge.
pub open spec fn edge_view(e: Edge) -> EdgeV
    decreases e,
{
    EdgeV {
        kind: e.kind,
        endpoints: endpoints_view(e.endpoints@),
        attribute_list: opt_attribute_list_view(e.attribute_list),
    }
}

/// View of a subgraph.
pub open spec fn subgraph_view(s: Subgraph) -> SubgraphV
    decreases s,
{
    SubgraphV {
        id: match s.id {
            Some(id) => Some(id@),
            None => None,
        },
        statements: statements_view(s.statements@),
    }
}

/// View of a statement sequence: order preserved.
pub open spec fn statements_view(v: Seq<Statement>) -> Seq<StatementV>
    decreases v,
{
    if v.len() == 0 {
        Seq::empty()
    } else {
        statements_view(v.subrange(0, v.len() - 1)).push(statement_view(v[v.len() - 1]))
    }
}

/// View of a statement.
pub open spec fn statement_view(s: Statement) -> StatementV
    decreases s,
{
    match s {
        Statement::Node(n) => StatementV::Node(node_view(n)),
        Statement::Edge(e) => StatementV::Edge(edge_view(e)),
        Statement::Subgraph(sg) => StatementV::Subgraph(subgraph_view(sg)),
        Statement::Assignment(a) => StatementV::Assignment(assignment_view(a)),
        Statement::AttributeList(al) => StatementV::AttributeList(attribute_list_view(al)),
    }
}

/// View of a graph.
pub open spec fn graph_view(g: Graph) -> GraphV {
    GraphV {
        id: g.id@,
        is_strict: g.is_strict,
        kind: g.kind,
        statements: statements_view(g.statements@),
    }
}

/// The view of a statement sequence has the same length and views each
/// statement in place.
pub proof fn lemma_statements_view(v: Seq<Statement>)
    ensures
        statements_view(v).len() == v.len(),
        forall|i: int|
            0 <= i < v.len() ==> #[trigger] statements_view(v)[i] == statement_view(v[i]),
    decreases v.len(),
{
    if v.len() > 0 {
        lemma_statements_view(v.subrange(0, v.len() - 1));
        assert forall|i: int|
            0 <= i < v.len() implies #[trigger] statements_view(v)[i] == statement_view(v[i]) by {
            if i < v.len() - 1 {
                assert(v.subrange(0, v.len() - 1)[i] == v[i]);
            }
        }
    }
}

/// The view of an endpoint sequence has the same length and views each
/// endpoint in place.
pub proof fn lemma_endpoints_view(v: Seq<Endpoint>)
    ensures
        endpoints_view(v).len() == v.len(),
        forall|i: int|
            0 <= i < v.len() ==> #[trigger] endpoints_view(v)[i] == endpoint_view(v[i]),
    decreases v.len(),
{
    if v.len() > 0 {
        lemma_endpoints_view(v.subrange(0, v.len() - 1));
        assert forall|i: int|
            0 <= i < v.len() implies #[trigger] endpoints_view(v)[i] == endpoint_view(v[i]) by {
            if i < v.len() - 1 {
                assert(v.subrange(0, v.len() - 1)[i] == v[i]);
            }
        }
    }
}

/// Every edge in this statement, transitively through nested subgraphs,
/// carries the given graph kind's operator.
pub open spec fn statement_kind_ok(s: StatementV, kind: GraphKind) -> bool
    decreases s,
{
    match s {
        StatementV::Edge(e) => edge_kind_ok(e, kind),
        StatementV::Subgraph(sg) => subgraph_kind_ok(sg, kind),
        StatementV::Node(_) => true,
        StatementV::Assignment(_) => true,
        StatementV::AttributeList(_) => true,
    }
}

/// The edge itself carries the kind, and so does every edge nested in its
/// subgraph endpoints.
pub open spec fn edge_kind_ok(e: EdgeV, kind: GraphKind) -> bool
    decreases e,
{
    e.kind == kind && (forall|i: int|
        0 <= i < e.endpoints.len() ==> endpoint_kind_ok(#[trigger] e.endpoints[i], kind))
}

/// Every edge nested in this endpoint carries the kind.
pub open spec fn endpoint_kind_ok(e: EndpointV, kind: GraphKind) -> bool
    decreases e,
{
    match e {
        EndpointV::Node(_) => true,
        EndpointV::Subgraph(sg) => subgraph_kind_ok(sg, kind),
    }
}

/// Every edge owned by this subgraph, transitively, carries the kind.
pub open spec fn subgraph_kind_ok(sg: SubgraphV, kind: GraphKind) -> bool
    decreases sg,
{
    forall|i: int|
        0 <= i < sg.statements.len() ==> statement_kind_ok(#[trigger] sg.statements[i], kind)
}

/// The graph was parsed against the kind, and every edge reachable in it,
/// transitively through nested subgraphs, carries that kind's operator.
pub open spec fn graph_kind_ok(g: GraphV, kind: GraphKind) -> bool {
    g.kind == kind && (forall|i: int|
        0 <= i < g.statements.len() ==> statement_kind_ok(#[trigger] g.statements[i], kind))
}

/// Viewing a statement sequence distributes over prepending one statement.
pub proof fn lemma_statements_view_cons(st: Statement, rest: Seq<Statement>)
    ensures
        statements_view(seq![st] + rest) == seq![statement_view(st)] + statements_view(rest),
{
    let l = seq![st] + rest;
    lemma_statements_view(l);
    lemma_statements_view(rest);
    assert(statements_view(l) =~= seq![statement_view(st)] + statements_view(rest));
}

/// Viewing an endpoint sequence distributes over prepending one endpoint.
pub proof fn lemma_endpoints_view_cons(e: Endpoint, rest: Seq<Endpoint>)
    ensures
        endpoints_view(seq![e] + rest) == seq![endpoint_view(e)] + endpoints_view(rest),
{
    let l = seq![e] + rest;
    lemma_endpoints_view(l);
    lemma_endpoints_view(rest);
    assert(endpoints_view(l) =~= seq![endpoint_view(e)] + endpoints_view(rest));
}

/// Viewing an endpoint sequence distributes over prepending two endpoints.
pub proof fn lemma_endpoints_view_cons2(e1: Endpoint, e2: Endpoint, rest: Seq<Endpoint>)
    ensures
        endpoints_view(seq![e1, e2] + rest) == seq![endpoint_view(e1), endpoint_view(e2)]
            + endpoints_view(rest),
{
    let l = seq![e1, e2] + rest;
    lemma_endpoints_view(l);
    lemma_endpoints_view(rest);
    assert(endpoints_view(l) =~= seq![endpoint_view(e1), endpoint_view(e2)]
        + endpoints_view(rest));
}

} // verus!
