//! A parser for the DOT graph-description language.
//!
//! The library turns a raw character stream into a typed abstract syntax
//! tree: a tokenizer classifies the input into lexical tokens, and a
//! recursive-descent parser builds `Graph`, `Statement`, `Node`, `Edge`,
//! `Subgraph`, `Assignment` and attribute-list values from the token
//! sequence.  Every parsing function is specified against a mathematical
//! grammar written as spec functions, so the result of a parse is pinned
//! down exactly, including which error is reported on malformed input.

pub mod ast_nodes;
pub mod lex;
pub mod parse;
pub mod print;

pub use ast_nodes::Assignment;
pub use ast_nodes::AttributeList;
pub use ast_nodes::Edge;
pub use ast_nodes::Endpoint;
pub use ast_nodes::Graph;
pub use ast_nodes::GraphKind;
pub use ast_nodes::Node;
pub use ast_nodes::Statement;
pub use ast_nodes::Subgraph;
pub use ast_nodes::ID;
pub use parse::DotParseable;
pub use parse::DotParser;
pub use parse::ParseError;
