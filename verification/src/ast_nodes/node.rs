//! The node statement of the AST.

use vstd::prelude::*;

use super::AttributeList;
use super::AttributeListV;
use super::ID;

verus! {

/// A node statement: a node's identifier and, when present, the attribute
/// list that declares or configures attributes for that node.
///
/// An example of a node statement: `A [color = red][length = long]`.
///
/// "No brackets" and "empty brackets `[]`" are different legal inputs, so
/// an absent attribute list is `None`, never an empty-but-present list.
#[derive(Clone, Debug, PartialEq, Eq)]
pub struct Node {
    pub id: ID,
    pub attribute_list: Option<AttributeList>,
}

/// Mathematical view of a `Node`.
pub struct NodeV {
    pub id: Seq<char>,
    pub attribute_list: Option<AttributeListV>,
}

} // verus!
