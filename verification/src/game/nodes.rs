//! The table of nodes, kept in bevy's hash map.
//!
//! `bevy::utils::HashMap` is hashbrown's `HashMap` with another hasher. What
//! is said here of its methods is taken on trust from hashbrown. This crate
//! takes one more thing on trust: what `text_of` in the module `wire` says
//! of `String::from_utf8`. Everything else in it is proved.

use vstd::prelude::*;
use crate::game::{Node, NodeId};

verus! {

/// The nodes of a board by id. The table is a `bevy::utils::HashMap`, keyed
/// by the number inside the id. Nothing here walks it, so the order in which
/// it would hand out its entries never matters.
#[verifier::external_body]
pub struct NodeTable {
    inner: bevy::utils::HashMap<u32, Node>,
}

/// What a table holds: the ids that have a node, each with its node.
pub uninterp spec fn table_nodes(table: NodeTable) -> Map<NodeId, Node>;

impl NodeTable {
    /// `hashbrown::HashMap::new`: a table that holds nothing.
    #[verifier::external_body]
    pub(crate) fn new() -> (made: NodeTable)
        ensures
            table_nodes(made) == (Map::<NodeId, Node>::empty()),
    {
        NodeTable { inner: bevy::utils::HashMap::new() }
    }

    /// `hashbrown::HashMap::insert`: afterwards the table holds `node` under
    /// `id` and is otherwise unchanged.
    #[verifier::external_body]
    pub(crate) fn insert(&mut self, id: NodeId, node: Node)
        ensures
            table_nodes(*final(self)) == table_nodes(*old(self)).insert(id, node),
    {
        self.inner.insert(id.0, node);
    }

    /// `hashbrown::HashMap::contains_key`: whether `id` has a node.
    #[verifier::external_body]
    pub(crate) fn contains_key(&self, id: NodeId) -> (found: bool)
        ensures
            found == table_nodes(*self).dom().contains(id),
    {
        self.inner.contains_key(&id.0)
    }

    /// `hashbrown::HashMap::get`: the node that `id` has, if it has one.
    #[verifier::external_body]
    pub(crate) fn get(&self, id: NodeId) -> (node: Option<&Node>)
        ensures
            node == if table_nodes(*self).dom().contains(id) {
                Some(&table_nodes(*self)[id])
            } else {
                None
            },
    {
        self.inner.get(&id.0)
    }
}

} // verus!
