//! The architecture graph: domain types, identity scheme, overlay layer and
//! the two-layer graph itself.

pub mod arch_graph;
pub mod identity;
pub mod overlay;
pub mod types;

use vstd::prelude::*;

use crate::graph::identity::{EdgeId, MaterializedKey};

pub use arch_graph::ArchGraph;
pub use identity::normalize_path;
pub use overlay::GraphOverlay;

verus! {

/// Errors from graph operations.
#[derive(Debug)]
pub enum GraphError {
    /// A node with this key already exists.
    DuplicateNode { key: MaterializedKey },
    /// No node with this key exists.
    NodeNotFound { key: MaterializedKey },
    /// An edge with this identity already exists.
    DuplicateEdge { edge_id: EdgeId },
}

} // verus!
