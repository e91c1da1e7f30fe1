//! Graph health metrics: how complete and trustworthy the graph is.

use vstd::prelude::*;

use crate::graph::types::UnresolvedImport;

verus! {

/// Summary health metrics for the architecture graph.
#[derive(Debug, PartialEq, Eq)]
pub struct GraphHealth {
    /// Total number of nodes in the graph.
    pub total_nodes: usize,
    /// Number of edges successfully resolved.
    pub resolved_edges: usize,
    /// Number of imports that could not be resolved to a target.
    pub unresolved_imports: usize,
    /// Number of files with parse failures.
    pub parse_failures: usize,
    /// Number of unsupported constructs detected.
    pub unsupported_constructs: usize,
    /// The unresolved imports, with reasons.
    pub unresolved_import_details: Vec<UnresolvedImport>,
}

impl GraphHealth {
    /// A health snapshot with all counts zero and no details.
    pub fn empty() -> (h: Self)
        ensures
            h.total_nodes == 0,
            h.resolved_edges == 0,
            h.unresolved_imports == 0,
            h.parse_failures == 0,
            h.unsupported_constructs == 0,
            h.unresolved_import_details@.len() == 0,
    {
        GraphHealth {
            total_nodes: 0,
            resolved_edges: 0,
            unresolved_imports: 0,
            parse_failures: 0,
            unsupported_constructs: 0,
            unresolved_import_details: Vec::new(),
        }
    }
}

} // verus!
