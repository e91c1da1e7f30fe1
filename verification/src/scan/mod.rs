//! Scan orchestration and its domain result types: the phases in which
//! results are delivered and the aggregate results of a scan.

pub mod pipeline;

use vstd::prelude::*;

use crate::graph::types::{EdgeData, NodeData, ParseFailure, UnresolvedImport, UnsupportedConstruct};

pub use pipeline::ScanError;

verus! {

/// Phases of a scan, delivered progressively: package topology first, then
/// module structure, then file-level edges.
#[derive(Debug, Clone, Copy, PartialEq, Eq, Hash, Structural)]
pub enum ScanPhase {
    /// Top-level packages/crates discovered.
    PackageTopology,
    /// Modules within packages discovered.
    ModuleStructure,
    /// File-level edges (imports, re-exports) resolved.
    FileEdges,
}

/// Aggregate results from a complete scan.
#[derive(Debug, Clone, PartialEq, Eq)]
pub struct ScanResults {
    pub nodes: Vec<NodeData>,
    pub edges: Vec<EdgeData>,
    pub unsupported_constructs: Vec<UnsupportedConstruct>,
    pub parse_failures: Vec<ParseFailure>,
    pub unresolved_imports: Vec<UnresolvedImport>,
}

} // verus!
