//! Detectors: per-language analysis modules. Each reports what it can and
//! cannot analyze (its compatibility assessment) before discovering nodes
//! and edges.

pub mod rust;
pub mod typescript;
pub mod syntax;
pub mod module_walk;

use vstd::prelude::*;

use crate::graph::identity::{edge_id_of, EdgeId, KeyView, MaterializedKey};
use crate::graph::types::{
    Confidence, EdgeCategory, EdgeData, EdgeKind, EdgeView, Language, LocationView, OverlayStatus,
    OverlayView, ParseFailure, SourceLocation, UnresolvedImport, UnsupportedConstruct,
};
use crate::health::compatibility::{CompatibilityDetail, SupportStatus};
use crate::text::push_all;
use crate::workspace::WorkspaceInfo;

pub use rust::RustDetector;
pub use typescript::TypeScriptDetector;

verus! {

/// Errors that can occur during detection.
#[derive(Debug)]
pub enum DetectorError {
    DetectionFailed { name: String, reason: String },
    ParseError { path: String, reason: String },
}

/// `e` is a detection failure of the detector `name` for `reason`.
pub open spec fn is_detection_failure(e: DetectorError, name: Seq<char>, reason: Seq<char>) -> bool {
    e matches DetectorError::DetectionFailed { name: n, reason: r } && n@ == name && r@ == reason
}

/// The detection failure of the detector `name`: `prefix` followed by the
/// message.
pub fn detection_failure(name: &str, prefix: &str, message: &str) -> (e: DetectorError)
    ensures
        is_detection_failure(e, name@, prefix@ + message@),
{
    let mut reason = prefix.to_owned();
    push_all(&mut reason, message);
    DetectorError::DetectionFailed { name: name.to_owned(), reason }
}

/// A detector's contribution to the compatibility report.
#[derive(Debug, PartialEq, Eq)]
pub struct CompatibilityAssessment {
    /// The language this assessment covers.
    pub language: Language,
    /// Overall support status for this language.
    pub status: SupportStatus,
    /// Specific details about what is/isn't supported.
    pub details: Vec<CompatibilityDetail>,
}

/// Two assessments with the same language, status and details.
pub open spec fn same_assessment(a: CompatibilityAssessment, b: CompatibilityAssessment) -> bool {
    a.language == b.language && a.status == b.status && a.details@ == b.details@
}

impl Clone for CompatibilityAssessment {
    fn clone(&self) -> (r: Self)
        ensures
            same_assessment(r, *self),
    {
        CompatibilityAssessment {
            language: self.language,
            status: self.status,
            details: self.details.clone(),
        }
    }
}

/// Summary of a detection pass.
#[derive(Debug, Clone, PartialEq, Eq)]
pub struct DetectorReport {
    /// Number of nodes discovered.
    pub nodes_discovered: usize,
    /// Number of edges discovered.
    pub edges_discovered: usize,
    /// Constructs detected but not modeled.
    pub unsupported_constructs: Vec<UnsupportedConstruct>,
    /// Files that could not be fully parsed.
    pub parse_failures: Vec<ParseFailure>,
    /// Imports that could not be resolved.
    pub unresolved_imports: Vec<UnresolvedImport>,
}

impl DetectorReport {
    /// A report with nothing found yet.
    pub fn new() -> (r: Self)
        ensures
            r.nodes_discovered == 0,
            r.edges_discovered == 0,
            r.unsupported_constructs@.len() == 0,
            r.parse_failures@.len() == 0,
            r.unresolved_imports@.len() == 0,
    {
        DetectorReport {
            nodes_discovered: 0,
            edges_discovered: 0,
            unsupported_constructs: Vec::new(),
            parse_failures: Vec::new(),
            unresolved_imports: Vec::new(),
        }
    }
}

/// The containment edge from `parent` to `child` (category normal).
pub open spec fn contains_edge_view(
    parent: KeyView,
    child: KeyView,
    confidence: Confidence,
    location: Option<LocationView>,
    method: Seq<char>,
) -> EdgeView {
    EdgeView {
        edge_id: edge_id_of(parent, child, EdgeKind::Contains, EdgeCategory::Normal),
        source: parent,
        target: child,
        kind: EdgeKind::Contains,
        category: EdgeCategory::Normal,
        confidence,
        location,
        resolution_method: Some(method),
        overlay: OverlayView::Unaffected,
    }
}

/// The view of an optional source location.
pub open spec fn location_view(l: Option<SourceLocation>) -> Option<LocationView> {
    match l {
        Some(x) => Some(x@),
        None => None,
    }
}

/// The containment edge from `parent` to `child`.
pub fn contains_edge(
    parent: &MaterializedKey,
    child: &MaterializedKey,
    confidence: Confidence,
    location: Option<SourceLocation>,
    method: String,
) -> (e: EdgeData)
    ensures
        e@ == contains_edge_view(parent@, child@, confidence, location_view(location), method@),
{
    EdgeData {
        edge_id: EdgeId::new(parent, child, EdgeKind::Contains, EdgeCategory::Normal),
        source_key: parent.clone(),
        target_key: child.clone(),
        kind: EdgeKind::Contains,
        category: EdgeCategory::Normal,
        confidence,
        source_location: location,
        resolution_method: Some(method),
        overlay_status: OverlayStatus::Unaffected,
    }
}

/// A detector: one language's analysis module.
pub trait Detector {
    /// Human-readable name (e.g. `rust-cargo`).
    fn name(&self) -> &'static str;

    /// The language this detector handles.
    fn language(&self) -> Language;

    /// Whether this detector applies to the given workspace.
    fn applies_to(&self, workspace: &WorkspaceInfo) -> bool;

    /// What this detector can and cannot analyze in the workspace.
    fn compatibility(&self, workspace: &WorkspaceInfo) -> CompatibilityAssessment;
}

} // verus!
