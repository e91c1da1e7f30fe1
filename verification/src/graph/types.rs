//! Domain types of the architecture graph: languages, entity and node kinds,
//! nodes, edges with their evidence metadata, and scan findings.

use vstd::prelude::*;

use crate::graph::identity::{EdgeId, KeyView, MaterializedKey};
use crate::text::string_of;

verus! {

/// Programming language detected in the repository.
#[derive(Debug, Clone, Copy, PartialEq, Eq, Hash, Structural)]
pub enum Language {
    Rust,
    TypeScript,
    JavaScript,
    Unknown,
}

/// The lowercase name of a language, as used in keys and JSON.
pub open spec fn language_name(l: Language) -> Seq<char> {
    match l {
        Language::Rust => seq!['r', 'u', 's', 't'],
        Language::TypeScript => seq!['t', 'y', 'p', 'e', 's', 'c', 'r', 'i', 'p', 't'],
        Language::JavaScript => seq!['j', 'a', 'v', 'a', 's', 'c', 'r', 'i', 'p', 't'],
        Language::Unknown => seq!['u', 'n', 'k', 'n', 'o', 'w', 'n'],
    }
}

impl Language {
    /// The lowercase name of the language (`rust`, `typescript`, ...).
    pub fn to_string(&self) -> (s: String)
        ensures
            s@ == language_name(*self),
    {
        match self {
            Language::Rust => string_of(&['r', 'u', 's', 't']),
            Language::TypeScript => string_of(&['t', 'y', 'p', 'e', 's', 'c', 'r', 'i', 'p', 't']),
            Language::JavaScript => string_of(&['j', 'a', 'v', 'a', 's', 'c', 'r', 'i', 'p', 't']),
            Language::Unknown => string_of(&['u', 'n', 'k', 'n', 'o', 'w', 'n']),
        }
    }
}

/// The structural kind of an entity within a repository.
#[derive(Debug, Clone, Copy, PartialEq, Eq, Hash, Structural)]
pub enum EntityKind {
    /// A workspace package (Cargo crate, npm package).
    Package,
    /// A module within a package (Rust `mod`, TS directory-as-module).
    Module,
    /// A single source file.
    File,
}

/// The lowercase name of an entity kind.
pub open spec fn entity_kind_name(k: EntityKind) -> Seq<char> {
    match k {
        EntityKind::Package => seq!['p', 'a', 'c', 'k', 'a', 'g', 'e'],
        EntityKind::Module => seq!['m', 'o', 'd', 'u', 'l', 'e'],
        EntityKind::File => seq!['f', 'i', 'l', 'e'],
    }
}

impl EntityKind {
    /// The lowercase name of the kind (`package`, `module`, `file`).
    pub fn to_string(&self) -> (s: String)
        ensures
            s@ == entity_kind_name(*self),
    {
        match self {
            EntityKind::Package => string_of(&['p', 'a', 'c', 'k', 'a', 'g', 'e']),
            EntityKind::Module => string_of(&['m', 'o', 'd', 'u', 'l', 'e']),
            EntityKind::File => string_of(&['f', 'i', 'l', 'e']),
        }
    }
}

/// Visual/semantic kind of a graph node.
#[derive(Debug, Clone, Copy, PartialEq, Eq, Hash, Structural)]
pub enum NodeKind {
    Package,
    Module,
    File,
}

/// UUID-based identity that survives renames (always absent in this version).
#[derive(Debug, PartialEq, Eq, Hash)]
pub struct LineageKey(pub String);

impl Clone for LineageKey {
    fn clone(&self) -> (r: Self)
        ensures
            r == *self,
    {
        LineageKey(self.0.clone())
    }
}

/// A node in the architecture graph.
#[derive(Debug, PartialEq, Eq)]
pub struct NodeData {
    /// Unique identity within a single scan.
    pub materialized_key: MaterializedKey,
    /// Logical identity that survives renames.
    pub lineage_key: Option<LineageKey>,
    /// Human-readable label (crate name, file name, ...).
    pub label: String,
    /// Structural kind of this node.
    pub kind: NodeKind,
    /// Language this node belongs to.
    pub language: Language,
    /// Key of the parent node (`None` for top-level packages).
    pub parent_key: Option<MaterializedKey>,
}

/// The value a node stands for.
pub struct NodeView {
    pub key: KeyView,
    pub lineage: Option<Seq<char>>,
    pub label: Seq<char>,
    pub kind: NodeKind,
    pub language: Language,
    pub parent: Option<KeyView>,
}

impl View for NodeData {
    type V = NodeView;

    open spec fn view(&self) -> NodeView {
        NodeView {
            key: self.materialized_key@,
            lineage: match self.lineage_key {
                Some(l) => Some(l.0@),
                None => None,
            },
            label: self.label@,
            kind: self.kind,
            language: self.language,
            parent: match self.parent_key {
                Some(k) => Some(k@),
                None => None,
            },
        }
    }
}

impl Clone for NodeData {
    fn clone(&self) -> (r: Self)
        ensures
            r == *self,
    {
        NodeData {
            materialized_key: self.materialized_key.clone(),
            lineage_key: match &self.lineage_key {
                Some(l) => Some(l.clone()),
                None => None,
            },
            label: self.label.clone(),
            kind: self.kind,
            language: self.language,
            parent_key: match &self.parent_key {
                Some(k) => Some(k.clone()),
                None => None,
            },
        }
    }
}

/// How two nodes are related.
#[derive(Debug, Clone, Copy, PartialEq, Eq, Hash, Structural)]
pub enum EdgeKind {
    /// A source-level import relationship.
    Imports,
    /// A re-export (`pub use`, `export { ... } from`).
    ReExports,
    /// Structural containment (parent to child).
    Contains,
    /// Manifest-level dependency (Cargo.toml, package.json).
    DependsOn,
    /// Manually declared via `.codeatlas.yaml`.
    Manual,
}

/// Semantic role of an edge, orthogonal to how it was discovered.
#[derive(Debug, Clone, Copy, PartialEq, Eq, Hash, Structural)]
pub enum EdgeCategory {
    /// Runtime import present in compiled output.
    Value,
    /// `import type` / `export type`, elided at compile time.
    TypeOnly,
    /// From `devDependencies` or `[dev-dependencies]`.
    Dev,
    /// From `[build-dependencies]` or build tooling.
    Build,
    /// Edge exists only in test code.
    Test,
    /// From `peerDependencies`.
    Peer,
    /// Standard runtime dependency.
    Normal,
    /// Added via `.codeatlas.yaml` overlay.
    Manual,
}

/// How confident we are in an edge's correctness, from least to most.
#[derive(Debug, Clone, Copy, PartialEq, Eq, Hash, PartialOrd, Ord, Structural)]
pub enum Confidence {
    /// Directory hierarchy only.
    StructureOnly,
    /// Parsed import statement.
    Syntactic,
    /// Import resolved to target via path/workspace resolution.
    ResolverAware,
    /// Type-aware analysis.
    Semantic,
    /// Observed at runtime.
    Runtime,
}

/// The rank of a confidence level in its order (least confident first).
pub open spec fn confidence_rank(c: Confidence) -> nat {
    match c {
        Confidence::StructureOnly => 0,
        Confidence::Syntactic => 1,
        Confidence::ResolverAware => 2,
        Confidence::Semantic => 3,
        Confidence::Runtime => 4,
    }
}

impl Confidence {
    /// The rank of this level: `Structural` is 0, `Runtime` is 4.
    pub fn rank(&self) -> (r: u8)
        ensures
            r as nat == confidence_rank(*self),
    {
        match self {
            Confidence::StructureOnly => 0,
            Confidence::Syntactic => 1,
            Confidence::ResolverAware => 2,
            Confidence::Semantic => 3,
            Confidence::Runtime => 4,
        }
    }

    /// Whether this level is strictly less confident than `other`.
    pub fn less_confident_than(&self, other: &Confidence) -> (r: bool)
        ensures
            r == (confidence_rank(*self) < confidence_rank(*other)),
    {
        self.rank() < other.rank()
    }
}

/// Source-code location where a relationship was detected.
#[derive(Debug, PartialEq, Eq)]
pub struct SourceLocation {
    /// Path relative to workspace root.
    pub path: String,
    /// 1-based start line.
    pub start_line: u32,
    /// 1-based end line.
    pub end_line: u32,
}

/// The value a source location stands for.
pub struct LocationView {
    pub path: Seq<char>,
    pub start_line: u32,
    pub end_line: u32,
}

impl View for SourceLocation {
    type V = LocationView;

    open spec fn view(&self) -> LocationView {
        LocationView { path: self.path@, start_line: self.start_line, end_line: self.end_line }
    }
}

impl Clone for SourceLocation {
    fn clone(&self) -> (r: Self)
        ensures
            r == *self,
    {
        SourceLocation { path: self.path.clone(), start_line: self.start_line, end_line: self.end_line }
    }
}

/// Whether an edge has been affected by a configuration overlay.
#[derive(Debug, PartialEq, Eq)]
pub enum OverlayStatus {
    /// Not affected by any overlay.
    Unaffected,
    /// Suppressed in the default view, with a reason.
    Suppressed { reason: String },
}

/// The value an overlay status stands for.
pub enum OverlayView {
    Unaffected,
    Suppressed(Seq<char>),
}

impl View for OverlayStatus {
    type V = OverlayView;

    open spec fn view(&self) -> OverlayView {
        match self {
            OverlayStatus::Unaffected => OverlayView::Unaffected,
            OverlayStatus::Suppressed { reason } => OverlayView::Suppressed(reason@),
        }
    }
}

impl Clone for OverlayStatus {
    fn clone(&self) -> (r: Self)
        ensures
            r == *self,
    {
        match self {
            OverlayStatus::Unaffected => OverlayStatus::Unaffected,
            OverlayStatus::Suppressed { reason } => OverlayStatus::Suppressed { reason: reason.clone() },
        }
    }
}

/// An edge in the architecture graph, with its evidence metadata.
#[derive(Debug, PartialEq, Eq)]
pub struct EdgeData {
    /// Deterministic identity derived from (source, target, kind, category).
    pub edge_id: EdgeId,
    /// Key of the source node.
    pub source_key: MaterializedKey,
    /// Key of the target node.
    pub target_key: MaterializedKey,
    /// How these nodes are related.
    pub kind: EdgeKind,
    /// Semantic role of this relationship.
    pub category: EdgeCategory,
    /// How confident we are in this edge.
    pub confidence: Confidence,
    /// Where in source code this relationship was detected.
    pub source_location: Option<SourceLocation>,
    /// Which resolver/method produced this edge.
    pub resolution_method: Option<String>,
    /// Overlay status (suppressed, etc.).
    pub overlay_status: OverlayStatus,
}

/// The value an edge stands for.
pub struct EdgeView {
    pub edge_id: Seq<char>,
    pub source: KeyView,
    pub target: KeyView,
    pub kind: EdgeKind,
    pub category: EdgeCategory,
    pub confidence: Confidence,
    pub location: Option<LocationView>,
    pub resolution_method: Option<Seq<char>>,
    pub overlay: OverlayView,
}

impl View for EdgeData {
    type V = EdgeView;

    open spec fn view(&self) -> EdgeView {
        EdgeView {
            edge_id: self.edge_id@,
            source: self.source_key@,
            target: self.target_key@,
            kind: self.kind,
            category: self.category,
            confidence: self.confidence,
            location: match self.source_location {
                Some(l) => Some(l@),
                None => None,
            },
            resolution_method: match self.resolution_method {
                Some(m) => Some(m@),
                None => None,
            },
            overlay: self.overlay_status@,
        }
    }
}

impl Clone for EdgeData {
    fn clone(&self) -> (r: Self)
        ensures
            r == *self,
    {
        EdgeData {
            edge_id: self.edge_id.clone(),
            source_key: self.source_key.clone(),
            target_key: self.target_key.clone(),
            kind: self.kind,
            category: self.category,
            confidence: self.confidence,
            source_location: match &self.source_location {
                Some(l) => Some(l.clone()),
                None => None,
            },
            resolution_method: match &self.resolution_method {
                Some(m) => Some(m.clone()),
                None => None,
            },
            overlay_status: self.overlay_status.clone(),
        }
    }
}

/// Categories of constructs that are detected but not modeled.
#[derive(Debug, Clone, Copy, PartialEq, Eq, Hash, Structural)]
pub enum UnsupportedConstructType {
    CfgGate,
    BuildScript,
    ProcMacro,
    DynamicImport,
    FrameworkConvention,
    ExportsCondition,
    CommonJsRequire,
    IncludeMacro,
    ProjectReferences,
    YarnPnp,
}

/// A language construct detected but not modeled by the scanner.
#[derive(Debug, PartialEq, Eq)]
pub struct UnsupportedConstruct {
    /// Category of unsupported construct.
    pub construct_type: UnsupportedConstructType,
    /// Where it was detected.
    pub location: SourceLocation,
    /// What the graph might be missing because of this.
    pub impact: String,
    /// Guidance on how to address this limitation.
    pub how_to_address: String,
}

/// The value an unsupported-construct finding stands for.
pub struct ConstructView {
    pub construct_type: UnsupportedConstructType,
    pub location: LocationView,
    pub impact: Seq<char>,
    pub how_to_address: Seq<char>,
}

impl View for UnsupportedConstruct {
    type V = ConstructView;

    open spec fn view(&self) -> ConstructView {
        ConstructView {
            construct_type: self.construct_type,
            location: self.location@,
            impact: self.impact@,
            how_to_address: self.how_to_address@,
        }
    }
}

impl Clone for UnsupportedConstruct {
    fn clone(&self) -> (r: Self)
        ensures
            r == *self,
    {
        UnsupportedConstruct {
            construct_type: self.construct_type,
            location: self.location.clone(),
            impact: self.impact.clone(),
            how_to_address: self.how_to_address.clone(),
        }
    }
}

/// A file that the parser could not fully process.
#[derive(Debug, PartialEq, Eq)]
pub struct ParseFailure {
    /// Path relative to workspace root.
    pub path: String,
    /// Human-readable description of the failure.
    pub reason: String,
}

/// The value a parse-failure finding stands for.
pub struct ParseFailureView {
    pub path: Seq<char>,
    pub reason: Seq<char>,
}

impl View for ParseFailure {
    type V = ParseFailureView;

    open spec fn view(&self) -> ParseFailureView {
        ParseFailureView { path: self.path@, reason: self.reason@ }
    }
}

impl Clone for ParseFailure {
    fn clone(&self) -> (r: Self)
        ensures
            r == *self,
    {
        ParseFailure { path: self.path.clone(), reason: self.reason.clone() }
    }
}

/// Why an import could not be resolved to a node of the graph.
#[derive(Debug, PartialEq, Eq)]
pub enum UnresolvedReason {
    ExternalPackage,
    NoMatchingFile,
    DynamicImport,
    CommonJsRequire,
    PathAliasNotMatched,
    ExternalCrate,
    UnresolvablePath,
    Other(String),
}

impl Clone for UnresolvedReason {
    fn clone(&self) -> (r: Self)
        ensures
            r == *self,
    {
        match self {
            UnresolvedReason::ExternalPackage => UnresolvedReason::ExternalPackage,
            UnresolvedReason::NoMatchingFile => UnresolvedReason::NoMatchingFile,
            UnresolvedReason::DynamicImport => UnresolvedReason::DynamicImport,
            UnresolvedReason::CommonJsRequire => UnresolvedReason::CommonJsRequire,
            UnresolvedReason::PathAliasNotMatched => UnresolvedReason::PathAliasNotMatched,
            UnresolvedReason::ExternalCrate => UnresolvedReason::ExternalCrate,
            UnresolvedReason::UnresolvablePath => UnresolvedReason::UnresolvablePath,
            UnresolvedReason::Other(s) => UnresolvedReason::Other(s.clone()),
        }
    }
}

/// An import that could not be resolved, with the reason.
#[derive(Debug, PartialEq, Eq)]
pub struct UnresolvedImport {
    /// File containing the import, relative to workspace root.
    pub source_file: String,
    /// The import specifier as written.
    pub specifier: String,
    /// Why it could not be resolved.
    pub reason: UnresolvedReason,
}

/// The value an unresolved-import finding stands for.
pub struct UnresolvedView {
    pub source_file: Seq<char>,
    pub specifier: Seq<char>,
    pub reason: UnresolvedReason,
}

impl View for UnresolvedImport {
    type V = UnresolvedView;

    open spec fn view(&self) -> UnresolvedView {
        UnresolvedView { source_file: self.source_file@, specifier: self.specifier@, reason: self.reason }
    }
}

impl Clone for UnresolvedImport {
    fn clone(&self) -> (r: Self)
        ensures
            r == *self,
    {
        UnresolvedImport {
            source_file: self.source_file.clone(),
            specifier: self.specifier.clone(),
            reason: self.reason.clone(),
        }
    }
}

/// The views of a sequence of nodes.
pub open spec fn node_views(s: Seq<NodeData>) -> Seq<NodeView> {
    s.map_values(|n: NodeData| n@)
}

/// The views of a sequence of edges.
pub open spec fn edge_views(s: Seq<EdgeData>) -> Seq<EdgeView> {
    s.map_values(|e: EdgeData| e@)
}

/// The views of a sequence of unsupported-construct findings.
pub open spec fn construct_views(s: Seq<UnsupportedConstruct>) -> Seq<ConstructView> {
    s.map_values(|c: UnsupportedConstruct| c@)
}

/// The views of a sequence of parse-failure findings.
pub open spec fn failure_views(s: Seq<ParseFailure>) -> Seq<ParseFailureView> {
    s.map_values(|f: ParseFailure| f@)
}

/// The views of a sequence of unresolved-import findings.
pub open spec fn unresolved_views(s: Seq<UnresolvedImport>) -> Seq<UnresolvedView> {
    s.map_values(|u: UnresolvedImport| u@)
}

/// Appending one edge appends its view.
pub proof fn lemma_edge_views_push(s: Seq<EdgeData>, e: EdgeData)
    ensures
        edge_views(s.push(e)) == edge_views(s).push(e@),
{
    assert(edge_views(s.push(e)) =~= edge_views(s).push(e@));
}

/// Appending one node appends its view.
pub proof fn lemma_node_views_push(s: Seq<NodeData>, n: NodeData)
    ensures
        node_views(s.push(n)) == node_views(s).push(n@),
{
    assert(node_views(s.push(n)) =~= node_views(s).push(n@));
}

/// Appending one finding appends its view.
pub proof fn lemma_construct_views_push(s: Seq<UnsupportedConstruct>, c: UnsupportedConstruct)
    ensures
        construct_views(s.push(c)) == construct_views(s).push(c@),
{
    assert(construct_views(s.push(c)) =~= construct_views(s).push(c@));
}

/// Appending one finding appends its view.
pub proof fn lemma_unresolved_views_push(s: Seq<UnresolvedImport>, u: UnresolvedImport)
    ensures
        unresolved_views(s.push(u)) == unresolved_views(s).push(u@),
{
    assert(unresolved_views(s.push(u)) =~= unresolved_views(s).push(u@));
}

/// Appending one parse failure appends its view.
pub proof fn lemma_failure_views_push(s: Seq<ParseFailure>, f: ParseFailure)
    ensures
        failure_views(s.push(f)) == failure_views(s).push(f@),
{
    assert(failure_views(s.push(f)) =~= failure_views(s).push(f@));
}

} // verus!
