//! Analysis core of Code Atlas: the architecture-graph model, its identity
//! scheme, workspace and configuration models, compatibility reporting and
//! the pure decision logic of the Rust and TypeScript detectors and of the
//! scan pipeline.
//!
//! [`AnalysisHost`] is the mutable handle that accepts discovery results;
//! [`Analysis`] is an immutable snapshot of its state for queries.

pub mod text;
pub mod paths;
pub mod graph;
pub mod config;
pub mod workspace;
pub mod health;
pub mod detector;
pub mod profile;
pub mod scan;
pub mod error;

pub use config::RepoConfig;
pub use error::CoreError;
pub use graph::identity::{EdgeId, MaterializedKey};
pub use graph::{ArchGraph, GraphOverlay};
pub use health::{CompatibilityReport, GraphHealth};
pub use profile::GraphProfile;
pub use scan::{ScanPhase, ScanResults};
pub use workspace::WorkspaceInfo;

use vstd::prelude::*;

use crate::config::schema::non_functional;
use crate::detector::rust::{rust_details, rust_status};
use crate::detector::typescript::{ts_details, ts_status};
use crate::detector::{same_assessment, CompatibilityAssessment, Detector, RustDetector, TypeScriptDetector};
use crate::graph::types::Language;
use crate::health::compatibility::{details_view, same_report};
use crate::config::schema::same_config;
use crate::profile::is_profile_of;
use crate::workspace::{lemma_same_workspace_trans, same_workspace};

verus! {

/// What workspace discovery found: the workspace, its configuration, the
/// detected profile, the provisional compatibility report and the
/// configuration sections that are read but have no effect yet.
#[derive(Debug, Clone, PartialEq)]
pub struct DiscoveryResult {
    /// Workspace structure information.
    pub workspace: WorkspaceInfo,
    /// The repository configuration.
    pub config: RepoConfig,
    /// Auto-detected graph profile.
    pub profile: GraphProfile,
    /// Compatibility report (provisional: structural findings only).
    pub compatibility: CompatibilityReport,
    /// Configuration sections recognized but not yet functional.
    pub non_functional_config_sections: Vec<String>,
}

/// The languages of the detectors that apply to `ws`, in detector order:
/// Rust where there is Cargo metadata, then TypeScript where there is JS
/// metadata.
pub open spec fn applicable_languages(ws: WorkspaceInfo) -> Seq<Language> {
    (if ws.cargo is Some {
        seq![Language::Rust]
    } else {
        Seq::empty()
    }) + (if ws.js is Some {
        seq![Language::TypeScript]
    } else {
        Seq::empty()
    })
}

/// `a` is the assessment that the detector of `language` gives for `ws`.
pub open spec fn is_assessment_of(a: CompatibilityAssessment, ws: WorkspaceInfo, language: Language) -> bool {
    &&& a.language == language
    &&& match language {
        Language::Rust => ws.cargo matches Some(c) && a.status == rust_status(c.packages@)
            && details_view(a.details@) == rust_details(c.packages@),
        Language::TypeScript => ws.js matches Some(js) && a.status == ts_status(js)
            && details_view(a.details@) == ts_details(js),
        _ => false,
    }
}

/// `r` is the provisional report for `ws`: one assessment per applicable
/// detector, in detector order.
pub open spec fn is_provisional_report_of(r: CompatibilityReport, ws: WorkspaceInfo) -> bool {
    &&& r.is_provisional
    &&& r.assessments@.len() == applicable_languages(ws).len()
    &&& forall|i: int|
        0 <= i < r.assessments@.len() ==> is_assessment_of(
            #[trigger] r.assessments@[i],
            ws,
            applicable_languages(ws)[i],
        )
}

/// `c` is the minimal configuration: version 1 and every section empty.
pub open spec fn is_default_config(c: RepoConfig) -> bool {
    &&& c.version == 1
    &&& c.ignore@.len() == 0
    &&& c.entrypoints@.len() == 0
    &&& c.dependencies.add@.len() == 0
    &&& c.dependencies.suppress@.len() == 0
    &&& c.packages@.dom().len() == 0
    &&& c.frameworks@.len() == 0
    &&& c.declarations@.len() == 0
}

/// The names of the non-functional sections of `config`.
pub open spec fn non_functional_of(config: RepoConfig) -> Seq<Seq<char>> {
    non_functional(
        !config.packages@.is_empty(),
        config.frameworks@.len() > 0,
        config.declarations@.len() > 0,
    )
}

/// Runs the applicable detectors' compatibility assessments on `ws`.
pub fn provisional_report(ws: &WorkspaceInfo) -> (r: CompatibilityReport)
    ensures
        is_provisional_report_of(r, *ws),
{
    let mut assessments: Vec<CompatibilityAssessment> = Vec::new();
    let rust = RustDetector;
    if rust.applies_to(ws) {
        assessments.push(rust.compatibility(ws));
    }
    let ts = TypeScriptDetector;
    if ts.applies_to(ws) {
        assessments.push(ts.compatibility(ws));
    }
    CompatibilityReport { assessments, is_provisional: true }
}

/// Mutable handle to the analysis engine: it accepts what workspace
/// discovery found and hands out snapshots for queries.
pub struct AnalysisHost {
    graph: ArchGraph,
    config: RepoConfig,
    profile: GraphProfile,
    compatibility: CompatibilityReport,
    workspace: Option<WorkspaceInfo>,
}

impl AnalysisHost {
    /// The configuration held by the host.
    pub closed spec fn host_config(&self) -> RepoConfig {
        self.config
    }

    /// The profile held by the host.
    pub closed spec fn host_profile(&self) -> GraphProfile {
        self.profile
    }

    /// The compatibility report held by the host.
    pub closed spec fn host_compatibility(&self) -> CompatibilityReport {
        self.compatibility
    }

    /// The workspace held by the host, once discovery has run.
    pub closed spec fn host_workspace(&self) -> Option<WorkspaceInfo> {
        self.workspace
    }

    /// The number of nodes in the host's graph.
    pub closed spec fn host_node_count(&self) -> nat {
        self.graph.nodes_view().len()
    }

    /// A new host: empty graph, default configuration, empty profile, an
    /// empty provisional report and no workspace.
    pub fn new() -> (h: Self)
        ensures
            is_default_config(h.host_config()),
            h.host_profile().languages@.len() == 0,
            h.host_profile().package_manager is None,
            h.host_profile().resolution_mode is None,
            h.host_profile().cargo_features@.len() == 0,
            h.host_profile().fingerprint.0@.len() == 0,
            h.host_compatibility().is_provisional,
            h.host_compatibility().assessments@.len() == 0,
            h.host_workspace() is None,
            h.host_node_count() == 0,
    {
        AnalysisHost {
            graph: ArchGraph::new(),
            config: RepoConfig::default_config(),
            profile: GraphProfile::empty(),
            compatibility: CompatibilityReport::provisional(),
            workspace: None,
        }
    }

    /// Accepts a discovered workspace and its loaded configuration: detects
    /// the profile, runs the applicable detectors' compatibility
    /// assessments into a provisional report, lists the non-functional
    /// configuration sections, keeps all of it and returns it.
    pub fn accept_discovery(&mut self, workspace: WorkspaceInfo, config: RepoConfig) -> (r: DiscoveryResult)
        ensures
            discovery_accepted(*old(self), *final(self), workspace, config, r),
    {
        let profile = GraphProfile::detect_from_workspace(&workspace);
        let compatibility = provisional_report(&workspace);
        let sections = config.non_functional_sections();
        let mut names: Vec<String> = Vec::new();
        let mut i: usize = 0;
        while i < sections.len()
            invariant
                i <= sections@.len(),
                names@.len() == i,
                forall|j: int| 0 <= j < i ==> (#[trigger] names@[j])@ == sections@[j]@,
            decreases sections@.len() - i,
        {
            names.push(sections[i].to_owned());
            i = i + 1;
        }
        assert(names@.map_values(|s: String| s@) =~= sections@.map_values(|s: &str| s@));
        self.workspace = Some(workspace.clone());
        self.config = config.clone();
        self.profile = profile.clone();
        self.compatibility = compatibility.clone();
        DiscoveryResult {
            workspace,
            config,
            profile,
            compatibility,
            non_functional_config_sections: names,
        }
    }

    /// An immutable snapshot of the host's state.
    pub fn snapshot(&self) -> (a: Analysis)
        ensures
            snapshot_of(*self, a),
    {
        Analysis {
            config: self.config.clone(),
            profile: self.profile.clone(),
            compatibility: self.compatibility.clone(),
            workspace: match &self.workspace {
                Some(w) => Some(w.clone()),
                None => None,
            },
        }
    }
}

impl Default for AnalysisHost {
    fn default() -> (h: Self)
        ensures
            h.host_workspace() is None,
            h.host_compatibility().assessments@.len() == 0,
    {
        AnalysisHost::new()
    }
}

/// Two profiles with the same languages, package manager, resolution mode,
/// features and fingerprint.
pub open spec fn same_profile(a: GraphProfile, b: GraphProfile) -> bool {
    &&& a.languages@ == b.languages@
    &&& a.package_manager == b.package_manager
    &&& a.resolution_mode == b.resolution_mode
    &&& a.cargo_features@ == b.cargo_features@
    &&& a.fingerprint == b.fingerprint
}

/// What accepting `workspace` and `config` does: the result holds them, the
/// profile detected from the workspace, its provisional report and the
/// configuration's non-functional sections; the host keeps copies of the
/// workspace, the configuration, the profile and the report, and its graph.
pub open spec fn discovery_accepted(
    before: AnalysisHost,
    after: AnalysisHost,
    workspace: WorkspaceInfo,
    config: RepoConfig,
    r: DiscoveryResult,
) -> bool {
    &&& r.workspace == workspace
    &&& r.config == config
    &&& is_profile_of(r.profile, workspace)
    &&& is_provisional_report_of(r.compatibility, workspace)
    &&& r.non_functional_config_sections@.map_values(|s: String| s@) == non_functional_of(config)
    &&& after.host_workspace() matches Some(w) && same_workspace(w, workspace)
    &&& same_config(after.host_config(), config)
    &&& same_profile(after.host_profile(), r.profile)
    &&& same_report(after.host_compatibility(), r.compatibility)
    &&& after.host_node_count() == before.host_node_count()
}

/// `a` is a snapshot of `h`: copies of the host's workspace (if any),
/// configuration, profile and report.
pub open spec fn snapshot_of(h: AnalysisHost, a: Analysis) -> bool {
    &&& match (a.analysis_workspace(), h.host_workspace()) {
        (Some(x), Some(y)) => same_workspace(x, y),
        (None, None) => true,
        _ => false,
    }
    &&& same_config(a.analysis_config(), h.host_config())
    &&& same_profile(a.analysis_profile(), h.host_profile())
    &&& same_report(a.analysis_compatibility(), h.host_compatibility())
}

/// A snapshot taken after a discovery was accepted shows the accepted
/// workspace and configuration, the profile of that workspace and its
/// provisional compatibility report.
pub proof fn lemma_snapshot_reflects_discovery(
    before: AnalysisHost,
    after: AnalysisHost,
    workspace: WorkspaceInfo,
    config: RepoConfig,
    r: DiscoveryResult,
    a: Analysis,
)
    requires
        discovery_accepted(before, after, workspace, config, r),
        snapshot_of(after, a),
    ensures
        a.analysis_workspace() matches Some(w) && same_workspace(w, workspace),
        same_config(a.analysis_config(), config),
        is_profile_of(a.analysis_profile(), workspace),
        is_provisional_report_of(a.analysis_compatibility(), workspace),
        same_profile(a.analysis_profile(), r.profile),
{
    let w_snapshot = a.analysis_workspace().unwrap();
    let w_host = after.host_workspace().unwrap();
    lemma_same_workspace_trans(w_snapshot, w_host, workspace);
    let c = a.analysis_compatibility();
    let h = after.host_compatibility();
    assert forall|i: int| 0 <= i < c.assessments@.len() implies is_assessment_of(
        #[trigger] c.assessments@[i],
        workspace,
        applicable_languages(workspace)[i],
    ) by {
        assert(same_assessment(c.assessments@[i], h.assessments@[i]));
        assert(same_assessment(h.assessments@[i], r.compatibility.assessments@[i]));
        assert(is_assessment_of(r.compatibility.assessments@[i], workspace, applicable_languages(workspace)[i]));
    }
}

/// Immutable snapshot of the analysis state, for queries.
#[derive(Clone)]
pub struct Analysis {
    config: RepoConfig,
    profile: GraphProfile,
    compatibility: CompatibilityReport,
    workspace: Option<WorkspaceInfo>,
}

impl Analysis {
    /// The snapshot's configuration.
    pub closed spec fn analysis_config(&self) -> RepoConfig {
        self.config
    }

    /// The snapshot's profile.
    pub closed spec fn analysis_profile(&self) -> GraphProfile {
        self.profile
    }

    /// The snapshot's compatibility report.
    pub closed spec fn analysis_compatibility(&self) -> CompatibilityReport {
        self.compatibility
    }

    /// The snapshot's workspace, if discovery had run.
    pub closed spec fn analysis_workspace(&self) -> Option<WorkspaceInfo> {
        self.workspace
    }

    /// The current compatibility report.
    pub fn compatibility(&self) -> (r: &CompatibilityReport)
        ensures
            *r == self.analysis_compatibility(),
    {
        &self.compatibility
    }

    /// The detected graph profile.
    pub fn profile(&self) -> (r: &GraphProfile)
        ensures
            *r == self.analysis_profile(),
    {
        &self.profile
    }

    /// The workspace, if discovery has run.
    pub fn workspace_info(&self) -> (r: Option<&WorkspaceInfo>)
        ensures
            match self.analysis_workspace() {
                Some(w) => r matches Some(x) && *x == w,
                None => r is None,
            },
    {
        match &self.workspace {
            Some(w) => Some(w),
            None => None,
        }
    }

    /// The loaded configuration.
    pub fn config(&self) -> (r: &RepoConfig)
        ensures
            *r == self.analysis_config(),
    {
        &self.config
    }
}

} // verus!
