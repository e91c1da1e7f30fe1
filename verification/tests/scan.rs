use codeatlas_core::config::schema::{
    DependencyOverlays, ManualEdgeConfig, RepoConfig, SuppressionConfig,
};
use codeatlas_core::detector::{CompatibilityAssessment, DetectorReport};
use codeatlas_core::graph::identity::{EdgeId, MaterializedKey};
use codeatlas_core::graph::types::{
    Confidence, EdgeCategory, EdgeData, EdgeKind, EntityKind, Language, NodeData, NodeKind,
    OverlayStatus, SourceLocation, UnresolvedImport, UnresolvedReason, UnsupportedConstruct,
    UnsupportedConstructType,
};
use codeatlas_core::health::compatibility::SupportStatus;
use codeatlas_core::scan::pipeline::{
    complete_scan, enrich_compatibility, find_node_by_path, merge_into_graph, scan_phase, scan_step,
    ScanAction, ScanEvent, ScanStage,
};
use codeatlas_core::scan::ScanPhase;

fn node(kind: EntityKind, path: &str) -> NodeData {
    NodeData {
        materialized_key: MaterializedKey::new(Language::Rust, kind, path),
        lineage_key: None,
        label: path.to_string(),
        kind: match kind {
            EntityKind::Package => NodeKind::Package,
            EntityKind::Module => NodeKind::Module,
            EntityKind::File => NodeKind::File,
        },
        language: Language::Rust,
        parent_key: None,
    }
}

fn edge(source: &NodeData, target: &NodeData, kind: EdgeKind, category: EdgeCategory) -> EdgeData {
    let s = source.materialized_key.clone();
    let t = target.materialized_key.clone();
    EdgeData {
        edge_id: EdgeId::new(&s, &t, kind, category),
        source_key: s,
        target_key: t,
        kind,
        category,
        confidence: Confidence::Syntactic,
        source_location: None,
        resolution_method: None,
        overlay_status: OverlayStatus::Unaffected,
    }
}

fn sample() -> (Vec<NodeData>, Vec<EdgeData>) {
    let a = node(EntityKind::Package, "crates/a");
    let b = node(EntityKind::Package, "crates/b");
    let m = node(EntityKind::Module, "crates/a/src/graph");
    let f1 = node(EntityKind::File, "crates/a/src/lib.rs");
    let f2 = node(EntityKind::File, "crates/a/src/graph/mod.rs");
    let edges = vec![
        edge(&a, &b, EdgeKind::DependsOn, EdgeCategory::Normal),
        edge(&a, &m, EdgeKind::Contains, EdgeCategory::Normal),
        edge(&m, &f2, EdgeKind::Contains, EdgeCategory::Normal),
        edge(&f1, &f2, EdgeKind::Imports, EdgeCategory::Normal),
    ];
    (vec![a, b, m, f1, f2], edges)
}

#[test]
fn phases_partition_nodes_by_kind() {
    let (nodes, edges) = sample();
    let (pn, pe) = scan_phase(ScanPhase::PackageTopology, &nodes, &edges);
    let (mn, me) = scan_phase(ScanPhase::ModuleStructure, &nodes, &edges);
    let (fnodes, fe) = scan_phase(ScanPhase::FileEdges, &nodes, &edges);
    assert_eq!(pn.len(), 2);
    assert_eq!(mn.len(), 1);
    assert_eq!(fnodes.len(), 2);
    assert_eq!(pn.len() + mn.len() + fnodes.len(), nodes.len());
    assert_eq!(pe.len(), 1);
    assert_eq!(pe[0].kind, EdgeKind::DependsOn);
    assert_eq!(me.len(), 1);
    assert_eq!(me[0].target_key.relative_path, "crates/a/src/graph");
    assert_eq!(fe.len(), 2);
}

#[test]
fn merge_skips_duplicates_and_dangling_edges() {
    let (mut nodes, mut edges) = sample();
    nodes.push(node(EntityKind::Package, "crates/a"));
    let ghost_node = node(EntityKind::File, "crates/z/src/lib.rs");
    edges.push(edge(&nodes[0], &ghost_node, EdgeKind::Imports, EdgeCategory::Normal));
    edges.push(edge(&nodes[0], &nodes[1], EdgeKind::DependsOn, EdgeCategory::Normal));
    let g = merge_into_graph(&nodes, &edges);
    assert_eq!(g.node_count(), 5);
    assert_eq!(g.edge_count(), 4);
}

#[test]
fn configured_paths_name_nodes() {
    let (nodes, edges) = sample();
    let g = merge_into_graph(&nodes, &edges);
    assert_eq!(find_node_by_path(&g, "./crates/a").unwrap().entity_kind, EntityKind::Package);
    assert_eq!(
        find_node_by_path(&g, "crates/a/src/lib.rs").unwrap().relative_path,
        "crates/a/src/lib.rs"
    );
    assert_eq!(find_node_by_path(&g, "crates/a/src").unwrap().relative_path, "crates/a/src/graph");
    assert!(find_node_by_path(&g, "crates/zzz").is_none());
}

#[test]
fn complete_scan_applies_overlay_and_counts() {
    let (nodes, edges) = sample();
    let config = RepoConfig {
        dependencies: DependencyOverlays {
            add: vec![
                ManualEdgeConfig { from: "crates/b".to_string(), to: "crates/a".to_string(), reason: "runtime".to_string() },
                ManualEdgeConfig { from: "crates/b".to_string(), to: "crates/nowhere".to_string(), reason: "x".to_string() },
            ],
            suppress: vec![SuppressionConfig {
                from: "crates/a".to_string(),
                to: "crates/b".to_string(),
                reason: "legacy".to_string(),
            }],
        },
        ..RepoConfig::default_config()
    };
    let mut report = DetectorReport::new();
    report.unresolved_imports.push(UnresolvedImport {
        source_file: "crates/a/src/lib.rs".to_string(),
        specifier: "serde".to_string(),
        reason: UnresolvedReason::ExternalCrate,
    });
    report.unsupported_constructs.push(UnsupportedConstruct {
        construct_type: UnsupportedConstructType::CfgGate,
        location: SourceLocation { path: "crates/a/src/lib.rs".to_string(), start_line: 3, end_line: 4 },
        impact: "i".to_string(),
        how_to_address: "h".to_string(),
    });
    let assessment = CompatibilityAssessment {
        language: Language::Rust,
        status: SupportStatus::Supported,
        details: Vec::new(),
    };
    let o = complete_scan(&config, vec![report], nodes, edges, vec![assessment]);

    assert_eq!(o.package_phase.0.len(), 2);
    assert_eq!(o.health.total_nodes, 5);
    assert_eq!(o.health.resolved_edges, 4);
    assert_eq!(o.health.unresolved_imports, 1);
    assert_eq!(o.health.unsupported_constructs, 1);
    assert_eq!(o.health.parse_failures, 0);
    assert_eq!(o.manual_edges.len(), 1);
    assert_eq!(o.manual_edges[0].kind, EdgeKind::Manual);
    assert_eq!(o.suppressed_edge_ids.len(), 1);
    assert_eq!(o.graph.edge_count(), 4);
    assert!(!o.compatibility.is_provisional);
    let details = &o.compatibility.assessments[0].details;
    assert_eq!(details.len(), 1);
    assert_eq!(details[0].feature, "Source-level cfg gates");
    assert!(details[0].explanation.starts_with("1 #[cfg(...)] gate(s)"));
    assert_eq!(o.results.nodes.len(), 5);
    assert_eq!(o.results.unresolved_imports.len(), 1);
}

#[test]
fn enrichment_counts_dynamic_imports() {
    let construct = |t: UnsupportedConstructType| UnsupportedConstruct {
        construct_type: t,
        location: SourceLocation { path: "src/a.ts".to_string(), start_line: 1, end_line: 1 },
        impact: String::new(),
        how_to_address: String::new(),
    };
    let cs = vec![
        construct(UnsupportedConstructType::DynamicImport),
        construct(UnsupportedConstructType::DynamicImport),
    ];
    let a = CompatibilityAssessment { language: Language::TypeScript, status: SupportStatus::Partial, details: Vec::new() };
    let r = enrich_compatibility(vec![a], &cs);
    assert_eq!(r.assessments[0].details.len(), 1);
    assert_eq!(
        r.assessments[0].details[0].explanation,
        "2 dynamic import() call(s) detected — not statically resolved"
    );
}

#[test]
fn health_counts_distinct_keys_and_in_graph_edge_ids() {
    let (mut nodes, mut edges) = sample();
    nodes.push(node(EntityKind::Package, "crates/a"));
    nodes.push(node(EntityKind::Package, "./crates/a"));
    let ghost_node = node(EntityKind::File, "crates/z/src/lib.rs");
    edges.push(edge(&nodes[0], &ghost_node, EdgeKind::Imports, EdgeCategory::Normal));
    edges.push(edges[0].clone());
    let mut distinct_keys: Vec<String> = nodes.iter().map(|n| n.materialized_key.to_string()).collect();
    distinct_keys.sort();
    distinct_keys.dedup();
    let o = complete_scan(&RepoConfig::default_config(), Vec::new(), nodes, edges, Vec::new());
    assert_eq!(o.health.total_nodes, distinct_keys.len());
    assert_eq!(o.health.total_nodes, 5);
    assert_eq!(o.health.resolved_edges, 4);
}

#[test]
fn scan_steps_run_detectors_in_order_then_phases() {
    let mut stage = ScanStage::Detecting(0);
    let mut actions = Vec::new();
    for _ in 0..5 {
        let (next, action) = scan_step(stage, 2, ScanEvent::Ready);
        stage = next;
        actions.push(action);
    }
    assert_eq!(
        actions,
        vec![
            ScanAction::RunDetector(0),
            ScanAction::RunDetector(1),
            ScanAction::CompleteAndSendPackages,
            ScanAction::SendModules,
            ScanAction::SendFilesAndReport,
        ]
    );
    assert_eq!(stage, ScanStage::Finished);
    assert_eq!(scan_step(stage, 2, ScanEvent::Ready), (ScanStage::Finished, ScanAction::Idle));
}

#[test]
fn scan_steps_stop_on_cancel_or_failure() {
    assert_eq!(
        scan_step(ScanStage::Detecting(1), 2, ScanEvent::Cancelled),
        (ScanStage::Finished, ScanAction::StopCancelled)
    );
    assert_eq!(
        scan_step(ScanStage::Detecting(1), 2, ScanEvent::DetectorFailed),
        (ScanStage::Finished, ScanAction::StopFailed)
    );
    assert_eq!(
        scan_step(ScanStage::Modules, 2, ScanEvent::Cancelled),
        (ScanStage::Finished, ScanAction::StopCancelled)
    );
    assert_eq!(scan_step(ScanStage::Files, 0, ScanEvent::Ready), (ScanStage::Finished, ScanAction::SendFilesAndReport));
}
