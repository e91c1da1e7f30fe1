use std::collections::HashSet;

use codeatlas_core::graph::arch_graph::ArchGraph;
use codeatlas_core::graph::identity::{
    normalize_path, normalize_utf8_path, normalized_utf8_path_buf, EdgeId, MaterializedKey,
};
use codeatlas_core::graph::overlay::{ManualEdge, NodeMetadata, SuppressionReason};
use codeatlas_core::graph::types::{
    Confidence, EdgeCategory, EdgeData, EdgeKind, EntityKind, Language, NodeData, NodeKind,
    OverlayStatus,
};
use codeatlas_core::graph::GraphError;

fn make_node(lang: Language, kind: EntityKind, path: &str) -> NodeData {
    NodeData {
        materialized_key: MaterializedKey::new(lang, kind, path),
        lineage_key: None,
        label: path.to_string(),
        kind: match kind {
            EntityKind::Package => NodeKind::Package,
            EntityKind::Module => NodeKind::Module,
            EntityKind::File => NodeKind::File,
        },
        language: lang,
        parent_key: None,
    }
}

fn make_edge(
    source: &MaterializedKey,
    target: &MaterializedKey,
    kind: EdgeKind,
    category: EdgeCategory,
) -> EdgeData {
    EdgeData {
        edge_id: EdgeId::new(source, target, kind, category),
        source_key: source.clone(),
        target_key: target.clone(),
        kind,
        category,
        confidence: Confidence::Syntactic,
        source_location: None,
        resolution_method: None,
        overlay_status: OverlayStatus::Unaffected,
    }
}

// ---------------------------------------------------------------------------
// Path normalization
// ---------------------------------------------------------------------------

#[test]
fn normalize_removes_dot_prefix() {
    assert_eq!(normalize_path("./src/lib.rs"), "src/lib.rs");
}

#[test]
fn normalize_converts_backslashes() {
    assert_eq!(normalize_path("src\\graph\\mod.rs"), "src/graph/mod.rs");
}

#[test]
fn normalize_removes_trailing_slash() {
    assert_eq!(normalize_path("src/graph/"), "src/graph");
}

#[test]
fn normalize_resolves_parent_dirs() {
    assert_eq!(normalize_path("src/graph/../config/mod.rs"), "src/config/mod.rs");
}

#[test]
fn normalize_idempotent() {
    let path = "src/graph/types.rs";
    assert_eq!(normalize_path(path), path);
    assert_eq!(normalize_path(&normalize_path(path)), path);
}

#[test]
fn normalize_empty_stays_empty() {
    assert_eq!(normalize_path(""), "");
}

#[test]
fn normalize_drops_leading_root_and_inner_dots() {
    assert_eq!(normalize_path("/abs/./x//y"), "abs/x/y");
    assert_eq!(normalize_path("../up/a"), "up/a");
    assert_eq!(normalize_path("a/b/../../c"), "c");
}

#[test]
fn normalize_idempotent_on_messy_input() {
    let messy = ".\\a\\..\\b/./c/";
    let once = normalize_path(messy);
    assert_eq!(once, "b/c");
    assert_eq!(normalize_path(&once), once);
}

#[test]
fn normalize_utf8_variants_agree() {
    assert_eq!(normalize_utf8_path("./src/x/"), "src/x");
    assert_eq!(normalized_utf8_path_buf("src\\y"), "src/y");
}

// ---------------------------------------------------------------------------
// MaterializedKey
// ---------------------------------------------------------------------------

#[test]
fn materialized_key_display() {
    let key = MaterializedKey::new(Language::Rust, EntityKind::File, "src/lib.rs");
    assert_eq!(key.to_string(), "rust:file:src/lib.rs");
}

#[test]
fn materialized_key_normalizes_path() {
    let key = MaterializedKey::new(Language::TypeScript, EntityKind::Module, "./src/graph/");
    assert_eq!(key.relative_path, "src/graph");
    assert_eq!(key.to_string(), "typescript:module:src/graph");
}

#[test]
fn materialized_key_equality() {
    let a = MaterializedKey::new(Language::Rust, EntityKind::Package, "crates/core");
    let b = MaterializedKey::new(Language::Rust, EntityKind::Package, "./crates/core");
    assert_eq!(a, b, "normalized paths should produce equal keys");
}

#[test]
fn materialized_key_inequality_on_language() {
    let a = MaterializedKey::new(Language::Rust, EntityKind::File, "src/lib.rs");
    let b = MaterializedKey::new(Language::TypeScript, EntityKind::File, "src/lib.rs");
    assert_ne!(a, b);
}

#[test]
fn materialized_key_inequality_on_entity_kind() {
    let a = MaterializedKey::new(Language::Rust, EntityKind::File, "src/lib.rs");
    let b = MaterializedKey::new(Language::Rust, EntityKind::Module, "src/lib.rs");
    assert_ne!(a, b);
}

#[test]
fn materialized_key_hashing_consistency() {
    let a = MaterializedKey::new(Language::Rust, EntityKind::File, "src/lib.rs");
    let b = MaterializedKey::new(Language::Rust, EntityKind::File, "./src/lib.rs");

    let mut set = HashSet::new();
    set.insert(a.clone());
    assert!(set.contains(&b), "equal keys must hash the same");
}

#[test]
fn materialized_key_same_as_matches_equality() {
    let a = MaterializedKey::new(Language::Rust, EntityKind::File, "src/lib.rs");
    let b = MaterializedKey::new(Language::Rust, EntityKind::File, "src//lib.rs");
    let c = MaterializedKey::new(Language::Rust, EntityKind::File, "src/main.rs");
    assert!(a.same_as(&b));
    assert!(!a.same_as(&c));
}

// ---------------------------------------------------------------------------
// EdgeId
// ---------------------------------------------------------------------------

#[test]
fn edge_id_deterministic() {
    let src = MaterializedKey::new(Language::Rust, EntityKind::File, "src/lib.rs");
    let tgt = MaterializedKey::new(Language::Rust, EntityKind::File, "src/graph/mod.rs");

    let id1 = EdgeId::new(&src, &tgt, EdgeKind::Imports, EdgeCategory::Value);
    let id2 = EdgeId::new(&src, &tgt, EdgeKind::Imports, EdgeCategory::Value);
    assert_eq!(id1, id2);
}

#[test]
fn edge_id_differs_by_category() {
    let src = MaterializedKey::new(Language::TypeScript, EntityKind::File, "src/index.ts");
    let tgt = MaterializedKey::new(Language::TypeScript, EntityKind::File, "src/types.ts");

    let value_edge = EdgeId::new(&src, &tgt, EdgeKind::Imports, EdgeCategory::Value);
    let type_edge = EdgeId::new(&src, &tgt, EdgeKind::Imports, EdgeCategory::TypeOnly);
    assert_ne!(value_edge, type_edge, "parallel edges with different categories get different IDs");
}

#[test]
fn edge_id_differs_by_kind() {
    let src = MaterializedKey::new(Language::Rust, EntityKind::Package, "crates/a");
    let tgt = MaterializedKey::new(Language::Rust, EntityKind::Package, "crates/b");

    let depends = EdgeId::new(&src, &tgt, EdgeKind::DependsOn, EdgeCategory::Normal);
    let manual = EdgeId::new(&src, &tgt, EdgeKind::Manual, EdgeCategory::Normal);
    assert_ne!(depends, manual);
}

#[test]
fn edge_id_direction_matters() {
    let a = MaterializedKey::new(Language::Rust, EntityKind::File, "src/a.rs");
    let b = MaterializedKey::new(Language::Rust, EntityKind::File, "src/b.rs");

    let ab = EdgeId::new(&a, &b, EdgeKind::Imports, EdgeCategory::Value);
    let ba = EdgeId::new(&b, &a, EdgeKind::Imports, EdgeCategory::Value);
    assert_ne!(ab, ba, "edge direction must affect identity");
}

#[test]
fn edge_id_is_sixteen_lowercase_hex_digits() {
    let a = MaterializedKey::new(Language::Rust, EntityKind::File, "src/a.rs");
    let b = MaterializedKey::new(Language::Rust, EntityKind::File, "src/b.rs");
    let id = EdgeId::new(&a, &b, EdgeKind::Imports, EdgeCategory::Value);
    let text = id.to_string();
    assert_eq!(text.len(), 16);
    assert!(text.chars().all(|c| c.is_ascii_digit() || ('a'..='f').contains(&c)));
}

#[test]
fn edge_id_same_for_equivalent_paths() {
    let a1 = MaterializedKey::new(Language::Rust, EntityKind::File, "src/a.rs");
    let a2 = MaterializedKey::new(Language::Rust, EntityKind::File, "./src/a.rs");
    let b = MaterializedKey::new(Language::Rust, EntityKind::File, "src/b.rs");
    let id1 = EdgeId::new(&a1, &b, EdgeKind::Imports, EdgeCategory::Value);
    let id2 = EdgeId::new(&a2, &b, EdgeKind::Imports, EdgeCategory::Value);
    assert!(id1.same_as(&id2));
}

// ---------------------------------------------------------------------------
// Types
// ---------------------------------------------------------------------------

#[test]
fn language_display() {
    assert_eq!(Language::Rust.to_string(), "rust");
    assert_eq!(Language::TypeScript.to_string(), "typescript");
    assert_eq!(Language::JavaScript.to_string(), "javascript");
    assert_eq!(Language::Unknown.to_string(), "unknown");
}

#[test]
fn entity_kind_display() {
    assert_eq!(EntityKind::Package.to_string(), "package");
    assert_eq!(EntityKind::Module.to_string(), "module");
    assert_eq!(EntityKind::File.to_string(), "file");
}

#[test]
fn confidence_ordering() {
    assert!(Confidence::StructureOnly < Confidence::Syntactic);
    assert!(Confidence::Syntactic < Confidence::ResolverAware);
    assert!(Confidence::ResolverAware < Confidence::Semantic);
    assert!(Confidence::Semantic < Confidence::Runtime);
}

#[test]
fn confidence_rank_follows_ordering() {
    let all = [
        Confidence::StructureOnly,
        Confidence::Syntactic,
        Confidence::ResolverAware,
        Confidence::Semantic,
        Confidence::Runtime,
    ];
    for (i, a) in all.iter().enumerate() {
        assert_eq!(a.rank() as usize, i);
        for b in all.iter() {
            assert_eq!(a.less_confident_than(b), a < b);
        }
    }
}

// ---------------------------------------------------------------------------
// ArchGraph
// ---------------------------------------------------------------------------

#[test]
fn add_node_succeeds() {
    let mut graph = ArchGraph::new();
    let node = make_node(Language::Rust, EntityKind::Package, "crates/core");
    assert!(graph.add_node(node).is_ok());
    assert_eq!(graph.node_count(), 1);
}

#[test]
fn duplicate_node_rejected() {
    let mut graph = ArchGraph::new();
    let node1 = make_node(Language::Rust, EntityKind::Package, "crates/core");
    let node2 = make_node(Language::Rust, EntityKind::Package, "crates/core");

    assert!(graph.add_node(node1).is_ok());
    let err = graph.add_node(node2).unwrap_err();
    assert!(
        matches!(err, GraphError::DuplicateNode { .. }),
        "expected DuplicateNode error, got: {err:?}"
    );
}

#[test]
fn add_edge_succeeds() {
    let mut graph = ArchGraph::new();
    let n1 = make_node(Language::Rust, EntityKind::File, "src/a.rs");
    let n2 = make_node(Language::Rust, EntityKind::File, "src/b.rs");
    let k1 = n1.materialized_key.clone();
    let k2 = n2.materialized_key.clone();

    graph.add_node(n1).unwrap();
    graph.add_node(n2).unwrap();

    let edge = make_edge(&k1, &k2, EdgeKind::Imports, EdgeCategory::Value);
    assert!(graph.add_edge(edge).is_ok());
    assert_eq!(graph.edge_count(), 1);
}

#[test]
fn edge_to_missing_node_rejected() {
    let mut graph = ArchGraph::new();
    let n1 = make_node(Language::Rust, EntityKind::File, "src/a.rs");
    let k1 = n1.materialized_key.clone();
    let k2 = MaterializedKey::new(Language::Rust, EntityKind::File, "src/missing.rs");

    graph.add_node(n1).unwrap();

    let edge = make_edge(&k1, &k2, EdgeKind::Imports, EdgeCategory::Value);
    let err = graph.add_edge(edge).unwrap_err();
    assert!(matches!(err, GraphError::NodeNotFound { .. }));
}

#[test]
fn edge_from_missing_source_names_the_source() {
    let mut graph = ArchGraph::new();
    let n2 = make_node(Language::Rust, EntityKind::File, "src/b.rs");
    let k2 = n2.materialized_key.clone();
    graph.add_node(n2).unwrap();
    let k1 = MaterializedKey::new(Language::Rust, EntityKind::File, "src/a.rs");
    let edge = make_edge(&k1, &k2, EdgeKind::Imports, EdgeCategory::Value);
    match graph.add_edge(edge) {
        Err(GraphError::NodeNotFound { key }) => assert_eq!(key, k1),
        other => panic!("unexpected: {other:?}"),
    }
    assert_eq!(graph.edge_count(), 0);
}

#[test]
fn duplicate_edge_rejected() {
    let mut graph = ArchGraph::new();
    let n1 = make_node(Language::Rust, EntityKind::File, "src/a.rs");
    let n2 = make_node(Language::Rust, EntityKind::File, "src/b.rs");
    let k1 = n1.materialized_key.clone();
    let k2 = n2.materialized_key.clone();

    graph.add_node(n1).unwrap();
    graph.add_node(n2).unwrap();

    let edge1 = make_edge(&k1, &k2, EdgeKind::Imports, EdgeCategory::Value);
    let edge2 = make_edge(&k1, &k2, EdgeKind::Imports, EdgeCategory::Value);
    assert!(graph.add_edge(edge1).is_ok());
    let err = graph.add_edge(edge2).unwrap_err();
    assert!(matches!(err, GraphError::DuplicateEdge { .. }));
}

#[test]
fn parallel_edges_with_different_categories_allowed() {
    let mut graph = ArchGraph::new();
    let n1 = make_node(Language::TypeScript, EntityKind::File, "src/index.ts");
    let n2 = make_node(Language::TypeScript, EntityKind::File, "src/types.ts");
    let k1 = n1.materialized_key.clone();
    let k2 = n2.materialized_key.clone();

    graph.add_node(n1).unwrap();
    graph.add_node(n2).unwrap();

    let value_edge = make_edge(&k1, &k2, EdgeKind::Imports, EdgeCategory::Value);
    let type_edge = make_edge(&k1, &k2, EdgeKind::Imports, EdgeCategory::TypeOnly);

    assert!(graph.add_edge(value_edge).is_ok());
    assert!(graph.add_edge(type_edge).is_ok());
    assert_eq!(graph.edge_count(), 2);
}

#[test]
fn overlay_cannot_mutate_discovered_nodes() {
    let mut graph = ArchGraph::new();
    let node = make_node(Language::Rust, EntityKind::Package, "crates/core");
    let key = node.materialized_key.clone();
    graph.add_node(node).unwrap();

    graph.overlay_mut().metadata.insert(
        key.clone(),
        NodeMetadata {
            tags: vec!["public".to_string()],
            layer: Some("core".to_string()),
            owner: None,
        },
    );

    assert!(graph.contains_node(&key));
    assert_eq!(graph.node(&key).unwrap().label, "crates/core");
}

#[test]
fn overlay_suppression_does_not_remove_edge() {
    let mut graph = ArchGraph::new();
    let n1 = make_node(Language::Rust, EntityKind::File, "src/a.rs");
    let n2 = make_node(Language::Rust, EntityKind::File, "src/b.rs");
    let k1 = n1.materialized_key.clone();
    let k2 = n2.materialized_key.clone();

    graph.add_node(n1).unwrap();
    graph.add_node(n2).unwrap();

    let edge = make_edge(&k1, &k2, EdgeKind::Imports, EdgeCategory::Value);
    let edge_id = edge.edge_id.clone();
    graph.add_edge(edge).unwrap();

    graph.overlay_mut().suppressions.insert(
        edge_id.clone(),
        SuppressionReason { reason: "dead code".to_string() },
    );

    assert!(graph.contains_edge(&edge_id));
    assert!(graph.edge(&edge_id).is_some());
    assert_eq!(graph.edge_count(), 1, "suppression must not remove edge");
}

#[test]
fn node_lookup_by_key() {
    let mut graph = ArchGraph::new();
    let node = make_node(Language::Rust, EntityKind::Package, "crates/core");
    let key = node.materialized_key.clone();

    graph.add_node(node).unwrap();

    let found = graph.node(&key).unwrap();
    assert_eq!(found.label, "crates/core");
    assert_eq!(found.language, Language::Rust);
}

#[test]
fn node_index_and_listing_follow_insertion_order() {
    let mut graph = ArchGraph::new();
    let a = make_node(Language::Rust, EntityKind::File, "src/a.rs");
    let b = make_node(Language::Rust, EntityKind::File, "src/b.rs");
    let ka = a.materialized_key.clone();
    let kb = b.materialized_key.clone();
    assert_eq!(graph.add_node(a).unwrap(), 0);
    assert_eq!(graph.add_node(b).unwrap(), 1);
    assert_eq!(graph.node_index(&ka), Some(0));
    assert_eq!(graph.node_index(&kb), Some(1));
    let missing = MaterializedKey::new(Language::Rust, EntityKind::File, "src/c.rs");
    assert_eq!(graph.node_index(&missing), None);
    assert!(graph.node(&missing).is_none());
    let listed = graph.nodes();
    assert_eq!(listed.len(), 2);
    assert_eq!(listed[0].label, "src/a.rs");
    assert_eq!(listed[1].label, "src/b.rs");

    let e = make_edge(&ka, &kb, EdgeKind::Imports, EdgeCategory::Value);
    let id = e.edge_id.clone();
    graph.add_edge(e).unwrap();
    let edges = graph.edges();
    assert_eq!(edges.len(), 1);
    assert_eq!(edges[0].edge_id, id);
}

#[test]
fn overlay_operations_keep_discovered_layer() {
    let mut graph = ArchGraph::new();
    let a = make_node(Language::Rust, EntityKind::File, "src/a.rs");
    let b = make_node(Language::Rust, EntityKind::File, "src/b.rs");
    let ka = a.materialized_key.clone();
    let kb = b.materialized_key.clone();
    graph.add_node(a).unwrap();
    graph.add_node(b).unwrap();
    let e = make_edge(&ka, &kb, EdgeKind::Imports, EdgeCategory::Value);
    let id = e.edge_id.clone();
    graph.add_edge(e).unwrap();

    graph.overlay_add_manual_edge(ManualEdge {
        from: "src/a.rs".to_string(),
        to: "src/b.rs".to_string(),
        reason: "runtime".to_string(),
    });
    graph.overlay_suppress(id.clone(), SuppressionReason { reason: "legacy".to_string() });

    assert_eq!(graph.overlay().manual_edges.len(), 1);
    assert!(graph.overlay().suppressions.contains_key(&id));
    assert_eq!(graph.overlay().suppressions.get(&id).unwrap().reason, "legacy");
    assert_eq!(graph.node_count(), 2);
    assert_eq!(graph.edge_count(), 1);
}

#[test]
fn added_node_reads_back_and_others_stay() {
    let mut graph = ArchGraph::new();
    let a = make_node(Language::Rust, EntityKind::File, "src/a.rs");
    let b = make_node(Language::Rust, EntityKind::File, "src/B.rs");
    let ka = a.materialized_key.clone();
    let kb = b.materialized_key.clone();
    graph.add_node(a).unwrap();
    let before = graph.node(&ka).unwrap().label.clone();
    graph.add_node(b).unwrap();
    assert_eq!(graph.node(&kb).unwrap().label, "src/B.rs");
    assert_eq!(graph.node(&ka).unwrap().label, before);
    assert_eq!(graph.node_count(), 2);
}

#[test]
fn normalize_keeps_letter_case() {
    assert_eq!(normalize_path("Src\\Graph/./Mod.RS"), "Src/Graph/Mod.RS");
}
