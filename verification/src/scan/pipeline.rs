//! The scan pipeline's decisions: which nodes and edges each phase
//! delivers, how detector output is merged into the graph, how the
//! configuration overlay is applied, and what health and compatibility are
//! reported afterwards.
//!
//! Running the detectors, checking for cancellation and streaming to sinks
//! happen at the edge, around these functions.

use vstd::prelude::*;

use crate::config::schema::{ManualEdgeConfig, RepoConfig, SuppressionConfig};
use crate::detector::{CompatibilityAssessment, DetectorError, DetectorReport};
use crate::graph::arch_graph::{index_limit, ArchGraph};
use crate::graph::identity::{edge_id_of, normalize_path, normalized, EdgeId, KeyView, MaterializedKey};
use crate::graph::overlay::{keys_distinct, value_of, ManualEdge, SuppressionReason};
use crate::graph::types::{
    construct_views, edge_views, failure_views, lemma_edge_views_push, lemma_node_views_push, node_views,
    unresolved_views, ConstructView, Confidence, EdgeCategory, EdgeData, EdgeKind, EdgeView, Language,
    NodeData, NodeKind, NodeView, OverlayStatus, OverlayView, ParseFailure, ParseFailureView, UnresolvedImport,
    UnresolvedView, UnsupportedConstruct, UnsupportedConstructType,
};
use crate::health::compatibility::{
    detail, detail_view, details_view, CompatibilityDetail, CompatibilityReport, SupportStatus,
};
use crate::health::graph_health::GraphHealth;
use crate::scan::ScanResults;
use crate::graph::GraphError;
use crate::text::{decimal, decimal_string, is_prefix, push_all, push_char, starts_with};

verus! {

/// Errors of a scan pipeline run.
#[derive(Debug)]
pub enum ScanError {
    /// The scan was cancelled.
    Cancelled,
    /// A detector failed.
    Detector(DetectorError),
    /// The graph refused an addition.
    Graph(GraphError),
}

// ---------------------------------------------------------------------------
// Phases
// ---------------------------------------------------------------------------

/// The node kind each phase delivers.
pub open spec fn phase_kind(phase: crate::scan::ScanPhase) -> NodeKind {
    match phase {
        crate::scan::ScanPhase::PackageTopology => NodeKind::Package,
        crate::scan::ScanPhase::ModuleStructure => NodeKind::Module,
        crate::scan::ScanPhase::FileEdges => NodeKind::File,
    }
}

/// Whether some node has key `key`.
pub open spec fn key_in(nodes: Seq<NodeView>, key: KeyView) -> bool {
    exists|i: int| 0 <= i < nodes.len() && #[trigger] nodes[i].key == key
}

/// Whether a phase delivers edge `e`, given the nodes it delivers: package
/// topology takes dependency edges and containment between its packages;
/// module structure takes containment of its modules; file edges take
/// imports, re-exports and containment of its files.
pub open spec fn phase_takes_edge(phase: crate::scan::ScanPhase, phase_nodes: Seq<NodeView>, e: EdgeView) -> bool {
    match phase {
        crate::scan::ScanPhase::PackageTopology => e.kind == EdgeKind::DependsOn || (e.kind
            == EdgeKind::Contains && key_in(phase_nodes, e.source) && key_in(phase_nodes, e.target)),
        crate::scan::ScanPhase::ModuleStructure => e.kind == EdgeKind::Contains && key_in(
            phase_nodes,
            e.target,
        ),
        crate::scan::ScanPhase::FileEdges => e.kind == EdgeKind::Imports || e.kind
            == EdgeKind::ReExports || (e.kind == EdgeKind::Contains && key_in(phase_nodes, e.target)),
    }
}

/// The nodes a phase delivers: those of its kind, in order.
pub open spec fn phase_nodes(phase: crate::scan::ScanPhase, nodes: Seq<NodeView>) -> Seq<NodeView> {
    nodes.filter(|n: NodeView| n.kind == phase_kind(phase))
}

/// The edges a phase delivers, in order.
pub open spec fn phase_edges(phase: crate::scan::ScanPhase, nodes: Seq<NodeView>, edges: Seq<EdgeView>) -> Seq<EdgeView> {
    edges.filter(|e: EdgeView| phase_takes_edge(phase, phase_nodes(phase, nodes), e))
}

/// The phase that delivers nodes of kind `kind`.
pub open spec fn phase_of_kind(kind: NodeKind) -> crate::scan::ScanPhase {
    match kind {
        NodeKind::Package => crate::scan::ScanPhase::PackageTopology,
        NodeKind::Module => crate::scan::ScanPhase::ModuleStructure,
        NodeKind::File => crate::scan::ScanPhase::FileEdges,
    }
}

/// The three phases deliver every node exactly once: each node is delivered
/// by the phase of its kind, each phase delivers only nodes of its kind,
/// and the phases' node counts add up to the number of nodes.
pub proof fn lemma_phases_partition_nodes(nodes: Seq<NodeView>)
    ensures
        phase_nodes(crate::scan::ScanPhase::PackageTopology, nodes).len() + phase_nodes(
            crate::scan::ScanPhase::ModuleStructure,
            nodes,
        ).len() + phase_nodes(crate::scan::ScanPhase::FileEdges, nodes).len() == nodes.len(),
        forall|i: int|
            0 <= i < nodes.len() ==> #[trigger] phase_nodes(phase_of_kind(nodes[i].kind), nodes).contains(
                nodes[i],
            ),
        forall|phase: crate::scan::ScanPhase, i: int|
            0 <= i < phase_nodes(phase, nodes).len() ==> #[trigger] phase_nodes(phase, nodes)[i].kind
                == phase_kind(phase),
    decreases nodes.len(),
{
    reveal(Seq::filter);
    if nodes.len() > 0 {
        lemma_phases_partition_nodes(nodes.drop_last());
    }
    assert forall|i: int| 0 <= i < nodes.len() implies #[trigger] phase_nodes(
        phase_of_kind(nodes[i].kind),
        nodes,
    ).contains(nodes[i]) by {
        let phase = phase_of_kind(nodes[i].kind);
        nodes.lemma_filter_contains(|n: NodeView| n.kind == phase_kind(phase), i);
    }
    assert forall|phase: crate::scan::ScanPhase, i: int|
        0 <= i < phase_nodes(phase, nodes).len() implies #[trigger] phase_nodes(phase, nodes)[i].kind
        == phase_kind(phase) by {
        broadcast use vstd::seq_lib::group_filter_ensures;
        let pred = |n: NodeView| n.kind == phase_kind(phase);
        assert(pred(nodes.filter(pred)[i]));
    }
}

/// Whether some node has key `key`.
fn has_key(nodes: &Vec<NodeData>, key: &MaterializedKey) -> (r: bool)
    ensures
        r == key_in(node_views(nodes@), key@),
{
    let mut i: usize = 0;
    while i < nodes.len()
        invariant
            i <= nodes@.len(),
            forall|j: int| 0 <= j < i ==> #[trigger] node_views(nodes@)[j].key != key@,
        decreases nodes@.len() - i,
    {
        if nodes[i].materialized_key.same_as(key) {
            assert(node_views(nodes@)[i as int].key == key@);
            return true;
        }
        i = i + 1;
    }
    false
}

/// The nodes and edges delivered in `phase` (see [`phase_nodes`] and
/// [`phase_edges`]).
pub fn scan_phase(phase: crate::scan::ScanPhase, nodes: &Vec<NodeData>, edges: &Vec<EdgeData>) -> (r: (Vec<NodeData>, Vec<EdgeData>))
    ensures
        node_views(r.0@) == phase_nodes(phase, node_views(nodes@)),
        edge_views(r.1@) == phase_edges(phase, node_views(nodes@), edge_views(edges@)),
{
    let kind = match phase {
        crate::scan::ScanPhase::PackageTopology => NodeKind::Package,
        crate::scan::ScanPhase::ModuleStructure => NodeKind::Module,
        crate::scan::ScanPhase::FileEdges => NodeKind::File,
    };
    let ghost np = |n: NodeView| n.kind == phase_kind(phase);
    let ghost nv = node_views(nodes@);
    let mut selected: Vec<NodeData> = Vec::new();
    let mut i: usize = 0;
    while i < nodes.len()
        invariant
            i <= nodes@.len(),
            kind == phase_kind(phase),
            nv == node_views(nodes@),
            np == (|n: NodeView| n.kind == phase_kind(phase)),
            node_views(selected@) == nv.take(i as int).filter(np),
        decreases nodes@.len() - i,
    {
        let n = &nodes[i];
        proof {
            reveal(Seq::filter);
            assert(nv.take(i + 1).drop_last() =~= nv.take(i as int));
            assert(nv.take(i + 1).last() == n@);
        }
        if n.kind == kind {
            let c = n.clone();
            proof {
                lemma_node_views_push(selected@, c);
            }
            selected.push(c);
        }
        i = i + 1;
    }
    assert(nv.take(nodes@.len() as int) =~= nv);
    let ghost sv = node_views(selected@);
    let ghost ep = |e: EdgeView| phase_takes_edge(phase, sv, e);
    let ghost ev = edge_views(edges@);
    let mut taken: Vec<EdgeData> = Vec::new();
    let mut i: usize = 0;
    while i < edges.len()
        invariant
            i <= edges@.len(),
            sv == node_views(selected@),
            ev == edge_views(edges@),
            ep == (|e: EdgeView| phase_takes_edge(phase, sv, e)),
            edge_views(taken@) == ev.take(i as int).filter(ep),
        decreases edges@.len() - i,
    {
        let e = &edges[i];
        proof {
            reveal(Seq::filter);
            assert(ev.take(i + 1).drop_last() =~= ev.take(i as int));
            assert(ev.take(i + 1).last() == e@);
        }
        let take = match phase {
            crate::scan::ScanPhase::PackageTopology => e.kind == EdgeKind::DependsOn || (e.kind
                == EdgeKind::Contains && has_key(&selected, &e.source_key) && has_key(
                &selected,
                &e.target_key,
            )),
            crate::scan::ScanPhase::ModuleStructure => e.kind == EdgeKind::Contains && has_key(
                &selected,
                &e.target_key,
            ),
            crate::scan::ScanPhase::FileEdges => e.kind == EdgeKind::Imports || e.kind
                == EdgeKind::ReExports || (e.kind == EdgeKind::Contains && has_key(
                &selected,
                &e.target_key,
            )),
        };
        assert(take == ep(e@));
        if take {
            let c = e.clone();
            proof {
                lemma_edge_views_push(taken@, c);
            }
            taken.push(c);
        }
        i = i + 1;
    }
    assert(ev.take(edges@.len() as int) =~= ev);
    (selected, taken)
}

// ---------------------------------------------------------------------------
// Merging into the graph
// ---------------------------------------------------------------------------

/// The nodes kept when merging: each node whose key was not already kept,
/// in order.
pub open spec fn merged_nodes(nodes: Seq<NodeView>) -> Seq<NodeView>
    decreases nodes.len(),
{
    if nodes.len() == 0 {
        Seq::empty()
    } else {
        let kept = merged_nodes(nodes.drop_last());
        if key_in(kept, nodes.last().key) {
            kept
        } else {
            kept.push(nodes.last())
        }
    }
}

/// Whether some edge has identity `id`.
pub open spec fn id_in(edges: Seq<EdgeView>, id: Seq<char>) -> bool {
    exists|i: int| 0 <= i < edges.len() && #[trigger] edges[i].edge_id == id
}

/// The edges kept when merging into a graph with nodes `nodes`: each edge
/// whose identity was not already kept and whose endpoints are nodes, in
/// order.
pub open spec fn merged_edges(nodes: Seq<NodeView>, edges: Seq<EdgeView>) -> Seq<EdgeView>
    decreases edges.len(),
{
    if edges.len() == 0 {
        Seq::empty()
    } else {
        let kept = merged_edges(nodes, edges.drop_last());
        let e = edges.last();
        if id_in(kept, e.edge_id) || !key_in(nodes, e.source) || !key_in(nodes, e.target) {
            kept
        } else {
            kept.push(e)
        }
    }
}

/// The keys of nodes, in order.
pub open spec fn node_keys(ns: Seq<NodeView>) -> Seq<KeyView> {
    ns.map_values(|n: NodeView| n.key)
}

/// The identities of edges, in order.
pub open spec fn edge_ids_of(es: Seq<EdgeView>) -> Seq<Seq<char>> {
    es.map_values(|e: EdgeView| e.edge_id)
}

/// The identities, in order, of the edges of `es` whose two endpoints are
/// keys of the nodes `ns`.
pub open spec fn in_graph_edge_ids(ns: Seq<NodeView>, es: Seq<EdgeView>) -> Seq<Seq<char>>
    decreases es.len(),
{
    if es.len() == 0 {
        Seq::empty()
    } else {
        let rest = in_graph_edge_ids(ns, es.drop_last());
        let e = es.last();
        if key_in(ns, e.source) && key_in(ns, e.target) {
            rest.push(e.edge_id)
        } else {
            rest
        }
    }
}

/// Merging keeps each key once: the kept keys are distinct and are the
/// keys of the nodes merged.
pub proof fn lemma_merged_nodes_keys(ns: Seq<NodeView>)
    ensures
        node_keys(merged_nodes(ns)).no_duplicates(),
        node_keys(merged_nodes(ns)).to_set() == node_keys(ns).to_set(),
    decreases ns.len(),
{
    if ns.len() > 0 {
        let rest = ns.drop_last();
        lemma_merged_nodes_keys(rest);
        let kept = merged_nodes(rest);
        let k = ns.last().key;
        assert(node_keys(ns) =~= node_keys(rest).push(k));
        node_keys(rest).lemma_push_to_set_commute(k);
        if key_in(kept, k) {
            let i = choose|i: int| 0 <= i < kept.len() && #[trigger] kept[i].key == k;
            assert(node_keys(kept)[i] == k);
            assert(node_keys(kept).to_set().contains(k));
            assert(node_keys(ns).to_set() =~= node_keys(rest).to_set());
        } else {
            assert(node_keys(kept.push(ns.last())) =~= node_keys(kept).push(k));
            node_keys(kept).lemma_push_to_set_commute(k);
            assert forall|i: int| 0 <= i < kept.len() implies node_keys(kept)[i] != k by {
                if node_keys(kept)[i] == k {
                    assert(kept[i].key == k);
                }
            }
        }
    }
}

/// Merging keeps each edge identity once: the kept identities are
/// distinct and are those of the edges whose endpoints are nodes.
pub proof fn lemma_merged_edges_ids(ns: Seq<NodeView>, es: Seq<EdgeView>)
    ensures
        edge_ids_of(merged_edges(ns, es)).no_duplicates(),
        edge_ids_of(merged_edges(ns, es)).to_set() == in_graph_edge_ids(ns, es).to_set(),
    decreases es.len(),
{
    if es.len() > 0 {
        let rest = es.drop_last();
        lemma_merged_edges_ids(ns, rest);
        let kept = merged_edges(ns, rest);
        let e = es.last();
        let id = e.edge_id;
        if key_in(ns, e.source) && key_in(ns, e.target) {
            in_graph_edge_ids(ns, rest).lemma_push_to_set_commute(id);
            if id_in(kept, id) {
                let i = choose|i: int| 0 <= i < kept.len() && #[trigger] kept[i].edge_id == id;
                assert(edge_ids_of(kept)[i] == id);
                assert(edge_ids_of(kept).to_set().contains(id));
                assert(in_graph_edge_ids(ns, es).to_set() =~= in_graph_edge_ids(ns, rest).to_set());
            } else {
                assert(edge_ids_of(kept.push(e)) =~= edge_ids_of(kept).push(id));
                edge_ids_of(kept).lemma_push_to_set_commute(id);
                assert forall|i: int| 0 <= i < kept.len() implies edge_ids_of(kept)[i] != id by {
                    if edge_ids_of(kept)[i] == id {
                        assert(kept[i].edge_id == id);
                    }
                }
            }
        }
    }
}

/// Where two node lists have the same keys, the same edges have both
/// endpoints among them.
proof fn lemma_in_graph_same_keys(a: Seq<NodeView>, b: Seq<NodeView>, es: Seq<EdgeView>)
    requires
        forall|k: KeyView| key_in(a, k) == key_in(b, k),
    ensures
        in_graph_edge_ids(a, es) == in_graph_edge_ids(b, es),
    decreases es.len(),
{
    if es.len() > 0 {
        lemma_in_graph_same_keys(a, b, es.drop_last());
        assert(key_in(a, es.last().source) == key_in(b, es.last().source));
        assert(key_in(a, es.last().target) == key_in(b, es.last().target));
    }
}

/// A node list has a key exactly where its key list holds it.
proof fn lemma_key_in_keys(ns: Seq<NodeView>, k: KeyView)
    ensures
        key_in(ns, k) == node_keys(ns).to_set().contains(k),
{
    if key_in(ns, k) {
        let i = choose|i: int| 0 <= i < ns.len() && #[trigger] ns[i].key == k;
        assert(node_keys(ns)[i] == k);
    }
    if node_keys(ns).to_set().contains(k) {
        let i = choose|i: int| 0 <= i < node_keys(ns).len() && node_keys(ns)[i] == k;
        assert(ns[i].key == k);
    }
}

/// The graph a scan merges into has one node for each distinct key among
/// the nodes the detectors emitted, and one edge for each distinct identity
/// among the emitted edges whose two endpoints are such keys.
pub proof fn lemma_merged_counts(ns: Seq<NodeView>, es: Seq<EdgeView>)
    ensures
        merged_nodes(ns).len() == node_keys(ns).to_set().len(),
        merged_edges(merged_nodes(ns), es).len() == in_graph_edge_ids(ns, es).to_set().len(),
{
    lemma_merged_nodes_keys(ns);
    node_keys(merged_nodes(ns)).unique_seq_to_set();
    let m = merged_nodes(ns);
    assert forall|k: KeyView| key_in(m, k) == key_in(ns, k) by {
        lemma_key_in_keys(m, k);
        lemma_key_in_keys(ns, k);
    }
    lemma_in_graph_same_keys(m, ns, es);
    lemma_merged_edges_ids(m, es);
    edge_ids_of(merged_edges(m, es)).unique_seq_to_set();
}

proof fn lemma_has_node_key_in(g: ArchGraph, k: KeyView)
    ensures
        g.has_node(k) == key_in(g.nodes_view(), k),
{
    if g.has_node(k) {
        let i = choose|i: int| 0 <= i < g.node_keys().len() && g.node_keys()[i] == k;
        assert(g.nodes_view()[i].key == k);
    }
    if key_in(g.nodes_view(), k) {
        let i = choose|i: int| 0 <= i < g.nodes_view().len() && #[trigger] g.nodes_view()[i].key == k;
        assert(g.node_keys()[i] == k);
    }
}

proof fn lemma_has_edge_id_in(g: ArchGraph, id: Seq<char>)
    ensures
        g.has_edge(id) == id_in(g.edges_view(), id),
{
    if g.has_edge(id) {
        let i = choose|i: int| 0 <= i < g.edge_ids().len() && g.edge_ids()[i] == id;
        assert(g.edges_view()[i].edge_id == id);
    }
    if id_in(g.edges_view(), id) {
        let i = choose|i: int| 0 <= i < g.edges_view().len() && #[trigger] g.edges_view()[i].edge_id == id;
        assert(g.edge_ids()[i] == id);
    }
}

proof fn lemma_merged_nodes_len(nodes: Seq<NodeView>)
    ensures
        merged_nodes(nodes).len() <= nodes.len(),
    decreases nodes.len(),
{
    if nodes.len() > 0 {
        lemma_merged_nodes_len(nodes.drop_last());
    }
}

proof fn lemma_merged_edges_len(nodes: Seq<NodeView>, edges: Seq<EdgeView>)
    ensures
        merged_edges(nodes, edges).len() <= edges.len(),
    decreases edges.len(),
{
    if edges.len() > 0 {
        lemma_merged_edges_len(nodes, edges.drop_last());
    }
}

/// Merges detector output into a fresh graph: duplicate nodes are skipped,
/// then edges with a duplicate identity or a missing endpoint (see
/// [`merged_nodes`] and [`merged_edges`]).
pub fn merge_into_graph(nodes: &Vec<NodeData>, edges: &Vec<EdgeData>) -> (g: ArchGraph)
    requires
        nodes@.len() < index_limit(),
        edges@.len() < index_limit(),
    ensures
        g.wf(),
        g.nodes_view() == merged_nodes(node_views(nodes@)),
        g.edges_view() == merged_edges(g.nodes_view(), edge_views(edges@)),
        g.overlay_view().manual_edges@.len() == 0,
        g.overlay_view().suppressions@.len() == 0,
        g.overlay_view().metadata@.len() == 0,
{
    let mut graph = ArchGraph::new();
    let ghost nv = node_views(nodes@);
    let mut i: usize = 0;
    while i < nodes.len()
        invariant
            i <= nodes@.len() < index_limit(),
            nv == node_views(nodes@),
            graph.wf(),
            graph.nodes_view() == merged_nodes(nv.take(i as int)),
            graph.edges_view().len() == 0,
            graph.overlay_view().manual_edges@.len() == 0,
            graph.overlay_view().suppressions@.len() == 0,
            graph.overlay_view().metadata@.len() == 0,
        decreases nodes@.len() - i,
    {
        let n = &nodes[i];
        proof {
            assert(nv.take(i + 1).drop_last() =~= nv.take(i as int));
            assert(nv.take(i + 1).last() == n@);
            lemma_has_node_key_in(graph, n.materialized_key@);
            lemma_merged_nodes_len(nv.take(i as int));
        }
        if !graph.contains_node(&n.materialized_key) {
            let _ = graph.add_node(n.clone());
        }
        i = i + 1;
    }
    assert(nv.take(nodes@.len() as int) =~= nv);
    let ghost ev = edge_views(edges@);
    let ghost kept_nodes = graph.nodes_view();
    let mut i: usize = 0;
    while i < edges.len()
        invariant
            i <= edges@.len() < index_limit(),
            ev == edge_views(edges@),
            graph.wf(),
            graph.nodes_view() == kept_nodes,
            graph.edges_view() == merged_edges(kept_nodes, ev.take(i as int)),
            graph.overlay_view().manual_edges@.len() == 0,
            graph.overlay_view().suppressions@.len() == 0,
            graph.overlay_view().metadata@.len() == 0,
        decreases edges@.len() - i,
    {
        let e = &edges[i];
        proof {
            assert(ev.take(i + 1).drop_last() =~= ev.take(i as int));
            assert(ev.take(i + 1).last() == e@);
            lemma_has_edge_id_in(graph, e.edge_id@);
            lemma_has_node_key_in(graph, e.source_key@);
            lemma_has_node_key_in(graph, e.target_key@);
            lemma_merged_edges_len(kept_nodes, ev.take(i as int));
        }
        if !graph.contains_edge(&e.edge_id) && graph.contains_node(&e.source_key) && graph.contains_node(
            &e.target_key,
        ) {
            let _ = graph.add_edge(e.clone());
        }
        i = i + 1;
    }
    assert(ev.take(edges@.len() as int) =~= ev);
    graph
}

// ---------------------------------------------------------------------------
// Finding nodes by configured path
// ---------------------------------------------------------------------------

/// The key of the first node satisfying `p`, if any.
pub open spec fn first_key_where(nodes: Seq<NodeView>, p: spec_fn(NodeView) -> bool) -> Option<KeyView>
    decreases nodes.len(),
{
    if nodes.len() == 0 {
        None
    } else if p(nodes[0]) {
        Some(nodes[0].key)
    } else {
        first_key_where(nodes.drop_first(), p)
    }
}

/// The node a configured path names: with the path normalized, the first
/// package node at exactly that path, else the first node at exactly that
/// path, else the first node below it (its path followed by `/`).
pub open spec fn node_for_path(nodes: Seq<NodeView>, path: Seq<char>) -> Option<KeyView> {
    let n = normalized(path);
    match first_key_where(nodes, |v: NodeView| v.kind == NodeKind::Package && v.key.relative_path == n) {
        Some(k) => Some(k),
        None => match first_key_where(nodes, |v: NodeView| v.key.relative_path == n) {
            Some(k) => Some(k),
            None => first_key_where(nodes, |v: NodeView| is_prefix(n + seq!['/'], v.key.relative_path)),
        },
    }
}

/// How a configured path is compared with a node: exactly as a package,
/// exactly, or as a parent directory.
enum PathMatch {
    Package,
    Exact,
    Below,
}

/// The predicate a matching pass applies.
spec fn path_match_pred(m: PathMatch, n: Seq<char>) -> spec_fn(NodeView) -> bool {
    match m {
        PathMatch::Package => |v: NodeView| v.kind == NodeKind::Package && v.key.relative_path == n,
        PathMatch::Exact => |v: NodeView| v.key.relative_path == n,
        PathMatch::Below => |v: NodeView| is_prefix(n + seq!['/'], v.key.relative_path),
    }
}

/// The key of the first node that matches `normalized_path` in the way `m`.
fn first_match(nodes: &Vec<NodeData>, normalized_path: &str, with_sep: &str, m: PathMatch) -> (r: Option<MaterializedKey>)
    requires
        with_sep@ == normalized_path@ + seq!['/'],
    ensures
        match r {
            Some(k) => first_key_where(node_views(nodes@), path_match_pred(m, normalized_path@)) == Some(k@),
            None => first_key_where(node_views(nodes@), path_match_pred(m, normalized_path@)) is None,
        },
{
    let ghost nv = node_views(nodes@);
    let ghost p = path_match_pred(m, normalized_path@);
    let mut i: usize = 0;
    assert(nv.skip(0) =~= nv);
    while i < nodes.len()
        invariant
            i <= nodes@.len(),
            nv == node_views(nodes@),
            p == path_match_pred(m, normalized_path@),
            with_sep@ == normalized_path@ + seq!['/'],
            first_key_where(nv, p) == first_key_where(nv.skip(i as int), p),
        decreases nodes@.len() - i,
    {
        let n = &nodes[i];
        assert(nv.skip(i as int)[0] == n@);
        assert(nv.skip(i as int).drop_first() =~= nv.skip(i + 1));
        let path = n.materialized_key.relative_path.as_str();
        let hit = match m {
            PathMatch::Package => n.kind == NodeKind::Package && crate::text::same_text(path, normalized_path),
            PathMatch::Exact => crate::text::same_text(path, normalized_path),
            PathMatch::Below => starts_with(path, with_sep),
        };
        assert(hit == p(n@));
        if hit {
            return Some(n.materialized_key.clone());
        }
        i = i + 1;
    }
    None
}

/// The node a configured path names (see [`node_for_path`]).
pub fn find_node_by_path(graph: &ArchGraph, path: &str) -> (r: Option<MaterializedKey>)
    requires
        graph.wf(),
    ensures
        match r {
            Some(k) => node_for_path(graph.nodes_view(), path@) == Some(k@),
            None => node_for_path(graph.nodes_view(), path@) is None,
        },
{
    let normalized_path = normalize_path(path);
    let mut with_sep = normalized_path.clone();
    push_char(&mut with_sep, '/');
    assert(with_sep@ =~= normalized_path@ + seq!['/']);
    let nodes = graph.nodes();
    match first_match(&nodes, normalized_path.as_str(), with_sep.as_str(), PathMatch::Package) {
        Some(k) => {
            return Some(k);
        },
        None => {},
    }
    match first_match(&nodes, normalized_path.as_str(), with_sep.as_str(), PathMatch::Exact) {
        Some(k) => {
            return Some(k);
        },
        None => {},
    }
    first_match(&nodes, normalized_path.as_str(), with_sep.as_str(), PathMatch::Below)
}

// ---------------------------------------------------------------------------
// Applying the configuration overlay
// ---------------------------------------------------------------------------

/// The manual edge from `s` to `t`.
pub open spec fn manual_edge_view(s: KeyView, t: KeyView) -> EdgeView {
    EdgeView {
        edge_id: edge_id_of(s, t, EdgeKind::Manual, EdgeCategory::Manual),
        source: s,
        target: t,
        kind: EdgeKind::Manual,
        category: EdgeCategory::Manual,
        confidence: Confidence::StructureOnly,
        location: None,
        resolution_method: Some("manual config"@),
        overlay: OverlayView::Unaffected,
    }
}

/// Whether both ends of a manual edge name nodes.
pub open spec fn manual_resolves(m: ManualEdgeConfig, nodes: Seq<NodeView>) -> bool {
    node_for_path(nodes, m.from@) is Some && node_for_path(nodes, m.to@) is Some
}

/// The manual edges of the configured additions whose ends both name
/// nodes, in order.
pub open spec fn manual_edge_views(adds: Seq<ManualEdgeConfig>, nodes: Seq<NodeView>) -> Seq<EdgeView>
    decreases adds.len(),
{
    if adds.len() == 0 {
        Seq::empty()
    } else {
        let rest = manual_edge_views(adds.drop_last(), nodes);
        let m = adds.last();
        if manual_resolves(m, nodes) {
            rest.push(
                manual_edge_view(
                    node_for_path(nodes, m.from@)->Some_0,
                    node_for_path(nodes, m.to@)->Some_0,
                ),
            )
        } else {
            rest
        }
    }
}

/// The overlay records of the configured additions whose ends both name
/// nodes, in order.
pub open spec fn manual_records(adds: Seq<ManualEdgeConfig>, nodes: Seq<NodeView>) -> Seq<ManualEdge>
    decreases adds.len(),
{
    if adds.len() == 0 {
        Seq::empty()
    } else {
        let rest = manual_records(adds.drop_last(), nodes);
        let m = adds.last();
        if manual_resolves(m, nodes) {
            rest.push(ManualEdge { from: m.from, to: m.to, reason: m.reason })
        } else {
            rest
        }
    }
}

/// Whether a configured suppression covers edge `e`: the edge's source
/// path begins with `from` and its target path with `to`.
pub open spec fn suppression_matches(s: SuppressionConfig, e: EdgeView) -> bool {
    is_prefix(s.from@, e.source.relative_path) && is_prefix(s.to@, e.target.relative_path)
}

/// The identities of the edges each suppression covers, suppression by
/// suppression, in edge order.
pub open spec fn suppressed_ids(sups: Seq<SuppressionConfig>, edges: Seq<EdgeView>) -> Seq<Seq<char>>
    decreases sups.len(),
{
    if sups.len() == 0 {
        Seq::empty()
    } else {
        suppressed_ids(sups.drop_last(), edges) + edges.filter(
            |e: EdgeView| suppression_matches(sups.last(), e),
        ).map_values(|e: EdgeView| e.edge_id)
    }
}

/// The suppression recorded for the edge with identity `id`: the reason of
/// the last suppression covering it, else what was recorded before.
pub open spec fn suppression_value(
    sups: Seq<SuppressionConfig>,
    edges: Seq<EdgeView>,
    id: Seq<char>,
    prior: Option<SuppressionReason>,
) -> Option<SuppressionReason>
    decreases sups.len(),
{
    if sups.len() == 0 {
        prior
    } else if exists|i: int| 0 <= i < edges.len() && #[trigger] edges[i].edge_id == id && suppression_matches(
        sups.last(),
        edges[i],
    ) {
        Some(SuppressionReason { reason: sups.last().reason })
    } else {
        suppression_value(sups.drop_last(), edges, id, prior)
    }
}

/// The key `first_key_where` finds is that of a node that meets the
/// condition and comes before every other such node; where no node meets
/// it, none is found.
proof fn lemma_first_key_where(nodes: Seq<NodeView>, p: spec_fn(NodeView) -> bool)
    ensures
        first_key_where(nodes, p) matches Some(k) ==> exists|i: int|
            0 <= i < nodes.len() && #[trigger] nodes[i].key == k && p(nodes[i]),
        (exists|i: int| 0 <= i < nodes.len() && p(#[trigger] nodes[i])) ==> first_key_where(nodes, p) is Some,
    decreases nodes.len(),
{
    if nodes.len() > 0 {
        let rest = nodes.drop_first();
        lemma_first_key_where(rest, p);
        if !p(nodes[0]) {
            if let Some(k) = first_key_where(rest, p) {
                let i = choose|i: int| 0 <= i < rest.len() && #[trigger] rest[i].key == k && p(rest[i]);
                assert(nodes[i + 1] == rest[i]);
            }
            if exists|i: int| 0 <= i < nodes.len() && p(#[trigger] nodes[i]) {
                let i = choose|i: int| 0 <= i < nodes.len() && p(#[trigger] nodes[i]);
                assert(i > 0);
                assert(rest[i - 1] == nodes[i]);
            }
        }
    }
}

/// A configured path names a node of the graph at exactly its normalized
/// form or below it (that form followed by `/`); a package node at exactly
/// that path is preferred whenever there is one; and where no node lies at
/// or below the path, it names none.
pub proof fn lemma_node_for_path(nodes: Seq<NodeView>, path: Seq<char>)
    ensures
        node_for_path(nodes, path) matches Some(k) ==> exists|i: int|
            0 <= i < nodes.len() && #[trigger] nodes[i].key == k && (nodes[i].key.relative_path == normalized(path)
                || is_prefix(normalized(path) + seq!['/'], nodes[i].key.relative_path)),
        (exists|i: int|
            0 <= i < nodes.len() && (#[trigger] nodes[i]).kind == NodeKind::Package && nodes[i].key.relative_path
                == normalized(path)) ==> (node_for_path(nodes, path) matches Some(k) && exists|i: int|
            0 <= i < nodes.len() && #[trigger] nodes[i].key == k && nodes[i].kind == NodeKind::Package
                && nodes[i].key.relative_path == normalized(path)),
        (forall|i: int|
            0 <= i < nodes.len() ==> !((#[trigger] nodes[i]).key.relative_path == normalized(path) || is_prefix(
                normalized(path) + seq!['/'],
                nodes[i].key.relative_path,
            ))) ==> node_for_path(nodes, path) is None,
{
    let n = normalized(path);
    let p1 = |v: NodeView| v.kind == NodeKind::Package && v.key.relative_path == n;
    let p2 = |v: NodeView| v.key.relative_path == n;
    let p3 = |v: NodeView| is_prefix(n + seq!['/'], v.key.relative_path);
    lemma_first_key_where(nodes, p1);
    lemma_first_key_where(nodes, p2);
    lemma_first_key_where(nodes, p3);
    if exists|i: int|
        0 <= i < nodes.len() && (#[trigger] nodes[i]).kind == NodeKind::Package && nodes[i].key.relative_path == n {
        let i = choose|i: int|
            0 <= i < nodes.len() && (#[trigger] nodes[i]).kind == NodeKind::Package && nodes[i].key.relative_path == n;
        assert(p1(nodes[i]));
    }
    if forall|i: int|
        0 <= i < nodes.len() ==> !((#[trigger] nodes[i]).key.relative_path == n || is_prefix(
            n + seq!['/'],
            nodes[i].key.relative_path,
        )) {
        if first_key_where(nodes, p1) is Some {
            let k = first_key_where(nodes, p1)->Some_0;
            let i = choose|i: int| 0 <= i < nodes.len() && #[trigger] nodes[i].key == k && p1(nodes[i]);
        }
        if first_key_where(nodes, p2) is Some {
            let k = first_key_where(nodes, p2)->Some_0;
            let i = choose|i: int| 0 <= i < nodes.len() && #[trigger] nodes[i].key == k && p2(nodes[i]);
        }
        if first_key_where(nodes, p3) is Some {
            let k = first_key_where(nodes, p3)->Some_0;
            let i = choose|i: int| 0 <= i < nodes.len() && #[trigger] nodes[i].key == k && p3(nodes[i]);
        }
    }
}

/// Each configured addition whose two paths both name nodes gives one
/// manual edge and one overlay record, in the order of the additions, and
/// the others give nothing: the edge runs from the node its `from` names to
/// the node its `to` names, is of manual kind and category, and the record
/// keeps the addition's paths and reason.
pub proof fn lemma_manual_edges_per_addition(adds: Seq<ManualEdgeConfig>, nodes: Seq<NodeView>)
    ensures
        manual_edge_views(adds, nodes).len() == adds.filter(
            |m: ManualEdgeConfig| node_for_path(nodes, m.from@) is Some && node_for_path(nodes, m.to@) is Some,
        ).len(),
        manual_records(adds, nodes).len() == manual_edge_views(adds, nodes).len(),
        forall|i: int|
            0 <= i < manual_edge_views(adds, nodes).len() ==> {
                let e = #[trigger] manual_edge_views(adds, nodes)[i];
                let r = manual_records(adds, nodes)[i];
                let m = adds.filter(
                    |m: ManualEdgeConfig| node_for_path(nodes, m.from@) is Some && node_for_path(nodes, m.to@) is Some,
                )[i];
                &&& node_for_path(nodes, m.from@) == Some(e.source)
                &&& node_for_path(nodes, m.to@) == Some(e.target)
                &&& e.kind == EdgeKind::Manual
                &&& e.category == EdgeCategory::Manual
                &&& r.from == m.from && r.to == m.to && r.reason == m.reason
            },
    decreases adds.len(),
{
    let pred = |m: ManualEdgeConfig| node_for_path(nodes, m.from@) is Some && node_for_path(nodes, m.to@) is Some;
    reveal(Seq::filter);
    if adds.len() > 0 {
        let init = adds.drop_last();
        lemma_manual_edges_per_addition(init, nodes);
        let es0 = manual_edge_views(init, nodes);
        let rs0 = manual_records(init, nodes);
        let es = manual_edge_views(adds, nodes);
        let rs = manual_records(adds, nodes);
        let f0 = init.filter(pred);
        let fa = adds.filter(pred);
        assert(fa == if pred(adds.last()) { f0.push(adds.last()) } else { f0 });
        assert forall|i: int| 0 <= i < es.len() implies {
            let e = #[trigger] es[i];
            let r = rs[i];
            let m = fa[i];
            &&& node_for_path(nodes, m.from@) == Some(e.source)
            &&& node_for_path(nodes, m.to@) == Some(e.target)
            &&& e.kind == EdgeKind::Manual
            &&& e.category == EdgeCategory::Manual
            &&& r.from == m.from && r.to == m.to && r.reason == m.reason
        } by {
            if i < es0.len() {
                assert(es[i] == es0[i]);
                assert(rs[i] == rs0[i]);
                assert(fa[i] == f0[i]);
            }
        }
    }
}

/// Whether some configured suppression reaches an edge with identity
/// `id`: the edge's source path begins with the suppression's `from` and
/// its target path with the suppression's `to`.
pub open spec fn reached_by_suppression(sups: Seq<SuppressionConfig>, edges: Seq<EdgeView>, id: Seq<char>) -> bool {
    exists|i: int, j: int|
        #![trigger edges[i], sups[j]]
        0 <= i < edges.len() && 0 <= j < sups.len() && edges[i].edge_id == id && is_prefix(
            sups[j].from@,
            edges[i].source.relative_path,
        ) && is_prefix(sups[j].to@, edges[i].target.relative_path)
}

/// The `k`-th identity the suppressions report is that of an edge whose
/// source path begins with some suppression's `from` and whose target path
/// begins with the same suppression's `to`.
proof fn lemma_suppressed_id_reached(sups: Seq<SuppressionConfig>, edges: Seq<EdgeView>, k: int)
    requires
        0 <= k < suppressed_ids(sups, edges).len(),
    ensures
        reached_by_suppression(sups, edges, suppressed_ids(sups, edges)[k]),
    decreases sups.len(),
{
    let init = sups.drop_last();
    let last = sups.len() - 1;
    let s = sups.last();
    let pred = |e: EdgeView| suppression_matches(s, e);
    let f = edges.filter(pred);
    let fm = f.map_values(|e: EdgeView| e.edge_id);
    let ids0 = suppressed_ids(init, edges);
    let ids = suppressed_ids(sups, edges);
    assert(ids == ids0 + fm);
    if k < ids0.len() {
        lemma_suppressed_id_reached(init, edges, k);
        assert(ids[k] == ids0[k]);
        let (i, j) = choose|i: int, j: int|
            #![trigger edges[i], init[j]]
            0 <= i < edges.len() && 0 <= j < init.len() && ids0[k] == edges[i].edge_id && is_prefix(
                init[j].from@,
                edges[i].source.relative_path,
            ) && is_prefix(init[j].to@, edges[i].target.relative_path);
        assert(sups[j] == init[j]);
        assert(is_prefix(sups[j].from@, edges[i].source.relative_path));
    } else {
        edges.filter_lemma(pred);
        let m = k - ids0.len();
        let e = f[m];
        assert(pred(e));
        assert(f.contains(e));
        edges.lemma_filter_contains_rev(pred, e);
        let i = choose|i: int| 0 <= i < edges.len() && edges[i] == e;
        assert(ids[k] == fm[m]);
        assert(sups[last] == s);
        assert(is_prefix(sups[last].from@, edges[i].source.relative_path));
    }
}

/// Every edge whose source path begins with some suppression's `from` and
/// whose target path begins with the same suppression's `to` has its
/// identity reported.
proof fn lemma_reached_edge_suppressed(sups: Seq<SuppressionConfig>, edges: Seq<EdgeView>, i: int, j: int)
    requires
        0 <= i < edges.len(),
        0 <= j < sups.len(),
        is_prefix(sups[j].from@, edges[i].source.relative_path),
        is_prefix(sups[j].to@, edges[i].target.relative_path),
    ensures
        suppressed_ids(sups, edges).contains(edges[i].edge_id),
    decreases sups.len(),
{
    let init = sups.drop_last();
    let last = sups.len() - 1;
    let s = sups.last();
    let pred = |e: EdgeView| suppression_matches(s, e);
    let f = edges.filter(pred);
    let fm = f.map_values(|e: EdgeView| e.edge_id);
    let ids0 = suppressed_ids(init, edges);
    let ids = suppressed_ids(sups, edges);
    assert(ids == ids0 + fm);
    if j < last {
        assert(init[j] == sups[j]);
        lemma_reached_edge_suppressed(init, edges, i, j);
        let k = choose|k: int| 0 <= k < ids0.len() && ids0[k] == edges[i].edge_id;
        assert(ids[k] == ids0[k]);
    } else {
        edges.filter_lemma(pred);
        assert(pred(edges[i]));
        assert(f.contains(edges[i]));
        let m = choose|m: int| 0 <= m < f.len() && f[m] == edges[i];
        assert(fm[m] == edges[i].edge_id);
        assert(ids[ids0.len() + m] == fm[m]);
    }
}

/// The suppressions reach exactly the edges whose source path begins with
/// some suppression's `from` while their target path begins with the same
/// suppression's `to`: every identity reported is that of such an edge,
/// and every such edge's identity is reported.
pub proof fn lemma_suppressed_ids_scope(sups: Seq<SuppressionConfig>, edges: Seq<EdgeView>)
    ensures
        forall|k: int|
            0 <= k < suppressed_ids(sups, edges).len() ==> reached_by_suppression(
                sups,
                edges,
                #[trigger] suppressed_ids(sups, edges)[k],
            ),
        forall|i: int, j: int|
            #![trigger edges[i], sups[j]]
            0 <= i < edges.len() && 0 <= j < sups.len() && is_prefix(sups[j].from@, edges[i].source.relative_path)
                && is_prefix(sups[j].to@, edges[i].target.relative_path) ==> suppressed_ids(sups, edges).contains(
                edges[i].edge_id,
            ),
{
    assert forall|k: int| 0 <= k < suppressed_ids(sups, edges).len() implies reached_by_suppression(
        sups,
        edges,
        #[trigger] suppressed_ids(sups, edges)[k],
    ) by {
        lemma_suppressed_id_reached(sups, edges, k);
    }
    assert forall|i: int, j: int|
        #![trigger edges[i], sups[j]]
        0 <= i < edges.len() && 0 <= j < sups.len() && is_prefix(sups[j].from@, edges[i].source.relative_path)
            && is_prefix(sups[j].to@, edges[i].target.relative_path) implies suppressed_ids(sups, edges).contains(
            edges[i].edge_id,
        ) by {
        lemma_reached_edge_suppressed(sups, edges, i, j);
    }
}

/// An edge identity that no suppression reaches (no edge with it has a
/// source path beginning with a suppression's `from` and a target path
/// beginning with that suppression's `to`) keeps the suppression recorded
/// for it before, if any.
pub proof fn lemma_suppression_value_unreached(
    sups: Seq<SuppressionConfig>,
    edges: Seq<EdgeView>,
    id: Seq<char>,
    prior: Option<SuppressionReason>,
)
    requires
        !reached_by_suppression(sups, edges, id),
    ensures
        suppression_value(sups, edges, id, prior) == prior,
    decreases sups.len(),
{
    if sups.len() > 0 {
        let init = sups.drop_last();
        let last = sups.len() - 1;
        if exists|i: int| 0 <= i < edges.len() && #[trigger] edges[i].edge_id == id && suppression_matches(
            sups.last(),
            edges[i],
        ) {
            let i = choose|i: int| 0 <= i < edges.len() && #[trigger] edges[i].edge_id == id && suppression_matches(
                sups.last(),
                edges[i],
            );
            assert(sups[last] == sups.last());
            assert(!(is_prefix(sups[last].from@, edges[i].source.relative_path) && is_prefix(
                sups[last].to@,
                edges[i].target.relative_path,
            )));
        }
        if reached_by_suppression(init, edges, id) {
            let (i, j) = choose|i: int, j: int|
                #![trigger edges[i], init[j]]
                0 <= i < edges.len() && 0 <= j < init.len() && edges[i].edge_id == id && is_prefix(
                    init[j].from@,
                    edges[i].source.relative_path,
                ) && is_prefix(init[j].to@, edges[i].target.relative_path);
            assert(init[j] == sups[j]);
        }
        lemma_suppression_value_unreached(init, edges, id, prior);
    }
}

/// Applies the configuration's dependency overlays to the graph: each
/// addition whose ends name nodes becomes a manual edge (returned) and an
/// overlay record; each suppression records its reason for every edge it
/// covers (whose identities are returned). The discovered layer is
/// unchanged.
pub fn apply_overlay_from_config(config: &RepoConfig, graph: &mut ArchGraph) -> (r: (Vec<EdgeData>, Vec<String>))
    requires
        old(graph).wf(),
    ensures
        final(graph).wf(),
        final(graph).nodes_view() == old(graph).nodes_view(),
        final(graph).edges_view() == old(graph).edges_view(),
        edge_views(r.0@) == manual_edge_views(config.dependencies.add@, old(graph).nodes_view()),
        r.1@.map_values(|s: String| s@) == suppressed_ids(config.dependencies.suppress@, old(graph).edges_view()),
        final(graph).overlay_view().manual_edges@ == old(graph).overlay_view().manual_edges@ + manual_records(
            config.dependencies.add@,
            old(graph).nodes_view(),
        ),
        forall|id: Seq<char>| #[trigger] value_of(final(graph).overlay_view().suppressions@, id)
            == suppression_value(
            config.dependencies.suppress@,
            old(graph).edges_view(),
            id,
            value_of(old(graph).overlay_view().suppressions@, id),
        ),
        final(graph).overlay_view().metadata@ == old(graph).overlay_view().metadata@,
{
    let ghost nodes = graph.nodes_view();
    let ghost edges_v = graph.edges_view();
    let ghost manual0 = graph.overlay_view().manual_edges@;
    let ghost sup0 = graph.overlay_view().suppressions@;
    let ghost meta0 = graph.overlay_view().metadata@;
    let adds = &config.dependencies.add;
    let mut manual_edge_data: Vec<EdgeData> = Vec::new();
    let mut i: usize = 0;
    while i < adds.len()
        invariant
            i <= adds@.len(),
            graph.wf(),
            graph.nodes_view() == nodes,
            graph.edges_view() == edges_v,
            edge_views(manual_edge_data@) == manual_edge_views(adds@.take(i as int), nodes),
            graph.overlay_view().manual_edges@ == manual0 + manual_records(adds@.take(i as int), nodes),
            graph.overlay_view().suppressions@ == sup0,
            graph.overlay_view().metadata@ == meta0,
        decreases adds@.len() - i,
    {
        let m = &adds[i];
        assert(adds@.take(i + 1).drop_last() =~= adds@.take(i as int));
        assert(adds@.take(i + 1).last() == *m);
        let source = find_node_by_path(graph, m.from.as_str());
        let target = find_node_by_path(graph, m.to.as_str());
        match (source, target) {
            (Some(s), Some(t)) => {
                let edge_id = EdgeId::new(&s, &t, EdgeKind::Manual, EdgeCategory::Manual);
                let e = EdgeData {
                    edge_id,
                    source_key: s,
                    target_key: t,
                    kind: EdgeKind::Manual,
                    category: EdgeCategory::Manual,
                    confidence: Confidence::StructureOnly,
                    source_location: None,
                    resolution_method: Some("manual config".to_owned()),
                    overlay_status: OverlayStatus::Unaffected,
                };
                proof {
                    lemma_edge_views_push(manual_edge_data@, e);
                }
                manual_edge_data.push(e);
                let record = ManualEdge { from: m.from.clone(), to: m.to.clone(), reason: m.reason.clone() };
                graph.overlay_add_manual_edge(record);
                assert(graph.overlay_view().manual_edges@ =~= manual0 + manual_records(adds@.take(i + 1), nodes));
            },
            _ => {},
        }
        i = i + 1;
    }
    assert(adds@.take(adds@.len() as int) =~= adds@);
    let sups = &config.dependencies.suppress;
    let all_edges = graph.edges();
    let mut suppressed_edge_ids: Vec<String> = Vec::new();
    let mut i: usize = 0;
    while i < sups.len()
        invariant
            i <= sups@.len(),
            graph.wf(),
            graph.nodes_view() == nodes,
            graph.edges_view() == edges_v,
            edge_views(all_edges@) == edges_v,
            graph.overlay_view().manual_edges@ == manual0 + manual_records(adds@, nodes),
            graph.overlay_view().metadata@ == meta0,
            suppressed_edge_ids@.map_values(|s: String| s@) == suppressed_ids(sups@.take(i as int), edges_v),
            forall|id: Seq<char>| #[trigger] value_of(graph.overlay_view().suppressions@, id) == suppression_value(
                sups@.take(i as int),
                edges_v,
                id,
                value_of(sup0, id),
            ),
        decreases sups@.len() - i,
    {
        let sup = &sups[i];
        assert(sups@.take(i + 1).drop_last() =~= sups@.take(i as int));
        assert(sups@.take(i + 1).last() == *sup);
        let ghost ids_before = suppressed_edge_ids@.map_values(|s: String| s@);
        let ghost graph_before = *graph;
        let ghost pred = |e: EdgeView| suppression_matches(*sup, e);
        let mut j: usize = 0;
        while j < all_edges.len()
            invariant
                i < sups@.len(),
                *sup == sups@[i as int],
                j <= all_edges@.len(),
                graph.wf(),
                graph.nodes_view() == nodes,
                graph.edges_view() == edges_v,
                edge_views(all_edges@) == edges_v,
                graph.overlay_view().manual_edges@ == manual0 + manual_records(adds@, nodes),
                graph.overlay_view().metadata@ == meta0,
                pred == (|e: EdgeView| suppression_matches(*sup, e)),
                suppressed_edge_ids@.map_values(|s: String| s@) == ids_before + edges_v.take(j as int).filter(
                    pred,
                ).map_values(|e: EdgeView| e.edge_id),
                forall|id: Seq<char>| #[trigger] value_of(graph.overlay_view().suppressions@, id) == (if exists|k: int|
                    0 <= k < j && #[trigger] edges_v[k].edge_id == id && suppression_matches(*sup, edges_v[k]) {
                    Some(SuppressionReason { reason: sup.reason })
                } else {
                    value_of(graph_before.overlay_view().suppressions@, id)
                }),
            decreases all_edges@.len() - j,
        {
            let e = &all_edges[j];
            proof {
                reveal(Seq::filter);
                assert(edges_v.take(j + 1).drop_last() =~= edges_v.take(j as int));
                assert(edges_v.take(j + 1).last() == e@);
                assert(edges_v[j as int] == e@);
            }
            let covered = starts_with(e.source_key.relative_path.as_str(), sup.from.as_str()) && starts_with(
                e.target_key.relative_path.as_str(),
                sup.to.as_str(),
            );
            assert(covered == pred(e@));
            let ghost before_ids = suppressed_edge_ids@.map_values(|s: String| s@);
            let ghost before_graph = *graph;
            if covered {
                let id_text = e.edge_id.0.clone();
                suppressed_edge_ids.push(id_text);
                assert(suppressed_edge_ids@.map_values(|s: String| s@) =~= before_ids.push(e.edge_id@));
                graph.overlay_suppress(e.edge_id.clone(), SuppressionReason { reason: sup.reason.clone() });
                proof {
                    assert forall|id: Seq<char>| #[trigger] value_of(graph.overlay_view().suppressions@, id) == (if exists|k: int|
                        0 <= k < j + 1 && #[trigger] edges_v[k].edge_id == id && suppression_matches(*sup, edges_v[k]) {
                        Some(SuppressionReason { reason: sup.reason })
                    } else {
                        value_of(graph_before.overlay_view().suppressions@, id)
                    }) by {
                        if id == e.edge_id@ {
                            assert(edges_v[j as int].edge_id == id);
                        } else {
                            assert(value_of(graph.overlay_view().suppressions@, id) == value_of(
                                before_graph.overlay_view().suppressions@,
                                id,
                            ));
                            if exists|k: int| 0 <= k < j + 1 && #[trigger] edges_v[k].edge_id == id && suppression_matches(*sup, edges_v[k]) {
                                let k = choose|k: int| 0 <= k < j + 1 && #[trigger] edges_v[k].edge_id == id && suppression_matches(*sup, edges_v[k]);
                                assert(k != j);
                            }
                        }
                    }
                }
            } else {
                proof {
                    assert forall|id: Seq<char>| #[trigger] value_of(graph.overlay_view().suppressions@, id) == (if exists|k: int|
                        0 <= k < j + 1 && #[trigger] edges_v[k].edge_id == id && suppression_matches(*sup, edges_v[k]) {
                        Some(SuppressionReason { reason: sup.reason })
                    } else {
                        value_of(graph_before.overlay_view().suppressions@, id)
                    }) by {
                        if exists|k: int| 0 <= k < j + 1 && #[trigger] edges_v[k].edge_id == id && suppression_matches(*sup, edges_v[k]) {
                            let k = choose|k: int| 0 <= k < j + 1 && #[trigger] edges_v[k].edge_id == id && suppression_matches(*sup, edges_v[k]);
                            assert(k != j);
                        }
                    }
                }
            }
            assert(suppressed_edge_ids@.map_values(|s: String| s@) =~= ids_before + edges_v.take(j + 1).filter(
                pred,
            ).map_values(|e: EdgeView| e.edge_id));
            j = j + 1;
        }
        assert(edges_v.take(all_edges@.len() as int) =~= edges_v);
        proof {
            assert(suppressed_ids(sups@.take(i + 1), edges_v) =~= suppressed_ids(sups@.take(i as int), edges_v)
                + edges_v.filter(pred).map_values(|e: EdgeView| e.edge_id));
            assert forall|id: Seq<char>| #[trigger] value_of(graph.overlay_view().suppressions@, id) == suppression_value(
                sups@.take(i + 1),
                edges_v,
                id,
                value_of(sup0, id),
            ) by {
                assert(value_of(graph_before.overlay_view().suppressions@, id) == suppression_value(
                    sups@.take(i as int),
                    edges_v,
                    id,
                    value_of(sup0, id),
                ));
            }
        }
        i = i + 1;
    }
    assert(sups@.take(sups@.len() as int) =~= sups@);
    (manual_edge_data, suppressed_edge_ids)
}

// ---------------------------------------------------------------------------
// Health, compatibility and results
// ---------------------------------------------------------------------------

/// The health of a scanned graph: its node and edge counts and the number
/// of each kind of finding, with the unresolved imports themselves.
pub fn graph_health(
    graph: &ArchGraph,
    unsupported_constructs: &Vec<UnsupportedConstruct>,
    parse_failures: &Vec<ParseFailure>,
    unresolved_imports: &Vec<UnresolvedImport>,
) -> (h: GraphHealth)
    requires
        graph.wf(),
    ensures
        h.total_nodes == graph.nodes_view().len(),
        h.resolved_edges == graph.edges_view().len(),
        h.unresolved_imports == unresolved_imports@.len(),
        h.parse_failures == parse_failures@.len(),
        h.unsupported_constructs == unsupported_constructs@.len(),
        unresolved_views(h.unresolved_import_details@) == unresolved_views(unresolved_imports@),
{
    let details = unresolved_imports.clone();
    assert(unresolved_views(details@) =~= unresolved_views(unresolved_imports@)) by {
        assert forall|i: int| 0 <= i < details@.len() implies details@[i] == unresolved_imports@[i] by {
            assert(cloned::<UnresolvedImport>(unresolved_imports@[i], details@[i]));
        }
    }
    GraphHealth {
        total_nodes: graph.node_count(),
        resolved_edges: graph.edge_count(),
        unresolved_imports: unresolved_imports.len(),
        parse_failures: parse_failures.len(),
        unsupported_constructs: unsupported_constructs.len(),
        unresolved_import_details: details,
    }
}

/// The number of findings of type `t`.
pub open spec fn count_type(cs: Seq<ConstructView>, t: UnsupportedConstructType) -> nat {
    cs.filter(|c: ConstructView| c.construct_type == t).len()
}

/// The number of findings of type `t`.
fn count_constructs(cs: &Vec<UnsupportedConstruct>, t: UnsupportedConstructType) -> (n: usize)
    ensures
        n == count_type(construct_views(cs@), t),
{
    let ghost cv = construct_views(cs@);
    let ghost p = |c: ConstructView| c.construct_type == t;
    let mut n: usize = 0;
    let mut i: usize = 0;
    while i < cs.len()
        invariant
            i <= cs@.len(),
            cv == construct_views(cs@),
            p == (|c: ConstructView| c.construct_type == t),
            n == cv.take(i as int).filter(p).len(),
            n <= i,
        decreases cs@.len() - i,
    {
        proof {
            reveal(Seq::filter);
            assert(cv.take(i + 1).drop_last() =~= cv.take(i as int));
            assert(cv.take(i + 1).last() == cs@[i as int]@);
        }
        if cs[i].construct_type == t {
            n = n + 1;
        }
        i = i + 1;
    }
    assert(cv.take(cs@.len() as int) =~= cv);
    n
}

/// The details a scan adds to a language's assessment: for Rust, the `cfg`
/// gates found; for TypeScript, the dynamic imports and the `require()`
/// calls found; each where there are any.
pub open spec fn source_details(l: Language, cfg: nat, dynamic: nat, require: nat) -> Seq<(Seq<char>, SupportStatus, Seq<char>)> {
    (if l == Language::Rust && cfg > 0 {
        seq![
            (
                "Source-level cfg gates"@,
                SupportStatus::Partial,
                decimal(cfg) + " #[cfg(...)] gate(s) detected in source — modules included assuming default features"@,
            ),
        ]
    } else {
        Seq::empty()
    }) + (if l == Language::TypeScript && dynamic > 0 {
        seq![
            (
                "Dynamic imports"@,
                SupportStatus::Partial,
                decimal(dynamic) + " dynamic import() call(s) detected — not statically resolved"@,
            ),
        ]
    } else {
        Seq::empty()
    }) + (if l == Language::TypeScript && require > 0 {
        seq![
            (
                "CommonJS require()"@,
                SupportStatus::Partial,
                decimal(require) + " require() call(s) detected — not resolved in POC"@,
            ),
        ]
    } else {
        Seq::empty()
    })
}

/// The detail `feature` (partial) with the explanation `count` followed
/// by `rest`.
fn count_detail(feature: &str, count: usize, rest: &str) -> (d: CompatibilityDetail)
    ensures
        detail_view(d) == (feature@, SupportStatus::Partial, decimal(count as nat) + rest@),
{
    let mut e = decimal_string(count as u128);
    push_all(&mut e, rest);
    detail(feature.to_owned(), SupportStatus::Partial, e)
}

/// The final compatibility report: the detectors' assessments, each with
/// the details its findings add (see [`source_details`]); not provisional.
pub fn enrich_compatibility(
    assessments: Vec<CompatibilityAssessment>,
    unsupported_constructs: &Vec<UnsupportedConstruct>,
) -> (r: CompatibilityReport)
    ensures
        !r.is_provisional,
        r.assessments@.len() == assessments@.len(),
        forall|i: int|
            0 <= i < assessments@.len() ==> {
                let a = #[trigger] assessments@[i];
                let cv = construct_views(unsupported_constructs@);
                &&& r.assessments@[i].language == a.language
                &&& r.assessments@[i].status == a.status
                &&& details_view(r.assessments@[i].details@) == details_view(a.details@) + source_details(
                    a.language,
                    count_type(cv, UnsupportedConstructType::CfgGate),
                    count_type(cv, UnsupportedConstructType::DynamicImport),
                    count_type(cv, UnsupportedConstructType::CommonJsRequire),
                )
            },
{
    let ghost cv = construct_views(unsupported_constructs@);
    let cfg_count = count_constructs(unsupported_constructs, UnsupportedConstructType::CfgGate);
    let dynamic_count = count_constructs(unsupported_constructs, UnsupportedConstructType::DynamicImport);
    let require_count = count_constructs(unsupported_constructs, UnsupportedConstructType::CommonJsRequire);
    let ghost all = assessments@;
    let mut rest = assessments;
    let total = rest.len();
    let mut out: Vec<CompatibilityAssessment> = Vec::new();
    let mut k: usize = 0;
    while rest.len() > 0
        invariant
            all.len() == total,
            k + rest@.len() == all.len(),
            rest@ == all.skip(k as int),
            out@.len() == k,
            cfg_count == count_type(cv, UnsupportedConstructType::CfgGate),
            dynamic_count == count_type(cv, UnsupportedConstructType::DynamicImport),
            require_count == count_type(cv, UnsupportedConstructType::CommonJsRequire),
            forall|i: int|
                0 <= i < k ==> {
                    let a = #[trigger] all[i];
                    &&& out@[i].language == a.language
                    &&& out@[i].status == a.status
                    &&& details_view(out@[i].details@) == details_view(a.details@) + source_details(
                        a.language,
                        cfg_count as nat,
                        dynamic_count as nat,
                        require_count as nat,
                    )
                },
        decreases rest@.len(),
    {
        let mut a = rest.remove(0);
        assert(a == all[k as int]);
        assert(rest@ =~= all.skip(k + 1));
        let ghost d0 = details_view(a.details@);
        if a.language == Language::Rust && cfg_count > 0 {
            a.details.push(count_detail(
                "Source-level cfg gates",
                cfg_count,
                " #[cfg(...)] gate(s) detected in source — modules included assuming default features",
            ));
        }
        if a.language == Language::TypeScript {
            if dynamic_count > 0 {
                a.details.push(count_detail(
                    "Dynamic imports",
                    dynamic_count,
                    " dynamic import() call(s) detected — not statically resolved",
                ));
            }
            if require_count > 0 {
                a.details.push(count_detail(
                    "CommonJS require()",
                    require_count,
                    " require() call(s) detected — not resolved in POC",
                ));
            }
        }
        assert(details_view(a.details@) =~= d0 + source_details(
            a.language,
            cfg_count as nat,
            dynamic_count as nat,
            require_count as nat,
        ));
        out.push(a);
        k = k + 1;
    }
    CompatibilityReport { assessments: out, is_provisional: false }
}

/// What finishing a scan yields: the three phases to stream, the merged
/// graph's health, the overlay's manual edges and suppressed edge
/// identities, the final compatibility report, and the aggregate results.
#[derive(Debug)]
pub struct ScanOutcome {
    pub package_phase: (Vec<NodeData>, Vec<EdgeData>),
    pub module_phase: (Vec<NodeData>, Vec<EdgeData>),
    pub file_phase: (Vec<NodeData>, Vec<EdgeData>),
    pub health: GraphHealth,
    pub manual_edges: Vec<EdgeData>,
    pub suppressed_edge_ids: Vec<String>,
    pub compatibility: CompatibilityReport,
    pub results: ScanResults,
    pub graph: ArchGraph,
}

/// The findings of the reports, in report order.
pub open spec fn all_constructs(reports: Seq<DetectorReport>) -> Seq<ConstructView>
    decreases reports.len(),
{
    if reports.len() == 0 {
        Seq::empty()
    } else {
        all_constructs(reports.drop_last()) + construct_views(reports.last().unsupported_constructs@)
    }
}

/// The unresolved imports of the reports, in report order.
pub open spec fn all_unresolved(reports: Seq<DetectorReport>) -> Seq<UnresolvedView>
    decreases reports.len(),
{
    if reports.len() == 0 {
        Seq::empty()
    } else {
        all_unresolved(reports.drop_last()) + unresolved_views(reports.last().unresolved_imports@)
    }
}

/// The parse failures of the reports, in report order.
pub open spec fn all_parse_failures(reports: Seq<DetectorReport>) -> Seq<ParseFailureView>
    decreases reports.len(),
{
    if reports.len() == 0 {
        Seq::empty()
    } else {
        all_parse_failures(reports.drop_last()) + failure_views(reports.last().parse_failures@)
    }
}

/// Finishes a scan from what the applicable detectors reported and the
/// nodes and edges they emitted: the three phases (see [`scan_phase`]), the
/// merged graph (see [`merge_into_graph`]) with the configuration overlay
/// applied (see [`apply_overlay_from_config`]), its health (see
/// [`graph_health`]), the final compatibility report (see
/// [`enrich_compatibility`]) and the aggregate results (the emitted nodes
/// and edges, and the reports' findings in report order).
pub fn complete_scan(
    config: &RepoConfig,
    reports: Vec<DetectorReport>,
    nodes: Vec<NodeData>,
    edges: Vec<EdgeData>,
    assessments: Vec<CompatibilityAssessment>,
) -> (o: ScanOutcome)
    requires
        nodes@.len() < index_limit(),
        edges@.len() < index_limit(),
    ensures
        node_views(o.package_phase.0@) == phase_nodes(crate::scan::ScanPhase::PackageTopology, node_views(nodes@)),
        edge_views(o.package_phase.1@) == phase_edges(
            crate::scan::ScanPhase::PackageTopology,
            node_views(nodes@),
            edge_views(edges@),
        ),
        node_views(o.module_phase.0@) == phase_nodes(crate::scan::ScanPhase::ModuleStructure, node_views(nodes@)),
        edge_views(o.module_phase.1@) == phase_edges(
            crate::scan::ScanPhase::ModuleStructure,
            node_views(nodes@),
            edge_views(edges@),
        ),
        node_views(o.file_phase.0@) == phase_nodes(crate::scan::ScanPhase::FileEdges, node_views(nodes@)),
        edge_views(o.file_phase.1@) == phase_edges(crate::scan::ScanPhase::FileEdges, node_views(nodes@), edge_views(edges@)),
        o.graph.wf(),
        o.graph.nodes_view() == merged_nodes(node_views(nodes@)),
        o.graph.edges_view() == merged_edges(o.graph.nodes_view(), edge_views(edges@)),
        edge_views(o.manual_edges@) == manual_edge_views(config.dependencies.add@, o.graph.nodes_view()),
        o.suppressed_edge_ids@.map_values(|s: String| s@) == suppressed_ids(
            config.dependencies.suppress@,
            o.graph.edges_view(),
        ),
        o.graph.overlay_view().manual_edges@ == manual_records(config.dependencies.add@, o.graph.nodes_view()),
        o.health.total_nodes == o.graph.nodes_view().len(),
        o.health.resolved_edges == o.graph.edges_view().len(),
        o.health.total_nodes == node_keys(node_views(nodes@)).to_set().len(),
        o.health.resolved_edges == in_graph_edge_ids(node_views(nodes@), edge_views(edges@)).to_set().len(),
        o.health.unsupported_constructs == all_constructs(reports@).len(),
        o.health.parse_failures == all_parse_failures(reports@).len(),
        o.health.unresolved_imports == all_unresolved(reports@).len(),
        unresolved_views(o.health.unresolved_import_details@) == all_unresolved(reports@),
        !o.compatibility.is_provisional,
        o.compatibility.assessments@.len() == assessments@.len(),
        forall|i: int|
            0 <= i < assessments@.len() ==> {
                let a = #[trigger] assessments@[i];
                &&& o.compatibility.assessments@[i].language == a.language
                &&& o.compatibility.assessments@[i].status == a.status
                &&& details_view(o.compatibility.assessments@[i].details@) == details_view(a.details@)
                    + source_details(
                    a.language,
                    count_type(all_constructs(reports@), UnsupportedConstructType::CfgGate),
                    count_type(all_constructs(reports@), UnsupportedConstructType::DynamicImport),
                    count_type(all_constructs(reports@), UnsupportedConstructType::CommonJsRequire),
                )
            },
        o.results.nodes == nodes,
        o.results.edges == edges,
        construct_views(o.results.unsupported_constructs@) == all_constructs(reports@),
        failure_views(o.results.parse_failures@) == all_parse_failures(reports@),
        unresolved_views(o.results.unresolved_imports@) == all_unresolved(reports@),
{
    let mut unsupported_constructs: Vec<UnsupportedConstruct> = Vec::new();
    let mut parse_failures: Vec<ParseFailure> = Vec::new();
    let mut unresolved_imports: Vec<UnresolvedImport> = Vec::new();
    let ghost all = reports@;
    let mut rest = reports;
    let total = rest.len();
    let mut k: usize = 0;
    assert(construct_views(unsupported_constructs@) =~= all_constructs(all.take(0)));
    assert(unresolved_views(unresolved_imports@) =~= all_unresolved(all.take(0)));
    assert(failure_views(parse_failures@) =~= all_parse_failures(all.take(0)));
    while rest.len() > 0
        invariant
            all.len() == total,
            k + rest@.len() == all.len(),
            rest@ == all.skip(k as int),
            construct_views(unsupported_constructs@) == all_constructs(all.take(k as int)),
            unresolved_views(unresolved_imports@) == all_unresolved(all.take(k as int)),
            failure_views(parse_failures@) == all_parse_failures(all.take(k as int)),
        decreases rest@.len(),
    {
        let mut r = rest.remove(0);
        assert(r == all[k as int]);
        assert(rest@ =~= all.skip(k + 1));
        assert(all.take(k + 1).drop_last() =~= all.take(k as int));
        assert(all.take(k + 1).last() == r);
        let ghost c0 = unsupported_constructs@;
        let ghost u0 = unresolved_imports@;
        let ghost rc = r.unsupported_constructs@;
        let ghost ru = r.unresolved_imports@;
        let ghost p0 = parse_failures@;
        let ghost rp = r.parse_failures@;
        unsupported_constructs.append(&mut r.unsupported_constructs);
        parse_failures.append(&mut r.parse_failures);
        unresolved_imports.append(&mut r.unresolved_imports);
        assert(construct_views(unsupported_constructs@) =~= construct_views(c0) + construct_views(rc));
        assert(unresolved_views(unresolved_imports@) =~= unresolved_views(u0) + unresolved_views(ru));
        assert(failure_views(parse_failures@) =~= failure_views(p0) + failure_views(rp));
        k = k + 1;
    }
    assert(all.take(all.len() as int) =~= all);
    let package_phase = scan_phase(crate::scan::ScanPhase::PackageTopology, &nodes, &edges);
    let module_phase = scan_phase(crate::scan::ScanPhase::ModuleStructure, &nodes, &edges);
    let file_phase = scan_phase(crate::scan::ScanPhase::FileEdges, &nodes, &edges);
    let mut graph = merge_into_graph(&nodes, &edges);
    let ghost merged = graph;
    let (manual_edges, suppressed_edge_ids) = apply_overlay_from_config(config, &mut graph);
    assert(merged.overlay_view().manual_edges@ + manual_records(config.dependencies.add@, merged.nodes_view())
        =~= manual_records(config.dependencies.add@, merged.nodes_view()));
    let health = graph_health(&graph, &unsupported_constructs, &parse_failures, &unresolved_imports);
    proof {
        lemma_merged_counts(node_views(nodes@), edge_views(edges@));
    }
    let compatibility = enrich_compatibility(assessments, &unsupported_constructs);
    ScanOutcome {
        package_phase,
        module_phase,
        file_phase,
        health,
        manual_edges,
        suppressed_edge_ids,
        compatibility,
        results: ScanResults { nodes, edges, unsupported_constructs, parse_failures, unresolved_imports },
        graph,
    }
}

// ---------------------------------------------------------------------------
// Driving a scan
// ---------------------------------------------------------------------------

/// Where a scan run stands: running the applicable detectors (the number of
/// those already started), sending the module phase, sending the file phase
/// and the rest, or finished.
#[derive(Debug, Clone, Copy, PartialEq, Eq, Structural)]
pub enum ScanStage {
    Detecting(usize),
    Modules,
    Files,
    Finished,
}

/// What the driver of a scan reports before each step: the cancellation
/// token was found cancelled, the last detector failed, or neither.
#[derive(Debug, Clone, Copy, PartialEq, Eq, Structural)]
pub enum ScanEvent {
    Cancelled,
    DetectorFailed,
    Ready,
}

/// What the driver does next: run the detector with the given index among
/// the applicable ones (then report progress), complete the scan from what
/// the detectors emitted and send the package phase, send the module phase,
/// send the file phase and then the health, details, overlay and final
/// compatibility, stop as cancelled, stop with the detector's failure, or
/// nothing (the scan is over).
#[derive(Debug, Clone, Copy, PartialEq, Eq, Structural)]
pub enum ScanAction {
    RunDetector(usize),
    CompleteAndSendPackages,
    SendModules,
    SendFilesAndReport,
    StopCancelled,
    StopFailed,
    Idle,
}

/// The next stage and action of a scan over `total` applicable detectors:
/// a cancellation or a failure ends it; otherwise the detectors run in
/// order, then the scan is completed and the phases go out in order.
pub open spec fn scan_transition(stage: ScanStage, total: usize, event: ScanEvent) -> (ScanStage, ScanAction) {
    match stage {
        ScanStage::Finished => (ScanStage::Finished, ScanAction::Idle),
        _ => match event {
            ScanEvent::Cancelled => (ScanStage::Finished, ScanAction::StopCancelled),
            ScanEvent::DetectorFailed => (ScanStage::Finished, ScanAction::StopFailed),
            ScanEvent::Ready => match stage {
                ScanStage::Detecting(i) => if i < total {
                    (ScanStage::Detecting((i + 1) as usize), ScanAction::RunDetector(i))
                } else {
                    (ScanStage::Modules, ScanAction::CompleteAndSendPackages)
                },
                ScanStage::Modules => (ScanStage::Files, ScanAction::SendModules),
                _ => (ScanStage::Finished, ScanAction::SendFilesAndReport),
            },
        },
    }
}

/// Decides a scan's next step (see [`scan_transition`]); a run starts in
/// `Detecting(0)`.
pub fn scan_step(stage: ScanStage, total: usize, event: ScanEvent) -> (r: (ScanStage, ScanAction))
    requires
        stage matches ScanStage::Detecting(i) ==> i <= total,
    ensures
        r == scan_transition(stage, total, event),
        r.0 matches ScanStage::Detecting(i) ==> i <= total,
{
    match stage {
        ScanStage::Finished => (ScanStage::Finished, ScanAction::Idle),
        _ => match event {
            ScanEvent::Cancelled => (ScanStage::Finished, ScanAction::StopCancelled),
            ScanEvent::DetectorFailed => (ScanStage::Finished, ScanAction::StopFailed),
            ScanEvent::Ready => match stage {
                ScanStage::Detecting(i) => if i < total {
                    (ScanStage::Detecting(i + 1), ScanAction::RunDetector(i))
                } else {
                    (ScanStage::Modules, ScanAction::CompleteAndSendPackages)
                },
                ScanStage::Modules => (ScanStage::Files, ScanAction::SendModules),
                _ => (ScanStage::Finished, ScanAction::SendFilesAndReport),
            },
        },
    }
}

/// The actions of a scan in which nothing is cancelled and no detector
/// fails, from `stage` on, for `steps` steps.
pub open spec fn ready_run(stage: ScanStage, total: usize, steps: nat) -> Seq<ScanAction>
    decreases steps,
{
    if steps == 0 {
        Seq::empty()
    } else {
        let (next, action) = scan_transition(stage, total, ScanEvent::Ready);
        seq![action] + ready_run(next, total, (steps - 1) as nat)
    }
}

/// Undisturbed, a scan from `Detecting(i)` runs each remaining detector
/// once, in order, then completes and sends the package phase, the module
/// phase, and the file phase with the report, and is over.
pub proof fn lemma_ready_run_order(i: usize, total: usize)
    requires
        i <= total,
    ensures
        ready_run(ScanStage::Detecting(i), total, (total - i + 3) as nat) == Seq::new(
            (total - i) as nat,
            |k: int| ScanAction::RunDetector((i + k) as usize),
        ) + seq![ScanAction::CompleteAndSendPackages, ScanAction::SendModules, ScanAction::SendFilesAndReport],
        scan_transition(ScanStage::Detecting(i), total, ScanEvent::Cancelled) == (
            ScanStage::Finished,
            ScanAction::StopCancelled,
        ),
    decreases total - i,
{
    if i < total {
        lemma_ready_run_order((i + 1) as usize, total);
        assert(Seq::new((total - i) as nat, |k: int| ScanAction::RunDetector((i + k) as usize)) =~= seq![
            ScanAction::RunDetector(i),
        ] + Seq::new((total - (i + 1)) as nat, |k: int| ScanAction::RunDetector(((i + 1) + k) as usize)));
    } else {
        reveal_with_fuel(ready_run, 4);
        assert(Seq::new(0nat, |k: int| ScanAction::RunDetector((i + k) as usize)) =~= Seq::<ScanAction>::empty());
    }
}

} // verus!
