//! The two-layer architecture graph.
//!
//! The discovered layer lives in petgraph's `StableGraph`; nodes and edges
//! are found again by their identities (`MaterializedKey`, `EdgeId`), each
//! of which occurs at most once. The overlay layer is kept beside it and
//! can be changed without touching what was discovered.

use vstd::prelude::*;

use petgraph::stable_graph::StableGraph;
use petgraph::Directed;

use crate::graph::identity::{EdgeId, KeyView, MaterializedKey};
use crate::graph::overlay::{value_of, GraphOverlay, ManualEdge, SuppressionReason};
use crate::graph::types::{
    edge_views, lemma_edge_views_push, lemma_node_views_push, node_views, EdgeData, EdgeView,
    NodeData, NodeView,
};
use crate::graph::GraphError;

verus! {

/// Declaration of petgraph's `StableGraph`.
#[verifier::external_type_specification]
#[verifier::external_body]
#[verifier::reject_recursive_types(N)]
#[verifier::reject_recursive_types(E)]
#[verifier::reject_recursive_types(Ty)]
#[verifier::reject_recursive_types(Ix)]
pub struct ExStableGraph<N, E, Ty, Ix>(StableGraph<N, E, Ty, Ix>);

/// Declaration of petgraph's `Directed` edge type.
#[verifier::external_type_specification]
#[verifier::external_body]
pub struct ExDirected(Directed);

/// The petgraph graph that holds the discovered layer.
pub type DiscoveredGraph = StableGraph<NodeData, EdgeData, Directed, u32>;

/// The nodes a graph holds, by node index.
pub uninterp spec fn graph_nodes(g: DiscoveredGraph) -> Map<usize, NodeData>;

/// The edges a graph holds, by edge index.
pub uninterp spec fn graph_edges(g: DiscoveredGraph) -> Map<usize, EdgeData>;

/// The largest number of nodes or edges a graph indexed by `u32` holds
/// before adding one more panics.
pub open spec fn index_limit() -> nat {
    0xFFFF_FFFF
}

/// An empty graph (petgraph's `StableGraph::new`).
///
/// Trusted: a new graph holds no nodes and no edges.
#[verifier::external_body]
fn sg_new() -> (g: DiscoveredGraph)
    ensures
        graph_nodes(g).dom() == Set::<usize>::empty(),
        graph_edges(g).dom() == Set::<usize>::empty(),
{
    StableGraph::new()
}

/// Adds a node (petgraph's `StableGraph::add_node`).
///
/// Trusted: the node is stored under an index that held no node, below
/// `u32::MAX`; nothing else changes. petgraph panics only where every index
/// below `u32::MAX` is used, which the bound on the node count excludes.
#[verifier::external_body]
fn sg_add_node(g: &mut DiscoveredGraph, weight: NodeData) -> (i: usize)
    requires
        graph_nodes(*old(g)).dom().finite(),
        graph_nodes(*old(g)).len() < index_limit(),
    ensures
        i < index_limit(),
        !graph_nodes(*old(g)).contains_key(i),
        graph_nodes(*final(g)) == graph_nodes(*old(g)).insert(i, weight),
        graph_edges(*final(g)) == graph_edges(*old(g)),
{
    g.add_node(weight).index()
}

/// Adds an edge from node `a` to node `b` (petgraph's
/// `StableGraph::add_edge`).
///
/// Trusted: the edge is stored under an index that held no edge, below
/// `u32::MAX`; nothing else changes. petgraph panics where an endpoint is
/// missing or every edge index is used, which the requirements exclude.
#[verifier::external_body]
fn sg_add_edge(
    g: &mut DiscoveredGraph,
    a: usize,
    b: usize,
    weight: EdgeData,
) -> (i: usize)
    requires
        graph_nodes(*old(g)).contains_key(a),
        graph_nodes(*old(g)).contains_key(b),
        a < index_limit(),
        b < index_limit(),
        graph_edges(*old(g)).dom().finite(),
        graph_edges(*old(g)).len() < index_limit(),
    ensures
        i < index_limit(),
        !graph_edges(*old(g)).contains_key(i),
        graph_edges(*final(g)) == graph_edges(*old(g)).insert(i, weight),
        graph_nodes(*final(g)) == graph_nodes(*old(g)),
{
    g.add_edge(
        petgraph::stable_graph::NodeIndex::new(a),
        petgraph::stable_graph::NodeIndex::new(b),
        weight,
    ).index()
}

/// The node at index `i` (petgraph's `StableGraph::node_weight`).
///
/// Trusted: the node stored under `i`, if any.
#[verifier::external_body]
fn sg_node_weight(g: &DiscoveredGraph, i: usize) -> (r: Option<&NodeData>)
    requires
        i < index_limit(),
    ensures
        match r {
            Some(n) => graph_nodes(*g).contains_key(i) && *n == graph_nodes(*g)[i],
            None => !graph_nodes(*g).contains_key(i),
        },
{
    g.node_weight(petgraph::stable_graph::NodeIndex::new(i))
}

/// The edge at index `i` (petgraph's `StableGraph::edge_weight`).
///
/// Trusted: the edge stored under `i`, if any.
#[verifier::external_body]
fn sg_edge_weight(g: &DiscoveredGraph, i: usize) -> (r: Option<&EdgeData>)
    requires
        i < index_limit(),
    ensures
        match r {
            Some(e) => graph_edges(*g).contains_key(i) && *e == graph_edges(*g)[i],
            None => !graph_edges(*g).contains_key(i),
        },
{
    g.edge_weight(petgraph::stable_graph::EdgeIndex::new(i))
}

/// The number of nodes (petgraph's `StableGraph::node_count`).
///
/// Trusted: the number of stored nodes.
#[verifier::external_body]
fn sg_node_count(g: &DiscoveredGraph) -> (n: usize)
    requires
        graph_nodes(*g).dom().finite(),
    ensures
        n == graph_nodes(*g).len(),
{
    g.node_count()
}

/// The number of edges (petgraph's `StableGraph::edge_count`).
///
/// Trusted: the number of stored edges.
#[verifier::external_body]
fn sg_edge_count(g: &DiscoveredGraph) -> (n: usize)
    requires
        graph_edges(*g).dom().finite(),
    ensures
        n == graph_edges(*g).len(),
{
    g.edge_count()
}

/// The two-layer architecture graph: the discovered layer (nodes and edges
/// found by scanning, each identity at most once) and the overlay.
#[derive(Debug)]
pub struct ArchGraph {
    discovered: DiscoveredGraph,
    /// Node identities and their indices, in the order added.
    node_index: Vec<(MaterializedKey, usize)>,
    /// Edge identities and their indices, in the order added.
    edge_index: Vec<(EdgeId, usize)>,
    overlay: GraphOverlay,
}

/// Whether the keys of a sequence are distinct.
pub open spec fn distinct_keys(keys: Seq<KeyView>) -> bool {
    forall|i: int, j: int| 0 <= i < j < keys.len() ==> #[trigger] keys[i] != #[trigger] keys[j]
}

/// Whether the identities of a sequence are distinct.
pub open spec fn distinct_ids(ids: Seq<Seq<char>>) -> bool {
    forall|i: int, j: int| 0 <= i < j < ids.len() ==> #[trigger] ids[i] != #[trigger] ids[j]
}

/// The node with key `k` among `nodes`, if any (the last such one; in a
/// graph keys are distinct, so there is at most one).
pub open spec fn node_in(nodes: Seq<NodeView>, k: KeyView) -> Option<NodeView>
    decreases nodes.len(),
{
    if nodes.len() == 0 {
        None
    } else if nodes.last().key == k {
        Some(nodes.last())
    } else {
        node_in(nodes.drop_last(), k)
    }
}

/// The edge with identity `id` among `edges`, if any (the last such one;
/// in a graph identities are distinct, so there is at most one).
pub open spec fn edge_in(edges: Seq<EdgeView>, id: Seq<char>) -> Option<EdgeView>
    decreases edges.len(),
{
    if edges.len() == 0 {
        None
    } else if edges.last().edge_id == id {
        Some(edges.last())
    } else {
        edge_in(edges.drop_last(), id)
    }
}

/// Looking up a key after appending a node finds the appended node under
/// its own key and what was found before under any other key.
pub proof fn lemma_node_in_push(nodes: Seq<NodeView>, d: NodeView, k: KeyView)
    ensures
        node_in(nodes.push(d), k) == (if d.key == k { Some(d) } else { node_in(nodes, k) }),
{
    assert(nodes.push(d).drop_last() =~= nodes);
}

/// Looking up an identity after appending an edge finds the appended edge
/// under its own identity and what was found before under any other.
pub proof fn lemma_edge_in_push(edges: Seq<EdgeView>, d: EdgeView, id: Seq<char>)
    ensures
        edge_in(edges.push(d), id) == (if d.edge_id == id { Some(d) } else { edge_in(edges, id) }),
{
    assert(edges.push(d).drop_last() =~= edges);
}

/// With distinct keys, the node at position `i` is the one found under its
/// key; a key held by no node finds nothing.
proof fn lemma_node_in_found(nodes: Seq<NodeView>, k: KeyView)
    requires
        distinct_keys(nodes.map_values(|n: NodeView| n.key)),
    ensures
        forall|i: int| 0 <= i < nodes.len() && #[trigger] nodes[i].key == k ==> node_in(nodes, k) == Some(nodes[i]),
        !nodes.map_values(|n: NodeView| n.key).contains(k) ==> node_in(nodes, k) is None,
    decreases nodes.len(),
{
    let keys = nodes.map_values(|n: NodeView| n.key);
    if nodes.len() > 0 {
        let init = nodes.drop_last();
        let ikeys = init.map_values(|n: NodeView| n.key);
        assert forall|a: int, b: int| 0 <= a < b < ikeys.len() implies #[trigger] ikeys[a] != #[trigger] ikeys[b] by {
            assert(ikeys[a] == keys[a]);
            assert(ikeys[b] == keys[b]);
        }
        lemma_node_in_found(init, k);
        let last = nodes.len() - 1;
        assert forall|i: int| 0 <= i < nodes.len() && #[trigger] nodes[i].key == k implies node_in(nodes, k) == Some(
            nodes[i],
        ) by {
            if i < last {
                assert(keys[i] != keys[last]);
                assert(init[i] == nodes[i]);
            }
        }
        if !keys.contains(k) {
            if ikeys.contains(k) {
                let j = choose|j: int| 0 <= j < ikeys.len() && ikeys[j] == k;
                assert(keys[j] == k);
            }
            assert(keys[last] == nodes.last().key);
        }
    }
}

/// With distinct identities, the edge at position `i` is the one found
/// under its identity; an identity held by no edge finds nothing.
proof fn lemma_edge_in_found(edges: Seq<EdgeView>, id: Seq<char>)
    requires
        distinct_ids(edges.map_values(|e: EdgeView| e.edge_id)),
    ensures
        forall|i: int| 0 <= i < edges.len() && #[trigger] edges[i].edge_id == id ==> edge_in(edges, id) == Some(
            edges[i],
        ),
        !edges.map_values(|e: EdgeView| e.edge_id).contains(id) ==> edge_in(edges, id) is None,
    decreases edges.len(),
{
    let ids = edges.map_values(|e: EdgeView| e.edge_id);
    if edges.len() > 0 {
        let init = edges.drop_last();
        let iids = init.map_values(|e: EdgeView| e.edge_id);
        assert forall|a: int, b: int| 0 <= a < b < iids.len() implies #[trigger] iids[a] != #[trigger] iids[b] by {
            assert(iids[a] == ids[a]);
            assert(iids[b] == ids[b]);
        }
        lemma_edge_in_found(init, id);
        let last = edges.len() - 1;
        assert forall|i: int| 0 <= i < edges.len() && #[trigger] edges[i].edge_id == id implies edge_in(edges, id)
            == Some(edges[i]) by {
            if i < last {
                assert(ids[i] != ids[last]);
                assert(init[i] == edges[i]);
            }
        }
        if !ids.contains(id) {
            if iids.contains(id) {
                let j = choose|j: int| 0 <= j < iids.len() && iids[j] == id;
                assert(ids[j] == id);
            }
            assert(ids[last] == edges.last().edge_id);
        }
    }
}

impl ArchGraph {
    /// The discovered nodes, in the order added.
    pub closed spec fn nodes_view(&self) -> Seq<NodeView> {
        self.node_index@.map_values(|e: (MaterializedKey, usize)| graph_nodes(self.discovered)[e.1]@)
    }

    /// The discovered edges, in the order added.
    pub closed spec fn edges_view(&self) -> Seq<EdgeView> {
        self.edge_index@.map_values(|e: (EdgeId, usize)| graph_edges(self.discovered)[e.1]@)
    }

    /// The index each discovered node is stored under, in the order added.
    pub closed spec fn node_indices(&self) -> Seq<usize> {
        self.node_index@.map_values(|e: (MaterializedKey, usize)| e.1)
    }

    /// The index each discovered edge is stored under, in the order added.
    pub closed spec fn edge_indices(&self) -> Seq<usize> {
        self.edge_index@.map_values(|e: (EdgeId, usize)| e.1)
    }

    /// The overlay.
    pub closed spec fn overlay_view(&self) -> GraphOverlay {
        self.overlay
    }

    /// The keys of the discovered nodes, in the order added.
    pub open spec fn node_keys(&self) -> Seq<KeyView> {
        self.nodes_view().map_values(|n: NodeView| n.key)
    }

    /// The identities of the discovered edges, in the order added.
    pub open spec fn edge_ids(&self) -> Seq<Seq<char>> {
        self.edges_view().map_values(|e: EdgeView| e.edge_id)
    }

    /// Whether a node with key `k` was discovered.
    pub open spec fn has_node(&self, k: KeyView) -> bool {
        self.node_keys().contains(k)
    }

    /// Whether an edge with identity `id` was discovered.
    pub open spec fn has_edge(&self, id: Seq<char>) -> bool {
        self.edge_ids().contains(id)
    }

    /// The graph's internal consistency: each identity occurs once, each
    /// index holds the node or edge recorded for it, the counts agree, and
    /// every edge joins discovered nodes.
    pub closed spec fn wf(&self) -> bool {
        let nodes = graph_nodes(self.discovered);
        let edges = graph_edges(self.discovered);
        &&& nodes.dom().finite()
        &&& edges.dom().finite()
        &&& nodes.len() == self.node_index@.len()
        &&& edges.len() == self.edge_index@.len()
        &&& forall|i: int| 0 <= i < self.node_index@.len() ==> {
            let (k, idx) = #[trigger] self.node_index@[i];
            &&& nodes.contains_key(idx)
            &&& idx < index_limit()
            &&& nodes[idx].materialized_key@ == k@
        }
        &&& forall|i: int, j: int|
            0 <= i < j < self.node_index@.len() ==> #[trigger] self.node_index@[i].1
                != #[trigger] self.node_index@[j].1
        &&& forall|idx: usize| nodes.contains_key(idx) ==> exists|i: int|
            0 <= i < self.node_index@.len() && #[trigger] self.node_index@[i].1 == idx
        &&& forall|i: int| 0 <= i < self.edge_index@.len() ==> {
            let (id, idx) = #[trigger] self.edge_index@[i];
            &&& edges.contains_key(idx)
            &&& idx < index_limit()
            &&& edges[idx].edge_id@ == id@
        }
        &&& forall|i: int, j: int|
            0 <= i < j < self.edge_index@.len() ==> #[trigger] self.edge_index@[i].1
                != #[trigger] self.edge_index@[j].1
        &&& forall|idx: usize| edges.contains_key(idx) ==> exists|i: int|
            0 <= i < self.edge_index@.len() && #[trigger] self.edge_index@[i].1 == idx
        &&& distinct_keys(self.node_keys())
        &&& distinct_ids(self.edge_ids())
        &&& forall|i: int| 0 <= i < self.edges_view().len() ==> self.has_node(
            #[trigger] self.edges_view()[i].source,
        ) && self.has_node(self.edges_view()[i].target)
    }

    /// An empty graph with an empty overlay.
    pub fn new() -> (g: Self)
        ensures
            g.wf(),
            g.nodes_view().len() == 0,
            g.edges_view().len() == 0,
            g.overlay_view().manual_edges@.len() == 0,
            g.overlay_view().suppressions@.len() == 0,
            g.overlay_view().metadata@.len() == 0,
    {
        let g = ArchGraph {
            discovered: sg_new(),
            node_index: Vec::new(),
            edge_index: Vec::new(),
            overlay: GraphOverlay::default(),
        };
        assert(g.nodes_view() =~= Seq::<NodeView>::empty());
        assert(g.edges_view() =~= Seq::<EdgeView>::empty());
        assert(g.node_keys() =~= Seq::<KeyView>::empty());
        assert(g.edge_ids() =~= Seq::<Seq<char>>::empty());
        g
    }

    /// The position in the node list of the node with key `key`, if any.
    fn node_position(&self, key: &MaterializedKey) -> (r: Option<usize>)
        requires
            self.wf(),
        ensures
            match r {
                Some(i) => i < self.node_index@.len() && self.node_keys()[i as int] == key@,
                None => !self.has_node(key@),
            },
    {
        let mut i: usize = 0;
        while i < self.node_index.len()
            invariant
                self.wf(),
                i <= self.node_index@.len(),
                forall|j: int| 0 <= j < i ==> #[trigger] self.node_keys()[j] != key@,
            decreases self.node_index@.len() - i,
        {
            if self.node_index[i].0.same_as(key) {
                proof {
                    let idx = self.node_index@[i as int].1;
                    assert(graph_nodes(self.discovered)[idx].materialized_key@ == self.node_index@[i as int].0@);
                    assert(self.node_keys()[i as int] == self.nodes_view()[i as int].key);
                }
                return Some(i);
            }
            proof {
                let idx = self.node_index@[i as int].1;
                assert(graph_nodes(self.discovered)[idx].materialized_key@ == self.node_index@[i as int].0@);
                assert(self.node_keys()[i as int] == self.nodes_view()[i as int].key);
            }
            i = i + 1;
        }
        proof {
            if self.node_keys().contains(key@) {
                let j = choose|j: int| 0 <= j < self.node_keys().len() && self.node_keys()[j] == key@;
                assert(self.node_keys()[j] != key@);
            }
        }
        None
    }

    /// The position in the edge list of the edge with identity `id`, if any.
    fn edge_position(&self, id: &EdgeId) -> (r: Option<usize>)
        requires
            self.wf(),
        ensures
            match r {
                Some(i) => i < self.edge_index@.len() && self.edge_ids()[i as int] == id@,
                None => !self.has_edge(id@),
            },
    {
        let mut i: usize = 0;
        while i < self.edge_index.len()
            invariant
                self.wf(),
                i <= self.edge_index@.len(),
                forall|j: int| 0 <= j < i ==> #[trigger] self.edge_ids()[j] != id@,
            decreases self.edge_index@.len() - i,
        {
            if self.edge_index[i].0.same_as(id) {
                proof {
                    let idx = self.edge_index@[i as int].1;
                    assert(graph_edges(self.discovered)[idx].edge_id@ == self.edge_index@[i as int].0@);
                    assert(self.edge_ids()[i as int] == self.edges_view()[i as int].edge_id);
                }
                return Some(i);
            }
            proof {
                let idx = self.edge_index@[i as int].1;
                assert(graph_edges(self.discovered)[idx].edge_id@ == self.edge_index@[i as int].0@);
                assert(self.edge_ids()[i as int] == self.edges_view()[i as int].edge_id);
            }
            i = i + 1;
        }
        proof {
            if self.edge_ids().contains(id@) {
                let j = choose|j: int| 0 <= j < self.edge_ids().len() && self.edge_ids()[j] == id@;
                assert(self.edge_ids()[j] != id@);
            }
        }
        None
    }

    /// Whether a node with this key was discovered.
    pub fn contains_node(&self, key: &MaterializedKey) -> (r: bool)
        requires
            self.wf(),
        ensures
            r == self.has_node(key@),
    {
        let p = self.node_position(key);
        proof {
            match p {
                Some(i) => {
                    assert(self.node_keys()[i as int] == key@);
                },
                None => {},
            }
        }
        p.is_some()
    }

    /// Whether an edge with this identity was discovered.
    pub fn contains_edge(&self, edge_id: &EdgeId) -> (r: bool)
        requires
            self.wf(),
        ensures
            r == self.has_edge(edge_id@),
    {
        let p = self.edge_position(edge_id);
        proof {
            match p {
                Some(i) => {
                    assert(self.edge_ids()[i as int] == edge_id@);
                },
                None => {},
            }
        }
        p.is_some()
    }

    /// Adds a node to the discovered layer; a node with the same key is
    /// refused and the graph left unchanged.
    pub fn add_node(&mut self, data: NodeData) -> (r: Result<usize, GraphError>)
        requires
            old(self).wf(),
            old(self).nodes_view().len() < index_limit(),
        ensures
            final(self).wf(),
            old(self).has_node(data.materialized_key@) ==> (r matches Err(GraphError::DuplicateNode { key })
                && key@ == data.materialized_key@ && final(self).nodes_view() == old(self).nodes_view()),
            !old(self).has_node(data.materialized_key@) ==> (r matches Ok(i) && final(self).nodes_view()
                == old(self).nodes_view().push(data@) && final(self).node_indices()
                == old(self).node_indices().push(i)),
            r is Err ==> final(self).node_indices() == old(self).node_indices(),
            r is Ok ==> node_in(final(self).nodes_view(), data.materialized_key@) == Some(data@),
            forall|k: KeyView|
                k != data.materialized_key@ ==> #[trigger] node_in(final(self).nodes_view(), k) == node_in(
                    old(self).nodes_view(),
                    k,
                ),
            final(self).node_indices().len() == final(self).nodes_view().len(),
            final(self).edges_view() == old(self).edges_view(),
            final(self).edge_indices() == old(self).edge_indices(),
            final(self).overlay_view() == old(self).overlay_view(),
    {
        let key = data.materialized_key.clone();
        if self.node_position(&key).is_some() {
            return Err(GraphError::DuplicateNode { key });
        }
        let ghost old_nodes = graph_nodes(self.discovered);
        let ghost old_index = self.node_index@;
        let ghost old_view = self.nodes_view();
        let ghost old_edges_view = self.edges_view();
        let ghost old_keys = self.node_keys();
        let ghost dv = data@;
        let idx = sg_add_node(&mut self.discovered, data);
        self.node_index.push((key, idx));
        proof {
            let nodes = graph_nodes(self.discovered);
            assert(nodes == old_nodes.insert(idx, nodes[idx]));
            assert(nodes[idx]@ == dv);
            assert forall|i: int| 0 <= i < old_index.len() implies #[trigger] nodes[old_index[i].1]
                == old_nodes[old_index[i].1] by {
                assert(old_nodes.contains_key(old_index[i].1));
            }
            assert(self.nodes_view() =~= old_view.push(dv));
            lemma_node_in_push(old_view, dv, dv.key);
            assert forall|k: KeyView| k != dv.key implies #[trigger] node_in(self.nodes_view(), k) == node_in(
                old_view,
                k,
            ) by {
                lemma_node_in_push(old_view, dv, k);
            }
            assert(self.edges_view() =~= old_edges_view);
            assert(self.node_keys() =~= old_keys.push(dv.key));
            assert(self.node_indices() =~= old_index.map_values(|e: (MaterializedKey, usize)| e.1).push(idx));
            assert(distinct_keys(self.node_keys())) by {
                assert forall|a: int, b: int| 0 <= a < b < self.node_keys().len() implies #[trigger] self.node_keys()[a]
                    != #[trigger] self.node_keys()[b] by {
                    if b < old_keys.len() {
                        assert(old_keys[a] != old_keys[b]);
                    } else {
                        assert(old_keys[a] != dv.key) by {
                            assert(old_keys.contains(old_keys[a]));
                        }
                    }
                }
            }
            assert forall|i: int| 0 <= i < self.edges_view().len() implies self.has_node(
                #[trigger] self.edges_view()[i].source,
            ) && self.has_node(self.edges_view()[i].target) by {
                let s = old_edges_view[i].source;
                let t = old_edges_view[i].target;
                assert(old_keys.contains(s));
                assert(old_keys.contains(t));
                let a = choose|a: int| 0 <= a < old_keys.len() && old_keys[a] == s;
                let b = choose|b: int| 0 <= b < old_keys.len() && old_keys[b] == t;
                assert(self.node_keys()[a] == s);
                assert(self.node_keys()[b] == t);
            }
            assert forall|j: usize| nodes.contains_key(j) implies exists|i: int|
                0 <= i < self.node_index@.len() && #[trigger] self.node_index@[i].1 == j by {
                if j == idx {
                    assert(self.node_index@[old_index.len() as int].1 == j);
                } else {
                    assert(old_nodes.contains_key(j));
                    let i = choose|i: int| 0 <= i < old_index.len() && #[trigger] old_index[i].1 == j;
                    assert(self.node_index@[i].1 == j);
                }
            }
            assert forall|a: int, b: int| 0 <= a < b < self.node_index@.len() implies #[trigger] self.node_index@[a].1
                != #[trigger] self.node_index@[b].1 by {
                if b < old_index.len() {
                } else {
                    assert(old_nodes.contains_key(old_index[a].1));
                }
            }
        }
        Ok(idx)
    }

    /// Adds an edge to the discovered layer. The source must exist (else
    /// the source key is reported missing), then the target, and no edge
    /// may have the same identity; a refused edge leaves the graph
    /// unchanged.
    pub fn add_edge(&mut self, data: EdgeData) -> (r: Result<usize, GraphError>)
        requires
            old(self).wf(),
            old(self).edges_view().len() < index_limit(),
        ensures
            final(self).wf(),
            !old(self).has_node(data.source_key@) ==> (r matches Err(GraphError::NodeNotFound { key })
                && key@ == data.source_key@),
            old(self).has_node(data.source_key@) && !old(self).has_node(data.target_key@) ==> (r matches Err(
                GraphError::NodeNotFound { key },
            ) && key@ == data.target_key@),
            old(self).has_node(data.source_key@) && old(self).has_node(data.target_key@)
                && old(self).has_edge(data.edge_id@) ==> (r matches Err(GraphError::DuplicateEdge { edge_id })
                && edge_id@ == data.edge_id@),
            r is Err ==> final(self).edges_view() == old(self).edges_view(),
            old(self).has_node(data.source_key@) && old(self).has_node(data.target_key@)
                && !old(self).has_edge(data.edge_id@) ==> (r matches Ok(i) && final(self).edges_view()
                == old(self).edges_view().push(data@) && final(self).edge_indices()
                == old(self).edge_indices().push(i)),
            r is Err ==> final(self).edge_indices() == old(self).edge_indices(),
            r is Ok ==> edge_in(final(self).edges_view(), data.edge_id@) == Some(data@),
            forall|id: Seq<char>|
                id != data.edge_id@ ==> #[trigger] edge_in(final(self).edges_view(), id) == edge_in(
                    old(self).edges_view(),
                    id,
                ),
            final(self).nodes_view() == old(self).nodes_view(),
            final(self).node_indices() == old(self).node_indices(),
            final(self).overlay_view() == old(self).overlay_view(),
    {
        let s = match self.node_position(&data.source_key) {
            Some(i) => self.node_index[i].1,
            None => return Err(GraphError::NodeNotFound { key: data.source_key.clone() }),
        };
        let t = match self.node_position(&data.target_key) {
            Some(i) => self.node_index[i].1,
            None => return Err(GraphError::NodeNotFound { key: data.target_key.clone() }),
        };
        if self.edge_position(&data.edge_id).is_some() {
            return Err(GraphError::DuplicateEdge { edge_id: data.edge_id.clone() });
        }
        let ghost old_edges = graph_edges(self.discovered);
        let ghost old_index = self.edge_index@;
        let ghost old_view = self.edges_view();
        let ghost old_nodes_view = self.nodes_view();
        let ghost old_ids = self.edge_ids();
        let ghost old_keys = self.node_keys();
        let ghost dv = data@;
        let id = data.edge_id.clone();
        let idx = sg_add_edge(&mut self.discovered, s, t, data);
        self.edge_index.push((id, idx));
        proof {
            let edges = graph_edges(self.discovered);
            assert(edges[idx]@ == dv);
            assert forall|i: int| 0 <= i < old_index.len() implies #[trigger] edges[old_index[i].1]
                == old_edges[old_index[i].1] by {
                assert(old_edges.contains_key(old_index[i].1));
            }
            assert(self.edges_view() =~= old_view.push(dv));
            lemma_edge_in_push(old_view, dv, dv.edge_id);
            assert forall|id: Seq<char>| id != dv.edge_id implies #[trigger] edge_in(self.edges_view(), id) == edge_in(
                old_view,
                id,
            ) by {
                lemma_edge_in_push(old_view, dv, id);
            }
            assert(self.nodes_view() =~= old_nodes_view);
            assert(self.node_keys() =~= old_keys);
            assert(self.edge_ids() =~= old_ids.push(dv.edge_id));
            assert(self.edge_indices() =~= old_index.map_values(|e: (EdgeId, usize)| e.1).push(idx));
            assert(distinct_ids(self.edge_ids())) by {
                assert forall|a: int, b: int| 0 <= a < b < self.edge_ids().len() implies #[trigger] self.edge_ids()[a]
                    != #[trigger] self.edge_ids()[b] by {
                    if b < old_ids.len() {
                        assert(old_ids[a] != old_ids[b]);
                    } else {
                        assert(old_ids[a] != dv.edge_id) by {
                            assert(old_ids.contains(old_ids[a]));
                        }
                    }
                }
            }
            assert forall|i: int| 0 <= i < self.edges_view().len() implies self.has_node(
                #[trigger] self.edges_view()[i].source,
            ) && self.has_node(self.edges_view()[i].target) by {
                if i < old_view.len() {
                    assert(self.edges_view()[i] == old_view[i]);
                } else {
                    assert(self.edges_view()[i] == dv);
                }
            }
            assert forall|j: usize| edges.contains_key(j) implies exists|i: int|
                0 <= i < self.edge_index@.len() && #[trigger] self.edge_index@[i].1 == j by {
                if j == idx {
                    assert(self.edge_index@[old_index.len() as int].1 == j);
                } else {
                    assert(old_edges.contains_key(j));
                    let i = choose|i: int| 0 <= i < old_index.len() && #[trigger] old_index[i].1 == j;
                    assert(self.edge_index@[i].1 == j);
                }
            }
            assert forall|a: int, b: int| 0 <= a < b < self.edge_index@.len() implies #[trigger] self.edge_index@[a].1
                != #[trigger] self.edge_index@[b].1 by {
                if b < old_index.len() {
                } else {
                    assert(old_edges.contains_key(old_index[a].1));
                }
            }
        }
        Ok(idx)
    }

    /// The node with key `key`, if discovered.
    pub fn node(&self, key: &MaterializedKey) -> (r: Option<&NodeData>)
        requires
            self.wf(),
        ensures
            match r {
                Some(n) => self.has_node(key@) && n@.key == key@ && self.nodes_view().contains(n@),
                None => !self.has_node(key@),
            },
            match r {
                Some(n) => node_in(self.nodes_view(), key@) == Some(n@),
                None => node_in(self.nodes_view(), key@) is None,
            },
    {
        proof {
            lemma_node_in_found(self.nodes_view(), key@);
        }
        match self.node_position(key) {
            Some(i) => {
                let idx = self.node_index[i].1;
                let r = sg_node_weight(&self.discovered, idx);
                proof {
                    assert(self.nodes_view()[i as int] == graph_nodes(self.discovered)[idx]@);
                    assert(self.node_keys()[i as int] == self.nodes_view()[i as int].key);
                }
                r
            },
            None => None,
        }
    }

    /// The index of the node with key `key` (the one `add_node` returned
    /// for it), if discovered.
    pub fn node_index(&self, key: &MaterializedKey) -> (r: Option<usize>)
        requires
            self.wf(),
        ensures
            match r {
                Some(idx) => exists|p: int|
                    0 <= p < self.nodes_view().len() && #[trigger] self.node_keys()[p] == key@
                        && self.node_indices()[p] == idx,
                None => !self.has_node(key@),
            },
    {
        match self.node_position(key) {
            Some(i) => {
                proof {
                    assert(self.node_indices()[i as int] == self.node_index@[i as int].1);
                }
                Some(self.node_index[i].1)
            },
            None => None,
        }
    }

    /// The number of discovered nodes.
    pub fn node_count(&self) -> (n: usize)
        requires
            self.wf(),
        ensures
            n == self.nodes_view().len(),
    {
        sg_node_count(&self.discovered)
    }

    /// The number of discovered edges.
    pub fn edge_count(&self) -> (n: usize)
        requires
            self.wf(),
        ensures
            n == self.edges_view().len(),
    {
        sg_edge_count(&self.discovered)
    }

    /// The discovered nodes, in the order added.
    pub fn nodes(&self) -> (r: Vec<NodeData>)
        requires
            self.wf(),
        ensures
            node_views(r@) == self.nodes_view(),
    {
        let mut r: Vec<NodeData> = Vec::new();
        let mut i: usize = 0;
        while i < self.node_index.len()
            invariant
                self.wf(),
                i <= self.node_index@.len(),
                node_views(r@) == self.nodes_view().take(i as int),
            decreases self.node_index@.len() - i,
        {
            let idx = self.node_index[i].1;
            match sg_node_weight(&self.discovered, idx) {
                Some(n) => {
                    let c = n.clone();
                    proof {
                        lemma_node_views_push(r@, c);
                    }
                    r.push(c);
                },
                None => {},
            }
            assert(self.nodes_view().take(i + 1) =~= self.nodes_view().take(i as int).push(
                self.nodes_view()[i as int],
            ));
            i = i + 1;
        }
        assert(self.nodes_view().take(self.node_index@.len() as int) =~= self.nodes_view());
        r
    }

    /// The edge with identity `edge_id`, if discovered.
    pub fn edge(&self, edge_id: &EdgeId) -> (r: Option<&EdgeData>)
        requires
            self.wf(),
        ensures
            match r {
                Some(e) => self.has_edge(edge_id@) && e@.edge_id == edge_id@ && self.edges_view().contains(e@),
                None => !self.has_edge(edge_id@),
            },
            match r {
                Some(e) => edge_in(self.edges_view(), edge_id@) == Some(e@),
                None => edge_in(self.edges_view(), edge_id@) is None,
            },
    {
        proof {
            lemma_edge_in_found(self.edges_view(), edge_id@);
        }
        match self.edge_position(edge_id) {
            Some(i) => {
                let idx = self.edge_index[i].1;
                let r = sg_edge_weight(&self.discovered, idx);
                proof {
                    assert(self.edges_view()[i as int] == graph_edges(self.discovered)[idx]@);
                    assert(self.edge_ids()[i as int] == self.edges_view()[i as int].edge_id);
                }
                r
            },
            None => None,
        }
    }

    /// The discovered edges, in the order added.
    pub fn edges(&self) -> (r: Vec<EdgeData>)
        requires
            self.wf(),
        ensures
            edge_views(r@) == self.edges_view(),
    {
        let mut r: Vec<EdgeData> = Vec::new();
        let mut i: usize = 0;
        while i < self.edge_index.len()
            invariant
                self.wf(),
                i <= self.edge_index@.len(),
                edge_views(r@) == self.edges_view().take(i as int),
            decreases self.edge_index@.len() - i,
        {
            let idx = self.edge_index[i].1;
            match sg_edge_weight(&self.discovered, idx) {
                Some(e) => {
                    let c = e.clone();
                    proof {
                        lemma_edge_views_push(r@, c);
                    }
                    r.push(c);
                },
                None => {},
            }
            assert(self.edges_view().take(i + 1) =~= self.edges_view().take(i as int).push(
                self.edges_view()[i as int],
            ));
            i = i + 1;
        }
        assert(self.edges_view().take(self.edge_index@.len() as int) =~= self.edges_view());
        r
    }

    /// The overlay.
    pub fn overlay(&self) -> (o: &GraphOverlay)
        ensures
            *o == self.overlay_view(),
    {
        &self.overlay
    }

    /// The overlay, for changing it. The overlay refers to nodes and edges
    /// by identity only, so changing it leaves the discovered layer as it
    /// was.
    pub fn overlay_mut(&mut self) -> (o: &mut GraphOverlay)
        requires
            old(self).wf(),
        ensures
            *o == old(self).overlay_view(),
            o.wf(),
            final(self).overlay_view() == *final(o),
            final(self).nodes_view() == old(self).nodes_view(),
            final(self).edges_view() == old(self).edges_view(),
            final(self).node_indices() == old(self).node_indices(),
            final(self).edge_indices() == old(self).edge_indices(),
            forall|k: KeyView| #[trigger] node_in(final(self).nodes_view(), k) == node_in(old(self).nodes_view(), k),
            forall|id: Seq<char>| #[trigger] edge_in(final(self).edges_view(), id) == edge_in(old(self).edges_view(), id),
            final(self).wf(),
    {
        proof {
            use_type_invariant(&self.overlay.suppressions);
            use_type_invariant(&self.overlay.metadata);
        }
        &mut self.overlay
    }

    /// Records a manual edge in the overlay; the discovered layer and the
    /// rest of the overlay are unchanged.
    pub fn overlay_add_manual_edge(&mut self, edge: ManualEdge)
        requires
            old(self).wf(),
        ensures
            final(self).wf(),
            final(self).overlay_view().manual_edges@ == old(self).overlay_view().manual_edges@.push(edge),
            final(self).overlay_view().suppressions@ == old(self).overlay_view().suppressions@,
            final(self).overlay_view().metadata@ == old(self).overlay_view().metadata@,
            final(self).nodes_view() == old(self).nodes_view(),
            final(self).edges_view() == old(self).edges_view(),
            final(self).node_indices() == old(self).node_indices(),
            final(self).edge_indices() == old(self).edge_indices(),
    {
        self.overlay.manual_edges.push(edge);
    }

    /// Suppresses the edge with identity `id` in the overlay, for `reason`;
    /// the discovered layer and the rest of the overlay are unchanged.
    pub fn overlay_suppress(&mut self, id: EdgeId, reason: SuppressionReason)
        requires
            old(self).wf(),
        ensures
            final(self).wf(),
            value_of(final(self).overlay_view().suppressions@, id@) == Some(reason),
            forall|k: Seq<char>| k != id@ ==> value_of(final(self).overlay_view().suppressions@, k) == value_of(
                old(self).overlay_view().suppressions@,
                k,
            ),
            final(self).overlay_view().manual_edges@ == old(self).overlay_view().manual_edges@,
            final(self).overlay_view().metadata@ == old(self).overlay_view().metadata@,
            final(self).nodes_view() == old(self).nodes_view(),
            final(self).edges_view() == old(self).edges_view(),
            final(self).node_indices() == old(self).node_indices(),
            final(self).edge_indices() == old(self).edge_indices(),
            forall|e: Seq<char>| #[trigger] edge_in(final(self).edges_view(), e) == edge_in(old(self).edges_view(), e),
    {
        let _ = self.overlay.suppressions.insert(id, reason);
    }

    /// Replaces the overlay; the discovered layer is unchanged.
    pub fn set_overlay(&mut self, overlay: GraphOverlay)
        requires
            old(self).wf(),
        ensures
            final(self).wf(),
            final(self).overlay_view() == overlay,
            final(self).nodes_view() == old(self).nodes_view(),
            final(self).edges_view() == old(self).edges_view(),
            final(self).node_indices() == old(self).node_indices(),
            final(self).edge_indices() == old(self).edge_indices(),
    {
        self.overlay = overlay;
    }
}

impl Default for ArchGraph {
    fn default() -> (g: Self)
        ensures
            g.wf(),
            g.nodes_view().len() == 0,
            g.edges_view().len() == 0,
    {
        ArchGraph::new()
    }
}

/// Reading a node's index after adding it gives the index that `add_node`
/// returned: in the graph after the addition, the only index recorded for
/// the added key is that one.
pub proof fn lemma_node_index_after_add(before: ArchGraph, after: ArchGraph, data: NodeData, added: usize, idx: usize)
    requires
        after.wf(),
        after.nodes_view() == before.nodes_view().push(data@),
        after.node_indices() == before.node_indices().push(added),
        exists|p: int|
            0 <= p < after.nodes_view().len() && #[trigger] after.node_keys()[p] == data.materialized_key@
                && after.node_indices()[p] == idx,
    ensures
        idx == added,
{
    let p = choose|p: int|
        0 <= p < after.nodes_view().len() && #[trigger] after.node_keys()[p] == data.materialized_key@
            && after.node_indices()[p] == idx;
    let last = before.nodes_view().len() as int;
    assert(after.node_keys()[last] == data.materialized_key@);
    if p != last {
        assert(p < last);
        assert(after.node_keys()[p] != after.node_keys()[last]);
    }
}

/// No two discovered nodes share a key, and no two discovered edges share
/// an identity; every discovered edge joins discovered nodes.
pub proof fn lemma_discovered_identities_unique(g: ArchGraph)
    requires
        g.wf(),
    ensures
        distinct_keys(g.node_keys()),
        distinct_ids(g.edge_ids()),
        forall|i: int| 0 <= i < g.edges_view().len() ==> g.has_node(#[trigger] g.edges_view()[i].source)
            && g.has_node(g.edges_view()[i].target),
{
}

} // verus!
