//! The configuration overlay on top of the discovered graph: manual edges,
//! suppressions and per-node metadata from `.codeatlas.yaml`.
//!
//! The discovered graph is what the scanner found; the overlay supplements
//! it without changing it.

use vstd::prelude::*;

use crate::graph::identity::{EdgeId, KeyView, MaterializedKey};

verus! {

/// A manually declared edge from `.codeatlas.yaml`.
#[derive(Debug, PartialEq, Eq)]
pub struct ManualEdge {
    /// Source node path (relative to the workspace root).
    pub from: String,
    /// Target node path (relative to the workspace root).
    pub to: String,
    /// Why this edge was declared.
    pub reason: String,
}

impl Clone for ManualEdge {
    fn clone(&self) -> (r: Self)
        ensures
            r == *self,
    {
        ManualEdge { from: self.from.clone(), to: self.to.clone(), reason: self.reason.clone() }
    }
}

/// Why an edge was suppressed in the default view.
#[derive(Debug, PartialEq, Eq)]
pub struct SuppressionReason {
    /// Human-readable reason.
    pub reason: String,
}

impl Clone for SuppressionReason {
    fn clone(&self) -> (r: Self)
        ensures
            r == *self,
    {
        SuppressionReason { reason: self.reason.clone() }
    }
}

/// Metadata attached to a node from `.codeatlas.yaml`.
#[derive(Debug, Clone, PartialEq, Eq)]
pub struct NodeMetadata {
    /// Organizational tags.
    pub tags: Vec<String>,
    /// Architectural layer name.
    pub layer: Option<String>,
    /// Team or individual owner.
    pub owner: Option<String>,
}

/// Suppressions keyed by the identity of the suppressed edge; each key
/// occurs once.
#[derive(Debug, PartialEq, Eq)]
pub struct SuppressionMap {
    entries: Vec<(EdgeId, SuppressionReason)>,
}

impl View for SuppressionMap {
    type V = Seq<(Seq<char>, SuppressionReason)>;

    closed spec fn view(&self) -> Seq<(Seq<char>, SuppressionReason)> {
        suppression_pairs(self.entries@)
    }
}

/// The views of suppression entries.
pub open spec fn suppression_pairs(e: Seq<(EdgeId, SuppressionReason)>) -> Seq<(Seq<char>, SuppressionReason)> {
    e.map_values(|x: (EdgeId, SuppressionReason)| (x.0@, x.1))
}

/// Whether the keys of a keyed list are distinct.
pub open spec fn keys_distinct<K, V>(s: Seq<(K, V)>) -> bool {
    forall|i: int, j: int| 0 <= i < j < s.len() ==> #[trigger] s[i].0 != #[trigger] s[j].0
}

/// The value stored under `key`, if any.
pub open spec fn value_of<K, V>(s: Seq<(K, V)>, key: K) -> Option<V> {
    if exists|i: int| 0 <= i < s.len() && #[trigger] s[i].0 == key {
        Some(s[choose|i: int| 0 <= i < s.len() && #[trigger] s[i].0 == key].1)
    } else {
        None
    }
}

/// The index of `key` in a keyed list with distinct keys, if present.
proof fn lemma_value_at<K, V>(s: Seq<(K, V)>, i: int)
    requires
        keys_distinct(s),
        0 <= i < s.len(),
    ensures
        value_of(s, s[i].0) == Some(s[i].1),
{
    let j = choose|j: int| 0 <= j < s.len() && #[trigger] s[j].0 == s[i].0;
    if j != i {
        if i < j {
            assert(s[i].0 != s[j].0);
        } else {
            assert(s[j].0 != s[i].0);
        }
    }
}

impl SuppressionMap {
    /// An empty map.
    pub fn new() -> (m: Self)
        ensures
            m@.len() == 0,
            keys_distinct(m@),
    {
        SuppressionMap { entries: Vec::new() }
    }

    /// Each key occurs once.
    #[verifier::type_invariant]
    pub open spec fn keys_unique(self) -> bool {
        keys_distinct(self@)
    }

    /// The position of the entry for `key`, if any.
    fn position(&self, key: &EdgeId) -> (r: Option<usize>)
        ensures
            match r {
                Some(i) => i < self@.len() && self@[i as int].0 == key@,
                None => forall|i: int| 0 <= i < self@.len() ==> #[trigger] self@[i].0 != key@,
            },
    {
        let mut i: usize = 0;
        while i < self.entries.len()
            invariant
                i <= self@.len(),
                self@.len() == self.entries@.len(),
                forall|j: int| 0 <= j < i ==> #[trigger] self@[j].0 != key@,
            decreases self@.len() - i,
        {
            if self.entries[i].0.same_as(key) {
                return Some(i);
            }
            i = i + 1;
        }
        None
    }

    /// Records `value` under `key`, returning the value it replaces.
    pub fn insert(&mut self, key: EdgeId, value: SuppressionReason) -> (r: Option<SuppressionReason>)
        ensures
            keys_distinct(final(self)@),
            r == value_of(old(self)@, key@),
            value_of(final(self)@, key@) == Some(value),
            forall|k: Seq<char>| k != key@ ==> value_of(final(self)@, k) == value_of(old(self)@, k),
    {
        proof {
            use_type_invariant(&*self);
        }
        let ghost old_view = self@;
        let ghost kv = key@;
        let pos = self.position(&key);
        let mut entries: Vec<(EdgeId, SuppressionReason)> = Vec::new();
        std::mem::swap(&mut entries, &mut self.entries);
        assert(suppression_pairs(entries@) == old_view);
        match pos {
            Some(i) => {
                let previous = entries[i].1.clone();
                proof {
                    lemma_value_at(old_view, i as int);
                }
                entries.set(i, (key, value));
                let ghost nv = suppression_pairs(entries@);
                assert(nv =~= old_view.update(i as int, (kv, value)));
                assert(keys_distinct(nv)) by {
                    assert forall|a: int, b: int| 0 <= a < b < nv.len() implies #[trigger] nv[a].0
                        != #[trigger] nv[b].0 by {
                        if a != i && b != i {
                            assert(old_view[a].0 != old_view[b].0);
                        } else if a == i {
                            assert(old_view[a].0 != old_view[b].0);
                        } else {
                            assert(old_view[a].0 != old_view[b].0);
                        }
                    }
                }
                proof {
                    lemma_value_at(nv, i as int);
                    assert forall|k: Seq<char>| k != kv implies value_of(nv, k) == value_of(old_view, k) by {
                        if exists|j: int| 0 <= j < old_view.len() && #[trigger] old_view[j].0 == k {
                            let j = choose|j: int| 0 <= j < old_view.len() && #[trigger] old_view[j].0 == k;
                            lemma_value_at(old_view, j);
                            assert(j != i);
                            assert(nv[j] == old_view[j]);
                            lemma_value_at(nv, j);
                        } else {
                            assert forall|j: int| 0 <= j < nv.len() implies #[trigger] nv[j].0 != k by {
                                if j != i {
                                    assert(nv[j] == old_view[j]);
                                }
                            }
                        }
                    }
                }
                self.entries = entries;
                Some(previous)
            },
            None => {
                entries.push((key, value));
                let ghost nv = suppression_pairs(entries@);
                assert(nv =~= old_view.push((kv, value)));
                assert(keys_distinct(nv)) by {
                    assert forall|a: int, b: int| 0 <= a < b < nv.len() implies #[trigger] nv[a].0
                        != #[trigger] nv[b].0 by {
                        if b < old_view.len() {
                            assert(old_view[a].0 != old_view[b].0);
                        } else {
                            assert(old_view[a].0 != kv);
                        }
                    }
                }
                proof {
                    lemma_value_at(nv, old_view.len() as int);
                    assert forall|k: Seq<char>| k != kv implies value_of(nv, k) == value_of(old_view, k) by {
                        if exists|j: int| 0 <= j < old_view.len() && #[trigger] old_view[j].0 == k {
                            let j = choose|j: int| 0 <= j < old_view.len() && #[trigger] old_view[j].0 == k;
                            lemma_value_at(old_view, j);
                            assert(nv[j] == old_view[j]);
                            lemma_value_at(nv, j);
                        } else {
                            assert forall|j: int| 0 <= j < nv.len() implies #[trigger] nv[j].0 != k by {
                                if j < old_view.len() {
                                    assert(nv[j] == old_view[j]);
                                }
                            }
                        }
                    }
                }
                self.entries = entries;
                None
            },
        }
    }

    /// The value stored under `key`, if any.
    pub fn get(&self, key: &EdgeId) -> (r: Option<&SuppressionReason>)
        ensures
            match r {
                Some(v) => value_of(self@, key@) == Some(*v),
                None => value_of(self@, key@) is None,
            },
    {
        proof {
            use_type_invariant(self);
        }
        match self.position(key) {
            Some(i) => {
                proof {
                    lemma_value_at(self@, i as int);
                }
                Some(&self.entries[i].1)
            },
            None => None,
        }
    }

    /// Whether a value is stored under `key`.
    pub fn contains_key(&self, key: &EdgeId) -> (r: bool)
        ensures
            r == (value_of(self@, key@) is Some),
    {
        let p = self.position(key);
        proof {
            match p {
                Some(i) => {
                    assert(self@[i as int].0 == key@);
                },
                None => {},
            }
        }
        p.is_some()
    }

    /// The number of entries.
    pub fn len(&self) -> (n: usize)
        ensures
            n == self@.len(),
    {
        self.entries.len()
    }

    /// The suppressed edge identities and reasons, in insertion order.
    pub fn entries(&self) -> (r: &Vec<(EdgeId, SuppressionReason)>)
        ensures
            r@.map_values(|e: (EdgeId, SuppressionReason)| (e.0@, e.1)) == self@,
    {
        &self.entries
    }
}

impl Clone for SuppressionMap {
    fn clone(&self) -> (r: Self)
        ensures
            r@ == self@,
    {
        proof {
            use_type_invariant(self);
        }
        let mut entries: Vec<(EdgeId, SuppressionReason)> = Vec::new();
        let mut i: usize = 0;
        while i < self.entries.len()
            invariant
                i <= self.entries@.len(),
                entries@.len() == i,
                suppression_pairs(entries@) == suppression_pairs(self.entries@).take(i as int),
                keys_distinct(self@),
            decreases self.entries@.len() - i,
        {
            let k = self.entries[i].0.clone();
            let v = self.entries[i].1.clone();
            let ghost before = entries@;
            entries.push((k, v));
            assert(k == self.entries@[i as int].0);
            assert(v == self.entries@[i as int].1);
            assert forall|j: int| 0 <= j < i + 1 implies #[trigger] suppression_pairs(entries@)[j] == suppression_pairs(
                self.entries@,
            )[j] by {
                if j < i {
                    assert(entries@[j] == before[j]);
                    assert(suppression_pairs(before)[j] == suppression_pairs(self.entries@).take(i as int)[j]);
                }
            }
            assert(suppression_pairs(entries@) =~= suppression_pairs(self.entries@).take(i + 1));
            i = i + 1;
        }
        assert(suppression_pairs(self.entries@).take(self.entries@.len() as int) =~= suppression_pairs(self.entries@));
        SuppressionMap { entries }
    }
}

/// Per-node metadata keyed by node identity; each key occurs once.
#[derive(Debug, PartialEq, Eq)]
pub struct MetadataMap {
    entries: Vec<(MaterializedKey, NodeMetadata)>,
}

impl View for MetadataMap {
    type V = Seq<(KeyView, NodeMetadata)>;

    closed spec fn view(&self) -> Seq<(KeyView, NodeMetadata)> {
        metadata_pairs(self.entries@)
    }
}

/// The views of metadata entries.
pub open spec fn metadata_pairs(e: Seq<(MaterializedKey, NodeMetadata)>) -> Seq<(KeyView, NodeMetadata)> {
    e.map_values(|x: (MaterializedKey, NodeMetadata)| (x.0@, x.1))
}

impl Clone for MetadataMap {
    /// A copy with the same keys in the same order; the metadata is cloned.
    fn clone(&self) -> (r: Self)
        ensures
            r@.len() == self@.len(),
            forall|i: int| 0 <= i < self@.len() ==> #[trigger] r@[i].0 == self@[i].0,
    {
        proof {
            use_type_invariant(self);
        }
        let mut entries: Vec<(MaterializedKey, NodeMetadata)> = Vec::new();
        let mut i: usize = 0;
        while i < self.entries.len()
            invariant
                i <= self.entries@.len(),
                entries@.len() == i,
                forall|j: int| 0 <= j < i ==> #[trigger] metadata_pairs(entries@)[j].0 == self@[j].0,
                keys_distinct(self@),
            decreases self.entries@.len() - i,
        {
            let k = self.entries[i].0.clone();
            let v = self.entries[i].1.clone();
            let ghost before = entries@;
            entries.push((k, v));
            assert forall|j: int| 0 <= j < i + 1 implies #[trigger] metadata_pairs(entries@)[j].0 == self@[j].0 by {
                if j < i {
                    assert(entries@[j] == before[j]);
                    assert(metadata_pairs(before)[j].0 == self@[j].0);
                }
            }
            i = i + 1;
        }
        let ghost nv = metadata_pairs(entries@);
        assert(keys_distinct(nv)) by {
            assert forall|a: int, b: int| 0 <= a < b < nv.len() implies #[trigger] nv[a].0 != #[trigger] nv[b].0 by {
                assert(nv[a].0 == self@[a].0);
                assert(nv[b].0 == self@[b].0);
            }
        }
        MetadataMap { entries }
    }
}

impl MetadataMap {
    /// An empty map.
    pub fn new() -> (m: Self)
        ensures
            m@.len() == 0,
            keys_distinct(m@),
    {
        MetadataMap { entries: Vec::new() }
    }

    /// Each key occurs once.
    #[verifier::type_invariant]
    pub open spec fn keys_unique(self) -> bool {
        keys_distinct(self@)
    }

    /// The position of the entry for `key`, if any.
    fn position(&self, key: &MaterializedKey) -> (r: Option<usize>)
        ensures
            match r {
                Some(i) => i < self@.len() && self@[i as int].0 == key@,
                None => forall|i: int| 0 <= i < self@.len() ==> #[trigger] self@[i].0 != key@,
            },
    {
        let mut i: usize = 0;
        while i < self.entries.len()
            invariant
                i <= self@.len(),
                self@.len() == self.entries@.len(),
                forall|j: int| 0 <= j < i ==> #[trigger] self@[j].0 != key@,
            decreases self@.len() - i,
        {
            if self.entries[i].0.same_as(key) {
                return Some(i);
            }
            i = i + 1;
        }
        None
    }

    /// Records `value` under `key`, returning whether a value was replaced.
    pub fn insert(&mut self, key: MaterializedKey, value: NodeMetadata) -> (replaced: bool)
        ensures
            keys_distinct(final(self)@),
            replaced == (value_of(old(self)@, key@) is Some),
            value_of(final(self)@, key@) == Some(value),
            forall|k: KeyView| k != key@ ==> value_of(final(self)@, k) == value_of(old(self)@, k),
    {
        proof {
            use_type_invariant(&*self);
        }
        let ghost old_view = self@;
        let ghost kv = key@;
        let pos = self.position(&key);
        let mut entries: Vec<(MaterializedKey, NodeMetadata)> = Vec::new();
        std::mem::swap(&mut entries, &mut self.entries);
        assert(metadata_pairs(entries@) == old_view);
        match pos {
            Some(i) => {
                proof {
                    lemma_value_at(old_view, i as int);
                }
                entries.set(i, (key, value));
                let ghost nv = metadata_pairs(entries@);
                assert(nv =~= old_view.update(i as int, (kv, value)));
                assert(keys_distinct(nv)) by {
                    assert forall|a: int, b: int| 0 <= a < b < nv.len() implies #[trigger] nv[a].0
                        != #[trigger] nv[b].0 by {
                        assert(old_view[a].0 != old_view[b].0);
                    }
                }
                proof {
                    lemma_value_at(nv, i as int);
                    assert forall|k: KeyView| k != kv implies value_of(nv, k) == value_of(old_view, k) by {
                        if exists|j: int| 0 <= j < old_view.len() && #[trigger] old_view[j].0 == k {
                            let j = choose|j: int| 0 <= j < old_view.len() && #[trigger] old_view[j].0 == k;
                            lemma_value_at(old_view, j);
                            assert(nv[j] == old_view[j]);
                            lemma_value_at(nv, j);
                        } else {
                            assert forall|j: int| 0 <= j < nv.len() implies #[trigger] nv[j].0 != k by {
                                if j != i {
                                    assert(nv[j] == old_view[j]);
                                }
                            }
                        }
                    }
                }
                self.entries = entries;
                true
            },
            None => {
                entries.push((key, value));
                let ghost nv = metadata_pairs(entries@);
                assert(nv =~= old_view.push((kv, value)));
                assert(keys_distinct(nv)) by {
                    assert forall|a: int, b: int| 0 <= a < b < nv.len() implies #[trigger] nv[a].0
                        != #[trigger] nv[b].0 by {
                        if b < old_view.len() {
                            assert(old_view[a].0 != old_view[b].0);
                        } else {
                            assert(old_view[a].0 != kv);
                        }
                    }
                }
                proof {
                    lemma_value_at(nv, old_view.len() as int);
                    assert forall|k: KeyView| k != kv implies value_of(nv, k) == value_of(old_view, k) by {
                        if exists|j: int| 0 <= j < old_view.len() && #[trigger] old_view[j].0 == k {
                            let j = choose|j: int| 0 <= j < old_view.len() && #[trigger] old_view[j].0 == k;
                            lemma_value_at(old_view, j);
                            assert(nv[j] == old_view[j]);
                            lemma_value_at(nv, j);
                        } else {
                            assert forall|j: int| 0 <= j < nv.len() implies #[trigger] nv[j].0 != k by {
                                if j < old_view.len() {
                                    assert(nv[j] == old_view[j]);
                                }
                            }
                        }
                    }
                }
                self.entries = entries;
                false
            },
        }
    }

    /// The metadata stored under `key`, if any.
    pub fn get(&self, key: &MaterializedKey) -> (r: Option<&NodeMetadata>)
        ensures
            match r {
                Some(v) => value_of(self@, key@) == Some(*v),
                None => value_of(self@, key@) is None,
            },
    {
        proof {
            use_type_invariant(self);
        }
        match self.position(key) {
            Some(i) => {
                proof {
                    lemma_value_at(self@, i as int);
                }
                Some(&self.entries[i].1)
            },
            None => None,
        }
    }

    /// The number of entries.
    pub fn len(&self) -> (n: usize)
        ensures
            n == self@.len(),
    {
        self.entries.len()
    }
}

/// The configuration overlay: manual edges, suppressions and metadata.
#[derive(Debug, Clone)]
pub struct GraphOverlay {
    /// Edges declared in `.codeatlas.yaml` that the scanner cannot observe.
    pub manual_edges: Vec<ManualEdge>,
    /// Discovered edges suppressed in the default view, by edge identity.
    pub suppressions: SuppressionMap,
    /// Per-node metadata from configuration.
    pub metadata: MetadataMap,
}

impl GraphOverlay {
    /// Whether both keyed maps have distinct keys.
    pub open spec fn wf(&self) -> bool {
        keys_distinct(self.suppressions@) && keys_distinct(self.metadata@)
    }
}

impl Default for GraphOverlay {
    fn default() -> (o: Self)
        ensures
            o.manual_edges@.len() == 0,
            o.suppressions@.len() == 0,
            o.metadata@.len() == 0,
            o.wf(),
    {
        GraphOverlay {
            manual_edges: Vec::new(),
            suppressions: SuppressionMap::new(),
            metadata: MetadataMap::new(),
        }
    }
}

} // verus!
