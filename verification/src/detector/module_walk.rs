//! Following `mod` declarations from a crate's entry file down to the files
//! that hold its modules, one step at a time.
//!
//! The walk keeps a stack of files whose declarations are being followed.
//! Each step says what it needs from the file system (a file's
//! declarations, or whether the two candidate files of a module exist) and
//! is handed back what was found. The order is depth-first: a module's own
//! modules are followed before the next declaration of its parent.

use vstd::prelude::*;

use crate::config::schema::{ignored_by, RepoConfig};
use crate::detector::contains_edge_view;
use crate::detector::rust::{
    choose_module_file, declared_module_key, mod_decl_views, module_file, module_file_candidates,
    rust_module_entries, ModDeclView, ModDeclaration,
};
use crate::graph::identity::{KeyView, MaterializedKey};
use crate::graph::types::{
    edge_views, lemma_edge_views_push, lemma_node_views_push, node_views, Confidence, EdgeData,
    EdgeKind, EdgeView, Language, LocationView, NodeData, NodeKind, NodeView,
};
use crate::paths::{path_join, relative_or_self, relative_to};

verus! {

/// A file whose `mod` declarations are being followed.
pub struct ModuleFrame {
    /// The file.
    pub file: String,
    /// The directory in which its modules are looked for.
    pub dir: String,
    /// The key of the package or module that the file's modules belong to.
    pub parent: MaterializedKey,
    /// Its declarations, once the file has been read.
    pub decls: Option<Vec<ModDeclaration>>,
    /// How many of the declarations have been followed.
    pub next: usize,
}

/// What a frame stands for.
pub struct FrameView {
    pub file: Seq<char>,
    pub dir: Seq<char>,
    pub parent: KeyView,
    pub decls: Option<Seq<ModDeclView>>,
    pub next: nat,
}

impl View for ModuleFrame {
    type V = FrameView;

    open spec fn view(&self) -> FrameView {
        FrameView {
            file: self.file@,
            dir: self.dir@,
            parent: self.parent@,
            decls: match self.decls {
                Some(ds) => Some(mod_decl_views(ds@)),
                None => None,
            },
            next: self.next as nat,
        }
    }
}

/// The views of a stack of frames, bottom first.
pub open spec fn frame_views(fs: Seq<ModuleFrame>) -> Seq<FrameView> {
    fs.map_values(|f: ModuleFrame| f@)
}

/// A walk over a crate's module files: the frames still open (the top one
/// last) and the module nodes and containment edges found so far.
pub struct ModuleWalk {
    pub frames: Vec<ModuleFrame>,
    pub nodes: Vec<NodeData>,
    pub edges: Vec<EdgeData>,
}

/// What a walk stands for.
pub struct WalkView {
    pub frames: Seq<FrameView>,
    pub nodes: Seq<NodeView>,
    pub edges: Seq<EdgeView>,
}

impl View for ModuleWalk {
    type V = WalkView;

    open spec fn view(&self) -> WalkView {
        WalkView {
            frames: frame_views(self.frames@),
            nodes: node_views(self.nodes@),
            edges: edge_views(self.edges@),
        }
    }
}

/// What was found on the file system for the walk's last request.
pub enum ModuleWalkEvent {
    /// The file to read was read; these are its `mod` declarations.
    Declarations(Vec<ModDeclaration>),
    /// The file to read could not be read.
    Unreadable,
    /// Whether the two candidate files of the module exist.
    Probed { file_exists: bool, dir_file_exists: bool },
}

/// What an event stands for.
pub enum EventView {
    Declarations(Seq<ModDeclView>),
    Unreadable,
    Probed(bool, bool),
}

impl View for ModuleWalkEvent {
    type V = EventView;

    open spec fn view(&self) -> EventView {
        match self {
            ModuleWalkEvent::Declarations(ds) => EventView::Declarations(mod_decl_views(ds@)),
            ModuleWalkEvent::Unreadable => EventView::Unreadable,
            ModuleWalkEvent::Probed { file_exists, dir_file_exists } => EventView::Probed(
                *file_exists,
                *dir_file_exists,
            ),
        }
    }
}

/// What the walk needs next.
pub enum ModuleWalkAction {
    /// Read this file and hand back its `mod` declarations.
    Read { file: String },
    /// Tell whether these two files exist: `<name>.rs` and `<name>/mod.rs`.
    Probe { file: String, dir_file: String },
    /// Nothing is left to follow.
    Done,
}

/// What an action stands for.
pub enum ActionView {
    Read(Seq<char>),
    Probe(Seq<char>, Seq<char>),
    Done,
}

impl View for ModuleWalkAction {
    type V = ActionView;

    open spec fn view(&self) -> ActionView {
        match self {
            ModuleWalkAction::Read { file } => ActionView::Read(file@),
            ModuleWalkAction::Probe { file, dir_file } => ActionView::Probe(file@, dir_file@),
            ModuleWalkAction::Done => ActionView::Done,
        }
    }
}

/// Whether a frame has nothing left: its file was read and every
/// declaration followed.
pub open spec fn frame_done(f: FrameView) -> bool {
    f.decls matches Some(ds) && f.next >= ds.len()
}

/// The stack without the finished frames on its top.
pub open spec fn drop_finished(frames: Seq<FrameView>) -> Seq<FrameView>
    decreases frames.len(),
{
    if frames.len() > 0 && frame_done(frames.last()) {
        drop_finished(frames.drop_last())
    } else {
        frames
    }
}

/// What a walk asks for: to read the top file while its declarations are
/// unknown, else to probe the candidate files of its next declaration;
/// done when no frame is left.
pub open spec fn walk_action(w: WalkView) -> ActionView {
    if w.frames.len() == 0 {
        ActionView::Done
    } else {
        let f = w.frames.last();
        match f.decls {
            None => ActionView::Read(f.file),
            Some(ds) => if f.next < ds.len() {
                let name = ds[f.next as int].name;
                ActionView::Probe(path_join(f.dir, name + ".rs"@), path_join(path_join(f.dir, name), "mod.rs"@))
            } else {
                ActionView::Done
            },
        }
    }
}

/// The frame `f` with one more declaration followed.
pub open spec fn advanced(f: FrameView) -> FrameView {
    FrameView { file: f.file, dir: f.dir, parent: f.parent, decls: f.decls, next: f.next + 1 }
}

/// Following declaration `d` of frame `f`, given which candidate files
/// exist: the module's file and the directory of its own modules, unless
/// neither candidate exists or the file is ignored.
pub open spec fn followed_file(
    f: FrameView,
    d: ModDeclView,
    file_exists: bool,
    dir_file_exists: bool,
    root: Seq<char>,
    ignore: Seq<String>,
) -> Option<(Seq<char>, Seq<char>)> {
    match module_file(f.dir, d.name, file_exists, dir_file_exists) {
        Some((file, next_dir)) => if ignored_by(ignore, relative_to(file, root)) {
            None
        } else {
            Some((file, next_dir))
        },
        None => None,
    }
}

/// The node of module `d` declared in frame `f`.
pub open spec fn module_node(f: FrameView, d: ModDeclView, root: Seq<char>) -> NodeView {
    NodeView {
        key: declared_module_key(f.dir, d.name, root),
        lineage: None,
        label: d.name,
        kind: NodeKind::Module,
        language: Language::Rust,
        parent: Some(f.parent),
    }
}

/// The edge that places module `d` declared in frame `f` under the frame's
/// parent, located at the declaration.
pub open spec fn module_edge(f: FrameView, d: ModDeclView, root: Seq<char>) -> EdgeView {
    contains_edge_view(
        f.parent,
        declared_module_key(f.dir, d.name, root),
        Confidence::Syntactic,
        Some(LocationView { path: relative_to(f.file, root), start_line: d.start_line, end_line: d.end_line }),
        "tree-sitter mod_item"@,
    )
}

/// One step of the walk, before finished frames are dropped.
/// - The declarations of the top file: they are recorded, none followed.
/// - The top file is unreadable: its frame is dropped.
/// - Which candidates of the top frame's next declaration exist: the
///   declaration counts as followed; where the module's file was found and
///   is not ignored, the module's node and edge are recorded and a frame
///   for its file is opened on top.
/// An event that does not answer what the walk asked for changes nothing.
pub open spec fn walk_apply(w: WalkView, e: EventView, root: Seq<char>, ignore: Seq<String>) -> WalkView {
    if w.frames.len() == 0 {
        w
    } else {
        let f = w.frames.last();
        let rest = w.frames.drop_last();
        match f.decls {
            None => match e {
                EventView::Declarations(ds) => WalkView {
                    frames: rest.push(FrameView { file: f.file, dir: f.dir, parent: f.parent, decls: Some(ds), next: 0 }),
                    nodes: w.nodes,
                    edges: w.edges,
                },
                EventView::Unreadable => WalkView { frames: rest, nodes: w.nodes, edges: w.edges },
                EventView::Probed(_, _) => w,
            },
            Some(ds) => match e {
                EventView::Probed(fe, de) => if f.next < ds.len() {
                    let d = ds[f.next as int];
                    match followed_file(f, d, fe, de, root, ignore) {
                        Some((file, next_dir)) => WalkView {
                            frames: rest.push(advanced(f)).push(
                                FrameView {
                                    file,
                                    dir: next_dir,
                                    parent: declared_module_key(f.dir, d.name, root),
                                    decls: None,
                                    next: 0,
                                },
                            ),
                            nodes: w.nodes.push(module_node(f, d, root)),
                            edges: w.edges.push(module_edge(f, d, root)),
                        },
                        None => WalkView { frames: rest.push(advanced(f)), nodes: w.nodes, edges: w.edges },
                    }
                } else {
                    w
                },
                _ => w,
            },
        }
    }
}

/// The walk after one event: the event applied, then finished frames
/// dropped.
pub open spec fn walk_next(w: WalkView, e: EventView, root: Seq<char>, ignore: Seq<String>) -> WalkView {
    let a = walk_apply(w, e, root, ignore);
    WalkView { frames: drop_finished(a.frames), nodes: a.nodes, edges: a.edges }
}

/// Whether the walk's findings form a tree under `package`: each module
/// node has one edge, of kind `Contains`, from its parent to it; each
/// parent is the package or a module found before it; and every open
/// frame's modules belong to the package or to a module found.
pub open spec fn module_tree(w: WalkView, package: KeyView) -> bool {
    &&& w.nodes.len() == w.edges.len()
    &&& forall|i: int|
        0 <= i < w.nodes.len() ==> {
            &&& #[trigger] w.nodes[i].parent == Some(w.edges[i].source)
            &&& w.edges[i].target == w.nodes[i].key
            &&& w.edges[i].kind == EdgeKind::Contains
            &&& (w.edges[i].source == package || exists|j: int|
                0 <= j < i && #[trigger] w.nodes[j].key == w.edges[i].source)
        }
    &&& forall|k: int|
        0 <= k < w.frames.len() ==> (#[trigger] w.frames[k].parent == package || exists|j: int|
            0 <= j < w.nodes.len() && #[trigger] w.nodes[j].key == w.frames[k].parent)
}

/// Dropping finished frames leaves a bottom part of the stack.
proof fn lemma_drop_finished_prefix(frames: Seq<FrameView>)
    ensures
        drop_finished(frames).len() <= frames.len(),
        forall|k: int| 0 <= k < drop_finished(frames).len() ==> #[trigger] drop_finished(frames)[k] == frames[k],
    decreases frames.len(),
{
    if frames.len() > 0 && frame_done(frames.last()) {
        lemma_drop_finished_prefix(frames.drop_last());
    }
}

/// Every step of the walk keeps its findings a tree under the package: a
/// module is recorded only under the package or under a module recorded
/// before it, always together with its containment edge.
pub proof fn lemma_walk_keeps_tree(w: WalkView, e: EventView, root: Seq<char>, ignore: Seq<String>, package: KeyView)
    requires
        module_tree(w, package),
    ensures
        module_tree(walk_next(w, e, root, ignore), package),
{
    let a = walk_apply(w, e, root, ignore);
    let n = w.nodes.len();
    assert(module_tree(a, package)) by {
        if w.frames.len() > 0 {
            let f = w.frames.last();
            let top = w.frames.len() - 1;
            assert(w.frames[top] == f);
            let rest = w.frames.drop_last();
            assert forall|k: int| 0 <= k < rest.len() implies #[trigger] rest[k] == w.frames[k] by {}
            if let Some(ds) = f.decls {
                if let EventView::Probed(fe, de) = e {
                    if f.next < ds.len() {
                        let d = ds[f.next as int];
                        if let Some((file, next_dir)) = followed_file(f, d, fe, de, root, ignore) {
                            let mk = declared_module_key(f.dir, d.name, root);
                            assert(a.nodes == w.nodes.push(module_node(f, d, root)));
                            assert(a.nodes[n as int].key == mk);
                            assert forall|i: int| 0 <= i < a.nodes.len() implies {
                                &&& #[trigger] a.nodes[i].parent == Some(a.edges[i].source)
                                &&& a.edges[i].target == a.nodes[i].key
                                &&& a.edges[i].kind == EdgeKind::Contains
                                &&& (a.edges[i].source == package || exists|j: int|
                                    0 <= j < i && #[trigger] a.nodes[j].key == a.edges[i].source)
                            } by {
                                if i < n {
                                    assert(a.nodes[i] == w.nodes[i]);
                                    assert(a.edges[i] == w.edges[i]);
                                    assert(w.nodes[i].parent == Some(w.edges[i].source));
                                    if w.edges[i].source != package {
                                        let j = choose|j: int| 0 <= j < i && #[trigger] w.nodes[j].key == w.edges[i].source;
                                        assert(a.nodes[j] == w.nodes[j]);
                                    }
                                } else {
                                    assert(w.frames[top].parent == package || exists|j: int|
                                        0 <= j < w.nodes.len() && #[trigger] w.nodes[j].key == w.frames[top].parent);
                                    if f.parent != package {
                                        let j = choose|j: int| 0 <= j < w.nodes.len() && #[trigger] w.nodes[j].key == f.parent;
                                        assert(a.nodes[j] == w.nodes[j]);
                                    }
                                }
                            }
                            assert forall|k: int| 0 <= k < a.frames.len() implies (#[trigger] a.frames[k].parent == package
                                || exists|j: int| 0 <= j < a.nodes.len() && #[trigger] a.nodes[j].key == a.frames[k].parent) by {
                                if k < rest.len() {
                                    assert(a.frames[k] == w.frames[k]);
                                    if w.frames[k].parent != package {
                                        let j = choose|j: int| 0 <= j < w.nodes.len() && #[trigger] w.nodes[j].key == w.frames[k].parent;
                                        assert(a.nodes[j] == w.nodes[j]);
                                    }
                                } else if k == rest.len() {
                                    assert(a.frames[k].parent == f.parent);
                                    if f.parent != package {
                                        let j = choose|j: int| 0 <= j < w.nodes.len() && #[trigger] w.nodes[j].key == f.parent;
                                        assert(a.nodes[j] == w.nodes[j]);
                                    }
                                } else {
                                    assert(a.frames[k].parent == mk);
                                }
                            }
                        } else {
                            assert forall|k: int| 0 <= k < a.frames.len() implies (#[trigger] a.frames[k].parent == package
                                || exists|j: int| 0 <= j < a.nodes.len() && #[trigger] a.nodes[j].key == a.frames[k].parent) by {
                                assert(a.frames[k].parent == w.frames[k].parent);
                            }
                        }
                    }
                }
            } else {
                assert forall|k: int| 0 <= k < a.frames.len() implies (#[trigger] a.frames[k].parent == package
                    || exists|j: int| 0 <= j < a.nodes.len() && #[trigger] a.nodes[j].key == a.frames[k].parent) by {
                    assert(a.frames[k].parent == w.frames[k].parent);
                }
            }
        }
    }
    lemma_drop_finished_prefix(a.frames);
    let r = walk_next(w, e, root, ignore);
    assert forall|k: int| 0 <= k < r.frames.len() implies (#[trigger] r.frames[k].parent == package
        || exists|j: int| 0 <= j < r.nodes.len() && #[trigger] r.nodes[j].key == r.frames[k].parent) by {
        assert(r.frames[k] == a.frames[k]);
        assert(r.nodes == a.nodes);
        if a.frames[k].parent != package {
            let j = choose|j: int| 0 <= j < a.nodes.len() && #[trigger] a.nodes[j].key == a.frames[k].parent;
            assert(r.nodes[j].key == r.frames[k].parent);
        }
    }
}

impl ModuleWalk {
    /// A walk that starts at a crate's entry file, whose modules live in
    /// `entry_dir` and belong to `package`.
    pub fn new(entry: String, entry_dir: String, package: MaterializedKey) -> (w: Self)
        ensures
            w@ == (WalkView {
                frames: seq![FrameView { file: entry@, dir: entry_dir@, parent: package@, decls: None, next: 0 }],
                nodes: Seq::empty(),
                edges: Seq::empty(),
            }),
            module_tree(w@, package@),
    {
        let mut frames: Vec<ModuleFrame> = Vec::new();
        frames.push(ModuleFrame { file: entry, dir: entry_dir, parent: package, decls: None, next: 0 });
        let w = ModuleWalk { frames, nodes: Vec::new(), edges: Vec::new() };
        assert(w@.frames =~= seq![FrameView { file: entry@, dir: entry_dir@, parent: package@, decls: None, next: 0 }]);
        assert(w@.nodes =~= Seq::<NodeView>::empty());
        assert(w@.edges =~= Seq::<EdgeView>::empty());
        w
    }

    /// What the walk needs next.
    pub fn action(&self) -> (a: ModuleWalkAction)
        ensures
            a@ == walk_action(self@),
    {
        let n = self.frames.len();
        if n == 0 {
            return ModuleWalkAction::Done;
        }
        let f = &self.frames[n - 1];
        proof {
            assert(self@.frames.last() == f@);
        }
        match &f.decls {
            None => ModuleWalkAction::Read { file: f.file.clone() },
            Some(ds) => {
                if f.next < ds.len() {
                    let (file, dir_file) = module_file_candidates(f.dir.as_str(), ds[f.next].name.as_str());
                    proof {
                        assert(mod_decl_views(ds@)[f.next as int] == ds@[f.next as int]@);
                    }
                    ModuleWalkAction::Probe { file, dir_file }
                } else {
                    ModuleWalkAction::Done
                }
            },
        }
    }

    /// Drops the finished frames from the top of the stack.
    fn drop_finished_frames(&mut self)
        ensures
            final(self)@ == (WalkView { frames: drop_finished(old(self)@.frames), nodes: old(self)@.nodes, edges: old(self)@.edges }),
    {
        let ghost target = drop_finished(old(self)@.frames);
        loop
            invariant
                drop_finished(self@.frames) == target,
                self@.nodes == old(self)@.nodes,
                self@.edges == old(self)@.edges,
            ensures
                self@.frames == target,
                self@.nodes == old(self)@.nodes,
                self@.edges == old(self)@.edges,
            decreases self.frames@.len(),
        {
            let n = self.frames.len();
            if n == 0 {
                break;
            }
            let done = match &self.frames[n - 1].decls {
                Some(ds) => self.frames[n - 1].next >= ds.len(),
                None => false,
            };
            proof {
                assert(self@.frames.last() == self.frames@[n - 1]@);
            }
            if !done {
                break;
            }
            let ghost before = self.frames@;
            let _ = self.frames.pop();
            proof {
                assert(frame_views(self.frames@) =~= frame_views(before).drop_last());
            }
        }
    }

    /// Applies what was found for the last request and says what is needed
    /// next (see [`walk_next`] and [`walk_action`]).
    pub fn step(&mut self, event: ModuleWalkEvent, root: &str, config: &RepoConfig) -> (a: ModuleWalkAction)
        ensures
            final(self)@ == walk_next(old(self)@, event@, root@, config.ignore@),
            a@ == walk_action(final(self)@),
    {
        let ghost w0 = self@;
        let ghost ev = event@;
        let n = self.frames.len();
        if n > 0 {
            let ghost frames0 = self.frames@;
            let mut f = self.frames.pop().unwrap();
            proof {
                assert(frames0 == self.frames@.push(f));
                assert(frame_views(self.frames@) =~= w0.frames.drop_last());
                assert(w0.frames.last() == f@);
            }
            let ghost fv = f@;
            let ghost rest = frame_views(self.frames@);
            match event {
                ModuleWalkEvent::Declarations(ds) => {
                    if f.decls.is_none() {
                        f.decls = Some(ds);
                        f.next = 0;
                    }
                    let ghost before = self.frames@;
                    self.frames.push(f);
                    proof {
                        assert(frame_views(self.frames@) =~= frame_views(before).push(f@));
                    }
                },
                ModuleWalkEvent::Unreadable => {
                    if f.decls.is_some() {
                        let ghost before = self.frames@;
                        self.frames.push(f);
                        proof {
                            assert(frame_views(self.frames@) =~= frame_views(before).push(f@));
                        }
                    }
                },
                ModuleWalkEvent::Probed { file_exists, dir_file_exists } => {
                    let mut child: Option<ModuleFrame> = None;
                    let mut advance = false;
                    match &f.decls {
                        Some(ds) => {
                            if f.next < ds.len() {
                                advance = true;
                                let d = &ds[f.next];
                                let ghost dv = mod_decl_views(ds@)[f.next as int];
                                proof {
                                    assert(dv == d@);
                                }
                                let chosen = choose_module_file(f.dir.as_str(), d.name.as_str(), file_exists, dir_file_exists);
                                match chosen {
                                    Some((file, next_dir)) => {
                                        let rel = relative_or_self(file.as_str(), root);
                                        if !config.is_ignored(rel.as_str()) {
                                            let (node, edge) = rust_module_entries(
                                                d.name.as_str(),
                                                f.dir.as_str(),
                                                f.file.as_str(),
                                                root,
                                                &f.parent,
                                                d.start_line,
                                                d.end_line,
                                            );
                                            let key = node.materialized_key.clone();
                                            proof {
                                                lemma_node_views_push(self.nodes@, node);
                                                lemma_edge_views_push(self.edges@, edge);
                                            }
                                            self.nodes.push(node);
                                            self.edges.push(edge);
                                            child = Some(
                                                ModuleFrame { file, dir: next_dir, parent: key, decls: None, next: 0 },
                                            );
                                        }
                                    },
                                    None => {},
                                }
                            }
                        },
                        None => {},
                    }
                    if advance {
                        f.next = f.next + 1;
                    }
                    let ghost before = self.frames@;
                    self.frames.push(f);
                    proof {
                        assert(frame_views(self.frames@) =~= frame_views(before).push(f@));
                    }
                    match child {
                        Some(c) => {
                            let ghost before2 = self.frames@;
                            self.frames.push(c);
                            proof {
                                assert(frame_views(self.frames@) =~= frame_views(before2).push(c@));
                            }
                        },
                        None => {},
                    }
                },
            }
        }
        self.drop_finished_frames();
        self.action()
    }
}

} // verus!
