//! Cargo workspace discovery decisions.
//!
//! `cargo metadata` runs at the edge; what it reports is handed here as
//! plain values, and this module keeps the workspace members, derives the
//! per-package facts the detectors need, and places each package relative
//! to the workspace root.

use vstd::prelude::*;

use crate::graph::types::Language;
use crate::paths::{opt_view, package_dir, package_dir_of};
use crate::text::same_text;
use crate::workspace::{
    CargoDependencyInfo, CargoDependencyKind, CargoDiscoveryResult, CargoPackageInfo,
    CargoTargetInfo, CargoWorkspaceMeta, WorkspacePackage,
};

verus! {

/// A dependency kind as `cargo metadata` reports it.
#[derive(Debug, Clone, Copy, PartialEq, Eq, Structural)]
pub enum MetadataDependencyKind {
    Normal,
    Development,
    Build,
    /// A kind this version of the metadata format does not name.
    Unknown,
}

/// A dependency as `cargo metadata` reports it.
#[derive(Debug, Clone, PartialEq, Eq)]
pub struct MetadataDependency {
    pub name: String,
    pub kind: MetadataDependencyKind,
    pub optional: bool,
}

/// A package as `cargo metadata` reports it, with whether it is a member of
/// the workspace.
#[derive(Debug, Clone, PartialEq, Eq)]
pub struct MetadataPackage {
    pub name: String,
    pub version: String,
    pub manifest_path: String,
    pub is_member: bool,
    /// Feature names, in the order cargo lists them.
    pub features: Vec<String>,
    pub dependencies: Vec<MetadataDependency>,
    /// Targets, with their kinds as cargo names them (`lib`, `custom-build`).
    pub targets: Vec<CargoTargetInfo>,
}

/// The dependency kind recorded for a reported kind (unknown kinds count as
/// normal).
pub open spec fn cargo_kind_of(k: MetadataDependencyKind) -> CargoDependencyKind {
    match k {
        MetadataDependencyKind::Normal => CargoDependencyKind::Normal,
        MetadataDependencyKind::Development => CargoDependencyKind::Dev,
        MetadataDependencyKind::Build => CargoDependencyKind::Build,
        MetadataDependencyKind::Unknown => CargoDependencyKind::Normal,
    }
}

/// The dependency kind recorded for a reported kind.
pub fn dependency_kind(k: MetadataDependencyKind) -> (r: CargoDependencyKind)
    ensures
        r == cargo_kind_of(k),
{
    match k {
        MetadataDependencyKind::Normal => CargoDependencyKind::Normal,
        MetadataDependencyKind::Development => CargoDependencyKind::Dev,
        MetadataDependencyKind::Build => CargoDependencyKind::Build,
        MetadataDependencyKind::Unknown => CargoDependencyKind::Normal,
    }
}

/// Whether some target has the kind `kind`.
pub open spec fn has_target_kind(targets: Seq<CargoTargetInfo>, kind: Seq<char>) -> bool {
    exists|i: int, j: int|
        0 <= i < targets.len() && 0 <= j < targets[i].kinds@.len() && #[trigger] targets[i].kinds@[j]@
            == kind
}

/// Whether some target has the kind `kind`.
pub fn any_target_kind(targets: &Vec<CargoTargetInfo>, kind: &str) -> (r: bool)
    ensures
        r == has_target_kind(targets@, kind@),
{
    let mut i: usize = 0;
    while i < targets.len()
        invariant
            i <= targets@.len(),
            forall|a: int, b: int|
                0 <= a < i && 0 <= b < targets@[a].kinds@.len() ==> #[trigger] targets@[a].kinds@[b]@
                    != kind@,
        decreases targets@.len() - i,
    {
        let kinds = &targets[i].kinds;
        let mut j: usize = 0;
        while j < kinds.len()
            invariant
                i < targets@.len(),
                kinds == targets@[i as int].kinds,
                j <= kinds@.len(),
                forall|b: int| 0 <= b < j ==> #[trigger] kinds@[b]@ != kind@,
            decreases kinds@.len() - j,
        {
            if same_text(kinds[j].as_str(), kind) {
                assert(targets@[i as int].kinds@[j as int]@ == kind@);
                return true;
            }
            j = j + 1;
        }
        i = i + 1;
    }
    false
}

/// The recorded form of a reported dependency.
pub open spec fn dependency_info_of(d: MetadataDependency) -> CargoDependencyInfo {
    CargoDependencyInfo { name: d.name, kind: cargo_kind_of(d.kind), is_optional: d.optional }
}

/// `info` records the reported package `m`: same name, version, manifest,
/// features and targets; a build script exactly where a target is
/// `custom-build`; a proc-macro crate exactly where a target is
/// `proc-macro`; the dependencies in order with their kinds mapped.
pub open spec fn records_package(info: CargoPackageInfo, m: MetadataPackage) -> bool {
    &&& info.name == m.name
    &&& info.version == m.version
    &&& info.manifest_path == m.manifest_path
    &&& info.has_build_script == has_target_kind(
        m.targets@,
        seq!['c', 'u', 's', 't', 'o', 'm', '-', 'b', 'u', 'i', 'l', 'd'],
    )
    &&& info.is_proc_macro == has_target_kind(
        m.targets@,
        seq!['p', 'r', 'o', 'c', '-', 'm', 'a', 'c', 'r', 'o'],
    )
    &&& info.features == m.features
    &&& info.targets == m.targets
    &&& info.dependencies@.len() == m.dependencies@.len()
    &&& forall|i: int|
        0 <= i < m.dependencies@.len() ==> #[trigger] info.dependencies@[i] == dependency_info_of(
            m.dependencies@[i],
        )
}

/// The workspace members among the reported packages, in order.
pub open spec fn members(ps: Seq<MetadataPackage>) -> Seq<MetadataPackage> {
    ps.filter(|p: MetadataPackage| p.is_member)
}

/// `w` is the Rust workspace package for the reported package `m`: its
/// name, at its manifest's directory relative to the workspace root.
pub open spec fn places_package(w: WorkspacePackage, m: MetadataPackage, root: Seq<char>) -> bool {
    &&& w.name == m.name
    &&& w.relative_path@ == package_dir(m.manifest_path@, root)
    &&& w.language == Language::Rust
}

/// Records one reported package.
fn package_info(m: MetadataPackage) -> (info: CargoPackageInfo)
    ensures
        records_package(info, m),
{
    proof {
        reveal_strlit("custom-build");
        reveal_strlit("proc-macro");
        assert("custom-build"@ =~= seq!['c', 'u', 's', 't', 'o', 'm', '-', 'b', 'u', 'i', 'l', 'd']);
        assert("proc-macro"@ =~= seq!['p', 'r', 'o', 'c', '-', 'm', 'a', 'c', 'r', 'o']);
    }
    let has_build_script = any_target_kind(&m.targets, "custom-build");
    let is_proc_macro = any_target_kind(&m.targets, "proc-macro");
    let mut dependencies: Vec<CargoDependencyInfo> = Vec::new();
    let mut i: usize = 0;
    while i < m.dependencies.len()
        invariant
            i <= m.dependencies@.len(),
            dependencies@.len() == i,
            forall|j: int|
                0 <= j < i ==> #[trigger] dependencies@[j] == dependency_info_of(m.dependencies@[j]),
        decreases m.dependencies@.len() - i,
    {
        let d = &m.dependencies[i];
        dependencies.push(
            CargoDependencyInfo {
                name: d.name.clone(),
                kind: dependency_kind(d.kind),
                is_optional: d.optional,
            },
        );
        i = i + 1;
    }
    CargoPackageInfo {
        name: m.name,
        version: m.version,
        manifest_path: m.manifest_path,
        has_build_script,
        is_proc_macro,
        features: m.features,
        dependencies,
        targets: m.targets,
    }
}

/// Assembles Cargo discovery from what `cargo metadata` reported: only
/// workspace members are kept, in the reported order; each becomes a
/// recorded package and a Rust workspace package placed at its manifest's
/// directory relative to the workspace root.
pub fn cargo_discovery(workspace_root: String, packages: Vec<MetadataPackage>) -> (r:
    CargoDiscoveryResult)
    ensures
        r.cargo_meta.workspace_root == workspace_root,
        r.cargo_meta.packages@.len() == members(packages@).len(),
        r.packages@.len() == members(packages@).len(),
        forall|i: int|
            0 <= i < members(packages@).len() ==> records_package(
                #[trigger] r.cargo_meta.packages@[i],
                members(packages@)[i],
            ),
        forall|i: int|
            0 <= i < members(packages@).len() ==> places_package(
                #[trigger] r.packages@[i],
                members(packages@)[i],
                workspace_root@,
            ),
{
    let ghost all = packages@;
    let mut cargo_packages: Vec<CargoPackageInfo> = Vec::new();
    let mut ws_packages: Vec<WorkspacePackage> = Vec::new();
    let mut rest = packages;
    let mut i: usize = 0;
    let n = rest.len();
    // Packages are taken from the front in order; `i` counts those taken.
    while 0 < rest.len()
        invariant
            all.len() == n,
            i + rest@.len() == n,
            rest@ == all.skip(i as int),
            cargo_packages@.len() == members(all.take(i as int)).len(),
            ws_packages@.len() == members(all.take(i as int)).len(),
            forall|k: int|
                0 <= k < members(all.take(i as int)).len() ==> records_package(
                    #[trigger] cargo_packages@[k],
                    members(all.take(i as int))[k],
                ),
            forall|k: int|
                0 <= k < members(all.take(i as int)).len() ==> places_package(
                    #[trigger] ws_packages@[k],
                    members(all.take(i as int))[k],
                    workspace_root@,
                ),
        decreases rest@.len(),
    {
        let m = rest.remove(0);
        let ghost prev = members(all.take(i as int));
        proof {
            assert(m == all[i as int]);
            assert(all.take(i + 1).drop_last() =~= all.take(i as int));
            assert(all.take(i + 1).last() == m);
            reveal(Seq::filter);
            assert(members(all.take(i + 1)) == if m.is_member {
                prev.push(m)
            } else {
                prev
            });
            assert(rest@ =~= all.skip(i + 1));
        }
        if m.is_member {
            let relative_path = package_dir_of(m.manifest_path.as_str(), workspace_root.as_str());
            ws_packages.push(
                WorkspacePackage { name: m.name.clone(), relative_path, language: Language::Rust },
            );
            let info = package_info(m);
            cargo_packages.push(info);
        }
        i = i + 1;
    }
    assert(all.take(n as int) =~= all);
    CargoDiscoveryResult {
        packages: ws_packages,
        cargo_meta: CargoWorkspaceMeta { workspace_root, packages: cargo_packages },
    }
}


// ---------------------------------------------------------------------------
// Locating the manifest
// ---------------------------------------------------------------------------

/// The manifests found walking up from a directory, nearest first: each
/// `Cargo.toml` that exists and could be read, with whether it declares a
/// `[workspace]`.
pub open spec fn candidates_view(cands: Seq<(String, bool)>) -> Seq<(Seq<char>, bool)> {
    cands.map_values(|c: (String, bool)| (c.0@, c.1))
}

/// The nearest manifest that declares a workspace, if any.
pub open spec fn nearest_workspace_manifest(cands: Seq<(Seq<char>, bool)>) -> Option<Seq<char>>
    decreases cands.len(),
{
    if cands.len() == 0 {
        None
    } else if cands[0].1 {
        Some(cands[0].0)
    } else {
        nearest_workspace_manifest(cands.drop_first())
    }
}

/// The manifest that discovery uses: the nearest workspace root, else the
/// nearest manifest (a single crate), else none.
pub open spec fn chosen_manifest(cands: Seq<(Seq<char>, bool)>) -> Option<Seq<char>> {
    match nearest_workspace_manifest(cands) {
        Some(m) => Some(m),
        None => if cands.len() > 0 {
            Some(cands[0].0)
        } else {
            None
        },
    }
}

/// Chooses the manifest to run `cargo metadata` on (see
/// [`chosen_manifest`]) among the readable manifests found walking up from
/// the selected directory, nearest first.
pub fn choose_cargo_toml(candidates: &Vec<(String, bool)>) -> (r: Option<String>)
    ensures
        opt_view(r) == chosen_manifest(candidates_view(candidates@)),
{
    let ghost cv = candidates_view(candidates@);
    let mut i: usize = 0;
    assert(cv.skip(0) =~= cv);
    while i < candidates.len()
        invariant
            i <= candidates@.len(),
            cv == candidates_view(candidates@),
            nearest_workspace_manifest(cv) == nearest_workspace_manifest(cv.skip(i as int)),
        decreases candidates@.len() - i,
    {
        let ghost rest = cv.skip(i as int);
        assert(rest[0] == cv[i as int]);
        if candidates[i].1 {
            return Some(candidates[i].0.clone());
        }
        assert(rest.drop_first() =~= cv.skip(i + 1));
        i = i + 1;
    }
    if candidates.len() > 0 {
        Some(candidates[0].0.clone())
    } else {
        None
    }
}

} // verus!
