//! Workspace model and discovery decisions.
//!
//! Discovery detects a Cargo workspace, a JS/TS workspace (pnpm or
//! npm/yarn), both, or neither. Reading manifests and running
//! `cargo metadata` happen at the edge; this module holds the resulting
//! model and the decisions made from it.

pub mod cargo;
pub mod javascript;
pub mod document;

use vstd::prelude::*;

use crate::graph::types::Language;
use crate::text::same_text;

verus! {

/// Declaration of std's I/O error, carried by [`WorkspaceError::Io`].
#[verifier::external_type_specification]
#[verifier::external_body]
pub struct ExIoError(std::io::Error);

/// Errors from workspace discovery.
#[derive(Debug)]
pub enum WorkspaceError {
    /// No `Cargo.toml` in the directory or any parent.
    CargoTomlNotFound { path: String },
    /// `cargo metadata` failed.
    CargoMetadataFailed { reason: String },
    /// A file could not be read.
    Io { path: String, source: std::io::Error },
    /// A JSON manifest could not be parsed.
    JsonParse { path: String, reason: String },
    /// A YAML manifest could not be parsed.
    YamlParse { path: String, reason: String },
}

/// The kind of workspace detected.
#[derive(Debug, Clone, Copy, PartialEq, Eq, Hash, Structural)]
pub enum WorkspaceKind {
    /// Cargo workspace (`Cargo.toml` with `[workspace]`).
    Cargo,
    /// pnpm workspace (`pnpm-workspace.yaml`).
    Pnpm,
    /// npm/yarn workspace (`package.json` with `workspaces`).
    NpmYarn,
    /// Both Cargo and JS workspace detected.
    Mixed,
    /// No workspace structure detected (single package).
    Single,
}

/// A package within a workspace.
#[derive(Debug, PartialEq, Eq)]
pub struct WorkspacePackage {
    /// Package name.
    pub name: String,
    /// Path relative to workspace root.
    pub relative_path: String,
    /// What language this package is (Rust crate vs JS/TS package).
    pub language: Language,
}

impl Clone for WorkspacePackage {
    fn clone(&self) -> (r: Self)
        ensures
            r == *self,
    {
        WorkspacePackage {
            name: self.name.clone(),
            relative_path: self.relative_path.clone(),
            language: self.language,
        }
    }
}

/// Kind of a Cargo dependency.
#[derive(Debug, Clone, Copy, PartialEq, Eq, Hash, Structural)]
pub enum CargoDependencyKind {
    Normal,
    Dev,
    Build,
}

/// A dependency of a Cargo package.
#[derive(Debug, PartialEq, Eq)]
pub struct CargoDependencyInfo {
    /// Dependency name.
    pub name: String,
    /// Dependency kind (normal, dev, build).
    pub kind: CargoDependencyKind,
    /// Whether this dependency is optional.
    pub is_optional: bool,
}

impl Clone for CargoDependencyInfo {
    fn clone(&self) -> (r: Self)
        ensures
            r == *self,
    {
        CargoDependencyInfo { name: self.name.clone(), kind: self.kind, is_optional: self.is_optional }
    }
}

/// A build target in a Cargo package.
#[derive(Debug, PartialEq, Eq)]
pub struct CargoTargetInfo {
    /// Target name.
    pub name: String,
    /// Target kinds (e.g. `lib`, `bin`, `proc-macro`).
    pub kinds: Vec<String>,
    /// Source path.
    pub src_path: String,
}

/// Information about a single Cargo package.
#[derive(Debug, PartialEq, Eq)]
pub struct CargoPackageInfo {
    /// Crate name.
    pub name: String,
    /// Crate version.
    pub version: String,
    /// Path to `Cargo.toml`.
    pub manifest_path: String,
    /// Whether this package has a build script.
    pub has_build_script: bool,
    /// Whether this package is a proc-macro crate.
    pub is_proc_macro: bool,
    /// Feature flags defined by this package.
    pub features: Vec<String>,
    /// Dependencies (name and kind).
    pub dependencies: Vec<CargoDependencyInfo>,
    /// Build targets.
    pub targets: Vec<CargoTargetInfo>,
}

/// Metadata extracted from `cargo metadata` for the Cargo workspace.
#[derive(Debug, PartialEq, Eq)]
pub struct CargoWorkspaceMeta {
    /// Workspace root reported by cargo.
    pub workspace_root: String,
    /// Per-package information.
    pub packages: Vec<CargoPackageInfo>,
}

/// Information about a single JS/TS package.
#[derive(Debug, PartialEq, Eq)]
pub struct JsPackageInfo {
    /// Package name from `package.json`.
    pub name: String,
    /// Path relative to workspace root.
    pub relative_path: String,
    /// Whether `package.json` has an `exports` field.
    pub has_exports_field: bool,
    /// Whether `package.json` has an `imports` field.
    pub has_imports_field: bool,
    /// Value of the `type` field (`module`, `commonjs`, or absent).
    pub module_type: Option<String>,
}

impl Clone for JsPackageInfo {
    fn clone(&self) -> (r: Self)
        ensures
            r == *self,
    {
        JsPackageInfo {
            name: self.name.clone(),
            relative_path: self.relative_path.clone(),
            has_exports_field: self.has_exports_field,
            has_imports_field: self.has_imports_field,
            module_type: match &self.module_type {
                Some(t) => Some(t.clone()),
                None => None,
            },
        }
    }
}

/// Information extracted from a `tsconfig.json` file.
#[derive(Debug, PartialEq, Eq)]
pub struct TsconfigInfo {
    /// Path to the `tsconfig.json`.
    pub path: String,
    /// `compilerOptions.moduleResolution`, lowercased.
    pub module_resolution: Option<String>,
    /// Whether a non-empty `references` array is present.
    pub has_project_references: bool,
    /// Whether `compilerOptions.paths` is present.
    pub has_paths: bool,
    /// Whether `compilerOptions.baseUrl` is present.
    pub has_base_url: bool,
}

impl Clone for TsconfigInfo {
    fn clone(&self) -> (r: Self)
        ensures
            r == *self,
    {
        TsconfigInfo {
            path: self.path.clone(),
            module_resolution: match &self.module_resolution {
                Some(m) => Some(m.clone()),
                None => None,
            },
            has_project_references: self.has_project_references,
            has_paths: self.has_paths,
            has_base_url: self.has_base_url,
        }
    }
}

/// Metadata for a JS/TS workspace.
#[derive(Debug, PartialEq, Eq)]
pub struct JsWorkspaceMeta {
    /// Detected package manager (`pnpm`, `npm`, `yarn`, `bun`).
    pub package_manager: String,
    /// Per-package information.
    pub packages: Vec<JsPackageInfo>,
    /// Root tsconfig info (if `tsconfig.json` exists at the workspace root).
    pub root_tsconfig: Option<TsconfigInfo>,
    /// Whether Yarn PnP is detected (`.pnp.cjs` or `.pnp.mjs` present).
    pub has_pnp: bool,
}

/// Information about a discovered workspace.
#[derive(Debug, PartialEq, Eq)]
pub struct WorkspaceInfo {
    /// Absolute path to the workspace root.
    pub root: String,
    /// What kind of workspace was detected.
    pub kind: WorkspaceKind,
    /// Discovered workspace packages/crates.
    pub packages: Vec<WorkspacePackage>,
    /// Cargo-specific metadata (present for a Cargo workspace).
    pub cargo: Option<CargoWorkspaceMeta>,
    /// JS/TS-specific metadata (present for a JS workspace).
    pub js: Option<JsWorkspaceMeta>,
}

/// Two targets with the same name, kinds and source path.
pub open spec fn same_target(a: CargoTargetInfo, b: CargoTargetInfo) -> bool {
    a.name == b.name && a.kinds@ == b.kinds@ && a.src_path == b.src_path
}

impl Clone for CargoTargetInfo {
    fn clone(&self) -> (r: Self)
        ensures
            same_target(r, *self),
    {
        CargoTargetInfo { name: self.name.clone(), kinds: self.kinds.clone(), src_path: self.src_path.clone() }
    }
}

/// Two packages with the same fields, their targets the same position by
/// position.
pub open spec fn same_package(a: CargoPackageInfo, b: CargoPackageInfo) -> bool {
    &&& a.name == b.name
    &&& a.version == b.version
    &&& a.manifest_path == b.manifest_path
    &&& a.has_build_script == b.has_build_script
    &&& a.is_proc_macro == b.is_proc_macro
    &&& a.features@ == b.features@
    &&& a.dependencies@ == b.dependencies@
    &&& a.targets@.len() == b.targets@.len()
    &&& forall|i: int| 0 <= i < a.targets@.len() ==> same_target(#[trigger] a.targets@[i], b.targets@[i])
}

impl Clone for CargoPackageInfo {
    fn clone(&self) -> (r: Self)
        ensures
            same_package(r, *self),
    {
        CargoPackageInfo {
            name: self.name.clone(),
            version: self.version.clone(),
            manifest_path: self.manifest_path.clone(),
            has_build_script: self.has_build_script,
            is_proc_macro: self.is_proc_macro,
            features: self.features.clone(),
            dependencies: self.dependencies.clone(),
            targets: self.targets.clone(),
        }
    }
}

/// Two Cargo metadata records with the same root and, position by
/// position, the same packages.
pub open spec fn same_cargo_meta(a: CargoWorkspaceMeta, b: CargoWorkspaceMeta) -> bool {
    &&& a.workspace_root == b.workspace_root
    &&& a.packages@.len() == b.packages@.len()
    &&& forall|i: int| 0 <= i < a.packages@.len() ==> same_package(#[trigger] a.packages@[i], b.packages@[i])
}

impl Clone for CargoWorkspaceMeta {
    fn clone(&self) -> (r: Self)
        ensures
            same_cargo_meta(r, *self),
    {
        CargoWorkspaceMeta { workspace_root: self.workspace_root.clone(), packages: self.packages.clone() }
    }
}

/// Two JS metadata records with the same fields.
pub open spec fn same_js_meta(a: JsWorkspaceMeta, b: JsWorkspaceMeta) -> bool {
    &&& a.package_manager == b.package_manager
    &&& a.packages@ == b.packages@
    &&& a.root_tsconfig == b.root_tsconfig
    &&& a.has_pnp == b.has_pnp
}

impl Clone for JsWorkspaceMeta {
    fn clone(&self) -> (r: Self)
        ensures
            same_js_meta(r, *self),
    {
        JsWorkspaceMeta {
            package_manager: self.package_manager.clone(),
            packages: self.packages.clone(),
            root_tsconfig: match &self.root_tsconfig {
                Some(t) => Some(t.clone()),
                None => None,
            },
            has_pnp: self.has_pnp,
        }
    }
}

/// Two workspaces with the same root, kind and packages, and the same Cargo
/// and JS metadata where present.
pub open spec fn same_workspace(a: WorkspaceInfo, b: WorkspaceInfo) -> bool {
    &&& a.root == b.root
    &&& a.kind == b.kind
    &&& a.packages@ == b.packages@
    &&& match (a.cargo, b.cargo) {
        (Some(x), Some(y)) => same_cargo_meta(x, y),
        (None, None) => true,
        _ => false,
    }
    &&& match (a.js, b.js) {
        (Some(x), Some(y)) => same_js_meta(x, y),
        (None, None) => true,
        _ => false,
    }
}

impl Clone for WorkspaceInfo {
    fn clone(&self) -> (r: Self)
        ensures
            same_workspace(r, *self),
    {
        WorkspaceInfo {
            root: self.root.clone(),
            kind: self.kind,
            packages: self.packages.clone(),
            cargo: match &self.cargo {
                Some(c) => Some(c.clone()),
                None => None,
            },
            js: match &self.js {
                Some(j) => Some(j.clone()),
                None => None,
            },
        }
    }
}

/// Sameness of workspaces is transitive.
pub proof fn lemma_same_workspace_trans(a: WorkspaceInfo, b: WorkspaceInfo, c: WorkspaceInfo)
    requires
        same_workspace(a, b),
        same_workspace(b, c),
    ensures
        same_workspace(a, c),
{
    match (a.cargo, b.cargo, c.cargo) {
        (Some(x), Some(y), Some(z)) => {
            assert forall|i: int| 0 <= i < x.packages@.len() implies same_package(
                #[trigger] x.packages@[i],
                z.packages@[i],
            ) by {
                let (p, q, r) = (x.packages@[i], y.packages@[i], z.packages@[i]);
                assert(same_package(p, q) && same_package(q, r));
                assert forall|k: int| 0 <= k < p.targets@.len() implies same_target(
                    #[trigger] p.targets@[k],
                    r.targets@[k],
                ) by {
                    assert(same_target(p.targets@[k], q.targets@[k]));
                    assert(same_target(q.targets@[k], r.targets@[k]));
                }
            }
        },
        _ => {},
    }
}

/// What Cargo discovery found: workspace packages and cargo metadata.
pub struct CargoDiscoveryResult {
    pub packages: Vec<WorkspacePackage>,
    pub cargo_meta: CargoWorkspaceMeta,
}

/// What JS discovery found: workspace packages and JS metadata.
pub struct JsDiscoveryResult {
    pub packages: Vec<WorkspacePackage>,
    pub js_meta: JsWorkspaceMeta,
}

/// The name `pnpm`.
pub open spec fn pnpm_text() -> Seq<char> {
    seq!['p', 'n', 'p', 'm']
}

/// The workspace kind of a JS-only workspace managed by `package_manager`.
pub open spec fn js_kind(package_manager: Seq<char>) -> WorkspaceKind {
    if package_manager == pnpm_text() {
        WorkspaceKind::Pnpm
    } else {
        WorkspaceKind::NpmYarn
    }
}

/// Combines the outcomes of Cargo and JS discovery in `dir`.
///
/// Both found: a mixed workspace rooted at `dir` with the Cargo packages
/// followed by the JS packages. One found: that workspace (a Cargo one
/// rooted where cargo says, a JS one at `dir`, of kind pnpm or npm/yarn by
/// its package manager), whatever error the other side had. Neither found
/// and no error: a single-package workspace at `dir` with no packages.
/// Otherwise the Cargo error if there is one, else the JS error.
pub fn combine_discovery(
    dir: String,
    cargo: Result<Option<CargoDiscoveryResult>, WorkspaceError>,
    js: Result<Option<JsDiscoveryResult>, WorkspaceError>,
) -> (r: Result<WorkspaceInfo, WorkspaceError>)
    ensures
        match (cargo, js) {
            (Ok(Some(c)), Ok(Some(j))) => r matches Ok(w) && w.root == dir && w.kind
                == WorkspaceKind::Mixed && w.packages@ == c.packages@ + j.packages@ && w.cargo
                == Some(c.cargo_meta) && w.js == Some(j.js_meta),
            (Ok(Some(c)), _) => r matches Ok(w) && w.root == c.cargo_meta.workspace_root
                && w.kind == WorkspaceKind::Cargo && w.packages == c.packages && w.cargo == Some(
                c.cargo_meta,
            ) && w.js is None,
            (_, Ok(Some(j))) => r matches Ok(w) && w.root == dir && w.kind == js_kind(
                j.js_meta.package_manager@,
            ) && w.packages == j.packages && w.cargo is None && w.js == Some(j.js_meta),
            (Ok(None), Ok(None)) => r matches Ok(w) && w.root == dir && w.kind
                == WorkspaceKind::Single && w.packages@.len() == 0 && w.cargo is None && w.js is None,
            (Err(e), _) => r == Err::<WorkspaceInfo, WorkspaceError>(e),
            (Ok(None), Err(e)) => r == Err::<WorkspaceInfo, WorkspaceError>(e),
        },
{
    match (cargo, js) {
        (Ok(Some(c)), Ok(Some(j))) => {
            let mut packages = c.packages;
            let mut more = j.packages;
            packages.append(&mut more);
            Ok(WorkspaceInfo {
                root: dir,
                kind: WorkspaceKind::Mixed,
                packages,
                cargo: Some(c.cargo_meta),
                js: Some(j.js_meta),
            })
        },
        (Ok(Some(c)), _) => {
            let root = c.cargo_meta.workspace_root.clone();
            Ok(WorkspaceInfo {
                root,
                kind: WorkspaceKind::Cargo,
                packages: c.packages,
                cargo: Some(c.cargo_meta),
                js: None,
            })
        },
        (_, Ok(Some(j))) => {
            proof {
                reveal_strlit("pnpm");
                assert("pnpm"@ =~= pnpm_text());
            }
            let kind = if same_text(j.js_meta.package_manager.as_str(), "pnpm") {
                WorkspaceKind::Pnpm
            } else {
                WorkspaceKind::NpmYarn
            };
            Ok(WorkspaceInfo { root: dir, kind, packages: j.packages, cargo: None, js: Some(j.js_meta) })
        },
        (Ok(None), Ok(None)) => Ok(
            WorkspaceInfo {
                root: dir,
                kind: WorkspaceKind::Single,
                packages: Vec::new(),
                cargo: None,
                js: None,
            },
        ),
        (Err(e), _) => Err(e),
        (Ok(None), Err(e)) => Err(e),
    }
}

} // verus!
