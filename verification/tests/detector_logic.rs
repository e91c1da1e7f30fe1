use codeatlas_core::detector::rust::{
    cfg_gate_construct, choose_module_file, crate_paths, dependency_categories,
    detect_package_topology, extract_use_edges, rust_file_entries, rust_module_entries, UseCapture,
};
use codeatlas_core::detector::typescript::{
    detect_ts_package_topology, detect_workspace_level_constructs, extract_import_edges,
    is_excluded_source_path, is_skipped_dir, package_dependencies, path_mapping, probed_file_key,
    ts_file_entries, ts_module_entries, CallCapture, ClauseItem, ImportCapture, ReexportCapture,
    ResolvePlan, ResolveResult, TsConfigResolver,
};
use codeatlas_core::detector::DetectorReport;
use codeatlas_core::graph::identity::{EdgeId, MaterializedKey};
use codeatlas_core::graph::types::{
    Confidence, EdgeCategory, EdgeKind, EntityKind, Language, NodeKind, UnresolvedReason,
    UnsupportedConstructType,
};
use codeatlas_core::workspace::{
    CargoDependencyInfo, CargoDependencyKind, CargoPackageInfo, CargoTargetInfo, CargoWorkspaceMeta,
    JsPackageInfo, JsWorkspaceMeta, TsconfigInfo,
};

fn rust_workspace() -> CargoWorkspaceMeta {
    CargoWorkspaceMeta {
        workspace_root: "/ws".to_string(),
        packages: vec![
            CargoPackageInfo {
                name: "core-lib".to_string(),
                version: "0.1.0".to_string(),
                manifest_path: "/ws/crates/core/Cargo.toml".to_string(),
                has_build_script: true,
                is_proc_macro: false,
                features: Vec::new(),
                dependencies: vec![
                    CargoDependencyInfo { name: "util".to_string(), kind: CargoDependencyKind::Dev, is_optional: false },
                    CargoDependencyInfo { name: "serde".to_string(), kind: CargoDependencyKind::Normal, is_optional: false },
                ],
                targets: Vec::new(),
            },
            CargoPackageInfo {
                name: "util".to_string(),
                version: "0.1.0".to_string(),
                manifest_path: "/ws/crates/util/Cargo.toml".to_string(),
                has_build_script: false,
                is_proc_macro: true,
                features: Vec::new(),
                dependencies: Vec::new(),
                targets: vec![CargoTargetInfo {
                    name: "util".to_string(),
                    kinds: vec!["proc-macro".to_string()],
                    src_path: "/ws/crates/util/src/lib.rs".to_string(),
                }],
            },
        ],
    }
}

#[test]
fn rust_package_topology() {
    let cargo = rust_workspace();
    let mut report = DetectorReport::new();
    let (nodes, edges) = detect_package_topology(&cargo, "/ws", &mut report).unwrap();
    assert_eq!(nodes.len(), 2);
    assert_eq!(nodes[0].materialized_key.to_string(), "rust:package:crates/core");
    assert_eq!(nodes[0].label, "core-lib");
    assert_eq!(nodes[0].kind, NodeKind::Package);
    assert!(nodes[0].parent_key.is_none());
    assert_eq!(nodes[1].materialized_key.to_string(), "rust:package:crates/util");
    assert_eq!(edges.len(), 1);
    assert_eq!(edges[0].source_key, nodes[0].materialized_key);
    assert_eq!(edges[0].target_key, nodes[1].materialized_key);
    assert_eq!(edges[0].kind, EdgeKind::DependsOn);
    assert_eq!(edges[0].category, EdgeCategory::Dev);
    assert_eq!(edges[0].confidence, Confidence::StructureOnly);
    assert_eq!(edges[0].resolution_method, Some("cargo_metadata".to_string()));
    assert_eq!(
        edges[0].edge_id,
        EdgeId::new(&nodes[0].materialized_key, &nodes[1].materialized_key, EdgeKind::DependsOn, EdgeCategory::Dev)
    );
    assert_eq!(report.unsupported_constructs.len(), 2);
    assert_eq!(report.unsupported_constructs[0].construct_type, UnsupportedConstructType::BuildScript);
    assert_eq!(report.unsupported_constructs[0].location.path, "crates/core/build.rs");
    assert_eq!(report.unsupported_constructs[1].construct_type, UnsupportedConstructType::ProcMacro);
    assert_eq!(report.unsupported_constructs[1].location.path, "crates/util/src/lib.rs");
}

#[test]
fn rust_crate_tables() {
    let cargo = rust_workspace();
    let crates = crate_paths(&cargo, "/ws");
    assert_eq!(crates.get("core_lib"), Some("crates/core".to_string()));
    assert_eq!(crates.get("util"), Some("crates/util".to_string()));
    assert_eq!(crates.get("core-lib"), None);
    let cats = dependency_categories(&cargo);
    assert_eq!(cats.get("core_lib", "util"), Some(EdgeCategory::Dev));
    assert_eq!(cats.get("core_lib", "serde"), Some(EdgeCategory::Normal));
    assert_eq!(cats.get("util", "core_lib"), None);
}

#[test]
fn rust_use_edges() {
    let cargo = rust_workspace();
    let crates = crate_paths(&cargo, "/ws");
    let cats = dependency_categories(&cargo);
    let file_key = MaterializedKey::new(Language::Rust, EntityKind::File, "crates/core/src/lib.rs");
    let cap = |p: &str, line: u32| UseCapture { path: p.to_string(), start_line: line, end_line: line };
    let captures = vec![
        cap("crate::graph::types", 1),
        cap("util::thing", 2),
        cap("serde::Serialize", 3),
        cap("crate::{a, b}", 4),
        cap("crate::x::*", 5),
    ];
    let mut report = DetectorReport::new();
    let edges = extract_use_edges(
        &captures,
        &file_key,
        "crates/core/src/lib.rs",
        "core_lib",
        "crates/core",
        "/ws",
        &crates,
        &cats,
        &mut report,
    );
    assert_eq!(edges.len(), 2);
    assert_eq!(edges[0].target_key.to_string(), "rust:module:crates/core/src/graph");
    assert_eq!(edges[0].category, EdgeCategory::Normal);
    assert_eq!(edges[0].confidence, Confidence::Syntactic);
    assert_eq!(edges[0].kind, EdgeKind::Imports);
    assert_eq!(edges[0].source_location.as_ref().unwrap().start_line, 1);
    assert_eq!(edges[1].target_key.to_string(), "rust:package:crates/util");
    assert_eq!(edges[1].category, EdgeCategory::Dev);
    assert_eq!(edges[1].confidence, Confidence::StructureOnly);
    assert_eq!(report.unresolved_imports.len(), 1);
    assert_eq!(report.unresolved_imports[0].specifier, "serde::Serialize");
    assert_eq!(report.unresolved_imports[0].reason, UnresolvedReason::ExternalCrate);
}

#[test]
fn rust_file_and_module_entries() {
    let pkg_key = MaterializedKey::new(Language::Rust, EntityKind::Package, "crates/core");
    let (node, edge) = rust_file_entries("/ws/crates/core/src/graph/mod.rs", "/ws/crates/core", "/ws", &pkg_key);
    assert_eq!(node.materialized_key.to_string(), "rust:file:crates/core/src/graph/mod.rs");
    assert_eq!(node.label, "mod.rs");
    assert_eq!(node.parent_key.as_ref().unwrap().to_string(), "rust:module:crates/core/src/graph");
    assert_eq!(edge.kind, EdgeKind::Contains);
    assert_eq!(edge.source_key.to_string(), "rust:module:crates/core/src/graph");
    assert_eq!(edge.resolution_method, Some("filesystem".to_string()));

    let (top, _) = rust_file_entries("/ws/crates/core/src/lib.rs", "/ws/crates/core", "/ws", &pkg_key);
    assert_eq!(top.parent_key, Some(pkg_key.clone()));

    let (m, e) = rust_module_entries("graph", "/ws/crates/core/src", "/ws/crates/core/src/lib.rs", "/ws", &pkg_key, 3, 4);
    assert_eq!(m.materialized_key.to_string(), "rust:module:crates/core/src/graph");
    assert_eq!(m.label, "graph");
    assert_eq!(m.parent_key, Some(pkg_key.clone()));
    assert_eq!(e.source_key, pkg_key);
    assert_eq!(e.confidence, Confidence::Syntactic);
    let loc = e.source_location.unwrap();
    assert_eq!(loc.path, "crates/core/src/lib.rs");
    assert_eq!((loc.start_line, loc.end_line), (3, 4));
    assert_eq!(e.resolution_method, Some("tree-sitter mod_item".to_string()));
}

#[test]
fn rust_module_file_choice() {
    assert_eq!(
        choose_module_file("/ws/src", "graph", true, true),
        Some(("/ws/src/graph.rs".to_string(), "/ws/src/graph".to_string()))
    );
    assert_eq!(
        choose_module_file("/ws/src", "graph", false, true),
        Some(("/ws/src/graph/mod.rs".to_string(), "/ws/src/graph".to_string()))
    );
    assert_eq!(
        choose_module_file("/ws/src", "graph", true, false),
        Some(("/ws/src/graph.rs".to_string(), "/ws/src".to_string()))
    );
    assert_eq!(choose_module_file("/ws/src", "graph", false, false), None);
}

#[test]
fn rust_cfg_gate_finding() {
    let c = cfg_gate_construct("src/lib.rs", Some("serde_impl".to_string()), 2, 3);
    assert_eq!(c.construct_type, UnsupportedConstructType::CfgGate);
    assert_eq!(c.impact, "#[cfg(...)] on module `serde_impl` — module may be conditionally compiled");
    let u = cfg_gate_construct("src/lib.rs", None, 2, 3);
    assert_eq!(u.impact, "#[cfg(...)] on module `unknown` — module may be conditionally compiled");
}

// ---------------------------------------------------------------------------
// TypeScript
// ---------------------------------------------------------------------------

fn js_workspace() -> JsWorkspaceMeta {
    JsWorkspaceMeta {
        package_manager: "pnpm".to_string(),
        packages: vec![
            JsPackageInfo {
                name: "@app/web".to_string(),
                relative_path: "apps/web".to_string(),
                has_exports_field: false,
                has_imports_field: false,
                module_type: Some("module".to_string()),
            },
            JsPackageInfo {
                name: "@app/shared".to_string(),
                relative_path: "packages/shared".to_string(),
                has_exports_field: true,
                has_imports_field: false,
                module_type: Some("module".to_string()),
            },
        ],
        root_tsconfig: Some(TsconfigInfo {
            path: "/ws/tsconfig.json".to_string(),
            module_resolution: Some("bundler".to_string()),
            has_project_references: true,
            has_paths: true,
            has_base_url: true,
        }),
        has_pnp: true,
    }
}

#[test]
fn ts_dependency_lists() {
    let deps = package_dependencies(
        vec!["@app/shared".to_string(), "react".to_string()],
        vec!["vitest".to_string()],
        vec!["react-dom".to_string()],
    );
    assert_eq!(
        deps,
        vec![
            ("@app/shared".to_string(), EdgeCategory::Normal),
            ("react".to_string(), EdgeCategory::Normal),
            ("vitest".to_string(), EdgeCategory::Dev),
            ("react-dom".to_string(), EdgeCategory::Normal),
        ]
    );
}

#[test]
fn ts_package_topology() {
    let js = js_workspace();
    let deps = vec![
        package_dependencies(vec!["@app/shared".to_string(), "react".to_string()], Vec::new(), Vec::new()),
        Vec::new(),
    ];
    let mut report = DetectorReport::new();
    let (nodes, edges) = detect_ts_package_topology(&js, &deps, &mut report).unwrap();
    assert_eq!(nodes.len(), 2);
    assert_eq!(nodes[0].materialized_key.to_string(), "typescript:package:apps/web");
    assert_eq!(nodes[1].label, "@app/shared");
    assert_eq!(edges.len(), 1);
    assert_eq!(edges[0].target_key.to_string(), "typescript:package:packages/shared");
    assert_eq!(edges[0].resolution_method, Some("package.json".to_string()));
    assert_eq!(report.unsupported_constructs.len(), 1);
    assert_eq!(report.unsupported_constructs[0].construct_type, UnsupportedConstructType::ExportsCondition);
    assert_eq!(report.unsupported_constructs[0].location.path, "packages/shared/package.json");
}

#[test]
fn ts_workspace_level_findings() {
    let js = js_workspace();
    let mut report = DetectorReport::new();
    detect_workspace_level_constructs(&js, "/ws", &mut report);
    assert_eq!(report.unsupported_constructs.len(), 2);
    assert_eq!(report.unsupported_constructs[0].construct_type, UnsupportedConstructType::ProjectReferences);
    assert_eq!(report.unsupported_constructs[0].location.path, "tsconfig.json");
    assert_eq!(report.unsupported_constructs[1].construct_type, UnsupportedConstructType::YarnPnp);
    assert_eq!(report.unsupported_constructs[1].location.path, ".pnp.cjs");
}

#[test]
fn ts_path_mappings() {
    let m = path_mapping("@/*", vec!["./src/*".to_string()]);
    assert_eq!(m.prefix, "@/");
    assert_eq!(m.suffix, "");
    assert_eq!(m.replacements, vec!["./src/*".to_string()]);
    let s = path_mapping("lib/*.js", Vec::new());
    assert_eq!((s.prefix.as_str(), s.suffix.as_str()), ("lib/", ".js"));
    let e = path_mapping("~config", Vec::new());
    assert_eq!((e.prefix.as_str(), e.suffix.as_str()), ("~config", ""));
}

#[test]
fn ts_resolution_plans() {
    let js = js_workspace();
    let resolver = TsConfigResolver::new(
        &js,
        js.root_tsconfig.as_ref(),
        Some(".".to_string()),
        vec![path_mapping("@/*", vec!["./src/*".to_string()])],
        "/ws",
    );
    assert_eq!(resolver.base_url, Some("/ws/.".to_string()));
    let from = "/ws/apps/web/src/index.ts";

    match resolver.resolve("@app/shared", from, "/ws") {
        ResolvePlan::Package(k) => assert_eq!(k.to_string(), "typescript:package:packages/shared"),
        other => panic!("unexpected plan {other:?}"),
    }
    match resolver.resolve("@app/shared/utils", from, "/ws") {
        ResolvePlan::Package(k) => assert_eq!(k.to_string(), "typescript:package:packages/shared"),
        other => panic!("unexpected plan {other:?}"),
    }
    match resolver.resolve("./util", from, "/ws") {
        ResolvePlan::Probe { candidates, fallback } => {
            assert_eq!(candidates.len(), 9);
            assert_eq!(candidates[0], "/ws/apps/web/src/./util");
            assert_eq!(candidates[1], "/ws/apps/web/src/util.ts");
            assert_eq!(candidates[8], "/ws/apps/web/src/util/index.jsx");
            assert_eq!(fallback, "no matching file for relative import: ./util");
        }
        other => panic!("unexpected plan {other:?}"),
    }
    match resolver.resolve("@/lib/x", from, "/ws") {
        ResolvePlan::Probe { candidates, fallback } => {
            assert_eq!(candidates.len(), 16);
            assert_eq!(candidates[0], "/ws/./src/lib/x.ts");
            assert_eq!(candidates[8], "/ws/./@/lib/x.ts");
            assert_eq!(fallback, "external package (not in workspace): @/lib/x");
        }
        other => panic!("unexpected plan {other:?}"),
    }
    match resolver.resolve("lodash/fp", from, "/ws") {
        ResolvePlan::Probe { fallback, .. } => assert_eq!(fallback, "could not resolve specifier: lodash/fp"),
        other => panic!("unexpected plan {other:?}"),
    }
    assert_eq!(probed_file_key("/ws/apps/web/src/util.ts", "/ws").to_string(), "typescript:file:apps/web/src/util.ts");
}

#[test]
fn ts_resolver_without_tsconfig_ignores_paths() {
    let js = js_workspace();
    let resolver = TsConfigResolver::new(&js, None, Some("src".to_string()), vec![path_mapping("@/*", vec![])], "/ws");
    assert_eq!(resolver.base_url, None);
    assert!(resolver.paths.is_empty());
    assert_eq!(resolver.workspace_packages[1], ("@app/shared".to_string(), "/ws/packages/shared".to_string()));
}

#[test]
fn ts_import_edges_and_findings() {
    let file_key = MaterializedKey::new(Language::TypeScript, EntityKind::File, "apps/web/src/index.ts");
    let pkg = MaterializedKey::new(Language::TypeScript, EntityKind::Package, "packages/shared");
    let util = MaterializedKey::new(Language::TypeScript, EntityKind::File, "apps/web/src/util.ts");
    let imports = vec![
        ImportCapture {
            specifier: "@app/shared".to_string(),
            start_line: 1,
            end_line: 1,
            clause: vec![ClauseItem::Named { is_type: false }],
            resolution: ResolveResult::Package(pkg.clone()),
        },
        ImportCapture {
            specifier: "./util".to_string(),
            start_line: 2,
            end_line: 2,
            clause: vec![ClauseItem::Named { is_type: true }],
            resolution: ResolveResult::File(util.clone()),
        },
        ImportCapture {
            specifier: "react".to_string(),
            start_line: 3,
            end_line: 3,
            clause: vec![ClauseItem::Named { is_type: false }],
            resolution: ResolveResult::Unresolved("external package (not in workspace): react".to_string()),
        },
        ImportCapture {
            specifier: "./gone".to_string(),
            start_line: 4,
            end_line: 4,
            clause: Vec::new(),
            resolution: ResolveResult::Unresolved("no matching file for relative import: ./gone".to_string()),
        },
    ];
    let type_sources = vec!["@app/shared".to_string()];
    let reexports = vec![
        ReexportCapture {
            specifier: "./util".to_string(),
            start_line: 5,
            end_line: 5,
            type_only: true,
            resolution: ResolveResult::File(util.clone()),
        },
        ReexportCapture {
            specifier: String::new(),
            start_line: 0,
            end_line: 0,
            type_only: false,
            resolution: ResolveResult::Unresolved(String::new()),
        },
    ];
    let dynamic = vec![CallCapture { text: "'./lazy'".to_string(), start_line: 6, end_line: 6 }];
    let requires = vec![CallCapture { text: "\"fs\"".to_string(), start_line: 7, end_line: 7 }];
    let mut report = DetectorReport::new();
    let edges = extract_import_edges(
        &imports,
        &type_sources,
        &reexports,
        &dynamic,
        &requires,
        &file_key,
        "apps/web/src/index.ts",
        &mut report,
    );
    assert_eq!(edges.len(), 3);
    assert_eq!(edges[0].target_key, pkg);
    assert_eq!(edges[0].category, EdgeCategory::TypeOnly);
    assert_eq!(edges[0].confidence, Confidence::StructureOnly);
    assert_eq!(edges[0].resolution_method, Some("workspace package".to_string()));
    assert_eq!(edges[1].target_key, util);
    assert_eq!(edges[1].category, EdgeCategory::TypeOnly);
    assert_eq!(edges[1].confidence, Confidence::ResolverAware);
    assert_eq!(edges[2].kind, EdgeKind::ReExports);
    assert_eq!(edges[2].category, EdgeCategory::TypeOnly);

    assert_eq!(report.unresolved_imports.len(), 4);
    assert_eq!(report.unresolved_imports[0].reason, UnresolvedReason::ExternalPackage);
    assert_eq!(
        report.unresolved_imports[1].reason,
        UnresolvedReason::Other("no matching file for relative import: ./gone".to_string())
    );
    assert_eq!(report.unresolved_imports[2].reason, UnresolvedReason::DynamicImport);
    assert_eq!(report.unresolved_imports[2].specifier, "./lazy");
    assert_eq!(report.unresolved_imports[3].reason, UnresolvedReason::CommonJsRequire);
    assert_eq!(report.unresolved_imports[3].specifier, "fs");
    assert_eq!(report.unsupported_constructs.len(), 2);
    assert_eq!(
        report.unsupported_constructs[0].impact,
        "dynamic import('./lazy') — runtime-determined, cannot be statically resolved"
    );
    assert_eq!(report.unsupported_constructs[1].impact, "require(\"fs\") — CommonJS require() is not resolved in POC");
}

#[test]
fn ts_module_and_file_entries() {
    let pkg_key = MaterializedKey::new(Language::TypeScript, EntityKind::Package, "apps/web");
    let (m, e) = ts_module_entries("/ws/apps/web/src/components", "/ws", &pkg_key);
    assert_eq!(m.materialized_key.to_string(), "typescript:module:apps/web/src/components");
    assert_eq!(m.label, "components");
    assert_eq!(e.confidence, Confidence::StructureOnly);
    assert_eq!(e.source_key, pkg_key);

    let (f, _) = ts_file_entries("/ws/apps/web/src/components/Button.tsx", "/ws/apps/web", "/ws", &pkg_key);
    assert_eq!(f.label, "Button.tsx");
    assert_eq!(f.parent_key.unwrap().to_string(), "typescript:module:apps/web/src/components");
    let (g, _) = ts_file_entries("/ws/apps/web/src/index.ts", "/ws/apps/web", "/ws", &pkg_key);
    assert_eq!(g.parent_key, Some(pkg_key.clone()));
    let (h, _) = ts_file_entries("/ws/apps/web/vite.config.ts", "/ws/apps/web", "/ws", &pkg_key);
    assert_eq!(h.parent_key, Some(pkg_key));
}

#[test]
fn ts_directory_and_path_exclusions() {
    for d in ["node_modules", "dist", "build", ".git", "__pycache__"] {
        assert!(is_skipped_dir(d));
    }
    assert!(!is_skipped_dir("src"));
    assert!(is_excluded_source_path("/ws/apps/web/node_modules/x/index.js"));
    assert!(is_excluded_source_path("/ws/apps/web/.next/page.js"));
    assert!(!is_excluded_source_path("/ws/apps/web/src/dist.ts"));
}
