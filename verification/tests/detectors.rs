use codeatlas_core::detector::rust::{
    category_for, classify_unresolved_use, resolve_use_path, CrateMap, RustDetector,
};
use codeatlas_core::detector::typescript::{
    has_only_type_specifiers, strip_quotes, ClauseItem, TypeScriptDetector,
};
use codeatlas_core::detector::Detector;
use codeatlas_core::graph::types::{EdgeCategory, EntityKind, Language, UnresolvedReason};
use codeatlas_core::health::compatibility::SupportStatus;
use codeatlas_core::workspace::{
    CargoDependencyKind, CargoPackageInfo, CargoWorkspaceMeta, JsPackageInfo, JsWorkspaceMeta,
    TsconfigInfo, WorkspaceInfo, WorkspaceKind, WorkspacePackage,
};
use codeatlas_core::detector::rust::{fallback_entry_candidates, find_entry_points};
use codeatlas_core::workspace::CargoTargetInfo;
use codeatlas_core::detector::rust::is_walked_rust_file;
use codeatlas_core::detector::typescript::{is_source_extension, source_root_of, uses_tsx_grammar};

fn cargo_package(name: &str, has_build_script: bool, is_proc_macro: bool) -> CargoPackageInfo {
    CargoPackageInfo {
        name: name.to_string(),
        version: "0.1.0".to_string(),
        manifest_path: "/tmp/test/Cargo.toml".to_string(),
        has_build_script,
        is_proc_macro,
        features: Vec::new(),
        dependencies: Vec::new(),
        targets: Vec::new(),
    }
}

fn make_cargo_workspace(packages: Vec<CargoPackageInfo>) -> WorkspaceInfo {
    WorkspaceInfo {
        root: "/tmp/test".to_string(),
        kind: WorkspaceKind::Cargo,
        packages: packages
            .iter()
            .map(|p| WorkspacePackage {
                name: p.name.clone(),
                relative_path: format!("crates/{}", p.name),
                language: Language::Rust,
            })
            .collect(),
        cargo: Some(CargoWorkspaceMeta { workspace_root: "/tmp/test".to_string(), packages }),
        js: None,
    }
}

fn js_package(name: &str, rel: &str, exports: bool, module_type: &str) -> JsPackageInfo {
    JsPackageInfo {
        name: name.to_string(),
        relative_path: rel.to_string(),
        has_exports_field: exports,
        has_imports_field: false,
        module_type: Some(module_type.to_string()),
    }
}

fn tsconfig(resolution: &str, references: bool, paths: bool) -> TsconfigInfo {
    TsconfigInfo {
        path: "/tmp/test/tsconfig.json".to_string(),
        module_resolution: Some(resolution.to_string()),
        has_project_references: references,
        has_paths: paths,
        has_base_url: false,
    }
}

fn make_js_workspace(
    packages: Vec<JsPackageInfo>,
    tsconfig: Option<TsconfigInfo>,
    has_pnp: bool,
) -> WorkspaceInfo {
    WorkspaceInfo {
        root: "/tmp/test".to_string(),
        kind: WorkspaceKind::Pnpm,
        packages: packages
            .iter()
            .map(|p| WorkspacePackage {
                name: p.name.clone(),
                relative_path: p.relative_path.clone(),
                language: Language::TypeScript,
            })
            .collect(),
        cargo: None,
        js: Some(JsWorkspaceMeta {
            package_manager: "pnpm".to_string(),
            packages,
            root_tsconfig: tsconfig,
            has_pnp,
        }),
    }
}

fn empty_workspace() -> WorkspaceInfo {
    WorkspaceInfo {
        root: "/tmp/empty".to_string(),
        kind: WorkspaceKind::Single,
        packages: Vec::new(),
        cargo: None,
        js: None,
    }
}

// ---------------------------------------------------------------------------
// Rust compatibility
// ---------------------------------------------------------------------------

#[test]
fn rust_supported_basic_workspace() {
    let ws = make_cargo_workspace(vec![cargo_package("my-lib", false, false)]);

    let detector = RustDetector;
    assert!(detector.applies_to(&ws));

    let assessment = detector.compatibility(&ws);
    assert_eq!(assessment.language, Language::Rust);
    assert_eq!(assessment.status, SupportStatus::Supported);
}

#[test]
fn partial_with_build_script() {
    let ws = make_cargo_workspace(vec![cargo_package("my-lib", true, false)]);

    let assessment = RustDetector.compatibility(&ws);
    assert_eq!(assessment.status, SupportStatus::Partial);
    assert!(assessment.details.iter().any(|d| d.feature.contains("build.rs")));
}

#[test]
fn partial_with_proc_macro() {
    let ws = make_cargo_workspace(vec![cargo_package("my-macro", false, true)]);

    let assessment = RustDetector.compatibility(&ws);
    assert_eq!(assessment.status, SupportStatus::Partial);
    assert!(assessment.details.iter().any(|d| d.feature.contains("Procedural macros")));
}

#[test]
fn no_cargo_metadata_returns_unsupported() {
    let ws = empty_workspace();

    let detector = RustDetector;
    assert!(!detector.applies_to(&ws));

    let assessment = detector.compatibility(&ws);
    assert_eq!(assessment.status, SupportStatus::Unsupported);
}

#[test]
fn detector_names_and_languages() {
    assert_eq!(RustDetector.name(), "rust-cargo");
    assert_eq!(RustDetector.language(), Language::Rust);
    assert_eq!(TypeScriptDetector.name(), "typescript-imports");
    assert_eq!(TypeScriptDetector.language(), Language::TypeScript);
}

// ---------------------------------------------------------------------------
// Rust use-path resolution
// ---------------------------------------------------------------------------

#[test]
fn resolve_use_path_crate_internal() {
    let crate_to_path = CrateMap::new();
    let result = resolve_use_path(
        "crate::graph::types",
        "codeatlas_core",
        "crates/codeatlas-core",
        "crates/codeatlas-core/src/lib.rs",
        "/workspace",
        &crate_to_path,
    );
    assert!(result.is_some());
    let (key, is_cross, _) = result.expect("should resolve");
    assert!(!is_cross);
    assert_eq!(key.entity_kind, EntityKind::Module);
    assert!(key.relative_path.contains("graph"));
}

#[test]
fn resolve_use_path_cross_crate() {
    let mut crate_to_path = CrateMap::new();
    crate_to_path.insert("other_crate".to_string(), "crates/other".to_string());

    let result = resolve_use_path(
        "other_crate::thing",
        "my_crate",
        "crates/my-crate",
        "crates/my-crate/src/lib.rs",
        "/workspace",
        &crate_to_path,
    );
    assert!(result.is_some());
    let (key, is_cross, target_crate) = result.expect("should resolve");
    assert!(is_cross);
    assert_eq!(key.entity_kind, EntityKind::Package);
    assert_eq!(key.relative_path, "crates/other");
    assert_eq!(target_crate, Some("other_crate".to_string()));
}

#[test]
fn resolve_use_path_super() {
    let crate_to_path = CrateMap::new();
    let result = resolve_use_path(
        "super::sibling",
        "my_crate",
        "crates/my-crate",
        "crates/my-crate/src/graph/types.rs",
        "/workspace",
        &crate_to_path,
    );
    assert!(result.is_some());
    let (key, is_cross, _) = result.expect("should resolve");
    assert!(!is_cross);
    assert_eq!(key.entity_kind, EntityKind::Module);
    assert!(key.relative_path.contains("sibling"));
}

#[test]
fn resolve_use_path_external_crate_returns_none() {
    let crate_to_path = CrateMap::new();
    let result = resolve_use_path(
        "serde::Serialize",
        "my_crate",
        "crates/my-crate",
        "crates/my-crate/src/lib.rs",
        "/workspace",
        &crate_to_path,
    );
    assert!(result.is_none());
}

#[test]
fn resolve_use_path_exact_targets() {
    let crate_to_path = CrateMap::new();
    let (key, cross, target) = resolve_use_path(
        "crate::graph::types",
        "codeatlas_core",
        "crates/core",
        "crates/core/src/lib.rs",
        "/workspace",
        &crate_to_path,
    )
    .unwrap();
    assert_eq!(key.to_string(), "rust:module:crates/core/src/graph");
    assert!(!cross);
    assert_eq!(target, None);

    let (key, _, _) = resolve_use_path(
        "super::sibling",
        "my_crate",
        "crates/my-crate",
        "crates/my-crate/src/graph/types.rs",
        "/workspace",
        &crate_to_path,
    )
    .unwrap();
    assert_eq!(key.to_string(), "rust:module:crates/my-crate/src/sibling");
}

#[test]
fn unresolved_use_classification() {
    let mut crate_to_path = CrateMap::new();
    crate_to_path.insert("other_crate".to_string(), "crates/other".to_string());
    assert_eq!(classify_unresolved_use("serde::Serialize", &crate_to_path), UnresolvedReason::ExternalCrate);
    assert_eq!(classify_unresolved_use("crate::x", &crate_to_path), UnresolvedReason::UnresolvablePath);
    assert_eq!(classify_unresolved_use("other_crate::y", &crate_to_path), UnresolvedReason::UnresolvablePath);
}

#[test]
fn crate_map_lookup() {
    let mut m = CrateMap::new();
    assert!(!m.contains_key("a"));
    m.insert("a".to_string(), "crates/a".to_string());
    assert!(m.contains_key("a"));
    assert_eq!(m.get("a"), Some("crates/a".to_string()));
    assert_eq!(m.get("b"), None);
}

#[test]
fn edge_category_from_dep_kind() {
    assert_eq!(
        match CargoDependencyKind::Normal {
            CargoDependencyKind::Normal => EdgeCategory::Normal,
            CargoDependencyKind::Dev => EdgeCategory::Dev,
            CargoDependencyKind::Build => EdgeCategory::Build,
        },
        EdgeCategory::Normal
    );
    assert_eq!(
        match CargoDependencyKind::Dev {
            CargoDependencyKind::Normal => EdgeCategory::Normal,
            CargoDependencyKind::Dev => EdgeCategory::Dev,
            CargoDependencyKind::Build => EdgeCategory::Build,
        },
        EdgeCategory::Dev
    );
    assert_eq!(
        match CargoDependencyKind::Build {
            CargoDependencyKind::Normal => EdgeCategory::Normal,
            CargoDependencyKind::Dev => EdgeCategory::Dev,
            CargoDependencyKind::Build => EdgeCategory::Build,
        },
        EdgeCategory::Build
    );
    assert_eq!(category_for(CargoDependencyKind::Normal), EdgeCategory::Normal);
    assert_eq!(category_for(CargoDependencyKind::Dev), EdgeCategory::Dev);
    assert_eq!(category_for(CargoDependencyKind::Build), EdgeCategory::Build);
}

// ---------------------------------------------------------------------------
// TypeScript compatibility
// ---------------------------------------------------------------------------

#[test]
fn typescript_supported_basic_workspace() {
    let ws = make_js_workspace(
        vec![js_package("@app/web", "apps/web", false, "module")],
        Some(tsconfig("bundler", false, true)),
        false,
    );

    let detector = TypeScriptDetector;
    assert!(detector.applies_to(&ws));

    let assessment = detector.compatibility(&ws);
    assert_eq!(assessment.language, Language::TypeScript);
    assert_eq!(assessment.status, SupportStatus::Supported);
}

#[test]
fn partial_with_exports_field() {
    let ws = make_js_workspace(
        vec![js_package("@app/sdk", "packages/sdk", true, "module")],
        Some(tsconfig("bundler", false, false)),
        false,
    );

    let assessment = TypeScriptDetector.compatibility(&ws);
    assert_eq!(assessment.status, SupportStatus::Partial);
    assert!(assessment.details.iter().any(|d| d.feature.contains("exports")));
}

#[test]
fn unsupported_with_pnp() {
    let ws = make_js_workspace(vec![js_package("@app/web", "apps/web", false, "module")], None, true);

    let assessment = TypeScriptDetector.compatibility(&ws);
    assert_eq!(assessment.status, SupportStatus::Unsupported);
}

#[test]
fn partial_with_project_references() {
    let ws = make_js_workspace(vec![], Some(tsconfig("nodenext", true, false)), false);

    let assessment = TypeScriptDetector.compatibility(&ws);
    assert_eq!(assessment.status, SupportStatus::Partial);
}

#[test]
fn no_js_workspace_returns_unsupported() {
    let ws = empty_workspace();

    let detector = TypeScriptDetector;
    assert!(!detector.applies_to(&ws));

    let assessment = detector.compatibility(&ws);
    assert_eq!(assessment.status, SupportStatus::Unsupported);
}

#[test]
fn partial_with_mixed_module_types() {
    let ws = make_js_workspace(
        vec![
            js_package("@app/web", "apps/web", false, "module"),
            js_package("@app/legacy", "packages/legacy", false, "commonjs"),
        ],
        Some(tsconfig("bundler", false, false)),
        false,
    );

    let assessment = TypeScriptDetector.compatibility(&ws);
    assert_eq!(assessment.status, SupportStatus::Partial);
    assert!(assessment.details.iter().any(|d| d.feature.contains("Mixed ESM/CJS")));
}

// ---------------------------------------------------------------------------
// TypeScript import clauses
// ---------------------------------------------------------------------------

#[test]
fn strip_single_quotes() {
    assert_eq!(strip_quotes("'./bar'"), "./bar");
}

#[test]
fn strip_double_quotes() {
    assert_eq!(strip_quotes("\"./bar\""), "./bar");
}

#[test]
fn strip_quotes_trims_and_keeps_unquoted() {
    assert_eq!(strip_quotes("  './x'  "), "./x");
    assert_eq!(strip_quotes("plain"), "plain");
}

#[test]
fn type_only_clauses() {
    let all_type = vec![ClauseItem::Named { is_type: true }, ClauseItem::Named { is_type: true }];
    assert!(has_only_type_specifiers(&all_type));
    let mixed = vec![ClauseItem::Named { is_type: true }, ClauseItem::Named { is_type: false }];
    assert!(!has_only_type_specifiers(&mixed));
    assert!(!has_only_type_specifiers(&vec![ClauseItem::Namespace]));
    let with_default = vec![ClauseItem::Default, ClauseItem::Named { is_type: true }];
    assert!(!has_only_type_specifiers(&with_default));
    assert!(!has_only_type_specifiers(&Vec::new()));
}

#[test]
fn entry_points_prefer_targets() {
    let mut pkg = cargo_package("a", false, false);
    pkg.manifest_path = "/r/crates/a/Cargo.toml".to_string();
    assert_eq!(
        fallback_entry_candidates(&pkg),
        ("/r/crates/a/src/lib.rs".to_string(), "/r/crates/a/src/main.rs".to_string())
    );
    assert_eq!(find_entry_points(&pkg, true, false), vec!["/r/crates/a/src/lib.rs".to_string()]);
    assert_eq!(
        find_entry_points(&pkg, true, true),
        vec!["/r/crates/a/src/lib.rs".to_string(), "/r/crates/a/src/main.rs".to_string()]
    );
    assert!(find_entry_points(&pkg, false, false).is_empty());
    pkg.targets = vec![
        CargoTargetInfo { name: "a".to_string(), kinds: vec!["lib".to_string()], src_path: "/r/x/lib.rs".to_string() },
        CargoTargetInfo { name: "t".to_string(), kinds: vec!["test".to_string()], src_path: "/r/x/t.rs".to_string() },
        CargoTargetInfo { name: "b".to_string(), kinds: vec!["bin".to_string()], src_path: "/r/x/main.rs".to_string() },
    ];
    assert_eq!(
        find_entry_points(&pkg, true, true),
        vec!["/r/x/lib.rs".to_string(), "/r/x/main.rs".to_string()]
    );
}

#[test]
fn source_file_selection() {
    assert!(is_walked_rust_file(Some("rs"), Some("lib.rs")));
    assert!(!is_walked_rust_file(Some("rs"), Some("build.rs")));
    assert!(!is_walked_rust_file(Some("toml"), Some("Cargo.toml")));
    assert!(!is_walked_rust_file(None, Some("README")));
    for ext in ["ts", "tsx", "js", "jsx"] {
        assert!(is_source_extension(ext));
    }
    assert!(!is_source_extension("json"));
    assert!(uses_tsx_grammar("tsx") && uses_tsx_grammar("jsx"));
    assert!(!uses_tsx_grammar("ts"));
    assert_eq!(source_root_of("/r/apps/web", true), "/r/apps/web/src");
    assert_eq!(source_root_of("/r/apps/web", false), "/r/apps/web");
}

fn severity(s: SupportStatus) -> u8 {
    match s {
        SupportStatus::Supported => 0,
        SupportStatus::Partial => 1,
        SupportStatus::Unsupported => 2,
    }
}

fn most_severe_detail(details: &[codeatlas_core::health::compatibility::CompatibilityDetail]) -> u8 {
    details.iter().map(|d| severity(d.status)).max().unwrap_or(0)
}

#[test]
fn status_is_most_severe_detail() {
    let rust_cases = vec![
        make_cargo_workspace(vec![cargo_package("my-lib", false, false)]),
        make_cargo_workspace(vec![cargo_package("my-lib", true, false)]),
        make_cargo_workspace(vec![cargo_package("my-macro", false, true)]),
        empty_workspace(),
    ];
    for ws in &rust_cases {
        let a = RustDetector.compatibility(ws);
        assert_eq!(severity(a.status), most_severe_detail(&a.details));
    }
    let ts_cases = vec![
        make_js_workspace(
            vec![js_package("@app/web", "apps/web", false, "module")],
            Some(tsconfig("bundler", false, true)),
            false,
        ),
        make_js_workspace(
            vec![js_package("@app/sdk", "packages/sdk", true, "module")],
            Some(tsconfig("bundler", false, false)),
            false,
        ),
        make_js_workspace(vec![js_package("@app/web", "apps/web", false, "module")], None, true),
        make_js_workspace(
            vec![js_package("@app/web", "apps/web", false, "module")],
            Some(tsconfig("bundler", true, false)),
            false,
        ),
        empty_workspace(),
    ];
    for ws in &ts_cases {
        let a = TypeScriptDetector.compatibility(ws);
        assert_eq!(severity(a.status), most_severe_detail(&a.details));
    }
}
