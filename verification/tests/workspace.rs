use codeatlas_core::graph::types::Language;
use codeatlas_core::workspace::cargo::{
    cargo_discovery, dependency_kind, MetadataDependency, MetadataDependencyKind, MetadataPackage,
};
use codeatlas_core::workspace::javascript::{
    js_discovery, js_package_info, package_manager_from_lockfiles, plan_package_glob,
    strip_jsonc_comments, tsconfig_info, GlobPlan,
};
use codeatlas_core::workspace::{
    combine_discovery, CargoDependencyKind, CargoTargetInfo, WorkspaceError, WorkspaceKind,
};
use codeatlas_core::workspace::cargo::choose_cargo_toml;

#[test]
fn strip_jsonc_single_line_comments() {
    let input = r#"{
  // This is a comment
  "compilerOptions": {
    "target": "ES2020" // inline comment
  }
}"#;
    let result = strip_jsonc_comments(input);
    let parsed: serde_json::Value =
        serde_json::from_str(&result).expect("should parse after stripping comments");
    assert!(parsed.get("compilerOptions").is_some());
}

#[test]
fn strip_jsonc_block_comments() {
    let input = r#"{
  /* block comment */
  "key": "value"
}"#;
    let result = strip_jsonc_comments(input);
    let parsed: serde_json::Value =
        serde_json::from_str(&result).expect("should parse after stripping block comments");
    assert_eq!(parsed.get("key").unwrap().as_str().unwrap(), "value");
}

#[test]
fn strip_jsonc_keeps_comment_markers_inside_strings() {
    let input = r#"{"url": "http://x/*y*/", "s": "a\"//b"} // tail"#;
    let result = strip_jsonc_comments(input);
    assert_eq!(result, r#"{"url": "http://x/*y*/", "s": "a\"//b"} "#);
}

#[test]
fn strip_jsonc_exact_output() {
    assert_eq!(strip_jsonc_comments("a/*x*/b//c\nd"), "ab\nd");
    assert_eq!(strip_jsonc_comments("no comments"), "no comments");
    assert_eq!(strip_jsonc_comments(""), "");
}

#[test]
fn package_manager_precedence() {
    assert_eq!(package_manager_from_lockfiles(true, true, true, true), "pnpm");
    assert_eq!(package_manager_from_lockfiles(false, true, true, false), "yarn");
    assert_eq!(package_manager_from_lockfiles(false, false, true, false), "bun");
    assert_eq!(package_manager_from_lockfiles(false, false, false, true), "bun");
    assert_eq!(package_manager_from_lockfiles(false, false, false, false), "npm");
}

#[test]
fn workspace_glob_plans() {
    assert_eq!(plan_package_glob("!packages/ignored"), GlobPlan::Skip);
    assert_eq!(plan_package_glob("packages/*"), GlobPlan::Children { base_dir: "packages".to_string() });
    assert_eq!(plan_package_glob("apps/**"), GlobPlan::Children { base_dir: "apps".to_string() });
    assert_eq!(plan_package_glob("tools/cli"), GlobPlan::Exact { dir: "tools/cli".to_string() });
}

#[test]
fn js_package_record() {
    let p = js_package_info("/repo", "/repo/packages/sdk", None, true, false, Some("module".to_string()));
    assert_eq!(p.name, "unknown");
    assert_eq!(p.relative_path, "packages/sdk");
    assert!(p.has_exports_field);
    assert!(!p.has_imports_field);
    assert_eq!(p.module_type, Some("module".to_string()));

    let named = js_package_info("/repo", "/repo/apps/web", Some("@app/web".to_string()), false, false, None);
    assert_eq!(named.name, "@app/web");
    assert_eq!(named.relative_path, "apps/web");
}

#[test]
fn js_discovery_mirrors_packages() {
    let p = js_package_info("/repo", "/repo/apps/web", Some("@app/web".to_string()), false, false, None);
    let r = js_discovery("pnpm".to_string(), vec![p], None, false);
    assert_eq!(r.packages.len(), 1);
    assert_eq!(r.packages[0].name, "@app/web");
    assert_eq!(r.packages[0].relative_path, "apps/web");
    assert_eq!(r.packages[0].language, Language::TypeScript);
    assert_eq!(r.js_meta.package_manager, "pnpm");
}

fn metadata_package(name: &str, member: bool, kinds: &[&str]) -> MetadataPackage {
    MetadataPackage {
        name: name.to_string(),
        version: "0.1.0".to_string(),
        manifest_path: format!("/repo/crates/{name}/Cargo.toml"),
        is_member: member,
        features: vec!["default".to_string()],
        dependencies: vec![MetadataDependency {
            name: "serde".to_string(),
            kind: MetadataDependencyKind::Development,
            optional: true,
        }],
        targets: vec![CargoTargetInfo {
            name: name.to_string(),
            kinds: kinds.iter().map(|k| k.to_string()).collect(),
            src_path: format!("/repo/crates/{name}/src/lib.rs"),
        }],
    }
}

#[test]
fn cargo_discovery_keeps_members_in_order() {
    let r = cargo_discovery(
        "/repo".to_string(),
        vec![
            metadata_package("a", true, &["lib", "custom-build"]),
            metadata_package("ext", false, &["lib"]),
            metadata_package("m", true, &["proc-macro"]),
        ],
    );
    assert_eq!(r.cargo_meta.workspace_root, "/repo");
    assert_eq!(r.cargo_meta.packages.len(), 2);
    assert_eq!(r.cargo_meta.packages[0].name, "a");
    assert!(r.cargo_meta.packages[0].has_build_script);
    assert!(!r.cargo_meta.packages[0].is_proc_macro);
    assert_eq!(r.cargo_meta.packages[0].dependencies[0].kind, CargoDependencyKind::Dev);
    assert!(r.cargo_meta.packages[0].dependencies[0].is_optional);
    assert_eq!(r.cargo_meta.packages[1].name, "m");
    assert!(r.cargo_meta.packages[1].is_proc_macro);
    assert_eq!(r.packages.len(), 2);
    assert_eq!(r.packages[0].relative_path, "crates/a");
    assert_eq!(r.packages[1].relative_path, "crates/m");
    assert_eq!(r.packages[1].language, Language::Rust);
}

#[test]
fn metadata_dependency_kinds() {
    assert_eq!(dependency_kind(MetadataDependencyKind::Normal), CargoDependencyKind::Normal);
    assert_eq!(dependency_kind(MetadataDependencyKind::Development), CargoDependencyKind::Dev);
    assert_eq!(dependency_kind(MetadataDependencyKind::Build), CargoDependencyKind::Build);
    assert_eq!(dependency_kind(MetadataDependencyKind::Unknown), CargoDependencyKind::Normal);
}

#[test]
fn combine_mixed_and_single() {
    let cargo = cargo_discovery("/repo".to_string(), vec![metadata_package("a", true, &["lib"])]);
    let js = js_discovery(
        "pnpm".to_string(),
        vec![js_package_info("/repo", "/repo/apps/web", Some("web".to_string()), false, false, None)],
        None,
        false,
    );
    let w = combine_discovery("/repo".to_string(), Ok(Some(cargo)), Ok(Some(js))).unwrap();
    assert_eq!(w.kind, WorkspaceKind::Mixed);
    assert_eq!(w.root, "/repo");
    assert_eq!(w.packages.len(), 2);
    assert_eq!(w.packages[0].language, Language::Rust);
    assert_eq!(w.packages[1].language, Language::TypeScript);
    assert!(w.cargo.is_some() && w.js.is_some());

    let single = combine_discovery("/tmp/x".to_string(), Ok(None), Ok(None)).unwrap();
    assert_eq!(single.kind, WorkspaceKind::Single);
    assert_eq!(single.root, "/tmp/x");
    assert!(single.packages.is_empty());
}

#[test]
fn combine_kinds_and_errors() {
    let js = js_discovery("yarn".to_string(), Vec::new(), None, false);
    let w = combine_discovery(
        "/repo".to_string(),
        Err(WorkspaceError::CargoMetadataFailed { reason: "boom".to_string() }),
        Ok(Some(js)),
    )
    .unwrap();
    assert_eq!(w.kind, WorkspaceKind::NpmYarn);

    let js = js_discovery("pnpm".to_string(), Vec::new(), None, false);
    let w = combine_discovery("/repo".to_string(), Ok(None), Ok(Some(js))).unwrap();
    assert_eq!(w.kind, WorkspaceKind::Pnpm);

    let e = combine_discovery(
        "/repo".to_string(),
        Ok(None),
        Err(WorkspaceError::JsonParse { path: "package.json".to_string(), reason: "bad".to_string() }),
    )
    .unwrap_err();
    assert!(matches!(e, WorkspaceError::JsonParse { .. }));

    let e = combine_discovery(
        "/repo".to_string(),
        Err(WorkspaceError::CargoTomlNotFound { path: "/repo".to_string() }),
        Err(WorkspaceError::YamlParse { path: "pnpm-workspace.yaml".to_string(), reason: "bad".to_string() }),
    )
    .unwrap_err();
    assert!(matches!(e, WorkspaceError::CargoTomlNotFound { .. }));
}

#[test]
fn cargo_manifest_choice() {
    let nested = vec![
        ("/r/crates/a/Cargo.toml".to_string(), false),
        ("/r/Cargo.toml".to_string(), true),
    ];
    assert_eq!(choose_cargo_toml(&nested), Some("/r/Cargo.toml".to_string()));
    let single = vec![("/r/a/Cargo.toml".to_string(), false), ("/r/Cargo.toml".to_string(), false)];
    assert_eq!(choose_cargo_toml(&single), Some("/r/a/Cargo.toml".to_string()));
    assert_eq!(choose_cargo_toml(&Vec::new()), None);
}

#[test]
fn strip_jsonc_leaves_text_without_comments_unchanged() {
    let input = r#"{"url": "http://x/*y*/", "path": "a//b", "ratio": 1/2}"#;
    assert_eq!(strip_jsonc_comments(input), input);
}

#[test]
fn tsconfig_info_lowercases_and_reads_references() {
    let t = tsconfig_info("/r/tsconfig.json".to_string(), Some("NodeNext".to_string()), Some(2), true, false);
    assert_eq!(t.path, "/r/tsconfig.json");
    assert_eq!(t.module_resolution, Some("nodenext".to_string()));
    assert!(t.has_project_references);
    assert!(t.has_paths);
    assert!(!t.has_base_url);
    let empty_refs = tsconfig_info("/r/tsconfig.json".to_string(), None, Some(0), false, true);
    assert!(!empty_refs.has_project_references);
    assert_eq!(empty_refs.module_resolution, None);
    assert!(empty_refs.has_base_url);
    assert!(!tsconfig_info("/r/tsconfig.json".to_string(), None, None, false, false).has_project_references);
}
