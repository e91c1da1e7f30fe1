use codeatlas_core::graph::types::Language;
use codeatlas_core::profile::{GraphProfile, ProfileFingerprint};
use codeatlas_core::workspace::{
    CargoPackageInfo, CargoWorkspaceMeta, JsWorkspaceMeta, TsconfigInfo, WorkspaceInfo,
    WorkspaceKind, WorkspacePackage,
};

fn cargo_package(name: &str, features: &[&str]) -> CargoPackageInfo {
    CargoPackageInfo {
        name: name.to_string(),
        version: "0.1.0".to_string(),
        manifest_path: format!("/tmp/rust-project/crates/{name}/Cargo.toml"),
        has_build_script: false,
        is_proc_macro: false,
        features: features.iter().map(|f| f.to_string()).collect(),
        dependencies: Vec::new(),
        targets: Vec::new(),
    }
}

fn cargo_workspace(packages: Vec<CargoPackageInfo>) -> WorkspaceInfo {
    WorkspaceInfo {
        root: "/tmp/test".to_string(),
        kind: WorkspaceKind::Cargo,
        packages: Vec::new(),
        cargo: Some(CargoWorkspaceMeta { workspace_root: "/tmp/test".to_string(), packages }),
        js: None,
    }
}

#[test]
fn detect_empty_workspace() {
    let ws = WorkspaceInfo {
        root: "/tmp/empty".to_string(),
        kind: WorkspaceKind::Single,
        packages: Vec::new(),
        cargo: None,
        js: None,
    };
    let profile = GraphProfile::detect_from_workspace(&ws);
    assert!(profile.languages.is_empty());
    assert!(profile.package_manager.is_none());
    assert!(profile.resolution_mode.is_none());
}

#[test]
fn detect_cargo_workspace() {
    let ws = WorkspaceInfo {
        root: "/tmp/rust-project".to_string(),
        kind: WorkspaceKind::Cargo,
        packages: vec![WorkspacePackage {
            name: "my-crate".to_string(),
            relative_path: "crates/my-crate".to_string(),
            language: Language::Rust,
        }],
        cargo: Some(CargoWorkspaceMeta {
            workspace_root: "/tmp/rust-project".to_string(),
            packages: vec![cargo_package("my-crate", &["serde"])],
        }),
        js: None,
    };
    let profile = GraphProfile::detect_from_workspace(&ws);
    assert_eq!(profile.languages, vec![Language::Rust]);
    assert_eq!(profile.package_manager, Some("cargo".to_string()));
    assert!(profile.cargo_features.contains(&"serde".to_string()));
}

#[test]
fn detect_mixed_workspace() {
    let ws = WorkspaceInfo {
        root: "/tmp/mixed".to_string(),
        kind: WorkspaceKind::Mixed,
        packages: Vec::new(),
        cargo: Some(CargoWorkspaceMeta { workspace_root: "/tmp/mixed".to_string(), packages: Vec::new() }),
        js: Some(JsWorkspaceMeta {
            package_manager: "pnpm".to_string(),
            packages: Vec::new(),
            root_tsconfig: Some(TsconfigInfo {
                path: "/tmp/mixed/tsconfig.json".to_string(),
                module_resolution: Some("bundler".to_string()),
                has_project_references: false,
                has_paths: true,
                has_base_url: false,
            }),
            has_pnp: false,
        }),
    };
    let profile = GraphProfile::detect_from_workspace(&ws);
    assert!(profile.languages.contains(&Language::Rust));
    assert!(profile.languages.contains(&Language::TypeScript));
    assert_eq!(profile.package_manager, Some("cargo + pnpm".to_string()));
    assert_eq!(profile.resolution_mode, Some("bundler".to_string()));
}

#[test]
fn fingerprint_is_deterministic() {
    let ws = cargo_workspace(Vec::new());
    let p1 = GraphProfile::detect_from_workspace(&ws);
    let p2 = GraphProfile::detect_from_workspace(&ws);
    assert_eq!(p1.fingerprint, p2.fingerprint);
}

#[test]
fn features_are_distinct_sorted_and_skip_default() {
    let ws = cargo_workspace(vec![
        cargo_package("a", &["zeta", "default", "alpha"]),
        cargo_package("b", &["alpha", "mid"]),
    ]);
    let profile = GraphProfile::detect_from_workspace(&ws);
    assert_eq!(
        profile.cargo_features,
        vec!["alpha".to_string(), "mid".to_string(), "zeta".to_string()]
    );
}

#[test]
fn fingerprint_is_sixteen_hex_digits_and_tracks_features() {
    let p1 = GraphProfile::detect_from_workspace(&cargo_workspace(vec![cargo_package("a", &["x"])]));
    let p2 = GraphProfile::detect_from_workspace(&cargo_workspace(vec![cargo_package("a", &["y"])]));
    assert_eq!(p1.fingerprint.0.len(), 16);
    assert!(p1.fingerprint.0.chars().all(|c| c.is_ascii_hexdigit() && !c.is_ascii_uppercase()));
    assert_ne!(p1.fingerprint, p2.fingerprint);
}

#[test]
fn empty_profile_and_fingerprint() {
    let p = GraphProfile::empty();
    assert!(p.languages.is_empty());
    assert!(p.cargo_features.is_empty());
    assert_eq!(p.fingerprint, ProfileFingerprint::empty());
    assert_eq!(ProfileFingerprint::empty().0, "");
}

#[test]
fn profile_clone_keeps_fields() {
    let ws = cargo_workspace(vec![cargo_package("a", &["x"])]);
    let p = GraphProfile::detect_from_workspace(&ws);
    let q = p.clone();
    assert_eq!(p, q);
}

#[test]
fn two_detections_agree_and_list_languages_once() {
    let ws = cargo_workspace(vec![cargo_package("a", &["b", "default", "a", "b"])]);
    let p1 = GraphProfile::detect_from_workspace(&ws);
    let p2 = GraphProfile::detect_from_workspace(&ws);
    assert_eq!(p1.languages, p2.languages);
    assert_eq!(p1.package_manager, p2.package_manager);
    assert_eq!(p1.cargo_features, p2.cargo_features);
    assert_eq!(p1.fingerprint, p2.fingerprint);
    assert_eq!(p1.cargo_features, vec!["a".to_string(), "b".to_string()]);
    assert!(!p1.cargo_features.iter().any(|f| f == "default"));
    assert_eq!(p1.languages.len(), 1);
}
