use std::collections::HashMap;

use codeatlas_core::config::schema::{FrameworkHint, PackageMetadata, RepoConfig};
use codeatlas_core::graph::types::Language;
use codeatlas_core::health::compatibility::SupportStatus;
use codeatlas_core::workspace::{
    CargoPackageInfo, CargoWorkspaceMeta, JsPackageInfo, JsWorkspaceMeta, WorkspaceInfo,
    WorkspaceKind, WorkspacePackage,
};
use codeatlas_core::{provisional_report, AnalysisHost, CompatibilityReport};

fn mixed_workspace() -> WorkspaceInfo {
    WorkspaceInfo {
        root: "/tmp/mixed".to_string(),
        kind: WorkspaceKind::Mixed,
        packages: vec![WorkspacePackage {
            name: "core".to_string(),
            relative_path: "crates/core".to_string(),
            language: Language::Rust,
        }],
        cargo: Some(CargoWorkspaceMeta {
            workspace_root: "/tmp/mixed".to_string(),
            packages: vec![CargoPackageInfo {
                name: "core".to_string(),
                version: "0.1.0".to_string(),
                manifest_path: "/tmp/mixed/crates/core/Cargo.toml".to_string(),
                has_build_script: true,
                is_proc_macro: false,
                features: vec!["serde".to_string()],
                dependencies: Vec::new(),
                targets: Vec::new(),
            }],
        }),
        js: Some(JsWorkspaceMeta {
            package_manager: "pnpm".to_string(),
            packages: vec![JsPackageInfo {
                name: "web".to_string(),
                relative_path: "apps/web".to_string(),
                has_exports_field: false,
                has_imports_field: false,
                module_type: Some("module".to_string()),
            }],
            root_tsconfig: None,
            has_pnp: false,
        }),
    }
}

#[test]
fn analysis_host_new_has_empty_state() {
    let host = AnalysisHost::new();
    let snap = host.snapshot();
    assert!(snap.compatibility().is_provisional);
    assert!(snap.compatibility().assessments.is_empty());
    assert!(snap.profile().languages.is_empty());
    assert!(snap.workspace_info().is_none());
}

#[test]
fn default_host_matches_new() {
    let host = AnalysisHost::default();
    let snap = host.snapshot();
    assert!(snap.workspace_info().is_none());
    assert_eq!(snap.config().version, 1);
}

#[test]
fn accept_discovery_reports_and_keeps_state() {
    let mut host = AnalysisHost::new();
    let mut packages = HashMap::new();
    packages.insert("crates/core".to_string(), PackageMetadata { tags: Vec::new(), layer: None, owner: None });
    let config = RepoConfig {
        packages,
        frameworks: vec![FrameworkHint { hint_type: "next".to_string(), root: None, output: None, source: None }],
        ..RepoConfig::default_config()
    };
    let result = host.accept_discovery(mixed_workspace(), config);

    assert_eq!(result.workspace.kind, WorkspaceKind::Mixed);
    assert_eq!(result.profile.languages, vec![Language::Rust, Language::TypeScript]);
    assert_eq!(result.profile.package_manager, Some("cargo + pnpm".to_string()));
    assert!(result.compatibility.is_provisional);
    assert_eq!(result.compatibility.assessments.len(), 2);
    assert_eq!(result.compatibility.assessments[0].language, Language::Rust);
    assert_eq!(result.compatibility.assessments[0].status, SupportStatus::Partial);
    assert_eq!(result.compatibility.assessments[1].language, Language::TypeScript);
    assert_eq!(
        result.non_functional_config_sections,
        vec!["packages (per-package metadata)".to_string(), "frameworks (detector hints)".to_string()]
    );

    let snap = host.snapshot();
    assert!(snap.workspace_info().is_some());
    assert_eq!(snap.workspace_info().unwrap().root, "/tmp/mixed");
    assert_eq!(snap.profile(), &result.profile);
    assert_eq!(snap.compatibility(), &result.compatibility);
    assert_eq!(snap.config().frameworks.len(), 1);
}

#[test]
fn provisional_report_follows_applicable_detectors() {
    let empty = WorkspaceInfo {
        root: "/tmp/e".to_string(),
        kind: WorkspaceKind::Single,
        packages: Vec::new(),
        cargo: None,
        js: None,
    };
    let r = provisional_report(&empty);
    assert!(r.is_provisional);
    assert!(r.assessments.is_empty());

    let r = provisional_report(&mixed_workspace());
    assert_eq!(r.assessments.len(), 2);
    assert_eq!(r.status_for(Language::Rust), Some(SupportStatus::Partial));
    assert_eq!(r.status_for(Language::TypeScript), Some(SupportStatus::Partial));
    assert_eq!(r.status_for(Language::JavaScript), None);
}

#[test]
fn provisional_report_is_empty() {
    let r = CompatibilityReport::provisional();
    assert!(r.is_provisional);
    assert!(r.assessments.is_empty());
    assert_eq!(r.status_for(Language::Rust), None);
}
