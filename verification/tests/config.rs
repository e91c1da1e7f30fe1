use std::collections::HashMap;

use codeatlas_core::config::schema::{
    Declaration, DependencyOverlays, Entrypoint, EntrypointKind, FrameworkHint, ManualEdgeConfig,
    PackageMetadata, RepoConfig, SuppressionConfig,
};
use codeatlas_core::config::ConfigError;

fn config_with_ignore(patterns: &[&str]) -> RepoConfig {
    RepoConfig {
        version: 1,
        ignore: patterns.iter().map(|p| p.to_string()).collect(),
        ..RepoConfig::default_config()
    }
}

/// The configuration that the full example document of the schema
/// describes, built field by field.
fn full_config() -> RepoConfig {
    let mut packages = HashMap::new();
    packages.insert(
        "packages/sdk".to_string(),
        PackageMetadata {
            tags: vec!["public".to_string(), "stable".to_string()],
            layer: Some("api".to_string()),
            owner: Some("platform-team".to_string()),
        },
    );
    RepoConfig {
        version: 1,
        ignore: vec!["dist/**".to_string(), "node_modules/**".to_string(), "target/**".to_string()],
        entrypoints: vec![
            Entrypoint { path: "apps/web/src/main.tsx".to_string(), kind: EntrypointKind::App },
            Entrypoint { path: "packages/sdk/src/index.ts".to_string(), kind: EntrypointKind::PublicApi },
        ],
        dependencies: DependencyOverlays {
            add: vec![ManualEdgeConfig {
                from: "apps/web".to_string(),
                to: "packages/config".to_string(),
                reason: "Runtime config loaded via environment".to_string(),
            }],
            suppress: vec![SuppressionConfig {
                from: "packages/utils".to_string(),
                to: "packages/legacy".to_string(),
                reason: "Dead code pending removal".to_string(),
            }],
        },
        packages,
        frameworks: vec![FrameworkHint {
            hint_type: "next-pages".to_string(),
            root: Some("apps/web".to_string()),
            output: None,
            source: None,
        }],
        declarations: vec![Declaration {
            declaration_type: "convention-based-routing".to_string(),
            path: "apps/web/src/pages/**".to_string(),
            note: Some("Next.js file-based routing".to_string()),
        }],
    }
}

#[test]
fn default_config_is_valid() {
    let config = RepoConfig::default_config();
    assert_eq!(config.version, 1);
}

#[test]
fn default_config_validates_and_has_empty_sections() {
    let config = RepoConfig::default_config();
    assert!(config.validate().is_ok());
    assert!(config.ignore.is_empty());
    assert!(config.entrypoints.is_empty());
    assert!(config.dependencies.add.is_empty());
    assert!(config.dependencies.suppress.is_empty());
    assert!(config.packages.is_empty());
    assert!(config.frameworks.is_empty());
    assert!(config.declarations.is_empty());
    assert!(config.non_functional_sections().is_empty());
}

#[test]
fn ignore_pattern_matching() {
    let config = config_with_ignore(&["dist/**", "node_modules/**"]);

    assert!(config.is_ignored("dist/index.js"));
    assert!(config.is_ignored("node_modules/foo/bar.js"));
    assert!(!config.is_ignored("src/main.ts"));
}

#[test]
fn ignore_glob_set_empty_patterns() {
    let config = RepoConfig::default_config();
    assert!(config.ignore_glob_set().is_none());
}

#[test]
fn ignore_glob_set_skips_invalid_patterns() {
    let config = config_with_ignore(&["a[", "build/**"]);
    assert!(config.ignore_glob_set().is_some());
    assert!(config.is_ignored("build/out.js"));
    assert!(!config.is_ignored("a["));
    assert!(!config.is_ignored("src/lib.rs"));
}

#[test]
fn nothing_is_ignored_without_patterns() {
    let config = RepoConfig::default_config();
    assert!(!config.is_ignored("dist/index.js"));
    assert!(!config.is_ignored(""));
}

#[test]
fn non_functional_sections_detected() {
    let mut packages = HashMap::new();
    packages.insert(
        "my-pkg".to_string(),
        PackageMetadata { tags: vec!["api".to_string()], layer: None, owner: None },
    );
    let config = RepoConfig {
        version: 1,
        dependencies: DependencyOverlays {
            add: vec![ManualEdgeConfig {
                from: "a".to_string(),
                to: "b".to_string(),
                reason: "test".to_string(),
            }],
            suppress: vec![],
        },
        packages,
        ..RepoConfig::default_config()
    };
    let sections = config.non_functional_sections();
    assert!(!sections.contains(&"dependencies (manual edges and suppressions)"));
    assert!(sections.contains(&"packages (per-package metadata)"));
}

#[test]
fn non_functional_sections_in_order() {
    let sections = full_config().non_functional_sections();
    assert_eq!(
        sections,
        vec![
            "packages (per-package metadata)",
            "frameworks (detector hints)",
            "declarations (unsupported construct annotations)",
        ]
    );
}

#[test]
fn from_parse_result_accepts_full_config() {
    let config = RepoConfig::from_parse_result(Ok(full_config())).unwrap();
    assert_eq!(config.ignore.len(), 3);
    assert_eq!(config.entrypoints.len(), 2);
    assert_eq!(config.entrypoints[0].kind, EntrypointKind::App);
    assert_eq!(config.entrypoints[1].kind, EntrypointKind::PublicApi);
    assert_eq!(config.dependencies.add.len(), 1);
    assert_eq!(config.dependencies.suppress.len(), 1);
    assert_eq!(config.packages.len(), 1);
    assert_eq!(config.frameworks.len(), 1);
    assert_eq!(config.declarations.len(), 1);
}

#[test]
fn unsupported_version_rejected() {
    let parsed = RepoConfig { version: 99, ..RepoConfig::default_config() };
    let err = RepoConfig::from_parse_result(Ok(parsed)).unwrap_err();
    assert!(matches!(err, ConfigError::UnsupportedVersion { version: 99 }));
}

#[test]
fn parse_failure_becomes_parse_error() {
    let err = RepoConfig::from_parse_result(Err("did not find expected ',' or ']'".to_string()))
        .unwrap_err();
    match err {
        ConfigError::ParseError { reason } => assert_eq!(reason, "did not find expected ',' or ']'"),
        other => panic!("unexpected error: {other:?}"),
    }
}

#[test]
fn validate_accepts_only_version_one() {
    assert!(RepoConfig::default_config().validate().is_ok());
    for v in [0u32, 2, 99] {
        let c = RepoConfig { version: v, ..RepoConfig::default_config() };
        match c.validate() {
            Err(ConfigError::UnsupportedVersion { version }) => assert_eq!(version, v),
            other => panic!("unexpected: {other:?}"),
        }
    }
}
