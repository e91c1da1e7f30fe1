use codeatlas_core::detector::typescript::{package_dependencies_from_text, tsconfig_paths_from_text};
use codeatlas_core::graph::types::EdgeCategory;
use codeatlas_core::workspace::document::{JsonValue, YamlValue};
use codeatlas_core::workspace::javascript::{
    js_package_fields, js_package_from_text, npm_workspace_globs, npm_workspace_globs_from_text,
    pnpm_workspace_globs, pnpm_workspace_globs_from_text, tsconfig_from_text, tsconfig_info_from,
};
use codeatlas_core::workspace::WorkspaceError;

#[test]
fn tsconfig_text_with_comments() {
    let text = r#"{
        // options
        "compilerOptions": { "moduleResolution": "Bundler", "paths": {}, /* x */ "baseUrl": "." },
        "references": [{ "path": "./a" }]
    }"#;
    let t = tsconfig_from_text("/r/tsconfig.json".to_string(), text).expect("parses");
    assert_eq!(t.path, "/r/tsconfig.json");
    assert_eq!(t.module_resolution, Some("bundler".to_string()));
    assert!(t.has_project_references);
    assert!(t.has_paths);
    assert!(t.has_base_url);
    let bare = tsconfig_from_text("/r/tsconfig.json".to_string(), r#"{"references": []}"#).unwrap();
    assert!(!bare.has_project_references);
    assert_eq!(bare.module_resolution, None);
    assert!(!bare.has_paths);
}

#[test]
fn tsconfig_text_that_does_not_parse() {
    match tsconfig_from_text("/r/tsconfig.json".to_string(), "{ nope") {
        Err(WorkspaceError::JsonParse { path, reason }) => {
            assert_eq!(path, "/r/tsconfig.json");
            assert!(!reason.is_empty());
        }
        other => panic!("unexpected {other:?}"),
    }
}

#[test]
fn tsconfig_from_value() {
    let doc = JsonValue::Object(vec![(
        "compilerOptions".to_string(),
        JsonValue::Object(vec![("moduleResolution".to_string(), JsonValue::Str("NodeNext".to_string()))]),
    )]);
    let t = tsconfig_info_from("/t.json".to_string(), &doc);
    assert_eq!(t.module_resolution, Some("nodenext".to_string()));
    assert!(!t.has_base_url);
}

#[test]
fn npm_globs_from_array_object_and_neither() {
    let arr = npm_workspace_globs_from_text("/r/package.json", r#"{"workspaces": ["apps/*", 3, "libs/*"]}"#).unwrap();
    assert_eq!(arr, Some(vec!["apps/*".to_string(), "libs/*".to_string()]));
    let obj = npm_workspace_globs_from_text("/r/package.json", r#"{"workspaces": {"packages": ["p/*"]}}"#).unwrap();
    assert_eq!(obj, Some(vec!["p/*".to_string()]));
    assert_eq!(npm_workspace_globs_from_text("/r/package.json", r#"{"workspaces": "x"}"#).unwrap(), None);
    assert_eq!(npm_workspace_globs_from_text("/r/package.json", r#"{"workspaces": []}"#).unwrap(), None);
    assert_eq!(npm_workspace_globs_from_text("/r/package.json", r#"{"name": "x"}"#).unwrap(), None);
    assert!(npm_workspace_globs_from_text("/r/package.json", "[").is_err());
    let doc = JsonValue::Object(vec![("workspaces".to_string(), JsonValue::Object(Vec::new()))]);
    assert_eq!(npm_workspace_globs(&doc), None);
}

#[test]
fn pnpm_globs() {
    let globs = pnpm_workspace_globs_from_text("/r/pnpm-workspace.yaml", "packages:\n  - 'apps/*'\n  - libs/*\n  - 3\n").unwrap();
    assert_eq!(globs, vec!["apps/*".to_string(), "libs/*".to_string()]);
    assert!(pnpm_workspace_globs_from_text("/r/pnpm-workspace.yaml", "other: 1\n").unwrap().is_empty());
    match pnpm_workspace_globs_from_text("/r/pnpm-workspace.yaml", "packages: [") {
        Err(WorkspaceError::YamlParse { path, .. }) => assert_eq!(path, "/r/pnpm-workspace.yaml"),
        other => panic!("unexpected {other:?}"),
    }
    let tagged = YamlValue::Mapping(vec![(
        YamlValue::Str("packages".to_string()),
        YamlValue::Tagged("!t".to_string(), Box::new(YamlValue::Sequence(vec![YamlValue::Str("a".to_string())]))),
    )]);
    assert_eq!(pnpm_workspace_globs(&tagged), vec!["a".to_string()]);
}

#[test]
fn js_package_manifest_fields() {
    let p = js_package_from_text(
        "/r",
        "/r/packages/sdk",
        "/r/packages/sdk/package.json",
        r#"{"name": "@app/sdk", "exports": {}, "type": "module"}"#,
    )
    .unwrap();
    assert_eq!(p.name, "@app/sdk");
    assert_eq!(p.relative_path, "packages/sdk");
    assert!(p.has_exports_field);
    assert!(!p.has_imports_field);
    assert_eq!(p.module_type, Some("module".to_string()));
    let unnamed = js_package_from_text("/r", "/r/x", "/r/x/package.json", r#"{"name": 1, "imports": null}"#).unwrap();
    assert_eq!(unnamed.name, "unknown");
    assert!(unnamed.has_imports_field);
    let doc = JsonValue::Object(Vec::new());
    assert_eq!(js_package_fields(&doc), (None, false, false, None));
}

#[test]
fn manifest_dependencies_in_order() {
    let deps = package_dependencies_from_text(
        r#"{"dependencies": {"b": "1", "a": "1"}, "devDependencies": {"c": "1"}, "peerDependencies": {"d": "1"}}"#,
    );
    assert_eq!(
        deps,
        vec![
            ("a".to_string(), EdgeCategory::Normal),
            ("b".to_string(), EdgeCategory::Normal),
            ("c".to_string(), EdgeCategory::Dev),
            ("d".to_string(), EdgeCategory::Normal),
        ]
    );
    assert!(package_dependencies_from_text("not json").is_empty());
}

#[test]
fn tsconfig_paths_and_base_url() {
    let (base, paths) = tsconfig_paths_from_text(
        r#"{"compilerOptions": {"baseUrl": "./src", "paths": {"@lib/*": ["lib/*", 1], "exact": "x"}}}"#,
    );
    assert_eq!(base, Some("./src".to_string()));
    assert_eq!(paths.len(), 2);
    assert_eq!(paths[0].prefix, "@lib/");
    assert_eq!(paths[0].suffix, "");
    assert_eq!(paths[0].replacements, vec!["lib/*".to_string()]);
    assert_eq!(paths[1].prefix, "exact");
    assert!(paths[1].replacements.is_empty());
    let (none, empty) = tsconfig_paths_from_text("{");
    assert_eq!(none, None);
    assert!(empty.is_empty());
}
