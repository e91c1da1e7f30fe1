use codeatlas_core::config::schema::RepoConfig;
use codeatlas_core::detector::rust::{
    compile_rust_queries, crate_paths, dependency_categories, rust_file_findings,
    rust_module_declarations, rust_package_files, rust_source_files,
};
use codeatlas_core::graph::types::{EdgeKind, NodeKind};
use codeatlas_core::detector::syntax::{matches_in, SyntaxCapture};
use codeatlas_core::detector::typescript::{
    compile_ts_queries, has_only_type_specifiers, ts_file_syntax, ClauseItem, TsFileOutcome,
    TsFileSyntax, TsQueries,
};
use codeatlas_core::detector::DetectorReport;
use codeatlas_core::graph::identity::MaterializedKey;
use codeatlas_core::graph::types::{EntityKind, Language, UnresolvedReason, UnsupportedConstructType};
use codeatlas_core::workspace::{CargoPackageInfo, CargoWorkspaceMeta};

fn texts_named(matches: &[Vec<SyntaxCapture>], name: &str) -> Vec<String> {
    let mut out = Vec::new();
    for m in matches {
        for c in m {
            if c.name == name {
                out.push(c.text.clone().expect("text"));
            }
        }
    }
    out
}

fn ts_syntax(queries: &TsQueries, source: &str) -> TsFileSyntax {
    let mut report = DetectorReport::new();
    match ts_file_syntax(queries, source, "src/a.ts", &mut report) {
        TsFileOutcome::Syntax(s) => s,
        other => panic!("unexpected outcome {other:?}"),
    }
}

fn empty_cargo() -> CargoWorkspaceMeta {
    CargoWorkspaceMeta {
        workspace_root: "/ws".to_string(),
        packages: vec![CargoPackageInfo {
            name: "my-crate".to_string(),
            version: "0.1.0".to_string(),
            manifest_path: "/ws/Cargo.toml".to_string(),
            has_build_script: false,
            is_proc_macro: false,
            features: Vec::new(),
            targets: Vec::new(),
            dependencies: Vec::new(),
        }],
    }
}

#[test]
fn tree_sitter_extracts_mod_declarations() {
    let source = "\nmod foo;\nmod bar;\npub mod baz;\n";
    let queries = compile_rust_queries("rust-cargo").expect("queries");
    let matches = matches_in(queries.mod_query(), source).expect("parse");
    assert_eq!(texts_named(&matches, "mod_name"), vec!["foo", "bar", "baz"]);

    let mut report = DetectorReport::new();
    let decls = rust_module_declarations(&queries, source, "src/lib.rs", &mut report);
    let names: Vec<&str> = decls.iter().map(|d| d.name.as_str()).collect();
    assert_eq!(names, vec!["foo", "bar", "baz"]);
    assert_eq!(decls[0].start_line, 2);
    assert_eq!(decls[2].start_line, 4);
    assert!(report.parse_failures.is_empty());
}

#[test]
fn tree_sitter_extracts_use_declarations() {
    let source = "\nuse crate::foo::bar;\nuse super::baz;\nuse std::collections::HashMap;\npub use crate::graph::types::NodeData;\n";
    let queries = compile_rust_queries("rust-cargo").expect("queries");
    let matches = matches_in(queries.use_query(), source).expect("parse");
    let use_paths = texts_named(&matches, "use_path");
    assert_eq!(use_paths.len(), 4);
    assert!(use_paths[0].contains("crate::foo::bar"));
    assert!(use_paths[1].contains("super::baz"));
    assert!(use_paths[2].contains("std::collections::HashMap"));
    assert!(use_paths[3].contains("crate::graph::types::NodeData"));
}

#[test]
fn detect_cfg_on_mod_item() {
    let source = "\n#[cfg(feature = \"serde-support\")]\nmod serde_impl;\n";
    let queries = compile_rust_queries("rust-cargo").expect("queries");
    let cargo = empty_cargo();
    let crates = crate_paths(&cargo, "/ws");
    let cats = dependency_categories(&cargo);
    let file_key = MaterializedKey::new(Language::Rust, EntityKind::File, "src/lib.rs");
    let mut report = DetectorReport::new();
    let edges = rust_file_findings(
        &queries, source, &file_key, "src/lib.rs", "my_crate", "", "/ws", &crates, &cats, &mut report,
    );
    assert!(edges.is_empty());
    assert_eq!(report.unsupported_constructs.len(), 1);
    assert_eq!(report.unsupported_constructs[0].construct_type, UnsupportedConstructType::CfgGate);
}

#[test]
fn cfg_finding_names_module_and_lines() {
    let source = "#[cfg(test)]\nmod tests;\n#[cfg(unix)]\nfn f() {}\n#[cfg(a)]\n#[allow(x)]\nmod other;\n";
    let queries = compile_rust_queries("rust-cargo").expect("queries");
    let cargo = empty_cargo();
    let crates = crate_paths(&cargo, "/ws");
    let cats = dependency_categories(&cargo);
    let file_key = MaterializedKey::new(Language::Rust, EntityKind::File, "src/lib.rs");
    let mut report = DetectorReport::new();
    rust_file_findings(&queries, source, &file_key, "src/lib.rs", "my_crate", "", "/ws", &crates, &cats, &mut report);
    assert_eq!(report.unsupported_constructs.len(), 1);
    let c = &report.unsupported_constructs[0];
    assert_eq!(c.location.start_line, 1);
    assert_eq!(c.location.end_line, 1);
    assert_eq!(c.impact, "#[cfg(...)] on module `tests` — module may be conditionally compiled");
}

#[test]
fn rust_file_findings_uses_and_includes() {
    let source = "use crate::graph::types;\nuse serde::Serialize;\nconst X: &str = include!(\"x.rs\");\n";
    let queries = compile_rust_queries("rust-cargo").expect("queries");
    let cargo = empty_cargo();
    let crates = crate_paths(&cargo, "/ws");
    let cats = dependency_categories(&cargo);
    let file_key = MaterializedKey::new(Language::Rust, EntityKind::File, "src/lib.rs");
    let mut report = DetectorReport::new();
    let edges = rust_file_findings(
        &queries, source, &file_key, "src/lib.rs", "my_crate", "", "/ws", &crates, &cats, &mut report,
    );
    assert_eq!(edges.len(), 1);
    assert_eq!(edges[0].target_key.to_string(), "rust:module:src/graph");
    assert_eq!(edges[0].source_location.as_ref().unwrap().start_line, 1);
    assert_eq!(report.unresolved_imports.len(), 1);
    assert_eq!(report.unresolved_imports[0].specifier, "serde::Serialize");
    assert_eq!(report.unresolved_imports[0].reason, UnresolvedReason::ExternalCrate);
    assert_eq!(report.unsupported_constructs.len(), 1);
    assert_eq!(report.unsupported_constructs[0].construct_type, UnsupportedConstructType::IncludeMacro);
    assert_eq!(report.unsupported_constructs[0].location.start_line, 3);
}

#[test]
fn ts_query_regular_import() {
    let source = "import { Foo } from './bar';";
    let queries = compile_ts_queries(false).expect("queries");
    let matches = matches_in(queries.import_query(), source).expect("parse");
    assert_eq!(texts_named(&matches, "source"), vec!["'./bar'"]);
    let type_matches = matches_in(queries.import_type_query(), source).expect("parse");
    assert!(type_matches.is_empty(), "regular import should NOT match import_type query");

    let s = ts_syntax(&queries, source);
    assert_eq!(s.imports.len(), 1);
    assert_eq!(s.imports[0].specifier, "./bar");
    assert_eq!(s.imports[0].clause, vec![ClauseItem::Named { is_type: false }]);
    assert!(s.type_sources.is_empty());
}

#[test]
fn ts_query_import_type() {
    let source = "import type { Foo } from './bar';";
    let queries = compile_ts_queries(false).expect("queries");
    let matches = matches_in(queries.import_type_query(), source).expect("parse");
    assert_eq!(texts_named(&matches, "source"), vec!["'./bar'"], "import type should capture source");
    let s = ts_syntax(&queries, source);
    assert_eq!(s.type_sources, vec!["./bar"]);
}

#[test]
fn ts_query_inline_type_specifiers() {
    let source = "import { type Foo, Bar } from './bar';";
    let queries = compile_ts_queries(false).expect("queries");
    let type_matches = matches_in(queries.import_type_query(), source).expect("parse");
    assert!(type_matches.is_empty(), "inline type should NOT match statement-level import_type");
    let matches = matches_in(queries.import_query(), source).expect("parse");
    assert!(!matches.is_empty(), "should match regular import");

    let s = ts_syntax(&queries, source);
    assert_eq!(s.imports.len(), 1);
    assert_eq!(
        s.imports[0].clause,
        vec![ClauseItem::Named { is_type: true }, ClauseItem::Named { is_type: false }]
    );
    assert!(!has_only_type_specifiers(&s.imports[0].clause), "mixed import with Bar should not be type-only");
}

#[test]
fn ts_query_all_inline_type_specifiers() {
    let source = "import { type Foo, type Bar } from './baz';";
    let queries = compile_ts_queries(false).expect("queries");
    let s = ts_syntax(&queries, source);
    assert!(has_only_type_specifiers(&s.imports[0].clause), "all-type specifiers should be type-only");
}

#[test]
fn default_import_is_a_value() {
    let source = "import Foo, { type Bar } from './x';";
    let queries = compile_ts_queries(false).expect("queries");
    let s = ts_syntax(&queries, source);
    assert_eq!(s.imports[0].clause, vec![ClauseItem::Default, ClauseItem::Named { is_type: true }]);
    assert!(!has_only_type_specifiers(&s.imports[0].clause));
}

#[test]
fn namespace_import_is_a_value() {
    let source = "import * as ns from './x';";
    let queries = compile_ts_queries(false).expect("queries");
    let s = ts_syntax(&queries, source);
    assert_eq!(s.imports[0].clause, vec![ClauseItem::Namespace]);
    assert!(!has_only_type_specifiers(&s.imports[0].clause));
}

#[test]
fn clause_items_stay_with_their_statement() {
    let source = "import { type A } from './x'; import { B } from './x';";
    let queries = compile_ts_queries(false).expect("queries");
    let s = ts_syntax(&queries, source);
    assert_eq!(s.imports.len(), 2);
    assert_eq!(s.imports[0].clause, vec![ClauseItem::Named { is_type: true }]);
    assert_eq!(s.imports[1].clause, vec![ClauseItem::Named { is_type: false }]);
}

#[test]
fn ts_query_reexport() {
    let source = "export { Foo } from './bar';";
    let queries = compile_ts_queries(false).expect("queries");
    let s = ts_syntax(&queries, source);
    let sources: Vec<&str> = s.reexports.iter().map(|r| r.specifier.as_str()).collect();
    assert_eq!(sources, vec!["./bar"]);
    assert!(!s.reexports[0].type_only);
}

#[test]
fn ts_query_type_reexport() {
    let source = "export type { Foo } from './bar';";
    let queries = compile_ts_queries(false).expect("queries");
    let matches = matches_in(queries.reexport_query(), source).expect("parse");
    assert_eq!(matches.len(), 1, "should match");
    let s = ts_syntax(&queries, source);
    assert!(s.reexports[0].type_only, "export type should have type keyword");
}

#[test]
fn ts_query_namespace_reexport() {
    let source = "export * from './bar';";
    let queries = compile_ts_queries(false).expect("queries");
    let s = ts_syntax(&queries, source);
    let sources: Vec<&str> = s.reexports.iter().map(|r| r.specifier.as_str()).collect();
    assert_eq!(sources, vec!["./bar"]);
}

#[test]
fn ts_query_dynamic_import() {
    let source = "const x = import('./bar');";
    let queries = compile_ts_queries(false).expect("queries");
    let matches = matches_in(queries.dynamic_import_query(), source).expect("parse");
    assert_eq!(texts_named(&matches, "source"), vec!["'./bar'"]);
    let s = ts_syntax(&queries, source);
    assert_eq!(s.dynamic_imports.len(), 1);
    assert_eq!(s.dynamic_imports[0].text, "'./bar'");
}

#[test]
fn ts_query_require_call() {
    let source = "const x = require('./bar');";
    let queries = compile_ts_queries(false).expect("queries");
    let matches = matches_in(queries.require_query(), source).expect("parse");
    assert_eq!(texts_named(&matches, "source"), vec!["'./bar'"]);
    let s = ts_syntax(&queries, source);
    assert_eq!(s.requires_calls.len(), 1);
    assert_eq!(s.requires_calls[0].text, "'./bar'");
    assert_eq!(s.requires_calls[0].start_line, 1);
}

#[test]
fn tsx_parser_handles_jsx() {
    let source = "\nimport { Button } from './components';\n\nexport function App() {\n    return <Button onClick={() => console.log(\"clicked\")}>Click me</Button>;\n}\n";
    let queries = compile_ts_queries(true).expect("queries");
    let s = ts_syntax(&queries, source);
    let sources: Vec<&str> = s.imports.iter().map(|i| i.specifier.as_str()).collect();
    assert_eq!(sources, vec!["./components"]);
    assert_eq!(s.imports[0].start_line, 2);
}

#[test]
fn rust_source_files_keep_sorted_unignored_rs_files() {
    let config = RepoConfig { ignore: vec!["src/gen/**".to_string()], ..RepoConfig::default_config() };
    let candidates = vec![
        "/ws/src/b.rs".to_string(),
        "/ws/build.rs".to_string(),
        "/ws/src/a.rs".to_string(),
        "/ws/src/notes.txt".to_string(),
        "/ws/src/gen/out.rs".to_string(),
        "/ws/.rs".to_string(),
    ];
    let files = rust_source_files(&candidates, "/ws", &config);
    assert_eq!(files, vec!["/ws/src/a.rs".to_string(), "/ws/src/b.rs".to_string()]);
}

#[test]
fn rust_package_files_give_one_node_per_file_in_order() {
    let queries = compile_rust_queries("rust-cargo").expect("queries");
    let cargo = empty_cargo();
    let crates = crate_paths(&cargo, "/ws");
    let cats = dependency_categories(&cargo);
    let pkg_key = MaterializedKey::new(Language::Rust, EntityKind::Package, "");
    let files = vec!["/ws/src/lib.rs".to_string(), "/ws/src/other.rs".to_string()];
    let sources = vec![Some("use crate::other;\n".to_string()), None];
    let mut report = DetectorReport::new();
    let (nodes, edges) = rust_package_files(
        &queries, &files, &sources, "/ws", "", "my_crate", "/ws", &pkg_key, &crates, &cats, &mut report,
    );
    assert_eq!(nodes.len(), 2);
    assert_eq!(nodes[0].materialized_key.to_string(), "rust:file:src/lib.rs");
    assert_eq!(nodes[0].label, "lib.rs");
    assert_eq!(nodes[1].materialized_key.to_string(), "rust:file:src/other.rs");
    assert!(nodes.iter().all(|n| n.kind == NodeKind::File));
    assert_eq!(edges.len(), 3);
    assert_eq!(edges[0].kind, EdgeKind::Contains);
    assert_eq!(edges[1].kind, EdgeKind::Imports);
    assert_eq!(edges[2].kind, EdgeKind::Contains);
    assert_eq!(report.parse_failures.len(), 1);
    assert_eq!(report.parse_failures[0].path, "src/other.rs");
    assert_eq!(report.parse_failures[0].reason, "could not read file");
}
