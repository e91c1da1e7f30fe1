use codeatlas_core::config::schema::RepoConfig;
use codeatlas_core::detector::module_walk::{ModuleWalk, ModuleWalkAction, ModuleWalkEvent};
use codeatlas_core::detector::rust::ModDeclaration;
use codeatlas_core::graph::identity::MaterializedKey;
use codeatlas_core::graph::types::{EdgeKind, EntityKind, Language};

fn decl(name: &str, line: u32) -> ModDeclaration {
    ModDeclaration { name: name.to_string(), start_line: line, end_line: line }
}

fn expect_read(a: &ModuleWalkAction) -> String {
    match a {
        ModuleWalkAction::Read { file } => file.clone(),
        _ => panic!("expected a read"),
    }
}

fn expect_probe(a: &ModuleWalkAction) -> (String, String) {
    match a {
        ModuleWalkAction::Probe { file, dir_file } => (file.clone(), dir_file.clone()),
        _ => panic!("expected a probe"),
    }
}

#[test]
fn module_walk_follows_declarations_depth_first() {
    let config = RepoConfig::default_config();
    let pkg = MaterializedKey::new(Language::Rust, EntityKind::Package, "crates/core");
    let mut walk = ModuleWalk::new(
        "/ws/crates/core/src/lib.rs".to_string(),
        "/ws/crates/core/src".to_string(),
        pkg.clone(),
    );
    let a = walk.action();
    assert_eq!(expect_read(&a), "/ws/crates/core/src/lib.rs");

    // lib.rs declares `graph` and `util`.
    let a = walk.step(ModuleWalkEvent::Declarations(vec![decl("graph", 1), decl("util", 2)]), "/ws", &config);
    assert_eq!(
        expect_probe(&a),
        ("/ws/crates/core/src/graph.rs".to_string(), "/ws/crates/core/src/graph/mod.rs".to_string())
    );
    // graph lives in graph/mod.rs: its modules are looked for in graph/.
    let a = walk.step(ModuleWalkEvent::Probed { file_exists: false, dir_file_exists: true }, "/ws", &config);
    assert_eq!(expect_read(&a), "/ws/crates/core/src/graph/mod.rs");
    let a = walk.step(ModuleWalkEvent::Declarations(vec![decl("types", 5)]), "/ws", &config);
    assert_eq!(
        expect_probe(&a),
        ("/ws/crates/core/src/graph/types.rs".to_string(), "/ws/crates/core/src/graph/types/mod.rs".to_string())
    );
    let a = walk.step(ModuleWalkEvent::Probed { file_exists: true, dir_file_exists: false }, "/ws", &config);
    assert_eq!(expect_read(&a), "/ws/crates/core/src/graph/types.rs");
    // types.rs declares nothing: back to lib.rs's next declaration.
    let a = walk.step(ModuleWalkEvent::Declarations(vec![]), "/ws", &config);
    assert_eq!(
        expect_probe(&a),
        ("/ws/crates/core/src/util.rs".to_string(), "/ws/crates/core/src/util/mod.rs".to_string())
    );
    // util has no file: it is skipped, and the walk is over.
    let a = walk.step(ModuleWalkEvent::Probed { file_exists: false, dir_file_exists: false }, "/ws", &config);
    assert!(matches!(a, ModuleWalkAction::Done));

    let keys: Vec<String> = walk.nodes.iter().map(|n| n.materialized_key.to_string()).collect();
    assert_eq!(
        keys,
        vec!["rust:module:crates/core/src/graph".to_string(), "rust:module:crates/core/src/graph/types".to_string()]
    );
    assert_eq!(walk.edges.len(), 2);
    assert_eq!(walk.edges[0].source_key, pkg);
    assert_eq!(walk.edges[0].kind, EdgeKind::Contains);
    assert_eq!(walk.edges[1].source_key.to_string(), "rust:module:crates/core/src/graph");
    assert_eq!(walk.nodes[1].parent_key.as_ref().unwrap().to_string(), "rust:module:crates/core/src/graph");
    let loc = walk.edges[1].source_location.clone().unwrap();
    assert_eq!(loc.path, "crates/core/src/graph/mod.rs");
    assert_eq!(loc.start_line, 5);
}

#[test]
fn module_walk_skips_unreadable_and_ignored_files() {
    let config = RepoConfig { ignore: vec!["crates/core/src/gen/**".to_string()], ..RepoConfig::default_config() };
    let pkg = MaterializedKey::new(Language::Rust, EntityKind::Package, "crates/core");
    let mut walk = ModuleWalk::new(
        "/ws/crates/core/src/lib.rs".to_string(),
        "/ws/crates/core/src".to_string(),
        pkg,
    );
    let a = walk.step(ModuleWalkEvent::Declarations(vec![decl("gen", 1), decl("io", 2)]), "/ws", &config);
    assert!(matches!(a, ModuleWalkAction::Probe { .. }));
    // gen/mod.rs is ignored by the configuration.
    let a = walk.step(ModuleWalkEvent::Probed { file_exists: false, dir_file_exists: true }, "/ws", &config);
    assert!(matches!(a, ModuleWalkAction::Probe { .. }));
    assert!(walk.nodes.is_empty());
    let a = walk.step(ModuleWalkEvent::Probed { file_exists: true, dir_file_exists: false }, "/ws", &config);
    assert_eq!(expect_read(&a), "/ws/crates/core/src/io.rs");
    assert_eq!(walk.nodes.len(), 1);
    // io.rs cannot be read: the walk is over, the module stays recorded.
    let a = walk.step(ModuleWalkEvent::Unreadable, "/ws", &config);
    assert!(matches!(a, ModuleWalkAction::Done));
    assert_eq!(walk.nodes.len(), 1);
    assert_eq!(walk.edges.len(), 1);
}

#[test]
fn module_walk_ignores_an_answer_to_another_question() {
    let config = RepoConfig::default_config();
    let pkg = MaterializedKey::new(Language::Rust, EntityKind::Package, "crates/core");
    let mut walk = ModuleWalk::new("/ws/src/lib.rs".to_string(), "/ws/src".to_string(), pkg);
    let a = walk.step(ModuleWalkEvent::Probed { file_exists: true, dir_file_exists: true }, "/ws", &config);
    assert_eq!(expect_read(&a), "/ws/src/lib.rs");
    assert!(walk.nodes.is_empty());
}
