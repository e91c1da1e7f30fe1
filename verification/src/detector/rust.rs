//! Rust detector: the Cargo workspace's compatibility assessment, its
//! package topology, and the graph facts drawn from parsed sources.
//!
//! Source files are parsed here with tree-sitter; what its queries find
//! (module names, `use` paths, attributes) gives the nodes, edges and
//! findings. Walking the filesystem and reading files happen at the edge.

use vstd::prelude::*;

use crate::detector::{
    contains_edge, contains_edge_view, detection_failure, is_detection_failure, CompatibilityAssessment,
    Detector, DetectorError, DetectorReport,
};
use crate::detector::syntax::{
    capture_named, captures_named, compile_query, find_capture, first_query_error, flat, line_number,
    line_of, match_view, matches_view, named_in, parse_failure, parse_source, query_matches,
    run_query, CaptureView, Grammar, SyntaxCapture, SyntaxFailure, SyntaxQuery,
};
use crate::graph::identity::{
    edge_id_of, key_of, lemma_normalize_idempotent, normalize_path, EdgeId, KeyView,
    MaterializedKey,
};
use crate::graph::types::{
    construct_views, edge_views, failure_views, lemma_construct_views_push, lemma_edge_views_push,
    lemma_failure_views_push, ParseFailure, ParseFailureView,
    lemma_node_views_push, lemma_unresolved_views_push, node_views, unresolved_views, ConstructView, Confidence, EdgeCategory, EdgeData,
    EdgeKind, EdgeView, EntityKind, Language, LocationView, NodeData, NodeKind, NodeView,
    OverlayStatus, OverlayView, SourceLocation, UnresolvedImport, UnresolvedReason, UnresolvedView,
    UnsupportedConstruct,
    UnsupportedConstructType,
};
use crate::health::compatibility::{
    detail, details_view, lemma_most_severe_concat, lemma_most_severe_single, most_severe,
    CompatibilityDetail, SupportStatus,
};
use crate::config::schema::{ignored_by, RepoConfig};
use crate::profile::{sort_texts, text_le};
use crate::paths::{
    extension_of, file_name_of, path_extension, join_path, opt_view, package_dir, package_dir_of, parent_dir, parent_of_path,
    parent_or_empty, path_equiv, path_file_name, path_join, path_parent, relative_or_self,
    relative_to, same_path,
};
use crate::text::{
    chars_of, concat3, contains_char, decimal, decimal_string, join_strings, join_with, prefix_string, push_all,
    push_char, same_text,
};
use crate::workspace::{
    CargoDependencyKind, CargoPackageInfo, CargoTargetInfo, CargoWorkspaceMeta, WorkspaceInfo,
};
use crate::workspace::cargo::{any_target_kind, has_target_kind};

verus! {

/// Rust detector using `cargo_metadata` and tree-sitter.
pub struct RustDetector;

// ---------------------------------------------------------------------------
// Compatibility
// ---------------------------------------------------------------------------

/// The names of the packages with a build script, in order.
pub open spec fn build_script_names(pkgs: Seq<CargoPackageInfo>) -> Seq<Seq<char>> {
    pkgs.filter(|p: CargoPackageInfo| p.has_build_script).map_values(|p: CargoPackageInfo| p.name@)
}

/// The names of the proc-macro packages, in order.
pub open spec fn proc_macro_names(pkgs: Seq<CargoPackageInfo>) -> Seq<Seq<char>> {
    pkgs.filter(|p: CargoPackageInfo| p.is_proc_macro).map_values(|p: CargoPackageInfo| p.name@)
}

/// The number of features defined across the packages.
pub open spec fn feature_total(pkgs: Seq<CargoPackageInfo>) -> nat
    decreases pkgs.len(),
{
    if pkgs.len() == 0 {
        0
    } else {
        feature_total(pkgs.drop_last()) + pkgs.last().features@.len()
    }
}

/// The details of the assessment of a Cargo workspace with packages `pkgs`:
/// workspace structure and inter-crate dependencies (supported), build
/// scripts, proc-macro crates and features where present (partial), and the
/// module hierarchy (supported).
pub open spec fn rust_details(pkgs: Seq<CargoPackageInfo>) -> Seq<
    (Seq<char>, SupportStatus, Seq<char>),
> {
    let builds = build_script_names(pkgs);
    let macros = proc_macro_names(pkgs);
    let total = feature_total(pkgs);
    seq![
        (
            "Cargo workspace structure"@,
            SupportStatus::Supported,
            decimal(pkgs.len()) + " workspace package(s) discovered via cargo_metadata"@,
        ),
        (
            "Inter-crate dependencies"@,
            SupportStatus::Supported,
            "Normal/dev/build dependency kinds extracted from cargo_metadata"@,
        ),
    ] + (if builds.len() > 0 {
        seq![
            (
                "build.rs scripts"@,
                SupportStatus::Partial,
                "Found build.rs in: "@ + join_with(builds, ", "@)
                    + ". Generated code and custom cfg flags from build scripts are not analyzed."@,
            ),
        ]
    } else {
        Seq::empty()
    }) + (if macros.len() > 0 {
        seq![
            (
                "Procedural macros"@,
                SupportStatus::Partial,
                "Proc-macro crate(s): "@ + join_with(macros, ", "@)
                    + ". Macro expansion output is not analyzed — only the crate dependency is captured."@,
            ),
        ]
    } else {
        Seq::empty()
    }) + (if total > 0 {
        seq![
            (
                "Cargo features / cfg gates"@,
                SupportStatus::Partial,
                decimal(total)
                    + " feature(s) defined across workspace. Default features are assumed; non-default cfg gates are not evaluated."@,
            ),
        ]
    } else {
        Seq::empty()
    }) + seq![
        (
            "Module hierarchy (mod/use/pub use)"@,
            SupportStatus::Supported,
            "Parsed via tree-sitter — will be available after full scan"@,
        ),
    ]
}

/// Partial where a build script, a proc-macro crate or a feature is
/// present; supported otherwise.
pub open spec fn rust_status(pkgs: Seq<CargoPackageInfo>) -> SupportStatus {
    if build_script_names(pkgs).len() > 0 || proc_macro_names(pkgs).len() > 0 || feature_total(
        pkgs,
    ) > 0 {
        SupportStatus::Partial
    } else {
        SupportStatus::Supported
    }
}

/// A Rust assessment's status is the most severe status among its details:
/// unsupported without a Cargo workspace; otherwise partial exactly where a
/// build script, a proc-macro crate or a feature gives a partial detail.
pub proof fn lemma_rust_status_most_severe(ws: WorkspaceInfo)
    ensures
        match ws.cargo {
            None => most_severe(no_cargo_details()) == SupportStatus::Unsupported,
            Some(c) => most_severe(rust_details(c.packages@)) == rust_status(c.packages@),
        },
{
    match ws.cargo {
        None => {
            lemma_most_severe_single(no_cargo_details()[0]);
            assert(no_cargo_details() =~= seq![no_cargo_details()[0]]);
        },
        Some(c) => {
            let pkgs = c.packages@;
            let builds = build_script_names(pkgs);
            let macros = proc_macro_names(pkgs);
            let total = feature_total(pkgs);
            let d = rust_details(pkgs);
            let parts = rust_detail_parts(pkgs);
            assert(d =~= parts.0 + parts.1 + parts.2 + parts.3 + parts.4);
            lemma_most_severe_concat(parts.0, parts.1);
            lemma_most_severe_concat(parts.0 + parts.1, parts.2);
            lemma_most_severe_concat(parts.0 + parts.1 + parts.2, parts.3);
            lemma_most_severe_concat(parts.0 + parts.1 + parts.2 + parts.3, parts.4);
            assert(parts.0 =~= seq![parts.0[0]] + seq![parts.0[1]]);
            lemma_most_severe_concat(seq![parts.0[0]], seq![parts.0[1]]);
            lemma_most_severe_single(parts.0[0]);
            lemma_most_severe_single(parts.0[1]);
            if builds.len() > 0 {
                lemma_most_severe_single(parts.1[0]);
                assert(parts.1 =~= seq![parts.1[0]]);
            }
            if macros.len() > 0 {
                lemma_most_severe_single(parts.2[0]);
                assert(parts.2 =~= seq![parts.2[0]]);
            }
            if total > 0 {
                lemma_most_severe_single(parts.3[0]);
                assert(parts.3 =~= seq![parts.3[0]]);
            }
            lemma_most_severe_single(parts.4[0]);
            assert(parts.4 =~= seq![parts.4[0]]);
        },
    }
}

/// The details of a Rust assessment in five parts: the two on structure,
/// those on build scripts, on proc-macros and on features, and the one on
/// modules.
pub open spec fn rust_detail_parts(pkgs: Seq<CargoPackageInfo>) -> (
    Seq<(Seq<char>, SupportStatus, Seq<char>)>,
    Seq<(Seq<char>, SupportStatus, Seq<char>)>,
    Seq<(Seq<char>, SupportStatus, Seq<char>)>,
    Seq<(Seq<char>, SupportStatus, Seq<char>)>,
    Seq<(Seq<char>, SupportStatus, Seq<char>)>,
) {
    let d = rust_details(pkgs);
    let n1 = if build_script_names(pkgs).len() > 0 { 1int } else { 0int };
    let n2 = if proc_macro_names(pkgs).len() > 0 { 1int } else { 0int };
    let n3 = if feature_total(pkgs) > 0 { 1int } else { 0int };
    (
        d.subrange(0, 2),
        d.subrange(2, 2 + n1),
        d.subrange(2 + n1, 2 + n1 + n2),
        d.subrange(2 + n1 + n2, 2 + n1 + n2 + n3),
        d.subrange(2 + n1 + n2 + n3, 3 + n1 + n2 + n3),
    )
}

/// The detail given where no Cargo workspace was found.
pub open spec fn no_cargo_details() -> Seq<(Seq<char>, SupportStatus, Seq<char>)> {
    seq![("Cargo workspace"@, SupportStatus::Unsupported, "No Cargo.toml found in workspace"@)]
}

/// The names of the packages with a build script (`proc_macro` false) or
/// of the proc-macro packages (`proc_macro` true).
fn flagged_names(pkgs: &Vec<CargoPackageInfo>, proc_macro: bool) -> (names: Vec<String>)
    ensures
        names@.map_values(|s: String| s@) == (if proc_macro {
            proc_macro_names(pkgs@)
        } else {
            build_script_names(pkgs@)
        }),
{
    let ghost pred = if proc_macro {
        |p: CargoPackageInfo| p.is_proc_macro
    } else {
        |p: CargoPackageInfo| p.has_build_script
    };
    let mut names: Vec<String> = Vec::new();
    let mut i: usize = 0;
    while i < pkgs.len()
        invariant
            i <= pkgs@.len(),
            pred == (if proc_macro {
                |p: CargoPackageInfo| p.is_proc_macro
            } else {
                |p: CargoPackageInfo| p.has_build_script
            }),
            names@.map_values(|s: String| s@) == pkgs@.take(i as int).filter(pred).map_values(
                |p: CargoPackageInfo| p.name@,
            ),
        decreases pkgs@.len() - i,
    {
        let p = &pkgs[i];
        let ghost before = names@;
        proof {
            reveal(Seq::filter);
            assert(pkgs@.take(i + 1).drop_last() =~= pkgs@.take(i as int));
            assert(pkgs@.take(i + 1).last() == *p);
        }
        let flagged = if proc_macro {
            p.is_proc_macro
        } else {
            p.has_build_script
        };
        assert(flagged == pred(*p));
        if flagged {
            names.push(p.name.clone());
            assert(names@.map_values(|s: String| s@) =~= before.map_values(|s: String| s@).push(
                p.name@,
            ));
        }
        assert(names@.map_values(|s: String| s@) =~= pkgs@.take(i + 1).filter(pred).map_values(
            |p: CargoPackageInfo| p.name@,
        ));
        i = i + 1;
    }
    assert(pkgs@.take(pkgs@.len() as int) =~= pkgs@);
    names
}

/// The number of features defined across the packages.
fn count_features(pkgs: &Vec<CargoPackageInfo>) -> (n: u128)
    ensures
        n == feature_total(pkgs@),
{
    let mut n: u128 = 0;
    let mut i: usize = 0;
    while i < pkgs.len()
        invariant
            i <= pkgs@.len(),
            n == feature_total(pkgs@.take(i as int)),
            n <= i * 0x1_0000_0000_0000_0000,
        decreases pkgs@.len() - i,
    {
        assert(pkgs@.take(i + 1).drop_last() =~= pkgs@.take(i as int));
        n = n + pkgs[i].features.len() as u128;
        i = i + 1;
    }
    assert(pkgs@.take(pkgs@.len() as int) =~= pkgs@);
    n
}

/// The compatibility assessment of the workspace for Rust: unsupported
/// without Cargo metadata; otherwise the details of [`rust_details`] with
/// the status of [`rust_status`].
pub fn rust_compatibility(workspace: &WorkspaceInfo) -> (a: CompatibilityAssessment)
    ensures
        a.language == Language::Rust,
        match workspace.cargo {
            None => a.status == SupportStatus::Unsupported && details_view(a.details@)
                == no_cargo_details(),
            Some(c) => a.status == rust_status(c.packages@) && details_view(a.details@)
                == rust_details(c.packages@),
        },
{
    let cargo = match &workspace.cargo {
        Some(c) => c,
        None => {
            let mut details = Vec::new();
            details.push(
                detail(
                    "Cargo workspace".to_owned(),
                    SupportStatus::Unsupported,
                    "No Cargo.toml found in workspace".to_owned(),
                ),
            );
            assert(details_view(details@) =~= no_cargo_details());
            return CompatibilityAssessment {
                language: Language::Rust,
                status: SupportStatus::Unsupported,
                details,
            };
        },
    };
    let pkgs = &cargo.packages;
    let ghost builds = build_script_names(pkgs@);
    let ghost macros = proc_macro_names(pkgs@);
    let mut details: Vec<CompatibilityDetail> = Vec::new();
    let mut has_partial = false;

    let mut count = decimal_string(pkgs.len() as u128);
    push_all(&mut count, " workspace package(s) discovered via cargo_metadata");
    details.push(detail("Cargo workspace structure".to_owned(), SupportStatus::Supported, count));
    details.push(
        detail(
            "Inter-crate dependencies".to_owned(),
            SupportStatus::Supported,
            "Normal/dev/build dependency kinds extracted from cargo_metadata".to_owned(),
        ),
    );
    let ghost head = details_view(details@);
    assert(head =~= rust_details(pkgs@).take(2));

    let build_names = flagged_names(pkgs, false);
    let ghost d1 = details_view(details@);
    if build_names.len() > 0 {
        has_partial = true;
        let listed = join_strings(&build_names, ", ");
        let explanation = concat3(
            "Found build.rs in: ",
            listed.as_str(),
            ". Generated code and custom cfg flags from build scripts are not analyzed.",
        );
        details.push(detail("build.rs scripts".to_owned(), SupportStatus::Partial, explanation));
    }
    let ghost part_builds = if builds.len() > 0 {
        seq![
            (
                "build.rs scripts"@,
                SupportStatus::Partial,
                "Found build.rs in: "@ + join_with(builds, ", "@)
                    + ". Generated code and custom cfg flags from build scripts are not analyzed."@,
            ),
        ]
    } else {
        Seq::<(Seq<char>, SupportStatus, Seq<char>)>::empty()
    };
    assert(details_view(details@) =~= d1 + part_builds);

    let macro_names = flagged_names(pkgs, true);
    let ghost d2 = details_view(details@);
    if macro_names.len() > 0 {
        has_partial = true;
        let listed = join_strings(&macro_names, ", ");
        let explanation = concat3(
            "Proc-macro crate(s): ",
            listed.as_str(),
            ". Macro expansion output is not analyzed — only the crate dependency is captured.",
        );
        details.push(detail("Procedural macros".to_owned(), SupportStatus::Partial, explanation));
    }
    let ghost part_macros = if macros.len() > 0 {
        seq![
            (
                "Procedural macros"@,
                SupportStatus::Partial,
                "Proc-macro crate(s): "@ + join_with(macros, ", "@)
                    + ". Macro expansion output is not analyzed — only the crate dependency is captured."@,
            ),
        ]
    } else {
        Seq::<(Seq<char>, SupportStatus, Seq<char>)>::empty()
    };
    assert(details_view(details@) =~= d2 + part_macros);

    let total = count_features(pkgs);
    let ghost d3 = details_view(details@);
    if total > 0 {
        let mut explanation = decimal_string(total);
        push_all(
            &mut explanation,
            " feature(s) defined across workspace. Default features are assumed; non-default cfg gates are not evaluated.",
        );
        details.push(
            detail("Cargo features / cfg gates".to_owned(), SupportStatus::Partial, explanation),
        );
        has_partial = true;
    }
    let ghost part_features = if feature_total(pkgs@) > 0 {
        seq![
            (
                "Cargo features / cfg gates"@,
                SupportStatus::Partial,
                decimal(feature_total(pkgs@))
                    + " feature(s) defined across workspace. Default features are assumed; non-default cfg gates are not evaluated."@,
            ),
        ]
    } else {
        Seq::<(Seq<char>, SupportStatus, Seq<char>)>::empty()
    };
    assert(details_view(details@) =~= d3 + part_features);

    let ghost d4 = details_view(details@);
    details.push(
        detail(
            "Module hierarchy (mod/use/pub use)".to_owned(),
            SupportStatus::Supported,
            "Parsed via tree-sitter — will be available after full scan".to_owned(),
        ),
    );
    assert(details_view(details@) =~= d4 + seq![
        (
            "Module hierarchy (mod/use/pub use)"@,
            SupportStatus::Supported,
            "Parsed via tree-sitter — will be available after full scan"@,
        ),
    ]);
    assert(details_view(details@) =~= rust_details(pkgs@));

    let status = if has_partial {
        SupportStatus::Partial
    } else {
        SupportStatus::Supported
    };
    CompatibilityAssessment { language: Language::Rust, status, details }
}

impl Detector for RustDetector {
    fn name(&self) -> (n: &'static str)
        ensures
            n@ == "rust-cargo"@,
    {
        "rust-cargo"
    }

    fn language(&self) -> (l: Language)
        ensures
            l == Language::Rust,
    {
        Language::Rust
    }

    fn applies_to(&self, workspace: &WorkspaceInfo) -> (b: bool)
        ensures
            b == workspace.cargo is Some,
    {
        workspace.cargo.is_some()
    }

    fn compatibility(&self, workspace: &WorkspaceInfo) -> (a: CompatibilityAssessment)
        ensures
            a.language == Language::Rust,
            match workspace.cargo {
                None => a.status == SupportStatus::Unsupported && details_view(a.details@)
                    == no_cargo_details(),
                Some(c) => a.status == rust_status(c.packages@) && details_view(a.details@)
                    == rust_details(c.packages@),
            },
    {
        rust_compatibility(workspace)
    }
}

// ---------------------------------------------------------------------------
// Package topology
// ---------------------------------------------------------------------------

/// The key of the Rust package at relative directory `rel`.
pub open spec fn rust_package_key(rel: Seq<char>) -> KeyView {
    key_of(Language::Rust, EntityKind::Package, rel)
}

/// Whether some package is named `name`.
pub open spec fn has_package_named(pkgs: Seq<CargoPackageInfo>, name: Seq<char>) -> bool {
    exists|i: int| 0 <= i < pkgs.len() && #[trigger] pkgs[i].name@ == name
}

/// The directory (relative to the root) of the last package named `name`,
/// empty where none is; packages are looked up by name, so a later package
/// with the same name takes the place of an earlier one.
pub open spec fn dir_of_name(pkgs: Seq<CargoPackageInfo>, name: Seq<char>, root: Seq<char>) -> Seq<
    char,
>
    decreases pkgs.len(),
{
    if pkgs.len() == 0 {
        Seq::empty()
    } else if pkgs.last().name@ == name {
        package_dir(pkgs.last().manifest_path@, root)
    } else {
        dir_of_name(pkgs.drop_last(), name, root)
    }
}

/// No two packages share a name.
pub open spec fn distinct_package_names(pkgs: Seq<CargoPackageInfo>) -> bool {
    forall|i: int, j: int| #![trigger pkgs[i], pkgs[j]] 0 <= i < j < pkgs.len() ==> pkgs[i].name@ != pkgs[j].name@
}

/// Where package names are distinct, the directory found by a package's
/// name is its own: its node is keyed by its manifest's directory, and a
/// dependency on it (see [`package_dep_edges`]) points there.
pub proof fn lemma_package_own_dir(pkgs: Seq<CargoPackageInfo>, i: int, root: Seq<char>)
    requires
        distinct_package_names(pkgs),
        0 <= i < pkgs.len(),
    ensures
        dir_of_name(pkgs, pkgs[i].name@, root) == package_dir(pkgs[i].manifest_path@, root),
        package_node_view(pkgs, pkgs[i], root).key == rust_package_key(package_dir(pkgs[i].manifest_path@, root)),
    decreases pkgs.len(),
{
    if i < pkgs.len() - 1 {
        let rest = pkgs.drop_last();
        assert(pkgs[i].name@ != pkgs[pkgs.len() - 1].name@);
        assert(rest[i] == pkgs[i]);
        lemma_package_own_dir(rest, i, root);
    }
}

/// The edge category of a Cargo dependency kind.
pub open spec fn dep_category(k: CargoDependencyKind) -> EdgeCategory {
    match k {
        CargoDependencyKind::Normal => EdgeCategory::Normal,
        CargoDependencyKind::Dev => EdgeCategory::Dev,
        CargoDependencyKind::Build => EdgeCategory::Build,
    }
}

/// The edge category of a Cargo dependency kind.
pub fn category_for(k: CargoDependencyKind) -> (c: EdgeCategory)
    ensures
        c == dep_category(k),
{
    match k {
        CargoDependencyKind::Normal => EdgeCategory::Normal,
        CargoDependencyKind::Dev => EdgeCategory::Dev,
        CargoDependencyKind::Build => EdgeCategory::Build,
    }
}

/// The node of package `p` among `pkgs`.
pub open spec fn package_node_view(pkgs: Seq<CargoPackageInfo>, p: CargoPackageInfo, root: Seq<char>) -> NodeView {
    NodeView {
        key: rust_package_key(dir_of_name(pkgs, p.name@, root)),
        lineage: None,
        label: p.name@,
        kind: NodeKind::Package,
        language: Language::Rust,
        parent: None,
    }
}

/// The dependency edge between the packages at `src` and `tgt`.
pub open spec fn dependency_edge_view(src: Seq<char>, tgt: Seq<char>, category: EdgeCategory) -> EdgeView {
    let s = rust_package_key(src);
    let t = rust_package_key(tgt);
    EdgeView {
        edge_id: edge_id_of(s, t, EdgeKind::DependsOn, category),
        source: s,
        target: t,
        kind: EdgeKind::DependsOn,
        category,
        confidence: Confidence::StructureOnly,
        location: None,
        resolution_method: Some("cargo_metadata"@),
        overlay: OverlayView::Unaffected,
    }
}

/// The dependency edges of package `p` for dependencies `deps`: one per
/// dependency on a workspace package, in order.
pub open spec fn package_dep_edges(
    pkgs: Seq<CargoPackageInfo>,
    p: CargoPackageInfo,
    deps: Seq<crate::workspace::CargoDependencyInfo>,
    root: Seq<char>,
) -> Seq<EdgeView>
    decreases deps.len(),
{
    if deps.len() == 0 {
        Seq::empty()
    } else {
        let rest = package_dep_edges(pkgs, p, deps.drop_last(), root);
        let d = deps.last();
        if has_package_named(pkgs, d.name@) {
            rest.push(
                dependency_edge_view(
                    dir_of_name(pkgs, p.name@, root),
                    dir_of_name(pkgs, d.name@, root),
                    dep_category(d.kind),
                ),
            )
        } else {
            rest
        }
    }
}

/// The dependency edges of the packages of `prefix`, in order.
pub open spec fn topology_edges(
    pkgs: Seq<CargoPackageInfo>,
    prefix: Seq<CargoPackageInfo>,
    root: Seq<char>,
) -> Seq<EdgeView>
    decreases prefix.len(),
{
    if prefix.len() == 0 {
        Seq::empty()
    } else {
        topology_edges(pkgs, prefix.drop_last(), root) + package_dep_edges(
            pkgs,
            prefix.last(),
            prefix.last().dependencies@,
            root,
        )
    }
}

/// The first target with kind `kind`, if any.
pub open spec fn first_target_with_kind(targets: Seq<CargoTargetInfo>, kind: Seq<char>) -> Option<
    CargoTargetInfo,
>
    decreases targets.len(),
{
    if targets.len() == 0 {
        None
    } else if has_target_kind(seq![targets[0]], kind) {
        Some(targets[0])
    } else {
        first_target_with_kind(targets.drop_first(), kind)
    }
}

/// Where a proc-macro crate's finding points: its proc-macro target's
/// source (relative to the root), else `src/lib.rs` in its directory.
pub open spec fn proc_macro_source(p: CargoPackageInfo, rel: Seq<char>, root: Seq<char>) -> Seq<char> {
    match first_target_with_kind(p.targets@, "proc-macro"@) {
        Some(t) => relative_to(t.src_path@, root),
        None => path_join(rel, "src/lib.rs"@),
    }
}

/// The findings for package `p`: its build script, and its being a
/// proc-macro crate.
pub open spec fn package_constructs(pkgs: Seq<CargoPackageInfo>, p: CargoPackageInfo, root: Seq<char>) -> Seq<ConstructView> {
    let rel = dir_of_name(pkgs, p.name@, root);
    (if p.has_build_script {
        seq![
            ConstructView {
                construct_type: UnsupportedConstructType::BuildScript,
                location: LocationView { path: path_join(rel, "build.rs"@), start_line: 1, end_line: 1 },
                impact: "build.rs in "@ + p.name@
                    + " may generate code or set cfg flags not visible to static analysis"@,
                how_to_address: "Review build.rs output and add manual edges if needed"@,
            },
        ]
    } else {
        Seq::empty()
    }) + (if p.is_proc_macro {
        seq![
            ConstructView {
                construct_type: UnsupportedConstructType::ProcMacro,
                location: LocationView { path: proc_macro_source(p, rel, root), start_line: 1, end_line: 1 },
                impact: "proc-macro crate "@ + p.name@ + " — macro expansion output is not analyzed"@,
                how_to_address: "Dependency edges to the proc-macro crate are captured, but expanded code is not"@,
            },
        ]
    } else {
        Seq::empty()
    })
}

/// The findings for the packages of `prefix`, in order.
pub open spec fn topology_constructs(
    pkgs: Seq<CargoPackageInfo>,
    prefix: Seq<CargoPackageInfo>,
    root: Seq<char>,
) -> Seq<ConstructView>
    decreases prefix.len(),
{
    if prefix.len() == 0 {
        Seq::empty()
    } else {
        topology_constructs(pkgs, prefix.drop_last(), root) + package_constructs(
            pkgs,
            prefix.last(),
            root,
        )
    }
}

/// The directory of the last package named `name` (empty if none).
fn dir_for_name(pkgs: &Vec<CargoPackageInfo>, root: &str, name: &str) -> (r: String)
    ensures
        r@ == dir_of_name(pkgs@, name@, root@),
{
    let mut i: usize = pkgs.len();
    assert(pkgs@.take(pkgs@.len() as int) =~= pkgs@);
    while i > 0
        invariant
            i <= pkgs@.len(),
            dir_of_name(pkgs@, name@, root@) == dir_of_name(pkgs@.take(i as int), name@, root@),
        decreases i,
    {
        assert(pkgs@.take(i as int).drop_last() =~= pkgs@.take(i - 1));
        assert(pkgs@.take(i as int).last() == pkgs@[i - 1]);
        if same_text(pkgs[i - 1].name.as_str(), name) {
            return package_dir_of(pkgs[i - 1].manifest_path.as_str(), root);
        }
        i = i - 1;
    }
    String::new()
}

/// Whether some package is named `name`.
fn is_package_name(pkgs: &Vec<CargoPackageInfo>, name: &str) -> (r: bool)
    ensures
        r == has_package_named(pkgs@, name@),
{
    let mut i: usize = 0;
    while i < pkgs.len()
        invariant
            i <= pkgs@.len(),
            forall|j: int| 0 <= j < i ==> #[trigger] pkgs@[j].name@ != name@,
        decreases pkgs@.len() - i,
    {
        if same_text(pkgs[i].name.as_str(), name) {
            return true;
        }
        i = i + 1;
    }
    false
}

/// Whether target `t` has kind `kind`.
fn target_has_kind(t: &CargoTargetInfo, kind: &str) -> (r: bool)
    ensures
        r == has_target_kind(seq![*t], kind@),
{
    let mut j: usize = 0;
    while j < t.kinds.len()
        invariant
            j <= t.kinds@.len(),
            forall|b: int| 0 <= b < j ==> #[trigger] t.kinds@[b]@ != kind@,
        decreases t.kinds@.len() - j,
    {
        if same_text(t.kinds[j].as_str(), kind) {
            assert(seq![*t][0].kinds@[j as int]@ == kind@);
            return true;
        }
        j = j + 1;
    }
    assert forall|a: int, b: int|
        0 <= a < 1 && 0 <= b < seq![*t][a].kinds@.len() implies #[trigger] seq![*t][a].kinds@[b]@ != kind@ by {
        assert(seq![*t][a] == *t);
    }
    false
}

/// The first target with kind `kind`, if any.
fn find_target_with_kind<'a>(targets: &'a Vec<CargoTargetInfo>, kind: &str) -> (r: Option<&'a CargoTargetInfo>)
    ensures
        match r {
            Some(t) => first_target_with_kind(targets@, kind@) == Some(*t),
            None => first_target_with_kind(targets@, kind@) is None,
        },
{
    let mut i: usize = 0;
    assert(targets@.skip(0) =~= targets@);
    while i < targets.len()
        invariant
            i <= targets@.len(),
            first_target_with_kind(targets@, kind@) == first_target_with_kind(targets@.skip(i as int), kind@),
        decreases targets@.len() - i,
    {
        let ghost rest = targets@.skip(i as int);
        assert(rest[0] == targets@[i as int]);
        if target_has_kind(&targets[i], kind) {
            return Some(&targets[i]);
        }
        assert(rest.drop_first() =~= targets@.skip(i + 1));
        i = i + 1;
    }
    None
}

/// The dependency edge between the packages at `src` and `tgt`.
fn dependency_edge(src: &str, tgt: &str, category: EdgeCategory) -> (e: EdgeData)
    ensures
        e@ == dependency_edge_view(src@, tgt@, category),
{
    let s = MaterializedKey::new(Language::Rust, EntityKind::Package, src);
    let t = MaterializedKey::new(Language::Rust, EntityKind::Package, tgt);
    EdgeData {
        edge_id: EdgeId::new(&s, &t, EdgeKind::DependsOn, category),
        source_key: s,
        target_key: t,
        kind: EdgeKind::DependsOn,
        category,
        confidence: Confidence::StructureOnly,
        source_location: None,
        resolution_method: Some("cargo_metadata".to_owned()),
        overlay_status: OverlayStatus::Unaffected,
    }
}

/// Appends the findings for package `pkgs[i]`.
fn push_package_constructs(
    pkgs: &Vec<CargoPackageInfo>,
    root: &str,
    i: usize,
    out: &mut Vec<UnsupportedConstruct>,
)
    requires
        i < pkgs@.len(),
    ensures
        construct_views(final(out)@) == construct_views(old(out)@) + package_constructs(
            pkgs@,
            pkgs@[i as int],
            root@,
        ),
{
    let p = &pkgs[i];
    let rel = dir_for_name(pkgs, root, p.name.as_str());
    let ghost start = construct_views(out@);
    if p.has_build_script {
        let c = UnsupportedConstruct {
            construct_type: UnsupportedConstructType::BuildScript,
            location: SourceLocation { path: join_path(rel.as_str(), "build.rs"), start_line: 1, end_line: 1 },
            impact: concat3(
                "build.rs in ",
                p.name.as_str(),
                " may generate code or set cfg flags not visible to static analysis",
            ),
            how_to_address: "Review build.rs output and add manual edges if needed".to_owned(),
        };
        proof {
            lemma_construct_views_push(out@, c);
        }
        out.push(c);
    }
    let ghost mid = construct_views(out@);
    if p.is_proc_macro {
        let src_path = match find_target_with_kind(&p.targets, "proc-macro") {
            Some(t) => relative_or_self(t.src_path.as_str(), root),
            None => join_path(rel.as_str(), "src/lib.rs"),
        };
        let c = UnsupportedConstruct {
            construct_type: UnsupportedConstructType::ProcMacro,
            location: SourceLocation { path: src_path, start_line: 1, end_line: 1 },
            impact: concat3(
                "proc-macro crate ",
                p.name.as_str(),
                " — macro expansion output is not analyzed",
            ),
            how_to_address: "Dependency edges to the proc-macro crate are captured, but expanded code is not".to_owned(),
        };
        proof {
            lemma_construct_views_push(out@, c);
        }
        out.push(c);
    }
    assert(construct_views(out@) =~= start + package_constructs(pkgs@, pkgs@[i as int], root@));
}

/// Appends the dependency edges of package `pkgs[i]`.
fn push_dependency_edges(
    pkgs: &Vec<CargoPackageInfo>,
    root: &str,
    i: usize,
    edges: &mut Vec<EdgeData>,
)
    requires
        i < pkgs@.len(),
    ensures
        edge_views(final(edges)@) == edge_views(old(edges)@) + package_dep_edges(
            pkgs@,
            pkgs@[i as int],
            pkgs@[i as int].dependencies@,
            root@,
        ),
{
    let p = &pkgs[i];
    let source_path = dir_for_name(pkgs, root, p.name.as_str());
    let ghost start = edge_views(edges@);
    let deps = &p.dependencies;
    let mut j: usize = 0;
    while j < deps.len()
        invariant
            i < pkgs@.len(),
            *p == pkgs@[i as int],
            deps == p.dependencies,
            j <= deps@.len(),
            source_path@ == dir_of_name(pkgs@, p.name@, root@),
            edge_views(edges@) == start + package_dep_edges(pkgs@, *p, deps@.take(j as int), root@),
        decreases deps@.len() - j,
    {
        let d = &deps[j];
        assert(deps@.take(j + 1).drop_last() =~= deps@.take(j as int));
        assert(deps@.take(j + 1).last() == *d);
        if is_package_name(pkgs, d.name.as_str()) {
            let target_path = dir_for_name(pkgs, root, d.name.as_str());
            let e = dependency_edge(source_path.as_str(), target_path.as_str(), category_for(d.kind));
            proof {
                lemma_edge_views_push(edges@, e);
            }
            edges.push(e);
        }
        j = j + 1;
    }
    assert(deps@.take(deps@.len() as int) =~= deps@);
}

/// Package nodes and inter-package dependency edges from Cargo metadata:
/// one package node per package (at the directory of the last package with
/// its name), one `DependsOn` edge per dependency on a workspace package,
/// and a finding per build script and per proc-macro crate, appended to
/// the report.
pub fn detect_package_topology(
    cargo: &CargoWorkspaceMeta,
    workspace_root: &str,
    report: &mut DetectorReport,
) -> (r: Result<(Vec<NodeData>, Vec<EdgeData>), DetectorError>)
    ensures
        r matches Ok((nodes, edges)) && nodes@.len() == cargo.packages@.len() && (forall|i: int|
            0 <= i < nodes@.len() ==> #[trigger] nodes@[i]@ == package_node_view(
                cargo.packages@,
                cargo.packages@[i],
                workspace_root@,
            )) && edge_views(edges@) == topology_edges(
            cargo.packages@,
            cargo.packages@,
            workspace_root@,
        ),
        construct_views(final(report).unsupported_constructs@) == construct_views(
            old(report).unsupported_constructs@,
        ) + topology_constructs(cargo.packages@, cargo.packages@, workspace_root@),
        final(report).nodes_discovered == old(report).nodes_discovered,
        final(report).edges_discovered == old(report).edges_discovered,
        final(report).parse_failures == old(report).parse_failures,
        final(report).unresolved_imports == old(report).unresolved_imports,
{
    let pkgs = &cargo.packages;
    let mut nodes: Vec<NodeData> = Vec::new();
    let mut edges: Vec<EdgeData> = Vec::new();
    let ghost start = construct_views(report.unsupported_constructs@);
    let mut i: usize = 0;
    while i < pkgs.len()
        invariant
            i <= pkgs@.len(),
            pkgs == cargo.packages,
            nodes@.len() == i,
            forall|k: int|
                0 <= k < i ==> #[trigger] nodes@[k]@ == package_node_view(pkgs@, pkgs@[k], workspace_root@),
            construct_views(report.unsupported_constructs@) == start + topology_constructs(
                pkgs@,
                pkgs@.take(i as int),
                workspace_root@,
            ),
            report.nodes_discovered == old(report).nodes_discovered,
            report.edges_discovered == old(report).edges_discovered,
            report.parse_failures == old(report).parse_failures,
            report.unresolved_imports == old(report).unresolved_imports,
        decreases pkgs@.len() - i,
    {
        let p = &pkgs[i];
        let rel = dir_for_name(pkgs, workspace_root, p.name.as_str());
        let key = MaterializedKey::new(Language::Rust, EntityKind::Package, rel.as_str());
        nodes.push(
            NodeData {
                materialized_key: key,
                lineage_key: None,
                label: p.name.clone(),
                kind: NodeKind::Package,
                language: Language::Rust,
                parent_key: None,
            },
        );
        let ghost before = construct_views(report.unsupported_constructs@);
        push_package_constructs(pkgs, workspace_root, i, &mut report.unsupported_constructs);
        assert(pkgs@.take(i + 1).drop_last() =~= pkgs@.take(i as int));
        assert(pkgs@.take(i + 1).last() == pkgs@[i as int]);
        assert(construct_views(report.unsupported_constructs@) =~= start + topology_constructs(
            pkgs@,
            pkgs@.take(i + 1),
            workspace_root@,
        ));
        i = i + 1;
    }
    assert(pkgs@.take(pkgs@.len() as int) =~= pkgs@);
    let mut i: usize = 0;
    while i < pkgs.len()
        invariant
            i <= pkgs@.len(),
            pkgs == cargo.packages,
            edge_views(edges@) == topology_edges(pkgs@, pkgs@.take(i as int), workspace_root@),
        decreases pkgs@.len() - i,
    {
        push_dependency_edges(pkgs, workspace_root, i, &mut edges);
        assert(pkgs@.take(i + 1).drop_last() =~= pkgs@.take(i as int));
        assert(pkgs@.take(i + 1).last() == pkgs@[i as int]);
        i = i + 1;
    }
    Ok((nodes, edges))
}

// ---------------------------------------------------------------------------
// Crate lookup tables
// ---------------------------------------------------------------------------

/// A Rust crate identifier for a package name: `-` becomes `_`.
pub open spec fn crate_ident(name: Seq<char>) -> Seq<char> {
    name.map_values(|c: char| if c == '-' { '_' } else { c })
}

/// The crate identifier of a package name (`name.replace('-', "_")`).
pub fn crate_ident_of(name: &str) -> (r: String)
    ensures
        r@ == crate_ident(name@),
{
    let cs = chars_of(name);
    let mut r = String::new();
    let mut i: usize = 0;
    while i < cs.len()
        invariant
            i <= cs@.len(),
            cs@ == name@,
            r@ == crate_ident(name@).take(i as int),
        decreases cs@.len() - i,
    {
        if cs[i] == '-' {
            push_char(&mut r, '_');
        } else {
            push_char(&mut r, cs[i]);
        }
        i = i + 1;
        assert(r@ =~= crate_ident(name@).take(i as int));
    }
    assert(crate_ident(name@).take(cs@.len() as int) =~= crate_ident(name@));
    r
}

/// Crate identifiers and the package directories they stand for. A name
/// entered twice stands for the directory entered last.
pub struct CrateMap {
    pub entries: Vec<(String, String)>,
}

impl View for CrateMap {
    type V = Seq<(Seq<char>, Seq<char>)>;

    open spec fn view(&self) -> Seq<(Seq<char>, Seq<char>)> {
        self.entries@.map_values(|e: (String, String)| (e.0@, e.1@))
    }
}

/// The value entered last for `key`, if any.
pub open spec fn lookup_last(entries: Seq<(Seq<char>, Seq<char>)>, key: Seq<char>) -> Option<Seq<char>>
    decreases entries.len(),
{
    if entries.len() == 0 {
        None
    } else if entries.last().0 == key {
        Some(entries.last().1)
    } else {
        lookup_last(entries.drop_last(), key)
    }
}

impl CrateMap {
    /// An empty table.
    pub fn new() -> (m: Self)
        ensures
            m@.len() == 0,
    {
        CrateMap { entries: Vec::new() }
    }

    /// Enters `name` as standing for `path`.
    pub fn insert(&mut self, name: String, path: String)
        ensures
            final(self)@ == old(self)@.push((name@, path@)),
    {
        let ghost before = self@;
        self.entries.push((name, path));
        assert(self@ =~= before.push((name@, path@)));
    }

    /// Whether `name` has been entered.
    pub fn contains_key(&self, name: &str) -> (r: bool)
        ensures
            r == lookup_last(self@, name@) is Some,
    {
        self.get(name).is_some()
    }

    /// The path `name` stands for, if it has been entered.
    pub fn get(&self, name: &str) -> (r: Option<String>)
        ensures
            opt_view(r) == lookup_last(self@, name@),
    {
        let mut i: usize = self.entries.len();
        assert(self@.take(self@.len() as int) =~= self@);
        while i > 0
            invariant
                i <= self@.len(),
                self@.len() == self.entries@.len(),
                lookup_last(self@, name@) == lookup_last(self@.take(i as int), name@),
            decreases i,
        {
            assert(self@.take(i as int).drop_last() =~= self@.take(i - 1));
            assert(self@.take(i as int).last() == self@[i - 1]);
            let e = &self.entries[i - 1];
            if same_text(e.0.as_str(), name) {
                return Some(e.1.clone());
            }
            i = i - 1;
        }
        None
    }
}

/// The crate table of a Cargo workspace: each package's crate identifier
/// and directory relative to the root, in package order.
pub open spec fn crate_table(pkgs: Seq<CargoPackageInfo>, root: Seq<char>) -> Seq<(Seq<char>, Seq<char>)> {
    pkgs.map_values(
        |p: CargoPackageInfo| (crate_ident(p.name@), package_dir(p.manifest_path@, root)),
    )
}

/// The crate table of a Cargo workspace.
pub fn crate_paths(cargo: &CargoWorkspaceMeta, workspace_root: &str) -> (m: CrateMap)
    ensures
        m@ == crate_table(cargo.packages@, workspace_root@),
{
    let pkgs = &cargo.packages;
    let mut m = CrateMap::new();
    let mut i: usize = 0;
    while i < pkgs.len()
        invariant
            i <= pkgs@.len(),
            m@ == crate_table(pkgs@.take(i as int), workspace_root@),
        decreases pkgs@.len() - i,
    {
        let p = &pkgs[i];
        m.insert(crate_ident_of(p.name.as_str()), package_dir_of(p.manifest_path.as_str(), workspace_root));
        assert(crate_table(pkgs@.take(i + 1), workspace_root@) =~= crate_table(
            pkgs@.take(i as int),
            workspace_root@,
        ).push((crate_ident(p.name@), package_dir(p.manifest_path@, workspace_root@))));
        i = i + 1;
    }
    assert(pkgs@.take(pkgs@.len() as int) =~= pkgs@);
    m
}

/// Edge categories of dependencies between crates, keyed by the pair of
/// crate identifiers. A pair entered twice has the category entered last.
pub struct DepCategories {
    pub entries: Vec<(String, String, EdgeCategory)>,
}

impl View for DepCategories {
    type V = Seq<(Seq<char>, Seq<char>, EdgeCategory)>;

    open spec fn view(&self) -> Seq<(Seq<char>, Seq<char>, EdgeCategory)> {
        self.entries@.map_values(|e: (String, String, EdgeCategory)| (e.0@, e.1@, e.2))
    }
}

/// The category entered last for the pair `(from, to)`, if any.
pub open spec fn category_lookup(
    entries: Seq<(Seq<char>, Seq<char>, EdgeCategory)>,
    from: Seq<char>,
    to: Seq<char>,
) -> Option<EdgeCategory>
    decreases entries.len(),
{
    if entries.len() == 0 {
        None
    } else if entries.last().0 == from && entries.last().1 == to {
        Some(entries.last().2)
    } else {
        category_lookup(entries.drop_last(), from, to)
    }
}

impl DepCategories {
    /// The category of the dependency of crate `from` on crate `to`, if
    /// any.
    pub fn get(&self, from: &str, to: &str) -> (r: Option<EdgeCategory>)
        ensures
            r == category_lookup(self@, from@, to@),
    {
        let mut i: usize = self.entries.len();
        assert(self@.take(self@.len() as int) =~= self@);
        while i > 0
            invariant
                i <= self@.len(),
                self@.len() == self.entries@.len(),
                category_lookup(self@, from@, to@) == category_lookup(self@.take(i as int), from@, to@),
            decreases i,
        {
            assert(self@.take(i as int).drop_last() =~= self@.take(i - 1));
            assert(self@.take(i as int).last() == self@[i - 1]);
            let e = &self.entries[i - 1];
            if same_text(e.0.as_str(), from) && same_text(e.1.as_str(), to) {
                return Some(e.2);
            }
            i = i - 1;
        }
        None
    }
}

/// The dependency-category entries of one package, for dependencies `deps`.
pub open spec fn package_category_entries(
    p: CargoPackageInfo,
    deps: Seq<crate::workspace::CargoDependencyInfo>,
) -> Seq<(Seq<char>, Seq<char>, EdgeCategory)> {
    deps.map_values(
        |d: crate::workspace::CargoDependencyInfo| (crate_ident(p.name@), crate_ident(d.name@), dep_category(d.kind)),
    )
}

/// The dependency-category entries of the packages of `prefix`, in order.
pub open spec fn category_table(prefix: Seq<CargoPackageInfo>) -> Seq<(Seq<char>, Seq<char>, EdgeCategory)>
    decreases prefix.len(),
{
    if prefix.len() == 0 {
        Seq::empty()
    } else {
        category_table(prefix.drop_last()) + package_category_entries(
            prefix.last(),
            prefix.last().dependencies@,
        )
    }
}

/// The dependency categories of a Cargo workspace: for every package and
/// every dependency, in order, the pair of crate identifiers and the
/// category of the dependency's kind.
pub fn dependency_categories(cargo: &CargoWorkspaceMeta) -> (t: DepCategories)
    ensures
        t@ == category_table(cargo.packages@),
{
    let pkgs = &cargo.packages;
    let mut t = DepCategories { entries: Vec::new() };
    let mut i: usize = 0;
    assert(t@ =~= category_table(pkgs@.take(0)));
    while i < pkgs.len()
        invariant
            i <= pkgs@.len(),
            t@ == category_table(pkgs@.take(i as int)),
        decreases pkgs@.len() - i,
    {
        let p = &pkgs[i];
        let source = crate_ident_of(p.name.as_str());
        let ghost base = t@;
        let deps = &p.dependencies;
        let mut j: usize = 0;
        while j < deps.len()
            invariant
                j <= deps@.len(),
                deps == p.dependencies,
                source@ == crate_ident(p.name@),
                t@ == base + package_category_entries(*p, deps@.take(j as int)),
            decreases deps@.len() - j,
        {
            let d = &deps[j];
            let ghost prev = t@;
            t.entries.push((source.clone(), crate_ident_of(d.name.as_str()), category_for(d.kind)));
            assert(t@ =~= prev.push((crate_ident(p.name@), crate_ident(d.name@), dep_category(d.kind))));
            assert(package_category_entries(*p, deps@.take(j + 1)) =~= package_category_entries(
                *p,
                deps@.take(j as int),
            ).push((crate_ident(p.name@), crate_ident(d.name@), dep_category(d.kind))));
            j = j + 1;
        }
        assert(deps@.take(deps@.len() as int) =~= deps@);
        assert(pkgs@.take(i + 1).drop_last() =~= pkgs@.take(i as int));
        assert(pkgs@.take(i + 1).last() == *p);
        i = i + 1;
    }
    assert(pkgs@.take(pkgs@.len() as int) =~= pkgs@);
    t
}

// ---------------------------------------------------------------------------
// `use` path resolution
// ---------------------------------------------------------------------------

/// The index of the first `::` at or after `i` (the length where none).
pub open spec fn find_sep(s: Seq<char>, i: int) -> int
    decreases s.len() - i,
{
    if i < 0 || i + 1 >= s.len() {
        s.len() as int
    } else if s[i] == ':' && s[i + 1] == ':' {
        i
    } else {
        find_sep(s, i + 1)
    }
}

proof fn lemma_find_sep_bounds(s: Seq<char>, i: int)
    requires
        0 <= i,
    ensures
        find_sep(s, i) <= s.len(),
        i <= s.len() ==> i <= find_sep(s, i),
        find_sep(s, i) < s.len() ==> find_sep(s, i) + 1 < s.len() && s[find_sep(s, i)] == ':' && s[find_sep(s, i) + 1] == ':',
    decreases s.len() - i,
{
    if i + 1 < s.len() && !(s[i] == ':' && s[i + 1] == ':') {
        lemma_find_sep_bounds(s, i + 1);
    }
}

/// The first `::`-separated segment of a path.
pub open spec fn first_segment(s: Seq<char>) -> Seq<char> {
    s.take(find_sep(s, 0))
}

/// Whether a path has a second `::`-separated segment.
pub open spec fn has_second_segment(s: Seq<char>) -> bool {
    find_sep(s, 0) < s.len()
}

/// The second `::`-separated segment of a path (meaningful where there is
/// one).
pub open spec fn second_segment(s: Seq<char>) -> Seq<char> {
    let k = find_sep(s, 0);
    s.subrange(k + 2, find_sep(s, k + 2))
}

/// Finds the first `::` at or after `i`.
fn find_sep_exec(cs: &Vec<char>, i: usize) -> (k: usize)
    requires
        i <= cs@.len(),
    ensures
        k == find_sep(cs@, i as int),
        i <= k <= cs@.len(),
{
    let mut j = i;
    proof {
        lemma_find_sep_bounds(cs@, i as int);
    }
    while j < cs.len() && j + 1 < cs.len()
        invariant
            i <= j <= cs@.len(),
            find_sep(cs@, i as int) == find_sep(cs@, j as int),
        decreases cs@.len() - j,
    {
        if cs[j] == ':' && cs[j + 1] == ':' {
            return j;
        }
        j = j + 1;
    }
    cs.len()
}

/// The first two `::`-separated segments of a path.
pub fn leading_segments(path: &str) -> (r: (String, Option<String>))
    ensures
        r.0@ == first_segment(path@),
        has_second_segment(path@) <==> r.1 is Some,
        has_second_segment(path@) ==> (r.1 matches Some(s) && s@ == second_segment(path@)),
{
    let cs = chars_of(path);
    let k = find_sep_exec(&cs, 0);
    let first = prefix_string(&cs, k);
    if k < cs.len() {
        proof {
            lemma_find_sep_bounds(cs@, 0);
        }
        let m = find_sep_exec(&cs, k + 2);
        let mut second = String::new();
        let mut j = k + 2;
        while j < m
            invariant
                k + 2 <= j <= m <= cs@.len(),
                second@ == cs@.subrange(k + 2, j as int),
            decreases m - j,
        {
            push_char(&mut second, cs[j]);
            j = j + 1;
            assert(second@ =~= cs@.subrange(k + 2, j as int));
        }
        (first, Some(second))
    } else {
        (first, None)
    }
}

/// The key of the Rust module at path `p`.
pub open spec fn rust_module_key(p: Seq<char>) -> KeyView {
    key_of(Language::Rust, EntityKind::Module, p)
}

/// What a `use` path resolves to: `crate::m` to module `m` under the
/// package's `src`, `super::m` to `m` beside the file's directory,
/// `self::m` to `m` in the file's directory (these three need a second
/// segment), and `c::...` to the package of crate `c` where the crate table
/// has it (with the crate identifier). The flag says whether the target
/// lies in another crate.
pub open spec fn resolve_use(
    use_path: Seq<char>,
    pkg_relative: Seq<char>,
    file_relative: Seq<char>,
    crates: Seq<(Seq<char>, Seq<char>)>,
) -> Option<(KeyView, bool, Option<Seq<char>>)> {
    let first = first_segment(use_path);
    let second = second_segment(use_path);
    if first == "crate"@ {
        if has_second_segment(use_path) {
            Some((rust_module_key(pkg_relative + "/src/"@ + second), false, None))
        } else {
            None
        }
    } else if first == "super"@ {
        match path_parent(file_relative) {
            None => None,
            Some(file_dir) => match path_parent(file_dir) {
                None => None,
                Some(parent_dir) => if has_second_segment(use_path) {
                    Some((rust_module_key(parent_dir + "/"@ + second), false, None))
                } else {
                    None
                },
            },
        }
    } else if first == "self"@ {
        match path_parent(file_relative) {
            None => None,
            Some(file_dir) => if has_second_segment(use_path) {
                Some((rust_module_key(file_dir + "/"@ + second), false, None))
            } else {
                None
            },
        }
    } else {
        match lookup_last(crates, first) {
            Some(target) => Some((key_of(Language::Rust, EntityKind::Package, target), true, Some(first))),
            None => None,
        }
    }
}

/// The view of a resolution result.
pub open spec fn resolution_view(r: Option<(MaterializedKey, bool, Option<String>)>) -> Option<
    (KeyView, bool, Option<Seq<char>>),
> {
    match r {
        Some((k, cross, c)) => Some((k@, cross, opt_view(c))),
        None => None,
    }
}

/// The module key for `path`, normalized as keys always are.
fn module_key(path: String) -> (k: MaterializedKey)
    ensures
        k@ == rust_module_key(path@),
{
    let normalized_path = normalize_path(path.as_str());
    proof {
        lemma_normalize_idempotent(path@);
    }
    MaterializedKey::new(Language::Rust, EntityKind::Module, normalized_path.as_str())
}

/// Resolves a `use` path to a target key (see [`resolve_use`]); `None` for
/// a path that names no module of this crate and no workspace crate.
pub fn resolve_use_path(
    use_path: &str,
    crate_name: &str,
    pkg_relative: &str,
    file_relative: &str,
    workspace_root: &str,
    crate_to_path: &CrateMap,
) -> (r: Option<(MaterializedKey, bool, Option<String>)>)
    ensures
        resolution_view(r) == resolve_use(use_path@, pkg_relative@, file_relative@, crate_to_path@),
{
    let (first, second) = leading_segments(use_path);
    proof {
        reveal_strlit("crate");
        reveal_strlit("super");
        reveal_strlit("self");
    }
    if same_text(first.as_str(), "crate") {
        match second {
            None => None,
            Some(seg) => {
                let k = module_key(concat3(pkg_relative, "/src/", seg.as_str()));
                Some((k, false, None))
            },
        }
    } else if same_text(first.as_str(), "super") {
        let file_dir = match parent_of_path(file_relative) {
            Some(d) => d,
            None => return None,
        };
        let parent_dir = match parent_of_path(file_dir.as_str()) {
            Some(d) => d,
            None => return None,
        };
        match second {
            None => None,
            Some(seg) => {
                let k = module_key(concat3(parent_dir.as_str(), "/", seg.as_str()));
                Some((k, false, None))
            },
        }
    } else if same_text(first.as_str(), "self") {
        let file_dir = match parent_of_path(file_relative) {
            Some(d) => d,
            None => return None,
        };
        match second {
            None => None,
            Some(seg) => {
                let k = module_key(concat3(file_dir.as_str(), "/", seg.as_str()));
                Some((k, false, None))
            },
        }
    } else {
        match crate_to_path.get(first.as_str()) {
            Some(target) => {
                let k = MaterializedKey::new(Language::Rust, EntityKind::Package, target.as_str());
                Some((k, true, Some(first)))
            },
            None => None,
        }
    }
}

/// Where `s` has no `:` from `i` up to `j`, the first `::` at or after `i`
/// is the first one at or after `j`.
proof fn lemma_find_sep_skip(s: Seq<char>, i: int, j: int)
    requires
        0 <= i <= j <= s.len(),
        forall|k: int| i <= k < j ==> s[k] != ':',
    ensures
        find_sep(s, i) == find_sep(s, j),
    decreases j - i,
{
    if i < j && i + 1 < s.len() {
        lemma_find_sep_skip(s, i + 1, j);
    }
}

/// The segments of `head::seg<tail>` where neither `head` nor `seg` holds
/// a `:` and `tail` is empty or starts with `::`: the first segment is
/// `head` and the second `seg`.
proof fn lemma_use_segments(head: Seq<char>, seg: Seq<char>, tail: Seq<char>)
    requires
        !head.contains(':'),
        !seg.contains(':'),
        tail.len() == 0 || (tail.len() >= 2 && tail[0] == ':' && tail[1] == ':'),
    ensures
        first_segment(head + seq![':', ':'] + seg + tail) == head,
        has_second_segment(head + seq![':', ':'] + seg + tail),
        second_segment(head + seq![':', ':'] + seg + tail) == seg,
{
    let u = head + seq![':', ':'] + seg + tail;
    let h = head.len() as int;
    let m = h + 2 + seg.len();
    assert forall|k: int| 0 <= k < h implies u[k] != ':' by {
        assert(u[k] == head[k]);
        if head[k] == ':' {
            assert(head.contains(':'));
        }
    }
    lemma_find_sep_skip(u, 0, h);
    assert(u[h] == ':' && u[h + 1] == ':');
    assert(find_sep(u, h) == h);
    assert(u.take(h) =~= head);
    assert forall|k: int| h + 2 <= k < m implies u[k] != ':' by {
        assert(u[k] == seg[k - h - 2]);
        if seg[k - h - 2] == ':' {
            assert(seg.contains(':'));
        }
    }
    lemma_find_sep_skip(u, h + 2, m);
    if tail.len() == 0 {
        assert(find_sep(u, m) == u.len());
    } else {
        assert(u[m] == ':' && u[m + 1] == ':');
        assert(find_sep(u, m) == m);
    }
    assert(u.subrange(h + 2, m) =~= seg);
}

/// `self::m` (possibly followed by further `::` segments) names module `m`
/// in the importing file's own directory, whatever the package: its key is
/// the file's directory joined with `m`, and it lies in the same crate.
pub proof fn lemma_use_self_module(
    m: Seq<char>,
    tail: Seq<char>,
    pkg_relative: Seq<char>,
    file_relative: Seq<char>,
    crates: Seq<(Seq<char>, Seq<char>)>,
)
    requires
        !m.contains(':'),
        tail.len() == 0 || (tail.len() >= 2 && tail[0] == ':' && tail[1] == ':'),
        path_parent(file_relative) is Some,
    ensures
        resolve_use("self::"@ + m + tail, pkg_relative, file_relative, crates) == Some(
            (rust_module_key(path_parent(file_relative)->Some_0 + "/"@ + m), false, None::<Seq<char>>),
        ),
{
    reveal_strlit("self::");
    reveal_strlit("self");
    let head = seq!['s', 'e', 'l', 'f'];
    assert(!head.contains(':')) by {
        if head.contains(':') {
            let k = choose|k: int| 0 <= k < head.len() && head[k] == ':';
        }
    }
    lemma_use_segments(head, m, tail);
    assert("self::"@ + m + tail =~= head + seq![':', ':'] + m + tail);
    reveal_strlit("crate");
    reveal_strlit("super");
    assert(head =~= "self"@);
    assert(head != "crate"@ && head != "super"@) by {
        assert(head[1] != "crate"@[1]);
        assert(head.len() != "super"@.len());
    }
}

/// `super::m` (possibly followed by further `::` segments) names module
/// `m` in the directory above the importing file's directory, whatever the
/// package, in the same crate.
pub proof fn lemma_use_super_module(
    m: Seq<char>,
    tail: Seq<char>,
    pkg_relative: Seq<char>,
    file_relative: Seq<char>,
    crates: Seq<(Seq<char>, Seq<char>)>,
)
    requires
        !m.contains(':'),
        tail.len() == 0 || (tail.len() >= 2 && tail[0] == ':' && tail[1] == ':'),
        path_parent(file_relative) is Some,
        path_parent(path_parent(file_relative)->Some_0) is Some,
    ensures
        resolve_use("super::"@ + m + tail, pkg_relative, file_relative, crates) == Some(
            (
                rust_module_key(path_parent(path_parent(file_relative)->Some_0)->Some_0 + "/"@ + m),
                false,
                None::<Seq<char>>,
            ),
        ),
{
    reveal_strlit("super::");
    reveal_strlit("super");
    let head = seq!['s', 'u', 'p', 'e', 'r'];
    assert(!head.contains(':')) by {
        if head.contains(':') {
            let k = choose|k: int| 0 <= k < head.len() && head[k] == ':';
        }
    }
    lemma_use_segments(head, m, tail);
    assert("super::"@ + m + tail =~= head + seq![':', ':'] + m + tail);
    reveal_strlit("crate");
    assert(head =~= "super"@);
    assert(head != "crate"@) by {
        assert(head[0] != "crate"@[0]);
    }
}

/// The first segment of `head<tail>` where `head` holds no `:` and `tail`
/// is empty or starts with `::` is `head`.
proof fn lemma_first_segment_of(head: Seq<char>, tail: Seq<char>)
    requires
        !head.contains(':'),
        tail.len() == 0 || (tail.len() >= 2 && tail[0] == ':' && tail[1] == ':'),
    ensures
        first_segment(head + tail) == head,
{
    let u = head + tail;
    let h = head.len() as int;
    assert forall|k: int| 0 <= k < h implies u[k] != ':' by {
        assert(u[k] == head[k]);
        if head[k] == ':' {
            assert(head.contains(':'));
        }
    }
    lemma_find_sep_skip(u, 0, h);
    if tail.len() > 0 {
        assert(u[h] == ':' && u[h + 1] == ':');
    }
    assert(find_sep(u, 0) == h);
    assert(u.take(h) =~= head);
}

/// The entry `lookup_last` finds under `key` is the last entry with that
/// key; it finds none exactly where no entry has the key.
proof fn lemma_lookup_last(entries: Seq<(Seq<char>, Seq<char>)>, key: Seq<char>)
    ensures
        lookup_last(entries, key) is None <==> forall|k: int| 0 <= k < entries.len() ==> (#[trigger] entries[k]).0 != key,
        lookup_last(entries, key) matches Some(t) ==> exists|k: int|
            0 <= k < entries.len() && (#[trigger] entries[k]).0 == key && entries[k].1 == t && forall|l: int|
                k < l < entries.len() ==> (#[trigger] entries[l]).0 != key,
    decreases entries.len(),
{
    if entries.len() > 0 {
        let init = entries.drop_last();
        let last = entries.len() - 1;
        lemma_lookup_last(init, key);
        assert(entries[last] == entries.last());
        assert forall|k: int| 0 <= k < init.len() implies #[trigger] init[k] == entries[k] by {}
        if entries.last().0 != key {
            if let Some(t) = lookup_last(init, key) {
                let k = choose|k: int|
                    0 <= k < init.len() && (#[trigger] init[k]).0 == key && init[k].1 == t && forall|l: int|
                        k < l < init.len() ==> (#[trigger] init[l]).0 != key;
                assert(entries[k] == init[k]);
                assert forall|l: int| k < l < entries.len() implies (#[trigger] entries[l]).0 != key by {
                    if l < last {
                        assert(init[l] == entries[l]);
                    }
                }
            }
            if forall|k: int| 0 <= k < init.len() ==> (#[trigger] init[k]).0 != key {
                assert forall|k: int| 0 <= k < entries.len() implies (#[trigger] entries[k]).0 != key by {
                    if k < last {
                        assert(init[k] == entries[k]);
                    }
                }
            } else {
                let k = choose|k: int| !(0 <= k < init.len() ==> (#[trigger] init[k]).0 != key);
                assert(entries[k] == init[k]);
            }
        }
    }
}

/// A `use` path whose first segment `c` is not `crate`, `super` or `self`
/// names a workspace crate: it resolves exactly where the crate table has
/// an entry for `c`, and then to the package at the path of the last such
/// entry, in another crate, identified as `c`.
pub proof fn lemma_use_workspace_crate(
    c: Seq<char>,
    tail: Seq<char>,
    pkg_relative: Seq<char>,
    file_relative: Seq<char>,
    crates: Seq<(Seq<char>, Seq<char>)>,
)
    requires
        !c.contains(':'),
        c != "crate"@,
        c != "super"@,
        c != "self"@,
        tail.len() == 0 || (tail.len() >= 2 && tail[0] == ':' && tail[1] == ':'),
    ensures
        resolve_use(c + tail, pkg_relative, file_relative, crates) is Some <==> exists|k: int|
            0 <= k < crates.len() && (#[trigger] crates[k]).0 == c,
        resolve_use(c + tail, pkg_relative, file_relative, crates) matches Some((key, cross, id)) ==> {
            &&& cross
            &&& id == Some(c)
            &&& exists|k: int|
                0 <= k < crates.len() && (#[trigger] crates[k]).0 == c && key == key_of(
                    Language::Rust,
                    EntityKind::Package,
                    crates[k].1,
                ) && forall|l: int| k < l < crates.len() ==> (#[trigger] crates[l]).0 != c
        },
{
    lemma_first_segment_of(c, tail);
    lemma_lookup_last(crates, c);
    if exists|k: int| 0 <= k < crates.len() && (#[trigger] crates[k]).0 == c {
        let k = choose|k: int| 0 <= k < crates.len() && (#[trigger] crates[k]).0 == c;
        assert(!(forall|k: int| 0 <= k < crates.len() ==> (#[trigger] crates[k]).0 != c));
    }
}

/// `crate::m` (possibly followed by further `::` segments) names module
/// `m` under the package's `src` directory, wherever the importing file
/// is, in the same crate.
pub proof fn lemma_use_crate_module(
    m: Seq<char>,
    tail: Seq<char>,
    pkg_relative: Seq<char>,
    file_relative: Seq<char>,
    crates: Seq<(Seq<char>, Seq<char>)>,
)
    requires
        !m.contains(':'),
        tail.len() == 0 || (tail.len() >= 2 && tail[0] == ':' && tail[1] == ':'),
    ensures
        resolve_use("crate::"@ + m + tail, pkg_relative, file_relative, crates) == Some(
            (rust_module_key(pkg_relative + "/src/"@ + m), false, None::<Seq<char>>),
        ),
{
    reveal_strlit("crate::");
    reveal_strlit("crate");
    let head = seq!['c', 'r', 'a', 't', 'e'];
    assert(!head.contains(':')) by {
        if head.contains(':') {
            let k = choose|k: int| 0 <= k < head.len() && head[k] == ':';
        }
    }
    lemma_use_segments(head, m, tail);
    assert("crate::"@ + m + tail =~= head + seq![':', ':'] + m + tail);
    assert(head =~= "crate"@);
}

/// Why a `use` path that did not resolve is unresolved: a path relative to
/// this crate (`crate`, `super`, `self`) or naming a workspace crate could
/// not be placed; anything else names an external crate.
pub open spec fn unresolved_use_reason(use_path: Seq<char>, crates: Seq<(Seq<char>, Seq<char>)>) -> UnresolvedReason {
    let first = first_segment(use_path);
    if first == "crate"@ || first == "super"@ || first == "self"@ {
        UnresolvedReason::UnresolvablePath
    } else if lookup_last(crates, first) is Some {
        UnresolvedReason::UnresolvablePath
    } else {
        UnresolvedReason::ExternalCrate
    }
}

/// Classifies an unresolved `use` path (see [`unresolved_use_reason`]).
pub fn classify_unresolved_use(use_path: &str, crate_to_path: &CrateMap) -> (r: UnresolvedReason)
    ensures
        r == unresolved_use_reason(use_path@, crate_to_path@),
{
    let (first, _) = leading_segments(use_path);
    if same_text(first.as_str(), "crate") || same_text(first.as_str(), "super") || same_text(
        first.as_str(),
        "self",
    ) {
        UnresolvedReason::UnresolvablePath
    } else if crate_to_path.contains_key(first.as_str()) {
        UnresolvedReason::UnresolvablePath
    } else {
        UnresolvedReason::ExternalCrate
    }
}

// ---------------------------------------------------------------------------
// Import edges from `use` declarations
// ---------------------------------------------------------------------------

/// A `use` declaration found in a file: its path text and 1-based lines.
#[derive(Debug, Clone, PartialEq, Eq)]
pub struct UseCapture {
    pub path: String,
    pub start_line: u32,
    pub end_line: u32,
}

/// What a `use` declaration found in a file stands for.
pub struct UseView {
    pub path: Seq<char>,
    pub start_line: u32,
    pub end_line: u32,
}

impl View for UseCapture {
    type V = UseView;

    open spec fn view(&self) -> UseView {
        UseView { path: self.path@, start_line: self.start_line, end_line: self.end_line }
    }
}

/// The views of `use` declarations, in order.
pub open spec fn use_views(caps: Seq<UseCapture>) -> Seq<UseView> {
    caps.map_values(|c: UseCapture| c@)
}

/// Grouped (`{...}`) and glob (`*`) imports are not decomposed.
pub open spec fn skipped_use(path: Seq<char>) -> bool {
    path.contains('{') || path.contains('}') || path.contains('*')
}

/// The category of an import edge: a cross-crate import takes the category
/// of the manifest dependency between the two crates (normal where there is
/// none); an import within the crate is normal.
pub open spec fn use_category(
    cross: bool,
    target_crate: Option<Seq<char>>,
    crate_name: Seq<char>,
    cats: Seq<(Seq<char>, Seq<char>, EdgeCategory)>,
) -> EdgeCategory {
    if cross {
        match target_crate {
            Some(tc) => match category_lookup(cats, crate_name, tc) {
                Some(c) => c,
                None => EdgeCategory::Normal,
            },
            None => EdgeCategory::Normal,
        }
    } else {
        EdgeCategory::Normal
    }
}

/// The import edge of a resolved `use` declaration.
pub open spec fn use_edge_view(
    file_key: KeyView,
    target: KeyView,
    cross: bool,
    category: EdgeCategory,
    file_relative: Seq<char>,
    start_line: u32,
    end_line: u32,
) -> EdgeView {
    EdgeView {
        edge_id: edge_id_of(file_key, target, EdgeKind::Imports, category),
        source: file_key,
        target,
        kind: EdgeKind::Imports,
        category,
        confidence: if cross {
            Confidence::StructureOnly
        } else {
            Confidence::Syntactic
        },
        location: Some(LocationView { path: file_relative, start_line, end_line }),
        resolution_method: Some("tree-sitter use_declaration"@),
        overlay: OverlayView::Unaffected,
    }
}

/// The import edges of the `use` declarations `caps`, in order.
pub open spec fn use_edges(
    caps: Seq<UseView>,
    file_key: KeyView,
    file_relative: Seq<char>,
    crate_name: Seq<char>,
    pkg_relative: Seq<char>,
    crates: Seq<(Seq<char>, Seq<char>)>,
    cats: Seq<(Seq<char>, Seq<char>, EdgeCategory)>,
) -> Seq<EdgeView>
    decreases caps.len(),
{
    if caps.len() == 0 {
        Seq::empty()
    } else {
        let rest = use_edges(caps.drop_last(), file_key, file_relative, crate_name, pkg_relative, crates, cats);
        let c = caps.last();
        if skipped_use(c.path) {
            rest
        } else {
            match resolve_use(c.path, pkg_relative, file_relative, crates) {
                None => rest,
                Some((t, cross, tc)) => rest.push(
                    use_edge_view(
                        file_key,
                        t,
                        cross,
                        use_category(cross, tc, crate_name, cats),
                        file_relative,
                        c.start_line,
                        c.end_line,
                    ),
                ),
            }
        }
    }
}

/// The unresolved-import findings of the `use` declarations `caps`, in
/// order.
pub open spec fn use_unresolved(
    caps: Seq<UseView>,
    file_relative: Seq<char>,
    pkg_relative: Seq<char>,
    crates: Seq<(Seq<char>, Seq<char>)>,
) -> Seq<UnresolvedView>
    decreases caps.len(),
{
    if caps.len() == 0 {
        Seq::empty()
    } else {
        let rest = use_unresolved(caps.drop_last(), file_relative, pkg_relative, crates);
        let c = caps.last();
        if !skipped_use(c.path) && resolve_use(c.path, pkg_relative, file_relative, crates) is None {
            rest.push(
                UnresolvedView {
                    source_file: file_relative,
                    specifier: c.path,
                    reason: unresolved_use_reason(c.path, crates),
                },
            )
        } else {
            rest
        }
    }
}

/// Import edges from the `use` declarations of one file: grouped and glob
/// imports are skipped; each other path that resolves gives an `Imports`
/// edge from the file, and each that does not is recorded in the report as
/// unresolved, with its reason.
pub fn extract_use_edges(
    captures: &Vec<UseCapture>,
    file_key: &MaterializedKey,
    file_relative: &str,
    crate_name: &str,
    pkg_relative: &str,
    workspace_root: &str,
    crate_to_path: &CrateMap,
    dep_categories: &DepCategories,
    report: &mut DetectorReport,
) -> (edges: Vec<EdgeData>)
    ensures
        edge_views(edges@) == use_edges(
            use_views(captures@),
            file_key@,
            file_relative@,
            crate_name@,
            pkg_relative@,
            crate_to_path@,
            dep_categories@,
        ),
        unresolved_views(final(report).unresolved_imports@) == unresolved_views(
            old(report).unresolved_imports@,
        ) + use_unresolved(use_views(captures@), file_relative@, pkg_relative@, crate_to_path@),
        final(report).nodes_discovered == old(report).nodes_discovered,
        final(report).edges_discovered == old(report).edges_discovered,
        final(report).unsupported_constructs == old(report).unsupported_constructs,
        final(report).parse_failures == old(report).parse_failures,
{
    let mut edges: Vec<EdgeData> = Vec::new();
    let ghost start = unresolved_views(report.unresolved_imports@);
    let mut i: usize = 0;
    while i < captures.len()
        invariant
            i <= captures@.len(),
            edge_views(edges@) == use_edges(
                use_views(captures@).take(i as int),
                file_key@,
                file_relative@,
                crate_name@,
                pkg_relative@,
                crate_to_path@,
                dep_categories@,
            ),
            unresolved_views(report.unresolved_imports@) == start + use_unresolved(
                use_views(captures@).take(i as int),
                file_relative@,
                pkg_relative@,
                crate_to_path@,
            ),
            report.nodes_discovered == old(report).nodes_discovered,
            report.edges_discovered == old(report).edges_discovered,
            report.unsupported_constructs == old(report).unsupported_constructs,
            report.parse_failures == old(report).parse_failures,
        decreases captures@.len() - i,
    {
        let c = &captures[i];
        proof {
            assert(use_views(captures@).take(i + 1).drop_last() =~= use_views(captures@).take(i as int));
            assert(use_views(captures@).take(i + 1).last() == c@);
        }
        let skip = contains_char(c.path.as_str(), '{') || contains_char(c.path.as_str(), '}')
            || contains_char(c.path.as_str(), '*');
        if !skip {
            let resolved = resolve_use_path(
                c.path.as_str(),
                crate_name,
                pkg_relative,
                file_relative,
                workspace_root,
                crate_to_path,
            );
            match resolved {
                None => {
                    let u = UnresolvedImport {
                        source_file: file_relative.to_owned(),
                        specifier: c.path.clone(),
                        reason: classify_unresolved_use(c.path.as_str(), crate_to_path),
                    };
                    proof {
                        lemma_unresolved_views_push(report.unresolved_imports@, u);
                    }
                    report.unresolved_imports.push(u);
                },
                Some((target_key, is_cross_crate, target_crate)) => {
                    let category = if is_cross_crate {
                        match &target_crate {
                            Some(tc) => match dep_categories.get(crate_name, tc.as_str()) {
                                Some(cat) => cat,
                                None => EdgeCategory::Normal,
                            },
                            None => EdgeCategory::Normal,
                        }
                    } else {
                        EdgeCategory::Normal
                    };
                    let e = EdgeData {
                        edge_id: EdgeId::new(file_key, &target_key, EdgeKind::Imports, category),
                        source_key: file_key.clone(),
                        target_key,
                        kind: EdgeKind::Imports,
                        category,
                        confidence: if is_cross_crate {
                            Confidence::StructureOnly
                        } else {
                            Confidence::Syntactic
                        },
                        source_location: Some(
                            SourceLocation {
                                path: file_relative.to_owned(),
                                start_line: c.start_line,
                                end_line: c.end_line,
                            },
                        ),
                        resolution_method: Some("tree-sitter use_declaration".to_owned()),
                        overlay_status: OverlayStatus::Unaffected,
                    };
                    proof {
                        lemma_edge_views_push(edges@, e);
                    }
                    edges.push(e);
                },
            }
        }
        i = i + 1;
    }
    assert(use_views(captures@).take(captures@.len() as int) =~= use_views(captures@));
    edges
}

// ---------------------------------------------------------------------------
// Module and file nodes
// ---------------------------------------------------------------------------

/// The parent of a file: its package when the file sits directly in the
/// package's `src` directory, else the module of its directory.
pub open spec fn parent_module_key(
    file_path: Seq<char>,
    pkg_dir: Seq<char>,
    root: Seq<char>,
    pkg_key: KeyView,
) -> KeyView {
    let file_dir = parent_dir(file_path);
    if path_equiv(file_dir, path_join(pkg_dir, "src"@)) {
        pkg_key
    } else {
        rust_module_key(relative_to(file_dir, root))
    }
}

/// The parent of a file (see [`parent_module_key`]).
pub fn find_parent_module_key(
    file_path: &str,
    pkg_dir: &str,
    workspace_root: &str,
    pkg_key: &MaterializedKey,
) -> (k: MaterializedKey)
    ensures
        k@ == parent_module_key(file_path@, pkg_dir@, workspace_root@, pkg_key@),
{
    let file_dir = parent_or_empty(file_path);
    let src_dir = join_path(pkg_dir, "src");
    proof {
        reveal_strlit("src");
    }
    if same_path(file_dir.as_str(), src_dir.as_str()) {
        return pkg_key.clone();
    }
    let dir_relative = relative_or_self(file_dir.as_str(), workspace_root);
    MaterializedKey::new(Language::Rust, EntityKind::Module, dir_relative.as_str())
}

/// A file's label: its file name, else its relative path.
pub open spec fn file_label(file_path: Seq<char>, file_relative: Seq<char>) -> Seq<char> {
    match path_file_name(file_path) {
        Some(n) => n,
        None => file_relative,
    }
}

/// The label of a file (see [`file_label`]).
pub fn file_label_of(file_path: &str, file_relative: &str) -> (r: String)
    ensures
        r@ == file_label(file_path@, file_relative@),
{
    match file_name_of(file_path) {
        Some(n) => n,
        None => file_relative.to_owned(),
    }
}

/// The node of a Rust source file: keyed by its path relative to the
/// workspace root, labelled with its file name, under its parent module
/// (see [`parent_module_key`]).
pub open spec fn rust_file_node_view(file: Seq<char>, pkg_dir: Seq<char>, root: Seq<char>, pkg_key: KeyView) -> NodeView {
    let rel = relative_to(file, root);
    NodeView {
        key: key_of(Language::Rust, EntityKind::File, rel),
        lineage: None,
        label: file_label(file, rel),
        kind: NodeKind::File,
        language: Language::Rust,
        parent: Some(parent_module_key(file, pkg_dir, root, pkg_key)),
    }
}

/// The containment edge from a Rust source file's parent to the file.
pub open spec fn rust_file_contains_view(file: Seq<char>, pkg_dir: Seq<char>, root: Seq<char>, pkg_key: KeyView) -> EdgeView {
    contains_edge_view(
        parent_module_key(file, pkg_dir, root, pkg_key),
        key_of(Language::Rust, EntityKind::File, relative_to(file, root)),
        Confidence::StructureOnly,
        None,
        "filesystem"@,
    )
}

/// The node of a Rust source file and the edge that places it under its
/// parent (see [`parent_module_key`]).
pub fn rust_file_entries(
    file_path: &str,
    pkg_dir: &str,
    workspace_root: &str,
    pkg_key: &MaterializedKey,
) -> (r: (NodeData, EdgeData))
    ensures
        r.0@ == rust_file_node_view(file_path@, pkg_dir@, workspace_root@, pkg_key@),
        r.1@ == rust_file_contains_view(file_path@, pkg_dir@, workspace_root@, pkg_key@),
{
    let file_relative = relative_or_self(file_path, workspace_root);
    let file_key = MaterializedKey::new(Language::Rust, EntityKind::File, file_relative.as_str());
    let parent_key = find_parent_module_key(file_path, pkg_dir, workspace_root, pkg_key);
    let edge = contains_edge(
        &parent_key,
        &file_key,
        Confidence::StructureOnly,
        None,
        "filesystem".to_owned(),
    );
    let node = NodeData {
        materialized_key: file_key,
        lineage_key: None,
        label: file_label_of(file_path, file_relative.as_str()),
        kind: NodeKind::File,
        language: Language::Rust,
        parent_key: Some(parent_key),
    };
    (node, edge)
}

/// The key of the module `mod_name` declared in a file of `source_dir`.
pub open spec fn declared_module_key(source_dir: Seq<char>, mod_name: Seq<char>, root: Seq<char>) -> KeyView {
    rust_module_key(relative_to(source_dir, root) + "/"@ + mod_name)
}

/// The node of a module declared by `mod <mod_name>;` in `file_path` (whose
/// modules live in `source_dir`) and the edge that places it under
/// `parent_key`, located at the declaration.
pub fn rust_module_entries(
    mod_name: &str,
    source_dir: &str,
    file_path: &str,
    workspace_root: &str,
    parent_key: &MaterializedKey,
    start_line: u32,
    end_line: u32,
) -> (r: (NodeData, EdgeData))
    ensures
        ({
            let mk = declared_module_key(source_dir@, mod_name@, workspace_root@);
            &&& r.0@ == (NodeView {
                key: mk,
                lineage: None,
                label: mod_name@,
                kind: NodeKind::Module,
                language: Language::Rust,
                parent: Some(parent_key@),
            })
            &&& r.1@ == contains_edge_view(
                parent_key@,
                mk,
                Confidence::Syntactic,
                Some(
                    LocationView {
                        path: relative_to(file_path@, workspace_root@),
                        start_line,
                        end_line,
                    },
                ),
                "tree-sitter mod_item"@,
            )
        }),
{
    let parent_rel = relative_or_self(source_dir, workspace_root);
    let mod_key = module_key(concat3(parent_rel.as_str(), "/", mod_name));
    let location = SourceLocation {
        path: relative_or_self(file_path, workspace_root),
        start_line,
        end_line,
    };
    let edge = contains_edge(
        parent_key,
        &mod_key,
        Confidence::Syntactic,
        Some(location),
        "tree-sitter mod_item".to_owned(),
    );
    let node = NodeData {
        materialized_key: mod_key,
        lineage_key: None,
        label: mod_name.to_owned(),
        kind: NodeKind::Module,
        language: Language::Rust,
        parent_key: Some(parent_key.clone()),
    };
    (node, edge)
}

/// Where the source of `mod <name>;` declared in `source_dir` lives:
/// `<name>.rs` where it exists, else `<name>/mod.rs` where that exists.
/// With it comes the directory in which the module's own declarations are
/// looked up: `<name>` where `<name>/mod.rs` exists, else `source_dir`.
pub open spec fn module_file(
    source_dir: Seq<char>,
    mod_name: Seq<char>,
    file_exists: bool,
    dir_file_exists: bool,
) -> Option<(Seq<char>, Seq<char>)> {
    let next_dir = if dir_file_exists {
        path_join(source_dir, mod_name)
    } else {
        source_dir
    };
    if file_exists {
        Some((path_join(source_dir, mod_name + ".rs"@), next_dir))
    } else if dir_file_exists {
        Some((path_join(path_join(source_dir, mod_name), "mod.rs"@), next_dir))
    } else {
        None
    }
}

/// The two files that may hold module `mod_name` declared in `source_dir`:
/// `<name>.rs` and `<name>/mod.rs`.
pub fn module_file_candidates(source_dir: &str, mod_name: &str) -> (r: (String, String))
    ensures
        r.0@ == path_join(source_dir@, mod_name@ + ".rs"@),
        r.1@ == path_join(path_join(source_dir@, mod_name@), "mod.rs"@),
{
    let mut file_name = mod_name.to_owned();
    push_all(&mut file_name, ".rs");
    let file = join_path(source_dir, file_name.as_str());
    let dir = join_path(source_dir, mod_name);
    let dir_file = join_path(dir.as_str(), "mod.rs");
    (file, dir_file)
}

/// Chooses the file of a declared module from which candidates exist (see
/// [`module_file`]).
pub fn choose_module_file(
    source_dir: &str,
    mod_name: &str,
    file_exists: bool,
    dir_file_exists: bool,
) -> (r: Option<(String, String)>)
    ensures
        match r {
            Some((f, d)) => module_file(source_dir@, mod_name@, file_exists, dir_file_exists)
                == Some((f@, d@)),
            None => module_file(source_dir@, mod_name@, file_exists, dir_file_exists) is None,
        },
{
    let (file, dir_file) = module_file_candidates(source_dir, mod_name);
    let next_dir = if dir_file_exists {
        join_path(source_dir, mod_name)
    } else {
        source_dir.to_owned()
    };
    if file_exists {
        Some((file, next_dir))
    } else if dir_file_exists {
        Some((dir_file, next_dir))
    } else {
        None
    }
}

/// The finding for `#[cfg(...)]` on module `mod_name` (`unknown` where the
/// name could not be read).
pub fn cfg_gate_construct(
    file_relative: &str,
    mod_name: Option<String>,
    start_line: u32,
    end_line: u32,
) -> (c: UnsupportedConstruct)
    ensures
        c@ == cfg_gate_view(file_relative@, opt_view(mod_name), start_line, end_line),
{
    let name = match mod_name {
        Some(n) => n,
        None => "unknown".to_owned(),
    };
    UnsupportedConstruct {
        construct_type: UnsupportedConstructType::CfgGate,
        location: SourceLocation { path: file_relative.to_owned(), start_line, end_line },
        impact: concat3("#[cfg(...)] on module `", name.as_str(), "` — module may be conditionally compiled"),
        how_to_address: "Module is included in graph assuming default features are active".to_owned(),
    }
}

/// The finding for a `#[cfg(...)]` attribute on the module `mod_name`
/// (`unknown` where no name was read).
pub open spec fn cfg_gate_view(file_relative: Seq<char>, mod_name: Option<Seq<char>>, start_line: u32, end_line: u32) -> ConstructView {
    ConstructView {
        construct_type: UnsupportedConstructType::CfgGate,
        location: LocationView { path: file_relative, start_line, end_line },
        impact: "#[cfg(...)] on module `"@ + (match mod_name {
            Some(n) => n,
            None => "unknown"@,
        }) + "` — module may be conditionally compiled"@,
        how_to_address: "Module is included in graph assuming default features are active"@,
    }
}

/// The finding for an `include!(...)` invocation.
pub open spec fn include_view(file_relative: Seq<char>, start_line: u32, end_line: u32) -> ConstructView {
    ConstructView {
        construct_type: UnsupportedConstructType::IncludeMacro,
        location: LocationView { path: file_relative, start_line, end_line },
        impact: "include!() macro includes external file content not visible to static analysis"@,
        how_to_address: "Review included file and add manual edges if needed"@,
    }
}

/// The finding for an `include!(...)` invocation.
pub fn include_construct(file_relative: &str, start_line: u32, end_line: u32) -> (c: UnsupportedConstruct)
    ensures
        c@ == include_view(file_relative@, start_line, end_line),
{
    UnsupportedConstruct {
        construct_type: UnsupportedConstructType::IncludeMacro,
        location: SourceLocation { path: file_relative.to_owned(), start_line, end_line },
        impact: "include!() macro includes external file content not visible to static analysis".to_owned(),
        how_to_address: "Review included file and add manual edges if needed".to_owned(),
    }
}

/// Whether a target is an entry point: a library, proc-macro or binary.
pub open spec fn is_entry_target(t: CargoTargetInfo) -> bool {
    has_target_kind(seq![t], "lib"@) || has_target_kind(seq![t], "proc-macro"@) || has_target_kind(
        seq![t],
        "bin"@,
    )
}

/// The source paths of a package's entry-point targets, in target order.
pub fn target_entry_points(pkg: &CargoPackageInfo) -> (r: Vec<String>)
    ensures
        r@.map_values(|s: String| s@) == pkg.targets@.filter(|t: CargoTargetInfo| is_entry_target(t)).map_values(
            |t: CargoTargetInfo| t.src_path@,
        ),
{
    let ghost pred = |t: CargoTargetInfo| is_entry_target(t);
    let targets = &pkg.targets;
    let mut r: Vec<String> = Vec::new();
    let mut i: usize = 0;
    while i < targets.len()
        invariant
            i <= targets@.len(),
            targets == pkg.targets,
            pred == (|t: CargoTargetInfo| is_entry_target(t)),
            r@.map_values(|s: String| s@) == targets@.take(i as int).filter(pred).map_values(
                |t: CargoTargetInfo| t.src_path@,
            ),
        decreases targets@.len() - i,
    {
        let t = &targets[i];
        let ghost before = r@;
        proof {
            reveal(Seq::filter);
            assert(targets@.take(i + 1).drop_last() =~= targets@.take(i as int));
            assert(targets@.take(i + 1).last() == *t);
        }
        if target_has_kind(t, "lib") || target_has_kind(t, "proc-macro") || target_has_kind(t, "bin") {
            r.push(t.src_path.clone());
            assert(r@.map_values(|s: String| s@) =~= before.map_values(|s: String| s@).push(t.src_path@));
        }
        assert(r@.map_values(|s: String| s@) =~= targets@.take(i + 1).filter(pred).map_values(
            |t: CargoTargetInfo| t.src_path@,
        ));
        i = i + 1;
    }
    assert(targets@.take(targets@.len() as int) =~= targets@);
    r
}


/// Whether a walked file is one of a package's Rust source files: it has
/// the `rs` extension and is not the build script `build.rs`, which is
/// reported as a finding instead.
pub open spec fn walked_rust_file(ext: Option<Seq<char>>, file_name: Option<Seq<char>>) -> bool {
    ext == Some("rs"@) && file_name != Some("build.rs"@)
}

/// Whether a walked file is a Rust source file (see [`walked_rust_file`]).
pub fn is_walked_rust_file(ext: Option<&str>, file_name: Option<&str>) -> (r: bool)
    ensures
        r == walked_rust_file(
            match ext {
                Some(e) => Some(e@),
                None => None,
            },
            match file_name {
                Some(n) => Some(n@),
                None => None,
            },
        ),
{
    let rs = match ext {
        Some(e) => same_text(e, "rs"),
        None => false,
    };
    let build = match file_name {
        Some(n) => same_text(n, "build.rs"),
        None => false,
    };
    rs && !build
}

/// Where a package without entry-point targets keeps its entry points:
/// `src/lib.rs` and `src/main.rs` beside its manifest.
pub fn fallback_entry_candidates(pkg: &CargoPackageInfo) -> (r: (String, String))
    ensures
        r.0@ == path_join(parent_dir(pkg.manifest_path@), "src/lib.rs"@),
        r.1@ == path_join(parent_dir(pkg.manifest_path@), "src/main.rs"@),
{
    let dir = parent_or_empty(pkg.manifest_path.as_str());
    (join_path(dir.as_str(), "src/lib.rs"), join_path(dir.as_str(), "src/main.rs"))
}

/// The entry points of a package: its entry-point targets' sources (see
/// [`target_entry_points`]); where it has none, those of
/// [`fallback_entry_candidates`] that exist, library first.
pub fn find_entry_points(pkg: &CargoPackageInfo, lib_rs_exists: bool, main_rs_exists: bool) -> (r: Vec<String>)
    ensures
        ({
            let from_targets = pkg.targets@.filter(|t: CargoTargetInfo| is_entry_target(t)).map_values(
                |t: CargoTargetInfo| t.src_path@,
            );
            let dir = parent_dir(pkg.manifest_path@);
            r@.map_values(|s: String| s@) == if from_targets.len() > 0 {
                from_targets
            } else {
                (if lib_rs_exists {
                    seq![path_join(dir, "src/lib.rs"@)]
                } else {
                    Seq::empty()
                }) + (if main_rs_exists {
                    seq![path_join(dir, "src/main.rs"@)]
                } else {
                    Seq::empty()
                })
            }
        }),
{
    let mut r = target_entry_points(pkg);
    if r.len() == 0 {
        let (lib_rs, main_rs) = fallback_entry_candidates(pkg);
        let ghost lv = lib_rs@;
        let ghost mv = main_rs@;
        if lib_rs_exists {
            r.push(lib_rs);
        }
        if main_rs_exists {
            r.push(main_rs);
        }
        assert(r@.map_values(|s: String| s@) =~= (if lib_rs_exists {
            seq![lv]
        } else {
            Seq::empty()
        }) + (if main_rs_exists {
            seq![mv]
        } else {
            Seq::empty()
        }));
    }
    r
}

// ---------------------------------------------------------------------------
// Source files through tree-sitter
// ---------------------------------------------------------------------------

/// Query for `mod` declarations: the module's name and its item.
pub const MOD_QUERY: &'static str = "(mod_item name: (identifier) @mod_name) @mod_item";

/// Query for `use` declarations.
pub const USE_QUERY: &'static str = "(use_declaration argument: (_) @use_path)";

/// Query for `#[cfg(...)]` attributes, each with the named node right after
/// it.
pub const CFG_ATTR_QUERY: &'static str = "((attribute_item (attribute (identifier) @attr_name (#eq? @attr_name \"cfg\"))) @attr_item . (_) @attr_next)";

/// Query for `include!(...)` invocations.
pub const INCLUDE_QUERY: &'static str = "(macro_invocation macro: (identifier) @macro_name (#eq? @macro_name \"include\"))";

/// The detector's queries, in the order they are compiled, each with the
/// start of the failure reason it gives when it does not compile.
pub open spec fn rust_query_table() -> Seq<(Seq<char>, Seq<char>)> {
    seq![
        ("invalid mod query: "@, MOD_QUERY@),
        ("invalid use query: "@, USE_QUERY@),
        ("invalid cfg query: "@, CFG_ATTR_QUERY@),
        ("invalid include query: "@, INCLUDE_QUERY@),
    ]
}

/// The detector's queries, compiled for the Rust grammar.
pub struct RustQueries {
    mods: SyntaxQuery,
    uses: SyntaxQuery,
    cfgs: SyntaxQuery,
    includes: SyntaxQuery,
}

impl RustQueries {
    /// The module query.
    pub fn mod_query(&self) -> (q: &SyntaxQuery)
        requires
            self.compiled(),
        ensures
            q.grammar() == Grammar::Rust && q.source() == MOD_QUERY@,
    {
        &self.mods
    }

    /// The `use` query.
    pub fn use_query(&self) -> (q: &SyntaxQuery)
        requires
            self.compiled(),
        ensures
            q.grammar() == Grammar::Rust && q.source() == USE_QUERY@,
    {
        &self.uses
    }

    /// Each query is the detector's, compiled for the Rust grammar.
    pub closed spec fn compiled(self) -> bool {
        &&& self.mods.grammar() == Grammar::Rust && self.mods.source() == MOD_QUERY@
        &&& self.uses.grammar() == Grammar::Rust && self.uses.source() == USE_QUERY@
        &&& self.cfgs.grammar() == Grammar::Rust && self.cfgs.source() == CFG_ATTR_QUERY@
        &&& self.includes.grammar() == Grammar::Rust && self.includes.source() == INCLUDE_QUERY@
    }
}

/// Compiles the detector's queries; the first that does not compile fails
/// the detector `name`, with tree-sitter's message.
pub fn compile_rust_queries(name: &str) -> (r: Result<RustQueries, DetectorError>)
    ensures
        match r {
            Ok(q) => q.compiled() && first_query_error(Grammar::Rust, rust_query_table()) is None,
            Err(e) => match first_query_error(Grammar::Rust, rust_query_table()) {
                Some((prefix, message)) => is_detection_failure(e, name@, prefix + message),
                None => false,
            },
        },
{
    let ghost t = rust_query_table();
    proof {
        assert(t.drop_first() =~= seq![t[1], t[2], t[3]]);
        assert(t.drop_first().drop_first() =~= seq![t[2], t[3]]);
        assert(t.drop_first().drop_first().drop_first() =~= seq![t[3]]);
        assert(t.drop_first().drop_first().drop_first().drop_first() =~= Seq::<(Seq<char>, Seq<char>)>::empty());
        reveal_with_fuel(first_query_error, 5);
    }
    let mods = match compile_query(Grammar::Rust, MOD_QUERY) {
        Ok(q) => q,
        Err(m) => {
            return Err(detection_failure(name, "invalid mod query: ", m.as_str()));
        },
    };
    let uses = match compile_query(Grammar::Rust, USE_QUERY) {
        Ok(q) => q,
        Err(m) => {
            return Err(detection_failure(name, "invalid use query: ", m.as_str()));
        },
    };
    let cfgs = match compile_query(Grammar::Rust, CFG_ATTR_QUERY) {
        Ok(q) => q,
        Err(m) => {
            return Err(detection_failure(name, "invalid cfg query: ", m.as_str()));
        },
    };
    let includes = match compile_query(Grammar::Rust, INCLUDE_QUERY) {
        Ok(q) => q,
        Err(m) => {
            return Err(detection_failure(name, "invalid include query: ", m.as_str()));
        },
    };
    Ok(RustQueries { mods, uses, cfgs, includes })
}

/// The matches of the query `query` on `source` parsed as Rust.
pub open spec fn rust_matches(source: Seq<char>, query: Seq<char>) -> Seq<Seq<CaptureView>> {
    query_matches(Grammar::Rust, source, query)
}

/// The `use` declarations among the captures `cs`: each capture whose text
/// was read, with its lines.
pub open spec fn uses_in(cs: Seq<CaptureView>) -> Seq<UseView>
    decreases cs.len(),
{
    if cs.len() == 0 {
        Seq::empty()
    } else {
        let rest = uses_in(cs.drop_last());
        let c = cs.last();
        match c.text {
            Some(t) => rest.push(UseView { path: t, start_line: line_of(c.start_row), end_line: line_of(c.end_row) }),
            None => rest,
        }
    }
}

/// The `use` declarations of the `use_path` captures of the matches `ms`.
pub fn use_declarations(ms: &Vec<Vec<SyntaxCapture>>) -> (r: Vec<UseCapture>)
    ensures
        use_views(r@) == uses_in(named_in(flat(matches_view(ms@)), "use_path"@)),
{
    let cs = captures_named(ms, "use_path");
    let ghost cv = match_view(cs@);
    let mut r: Vec<UseCapture> = Vec::new();
    let mut i: usize = 0;
    while i < cs.len()
        invariant
            i <= cs@.len(),
            cv == match_view(cs@),
            use_views(r@) == uses_in(cv.take(i as int)),
        decreases cs@.len() - i,
    {
        proof {
            assert(cv.take(i + 1).drop_last() =~= cv.take(i as int));
        }
        let c = &cs[i];
        match &c.text {
            Some(t) => {
                let u = UseCapture {
                    path: t.clone(),
                    start_line: line_number(c.start_row),
                    end_line: line_number(c.end_row),
                };
                proof {
                    assert(use_views(r@.push(u)) =~= use_views(r@).push(u@));
                }
                r.push(u);
            },
            None => {},
        }
        i = i + 1;
    }
    proof {
        assert(cv.take(cs@.len() as int) =~= cv);
    }
    r
}

/// A `mod` declaration found in a file: the module's name and lines.
#[derive(Debug, Clone, PartialEq, Eq)]
pub struct ModDeclaration {
    pub name: String,
    pub start_line: u32,
    pub end_line: u32,
}

/// What a `mod` declaration stands for.
pub struct ModDeclView {
    pub name: Seq<char>,
    pub start_line: u32,
    pub end_line: u32,
}

impl View for ModDeclaration {
    type V = ModDeclView;

    open spec fn view(&self) -> ModDeclView {
        ModDeclView { name: self.name@, start_line: self.start_line, end_line: self.end_line }
    }
}

/// The views of `mod` declarations, in order.
pub open spec fn mod_decl_views(ds: Seq<ModDeclaration>) -> Seq<ModDeclView> {
    ds.map_values(|d: ModDeclaration| d@)
}

/// The `mod` declarations among the captures `cs`: each capture whose text
/// was read, with its lines.
pub open spec fn mod_decls_in(cs: Seq<CaptureView>) -> Seq<ModDeclView>
    decreases cs.len(),
{
    if cs.len() == 0 {
        Seq::empty()
    } else {
        let rest = mod_decls_in(cs.drop_last());
        let c = cs.last();
        match c.text {
            Some(t) => rest.push(ModDeclView { name: t, start_line: line_of(c.start_row), end_line: line_of(c.end_row) }),
            None => rest,
        }
    }
}

/// The `mod` declarations of the `mod_name` captures of the matches `ms`.
pub fn module_declarations(ms: &Vec<Vec<SyntaxCapture>>) -> (r: Vec<ModDeclaration>)
    ensures
        mod_decl_views(r@) == mod_decls_in(named_in(flat(matches_view(ms@)), "mod_name"@)),
{
    let cs = captures_named(ms, "mod_name");
    let ghost cv = match_view(cs@);
    let mut r: Vec<ModDeclaration> = Vec::new();
    let mut i: usize = 0;
    while i < cs.len()
        invariant
            i <= cs@.len(),
            cv == match_view(cs@),
            mod_decl_views(r@) == mod_decls_in(cv.take(i as int)),
        decreases cs@.len() - i,
    {
        proof {
            assert(cv.take(i + 1).drop_last() =~= cv.take(i as int));
        }
        let c = &cs[i];
        match &c.text {
            Some(t) => {
                let d = ModDeclaration {
                    name: t.clone(),
                    start_line: line_number(c.start_row),
                    end_line: line_number(c.end_row),
                };
                proof {
                    assert(mod_decl_views(r@.push(d)) =~= mod_decl_views(r@).push(d@));
                }
                r.push(d);
            },
            None => {},
        }
        i = i + 1;
    }
    proof {
        assert(cv.take(cs@.len() as int) =~= cv);
    }
    r
}

/// The name (`mod_name`) of the module whose item (`mod_item`) starts at
/// byte `at`, among the matches `mods` (the last such match).
pub open spec fn mod_name_at(mods: Seq<Seq<CaptureView>>, at: usize) -> Option<Seq<char>>
    decreases mods.len(),
{
    if mods.len() == 0 {
        None
    } else {
        let m = mods.last();
        match capture_named(m, "mod_item"@) {
            Some(item) if item.start_byte == at => match capture_named(m, "mod_name"@) {
                Some(n) => n.text,
                None => None,
            },
            _ => mod_name_at(mods.drop_last(), at),
        }
    }
}

/// The name of the module whose item starts at byte `at`.
pub fn module_name_at(mods: &Vec<Vec<SyntaxCapture>>, at: usize) -> (r: Option<String>)
    ensures
        opt_view(r) == mod_name_at(matches_view(mods@), at),
{
    let ghost mv = matches_view(mods@);
    let mut r: Option<String> = None;
    let mut i: usize = 0;
    while i < mods.len()
        invariant
            i <= mods@.len(),
            mv == matches_view(mods@),
            opt_view(r) == mod_name_at(mv.take(i as int), at),
        decreases mods@.len() - i,
    {
        let m = &mods[i];
        proof {
            assert(mv.take(i + 1).drop_last() =~= mv.take(i as int));
            assert(mv.take(i + 1).last() == match_view(m@));
        }
        match find_capture(m, "mod_item") {
            Some(k) => {
                if m[k].start_byte == at {
                    r = match find_capture(m, "mod_name") {
                        Some(n) => match &m[n].text {
                            Some(t) => Some(t.clone()),
                            None => None,
                        },
                        None => None,
                    };
                }
            },
            None => {},
        }
        i = i + 1;
    }
    proof {
        assert(mv.take(mods@.len() as int) =~= mv);
    }
    r
}

/// The `#[cfg(...)]` findings of the matches `ms` of the cfg query: each
/// attribute (`attr_item`) whose next named node (`attr_next`) is a module
/// item is a finding on that module, named as the matches `mods` of the
/// module query name it.
pub open spec fn cfg_views(ms: Seq<Seq<CaptureView>>, mods: Seq<Seq<CaptureView>>, file_relative: Seq<char>) -> Seq<ConstructView>
    decreases ms.len(),
{
    if ms.len() == 0 {
        Seq::empty()
    } else {
        let rest = cfg_views(ms.drop_last(), mods, file_relative);
        let m = ms.last();
        match (capture_named(m, "attr_item"@), capture_named(m, "attr_next"@)) {
            (Some(item), Some(next)) if next.kind == "mod_item"@ => rest.push(
                cfg_gate_view(file_relative, mod_name_at(mods, next.start_byte), line_of(item.start_row), line_of(item.end_row)),
            ),
            _ => rest,
        }
    }
}

/// Records the `#[cfg(...)]` findings of the cfg query's matches `ms`.
pub fn cfg_findings(
    ms: &Vec<Vec<SyntaxCapture>>,
    mods: &Vec<Vec<SyntaxCapture>>,
    file_relative: &str,
    report: &mut DetectorReport,
)
    ensures
        construct_views(final(report).unsupported_constructs@) == construct_views(old(report).unsupported_constructs@)
            + cfg_views(matches_view(ms@), matches_view(mods@), file_relative@),
        final(report).nodes_discovered == old(report).nodes_discovered,
        final(report).edges_discovered == old(report).edges_discovered,
        final(report).parse_failures == old(report).parse_failures,
        final(report).unresolved_imports == old(report).unresolved_imports,
{
    let ghost mv = matches_view(ms@);
    let ghost start = construct_views(report.unsupported_constructs@);
    let mut i: usize = 0;
    while i < ms.len()
        invariant
            i <= ms@.len(),
            mv == matches_view(ms@),
            construct_views(report.unsupported_constructs@) == start + cfg_views(mv.take(i as int), matches_view(mods@), file_relative@),
            report.nodes_discovered == old(report).nodes_discovered,
            report.edges_discovered == old(report).edges_discovered,
            report.parse_failures == old(report).parse_failures,
            report.unresolved_imports == old(report).unresolved_imports,
        decreases ms@.len() - i,
    {
        let m = &ms[i];
        proof {
            assert(mv.take(i + 1).drop_last() =~= mv.take(i as int));
            assert(mv.take(i + 1).last() == match_view(m@));
        }
        match (find_capture(m, "attr_item"), find_capture(m, "attr_next")) {
            (Some(a), Some(n)) => {
                if same_text(m[n].kind.as_str(), "mod_item") {
                    let name = module_name_at(mods, m[n].start_byte);
                    let c = cfg_gate_construct(file_relative, name, line_number(m[a].start_row), line_number(m[a].end_row));
                    proof {
                        lemma_construct_views_push(report.unsupported_constructs@, c);
                    }
                    report.unsupported_constructs.push(c);
                }
            },
            _ => {},
        }
        i = i + 1;
    }
    proof {
        assert(mv.take(ms@.len() as int) =~= mv);
    }
}

/// The `include!(...)` findings of the captures `cs`, with their lines.
pub open spec fn include_views(cs: Seq<CaptureView>, file_relative: Seq<char>) -> Seq<ConstructView>
    decreases cs.len(),
{
    if cs.len() == 0 {
        Seq::empty()
    } else {
        include_views(cs.drop_last(), file_relative).push(
            include_view(file_relative, line_of(cs.last().start_row), line_of(cs.last().end_row)),
        )
    }
}

/// Records the `include!(...)` findings of the `macro_name` captures of the
/// include query's matches `ms`.
pub fn include_findings(ms: &Vec<Vec<SyntaxCapture>>, file_relative: &str, report: &mut DetectorReport)
    ensures
        construct_views(final(report).unsupported_constructs@) == construct_views(old(report).unsupported_constructs@)
            + include_views(named_in(flat(matches_view(ms@)), "macro_name"@), file_relative@),
        final(report).nodes_discovered == old(report).nodes_discovered,
        final(report).edges_discovered == old(report).edges_discovered,
        final(report).parse_failures == old(report).parse_failures,
        final(report).unresolved_imports == old(report).unresolved_imports,
{
    let cs = captures_named(ms, "macro_name");
    let ghost cv = match_view(cs@);
    let ghost start = construct_views(report.unsupported_constructs@);
    let mut i: usize = 0;
    while i < cs.len()
        invariant
            i <= cs@.len(),
            cv == match_view(cs@),
            construct_views(report.unsupported_constructs@) == start + include_views(cv.take(i as int), file_relative@),
            report.nodes_discovered == old(report).nodes_discovered,
            report.edges_discovered == old(report).edges_discovered,
            report.parse_failures == old(report).parse_failures,
            report.unresolved_imports == old(report).unresolved_imports,
        decreases cs@.len() - i,
    {
        proof {
            assert(cv.take(i + 1).drop_last() =~= cv.take(i as int));
        }
        let c = include_construct(file_relative, line_number(cs[i].start_row), line_number(cs[i].end_row));
        proof {
            lemma_construct_views_push(report.unsupported_constructs@, c);
        }
        report.unsupported_constructs.push(c);
        i = i + 1;
    }
    proof {
        assert(cv.take(cs@.len() as int) =~= cv);
    }
}

/// The parse failure recorded for a file that tree-sitter returned no tree
/// for; a grammar that could not be set records nothing.
pub open spec fn rust_parse_failures(f: SyntaxFailure, file_relative: Seq<char>) -> Seq<ParseFailureView> {
    match f {
        SyntaxFailure::Parse => seq![ParseFailureView { path: file_relative, reason: "tree-sitter parse returned None"@ }],
        SyntaxFailure::Language => Seq::empty(),
    }
}

/// Records the parse failure of a Rust file, if it gives one.
fn record_rust_parse_failure(f: SyntaxFailure, file_relative: &str, report: &mut DetectorReport)
    ensures
        failure_views(final(report).parse_failures@) == failure_views(old(report).parse_failures@)
            + rust_parse_failures(f, file_relative@),
        final(report).nodes_discovered == old(report).nodes_discovered,
        final(report).edges_discovered == old(report).edges_discovered,
        final(report).unsupported_constructs == old(report).unsupported_constructs,
        final(report).unresolved_imports == old(report).unresolved_imports,
{
    match f {
        SyntaxFailure::Parse => {
            let pf = ParseFailure {
                path: file_relative.to_owned(),
                reason: "tree-sitter parse returned None".to_owned(),
            };
            proof {
                lemma_failure_views_push(report.parse_failures@, pf);
            }
            report.parse_failures.push(pf);
        },
        SyntaxFailure::Language => {
            assert(failure_views(report.parse_failures@) + Seq::<ParseFailureView>::empty() =~= failure_views(report.parse_failures@));
        },
    }
}

/// The `mod` declarations of a Rust file: parsed with tree-sitter, each
/// `mod_name` capture of the module query whose text was read, with its
/// lines. A file tree-sitter returns no tree for is recorded as a parse
/// failure and declares nothing.
pub fn rust_module_declarations(
    queries: &RustQueries,
    source: &str,
    file_relative: &str,
    report: &mut DetectorReport,
) -> (r: Vec<ModDeclaration>)
    requires
        queries.compiled(),
    ensures
        match parse_failure(Grammar::Rust, source@) {
            None => {
                &&& mod_decl_views(r@) == mod_decls_in(named_in(flat(rust_matches(source@, MOD_QUERY@)), "mod_name"@))
                &&& final(report).parse_failures == old(report).parse_failures
            },
            Some(f) => {
                &&& r@.len() == 0
                &&& failure_views(final(report).parse_failures@) == failure_views(old(report).parse_failures@)
                    + rust_parse_failures(f, file_relative@)
            },
        },
        final(report).nodes_discovered == old(report).nodes_discovered,
        final(report).edges_discovered == old(report).edges_discovered,
        final(report).unsupported_constructs == old(report).unsupported_constructs,
        final(report).unresolved_imports == old(report).unresolved_imports,
{
    match parse_source(Grammar::Rust, source) {
        Ok(tree) => {
            let ms = run_query(&tree, &queries.mods);
            module_declarations(&ms)
        },
        Err(f) => {
            record_rust_parse_failure(f, file_relative, report);
            Vec::new()
        },
    }
}

/// The `use` declarations of a Rust source.
pub open spec fn rust_uses(source: Seq<char>) -> Seq<UseView> {
    uses_in(named_in(flat(rust_matches(source, USE_QUERY@)), "use_path"@))
}

/// The `#[cfg(...)]` findings of a Rust source.
pub open spec fn rust_cfg_findings(source: Seq<char>, file_relative: Seq<char>) -> Seq<ConstructView> {
    cfg_views(rust_matches(source, CFG_ATTR_QUERY@), rust_matches(source, MOD_QUERY@), file_relative)
}

/// The `include!(...)` findings of a Rust source.
pub open spec fn rust_include_findings(source: Seq<char>, file_relative: Seq<char>) -> Seq<ConstructView> {
    include_views(named_in(flat(rust_matches(source, INCLUDE_QUERY@)), "macro_name"@), file_relative)
}

/// The graph facts of one Rust source file: parsed with tree-sitter, its
/// `use` declarations give import edges (and unresolved imports, see
/// [`extract_use_edges`]), and its `#[cfg(...)]` attributes on modules and
/// its `include!(...)` invocations are recorded as findings, in that order.
/// A file tree-sitter returns no tree for is recorded as a parse failure and
/// gives nothing else.
pub fn rust_file_findings(
    queries: &RustQueries,
    source: &str,
    file_key: &MaterializedKey,
    file_relative: &str,
    crate_name: &str,
    pkg_relative: &str,
    workspace_root: &str,
    crate_to_path: &CrateMap,
    dep_categories: &DepCategories,
    report: &mut DetectorReport,
) -> (edges: Vec<EdgeData>)
    requires
        queries.compiled(),
    ensures
        match parse_failure(Grammar::Rust, source@) {
            None => {
                &&& edge_views(edges@) == use_edges(
                    rust_uses(source@),
                    file_key@,
                    file_relative@,
                    crate_name@,
                    pkg_relative@,
                    crate_to_path@,
                    dep_categories@,
                )
                &&& unresolved_views(final(report).unresolved_imports@) == unresolved_views(old(report).unresolved_imports@)
                    + use_unresolved(rust_uses(source@), file_relative@, pkg_relative@, crate_to_path@)
                &&& construct_views(final(report).unsupported_constructs@) == construct_views(old(report).unsupported_constructs@)
                    + rust_cfg_findings(source@, file_relative@) + rust_include_findings(source@, file_relative@)
                &&& final(report).parse_failures == old(report).parse_failures
            },
            Some(f) => {
                &&& edges@.len() == 0
                &&& failure_views(final(report).parse_failures@) == failure_views(old(report).parse_failures@)
                    + rust_parse_failures(f, file_relative@)
                &&& final(report).unsupported_constructs == old(report).unsupported_constructs
                &&& final(report).unresolved_imports == old(report).unresolved_imports
            },
        },
        final(report).nodes_discovered == old(report).nodes_discovered,
        final(report).edges_discovered == old(report).edges_discovered,
{
    match parse_source(Grammar::Rust, source) {
        Ok(tree) => {
            let use_ms = run_query(&tree, &queries.uses);
            let uses = use_declarations(&use_ms);
            let edges = extract_use_edges(
                &uses,
                file_key,
                file_relative,
                crate_name,
                pkg_relative,
                workspace_root,
                crate_to_path,
                dep_categories,
                report,
            );
            let cfg_ms = run_query(&tree, &queries.cfgs);
            let mod_ms = run_query(&tree, &queries.mods);
            cfg_findings(&cfg_ms, &mod_ms, file_relative, report);
            let include_ms = run_query(&tree, &queries.includes);
            include_findings(&include_ms, file_relative, report);
            edges
        },
        Err(f) => {
            record_rust_parse_failure(f, file_relative, report);
            Vec::new()
        },
    }
}

// ---------------------------------------------------------------------------
// A package's source files
// ---------------------------------------------------------------------------

/// Whether a walked path is one of the scan's Rust source files: a `.rs`
/// file other than `build.rs` (see [`walked_rust_file`]) whose path relative
/// to the workspace root the configuration's patterns do not ignore.
pub open spec fn kept_rust_file(p: Seq<char>, root: Seq<char>, ignore: Seq<String>) -> bool {
    walked_rust_file(path_extension(p), path_file_name(p)) && !ignored_by(ignore, relative_to(p, root))
}

/// The Rust source files among the paths a directory walk yields, in
/// ascending order: exactly the kept ones (see [`kept_rust_file`]), each as
/// often as the walk gave it.
pub fn rust_source_files(candidates: &Vec<String>, workspace_root: &str, config: &RepoConfig) -> (r: Vec<String>)
    ensures
        r@.to_multiset() == candidates@.filter(|p: String| kept_rust_file(p@, workspace_root@, config.ignore@))
            .to_multiset(),
        forall|i: int, j: int| 0 <= i < j < r@.len() ==> text_le(r@[i]@, r@[j]@),
        forall|i: int| 0 <= i < r@.len() ==> kept_rust_file(#[trigger] r@[i]@, workspace_root@, config.ignore@),
        forall|i: int|
            0 <= i < candidates@.len() && kept_rust_file(candidates@[i]@, workspace_root@, config.ignore@)
                ==> r@.contains(#[trigger] candidates@[i]),
{
    let ghost pred = |p: String| kept_rust_file(p@, workspace_root@, config.ignore@);
    let mut out: Vec<String> = Vec::new();
    let mut i: usize = 0;
    while i < candidates.len()
        invariant
            i <= candidates@.len(),
            pred == (|p: String| kept_rust_file(p@, workspace_root@, config.ignore@)),
            out@ == candidates@.take(i as int).filter(pred),
        decreases candidates@.len() - i,
    {
        proof {
            reveal(Seq::filter);
            assert(candidates@.take(i + 1).drop_last() =~= candidates@.take(i as int));
            assert(candidates@.take(i + 1).last() == candidates@[i as int]);
        }
        let c = &candidates[i];
        let ext = extension_of(c.as_str());
        let name = file_name_of(c.as_str());
        let walked = is_walked_rust_file(
            match &ext {
                Some(e) => Some(e.as_str()),
                None => None,
            },
            match &name {
                Some(n) => Some(n.as_str()),
                None => None,
            },
        );
        let keep = walked && !config.is_ignored(relative_or_self(c.as_str(), workspace_root).as_str());
        assert(keep == pred(*c));
        if keep {
            out.push(c.clone());
        }
        i = i + 1;
    }
    proof {
        assert(candidates@.take(candidates@.len() as int) =~= candidates@);
    }
    let ghost before = out@;
    sort_texts(&mut out);
    proof {
        before.to_multiset_ensures();
        out@.to_multiset_ensures();
        candidates@.filter_lemma(pred);
        assert forall|x: String| out@.contains(x) <==> before.contains(x) by {
            assert(out@.to_multiset().count(x) == before.to_multiset().count(x));
        }
        assert forall|k: int| 0 <= k < out@.len() implies kept_rust_file(#[trigger] out@[k]@, workspace_root@, config.ignore@) by {
            assert(out@.contains(out@[k]));
            assert(before.contains(out@[k]));
            let m = choose|m: int| 0 <= m < before.len() && before[m] == out@[k];
            assert(before == candidates@.filter(pred));
            assert(pred(candidates@.filter(pred)[m]));
        }
        assert forall|k: int|
            0 <= k < candidates@.len() && kept_rust_file(candidates@[k]@, workspace_root@, config.ignore@)
                implies out@.contains(#[trigger] candidates@[k]) by {
            assert(pred(candidates@[k]));
            assert(candidates@.filter(pred).contains(candidates@[k]));
            assert(before.contains(candidates@[k]));
        }
    }
    out
}

/// The import edges of one Rust file, given its text (`None` where it
/// could not be read): those of its `use` declarations where it parses.
pub open spec fn file_edges_of(
    src: Option<Seq<char>>,
    file_key: KeyView,
    rel: Seq<char>,
    crate_name: Seq<char>,
    pkg_relative: Seq<char>,
    crates: Seq<(Seq<char>, Seq<char>)>,
    cats: Seq<(Seq<char>, Seq<char>, EdgeCategory)>,
) -> Seq<EdgeView> {
    match src {
        Some(s) => if parse_failure(Grammar::Rust, s) is None {
            use_edges(rust_uses(s), file_key, rel, crate_name, pkg_relative, crates, cats)
        } else {
            Seq::empty()
        },
        None => Seq::empty(),
    }
}

/// The unresolved imports of one Rust file, given its text.
pub open spec fn file_unresolved_of(
    src: Option<Seq<char>>,
    rel: Seq<char>,
    pkg_relative: Seq<char>,
    crates: Seq<(Seq<char>, Seq<char>)>,
) -> Seq<UnresolvedView> {
    match src {
        Some(s) => if parse_failure(Grammar::Rust, s) is None {
            use_unresolved(rust_uses(s), rel, pkg_relative, crates)
        } else {
            Seq::empty()
        },
        None => Seq::empty(),
    }
}

/// The `#[cfg(...)]` and `include!(...)` findings of one Rust file, given
/// its text.
pub open spec fn file_constructs_of(src: Option<Seq<char>>, rel: Seq<char>) -> Seq<ConstructView> {
    match src {
        Some(s) => if parse_failure(Grammar::Rust, s) is None {
            rust_cfg_findings(s, rel) + rust_include_findings(s, rel)
        } else {
            Seq::empty()
        },
        None => Seq::empty(),
    }
}

/// The parse failures of one Rust file, given its text: one where it could
/// not be read, and the one of its parse where tree-sitter gives no tree.
pub open spec fn file_failures_of(src: Option<Seq<char>>, rel: Seq<char>) -> Seq<ParseFailureView> {
    match src {
        Some(s) => match parse_failure(Grammar::Rust, s) {
            Some(f) => rust_parse_failures(f, rel),
            None => Seq::empty(),
        },
        None => seq![ParseFailureView { path: rel, reason: "could not read file"@ }],
    }
}

/// The texts of files, as read (`None` where a file could not be read).
pub open spec fn source_views(v: Seq<Option<String>>) -> Seq<Option<Seq<char>>> {
    v.map_values(|o: Option<String>| opt_view(o))
}

/// The edges of the first `n` files of a package: for each, its containment
/// edge, then its import edges.
pub open spec fn package_files_edges(
    files: Seq<String>,
    srcs: Seq<Option<Seq<char>>>,
    pkg_dir: Seq<char>,
    root: Seq<char>,
    pkg_key: KeyView,
    crate_name: Seq<char>,
    pkg_relative: Seq<char>,
    crates: Seq<(Seq<char>, Seq<char>)>,
    cats: Seq<(Seq<char>, Seq<char>, EdgeCategory)>,
    n: int,
) -> Seq<EdgeView>
    decreases n,
{
    if n <= 0 {
        Seq::empty()
    } else {
        let f = files[n - 1]@;
        let rel = relative_to(f, root);
        package_files_edges(files, srcs, pkg_dir, root, pkg_key, crate_name, pkg_relative, crates, cats, n - 1)
            + seq![rust_file_contains_view(f, pkg_dir, root, pkg_key)]
            + file_edges_of(srcs[n - 1], key_of(Language::Rust, EntityKind::File, rel), rel, crate_name, pkg_relative, crates, cats)
    }
}

/// The unresolved imports of the first `n` files of a package, in order.
pub open spec fn package_files_unresolved(
    files: Seq<String>,
    srcs: Seq<Option<Seq<char>>>,
    root: Seq<char>,
    pkg_relative: Seq<char>,
    crates: Seq<(Seq<char>, Seq<char>)>,
    n: int,
) -> Seq<UnresolvedView>
    decreases n,
{
    if n <= 0 {
        Seq::empty()
    } else {
        package_files_unresolved(files, srcs, root, pkg_relative, crates, n - 1)
            + file_unresolved_of(srcs[n - 1], relative_to(files[n - 1]@, root), pkg_relative, crates)
    }
}

/// The findings of the first `n` files of a package, in order.
pub open spec fn package_files_constructs(files: Seq<String>, srcs: Seq<Option<Seq<char>>>, root: Seq<char>, n: int) -> Seq<ConstructView>
    decreases n,
{
    if n <= 0 {
        Seq::empty()
    } else {
        package_files_constructs(files, srcs, root, n - 1) + file_constructs_of(srcs[n - 1], relative_to(files[n - 1]@, root))
    }
}

/// The parse failures of the first `n` files of a package, in order.
pub open spec fn package_files_failures(files: Seq<String>, srcs: Seq<Option<Seq<char>>>, root: Seq<char>, n: int) -> Seq<ParseFailureView>
    decreases n,
{
    if n <= 0 {
        Seq::empty()
    } else {
        package_files_failures(files, srcs, root, n - 1) + file_failures_of(srcs[n - 1], relative_to(files[n - 1]@, root))
    }
}

/// The file nodes of a package are those of its kept source files: every
/// walked path that is kept (see [`kept_rust_file`]) has its file node, and
/// every file node stands for a walked path that is kept, so none stands
/// for `build.rs`, a file that is not `.rs`, or an ignored path. Here
/// `files` is what [`rust_source_files`] gives for the walked paths
/// `candidates`, and `nodes` the file nodes [`rust_package_files`] gives
/// for `files`.
pub proof fn lemma_package_file_nodes(
    candidates: Seq<String>,
    files: Seq<String>,
    nodes: Seq<NodeData>,
    pkg_dir: Seq<char>,
    root: Seq<char>,
    ignore: Seq<String>,
    pkg_key: KeyView,
)
    requires
        files.to_multiset() == candidates.filter(|p: String| kept_rust_file(p@, root, ignore)).to_multiset(),
        forall|i: int|
            0 <= i < candidates.len() && kept_rust_file(candidates[i]@, root, ignore) ==> files.contains(
                #[trigger] candidates[i],
            ),
        nodes.len() == files.len(),
        forall|i: int| 0 <= i < files.len() ==> #[trigger] nodes[i]@ == rust_file_node_view(files[i]@, pkg_dir, root, pkg_key),
    ensures
        forall|i: int|
            0 <= i < candidates.len() && kept_rust_file(candidates[i]@, root, ignore) ==> exists|j: int|
                0 <= j < nodes.len() && #[trigger] nodes[j]@ == rust_file_node_view(
                    #[trigger] candidates[i]@,
                    pkg_dir,
                    root,
                    pkg_key,
                ),
        forall|j: int|
            0 <= j < nodes.len() ==> exists|i: int|
                0 <= i < candidates.len() && kept_rust_file(candidates[i]@, root, ignore) && #[trigger] nodes[j]@
                    == rust_file_node_view(#[trigger] candidates[i]@, pkg_dir, root, pkg_key),
{
    let pred = |p: String| kept_rust_file(p@, root, ignore);
    let kept = candidates.filter(pred);
    files.to_multiset_ensures();
    kept.to_multiset_ensures();
    candidates.filter_lemma(pred);
    assert forall|i: int| 0 <= i < candidates.len() && kept_rust_file(candidates[i]@, root, ignore) implies exists|j: int|
        0 <= j < nodes.len() && #[trigger] nodes[j]@ == rust_file_node_view(
            #[trigger] candidates[i]@,
            pkg_dir,
            root,
            pkg_key,
        ) by {
        assert(files.contains(candidates[i]));
        let j = choose|j: int| 0 <= j < files.len() && files[j] == candidates[i];
        assert(nodes[j]@ == rust_file_node_view(files[j]@, pkg_dir, root, pkg_key));
    }
    assert forall|j: int| 0 <= j < nodes.len() implies exists|i: int|
        0 <= i < candidates.len() && kept_rust_file(candidates[i]@, root, ignore) && #[trigger] nodes[j]@
            == rust_file_node_view(#[trigger] candidates[i]@, pkg_dir, root, pkg_key) by {
        let f = files[j];
        assert(files.contains(f));
        assert(kept.to_multiset().count(f) > 0);
        assert(kept.contains(f));
        let k = choose|k: int| 0 <= k < kept.len() && kept[k] == f;
        candidates.lemma_filter_contains_rev(pred, f);
        let i = choose|i: int| 0 <= i < candidates.len() && candidates[i] == f;
        assert(pred(kept[k]));
        assert(nodes[j]@ == rust_file_node_view(candidates[i]@, pkg_dir, root, pkg_key));
    }
}

/// Among the edges of the first `n` files of a package, each of those
/// files has its containment edge.
proof fn lemma_package_contains_edges(
    files: Seq<String>,
    srcs: Seq<Option<Seq<char>>>,
    pkg_dir: Seq<char>,
    root: Seq<char>,
    pkg_key: KeyView,
    crate_name: Seq<char>,
    pkg_relative: Seq<char>,
    crates: Seq<(Seq<char>, Seq<char>)>,
    cats: Seq<(Seq<char>, Seq<char>, EdgeCategory)>,
    n: int,
)
    requires
        0 <= n <= files.len(),
    ensures
        forall|i: int|
            0 <= i < n ==> package_files_edges(files, srcs, pkg_dir, root, pkg_key, crate_name, pkg_relative, crates, cats, n)
                .contains(#[trigger] rust_file_contains_view(files[i]@, pkg_dir, root, pkg_key)),
    decreases n,
{
    if n > 0 {
        lemma_package_contains_edges(files, srcs, pkg_dir, root, pkg_key, crate_name, pkg_relative, crates, cats, n - 1);
        let prev = package_files_edges(files, srcs, pkg_dir, root, pkg_key, crate_name, pkg_relative, crates, cats, n - 1);
        let whole = package_files_edges(files, srcs, pkg_dir, root, pkg_key, crate_name, pkg_relative, crates, cats, n);
        let e = rust_file_contains_view(files[n - 1]@, pkg_dir, root, pkg_key);
        assert(whole[prev.len() as int] == e);
        assert forall|i: int| 0 <= i < n implies whole.contains(
            #[trigger] rust_file_contains_view(files[i]@, pkg_dir, root, pkg_key),
        ) by {
            if i < n - 1 {
                let v = rust_file_contains_view(files[i]@, pkg_dir, root, pkg_key);
                assert(prev.contains(v));
                let k = choose|k: int| 0 <= k < prev.len() && prev[k] == v;
                assert(whole[k] == prev[k]);
            }
        }
    }
}

/// Every walked path of a package that is kept (see [`kept_rust_file`])
/// has its containment edge, from its package or module to its file node,
/// among the edges that [`rust_package_files`] gives for the files that
/// [`rust_source_files`] keeps.
pub proof fn lemma_package_file_edges(
    candidates: Seq<String>,
    files: Seq<String>,
    srcs: Seq<Option<Seq<char>>>,
    edges: Seq<EdgeView>,
    pkg_dir: Seq<char>,
    root: Seq<char>,
    ignore: Seq<String>,
    pkg_key: KeyView,
    crate_name: Seq<char>,
    pkg_relative: Seq<char>,
    crates: Seq<(Seq<char>, Seq<char>)>,
    cats: Seq<(Seq<char>, Seq<char>, EdgeCategory)>,
)
    requires
        forall|i: int|
            0 <= i < candidates.len() && kept_rust_file(candidates[i]@, root, ignore) ==> files.contains(
                #[trigger] candidates[i],
            ),
        edges == package_files_edges(
            files,
            srcs,
            pkg_dir,
            root,
            pkg_key,
            crate_name,
            pkg_relative,
            crates,
            cats,
            files.len() as int,
        ),
    ensures
        forall|i: int|
            0 <= i < candidates.len() && kept_rust_file(candidates[i]@, root, ignore) ==> edges.contains(
                rust_file_contains_view(#[trigger] candidates[i]@, pkg_dir, root, pkg_key),
            ),
{
    lemma_package_contains_edges(files, srcs, pkg_dir, root, pkg_key, crate_name, pkg_relative, crates, cats, files.len() as int);
    assert forall|i: int| 0 <= i < candidates.len() && kept_rust_file(candidates[i]@, root, ignore) implies edges.contains(
        rust_file_contains_view(#[trigger] candidates[i]@, pkg_dir, root, pkg_key),
    ) by {
        assert(files.contains(candidates[i]));
        let j = choose|j: int| 0 <= j < files.len() && files[j] == candidates[i];
        assert(edges.contains(rust_file_contains_view(files[j]@, pkg_dir, root, pkg_key)));
    }
}

/// The graph facts of a package's Rust source files `files`, whose texts
/// are `sources` (`None` where a file could not be read): one file node per
/// file, in order, and for each file its containment edge followed by its
/// import edges; the unresolved imports, findings and parse failures of the
/// files are appended to the report in file order (see
/// [`rust_file_findings`]; a file that could not be read is a parse failure
/// and gives nothing else).
pub fn rust_package_files(
    queries: &RustQueries,
    files: &Vec<String>,
    sources: &Vec<Option<String>>,
    pkg_dir: &str,
    pkg_relative: &str,
    crate_name: &str,
    workspace_root: &str,
    pkg_key: &MaterializedKey,
    crate_to_path: &CrateMap,
    dep_categories: &DepCategories,
    report: &mut DetectorReport,
) -> (r: (Vec<NodeData>, Vec<EdgeData>))
    requires
        queries.compiled(),
        files@.len() == sources@.len(),
    ensures
        r.0@.len() == files@.len(),
        forall|i: int|
            0 <= i < files@.len() ==> #[trigger] r.0@[i]@ == rust_file_node_view(files@[i]@, pkg_dir@, workspace_root@, pkg_key@),
        edge_views(r.1@) == package_files_edges(
            files@,
            source_views(sources@),
            pkg_dir@,
            workspace_root@,
            pkg_key@,
            crate_name@,
            pkg_relative@,
            crate_to_path@,
            dep_categories@,
            files@.len() as int,
        ),
        unresolved_views(final(report).unresolved_imports@) == unresolved_views(old(report).unresolved_imports@)
            + package_files_unresolved(files@, source_views(sources@), workspace_root@, pkg_relative@, crate_to_path@, files@.len() as int),
        construct_views(final(report).unsupported_constructs@) == construct_views(old(report).unsupported_constructs@)
            + package_files_constructs(files@, source_views(sources@), workspace_root@, files@.len() as int),
        failure_views(final(report).parse_failures@) == failure_views(old(report).parse_failures@)
            + package_files_failures(files@, source_views(sources@), workspace_root@, files@.len() as int),
        final(report).nodes_discovered == old(report).nodes_discovered,
        final(report).edges_discovered == old(report).edges_discovered,
{
    let ghost srcs = source_views(sources@);
    let ghost u0 = unresolved_views(report.unresolved_imports@);
    let ghost c0 = construct_views(report.unsupported_constructs@);
    let ghost f0 = failure_views(report.parse_failures@);
    let mut nodes: Vec<NodeData> = Vec::new();
    let mut edges: Vec<EdgeData> = Vec::new();
    let mut i: usize = 0;
    while i < files.len()
        invariant
            i <= files@.len(),
            files@.len() == sources@.len(),
            queries.compiled(),
            srcs == source_views(sources@),
            nodes@.len() == i,
            forall|k: int|
                0 <= k < i ==> #[trigger] nodes@[k]@ == rust_file_node_view(files@[k]@, pkg_dir@, workspace_root@, pkg_key@),
            edge_views(edges@) == package_files_edges(
                files@,
                srcs,
                pkg_dir@,
                workspace_root@,
                pkg_key@,
                crate_name@,
                pkg_relative@,
                crate_to_path@,
                dep_categories@,
                i as int,
            ),
            unresolved_views(report.unresolved_imports@) == u0 + package_files_unresolved(
                files@,
                srcs,
                workspace_root@,
                pkg_relative@,
                crate_to_path@,
                i as int,
            ),
            construct_views(report.unsupported_constructs@) == c0 + package_files_constructs(files@, srcs, workspace_root@, i as int),
            failure_views(report.parse_failures@) == f0 + package_files_failures(files@, srcs, workspace_root@, i as int),
            report.nodes_discovered == old(report).nodes_discovered,
            report.edges_discovered == old(report).edges_discovered,
        decreases files@.len() - i,
    {
        let file = files[i].as_str();
        let (node, contains) = rust_file_entries(file, pkg_dir, workspace_root, pkg_key);
        let file_key = node.materialized_key.clone();
        let rel = relative_or_self(file, workspace_root);
        nodes.push(node);
        proof {
            lemma_edge_views_push(edges@, contains);
        }
        edges.push(contains);
        let ghost e1 = edge_views(edges@);
        let ghost u1 = unresolved_views(report.unresolved_imports@);
        let ghost c1 = construct_views(report.unsupported_constructs@);
        let ghost p1 = failure_views(report.parse_failures@);
        assert(srcs[i as int] == opt_view(sources@[i as int]));
        match &sources[i] {
            Some(src) => {
                let mut more = rust_file_findings(
                    queries,
                    src.as_str(),
                    &file_key,
                    rel.as_str(),
                    crate_name,
                    pkg_relative,
                    workspace_root,
                    crate_to_path,
                    dep_categories,
                    report,
                );
                let ghost m = more@;
                edges.append(&mut more);
                assert(edge_views(edges@) =~= e1 + edge_views(m));
                assert(unresolved_views(report.unresolved_imports@) =~= u1 + file_unresolved_of(srcs[i as int], rel@, pkg_relative@, crate_to_path@));
                assert(construct_views(report.unsupported_constructs@) =~= c1 + file_constructs_of(srcs[i as int], rel@));
                assert(failure_views(report.parse_failures@) =~= p1 + file_failures_of(srcs[i as int], rel@));
            },
            None => {
                let pf = ParseFailure { path: rel.clone(), reason: "could not read file".to_owned() };
                proof {
                    lemma_failure_views_push(report.parse_failures@, pf);
                }
                report.parse_failures.push(pf);
                assert(edge_views(edges@) =~= e1 + Seq::<EdgeView>::empty());
                assert(unresolved_views(report.unresolved_imports@) =~= u1 + Seq::<UnresolvedView>::empty());
                assert(construct_views(report.unsupported_constructs@) =~= c1 + Seq::<ConstructView>::empty());
            },
        }
        proof {
            assert(edge_views(edges@) =~= package_files_edges(
                files@,
                srcs,
                pkg_dir@,
                workspace_root@,
                pkg_key@,
                crate_name@,
                pkg_relative@,
                crate_to_path@,
                dep_categories@,
                i + 1,
            ));
            assert(unresolved_views(report.unresolved_imports@) =~= u0 + package_files_unresolved(
                files@,
                srcs,
                workspace_root@,
                pkg_relative@,
                crate_to_path@,
                i + 1,
            ));
            assert(construct_views(report.unsupported_constructs@) =~= c0 + package_files_constructs(files@, srcs, workspace_root@, i + 1));
            assert(failure_views(report.parse_failures@) =~= f0 + package_files_failures(files@, srcs, workspace_root@, i + 1));
        }
        i = i + 1;
    }
    (nodes, edges)
}

} // verus!
