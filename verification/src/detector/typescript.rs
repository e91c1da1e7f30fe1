//! TypeScript/JavaScript detector: the JS workspace's compatibility
//! assessment, its package topology, import resolution decisions, and the
//! graph facts drawn from parsed sources.
//!
//! Source files are parsed here with tree-sitter; what its queries find
//! (import statements and their clauses, re-exports, dynamic imports and
//! `require` calls) gives the edges and findings. Walking directories,
//! reading files and probing for resolved files happen at the edge.

use vstd::prelude::*;

use crate::detector::{
    contains_edge, contains_edge_view, detection_failure, is_detection_failure, CompatibilityAssessment,
    Detector, DetectorError, DetectorReport,
};
use crate::workspace::document::{
    array_strings, array_strings_of, json_as_text, json_field_views, json_get, json_get_opt,
    json_member, json_parse, json_text, json_view, keys_of, keys_of_value, lemma_json_field_views,
    member_of, parse_json, strings_view as doc_strings, JsonValue, JsonView,
};
use crate::workspace::javascript::{strip_jsonc, strip_jsonc_comments};
use crate::detector::syntax::{
    capture_at, capture_named, captures_named, compile_query, find_capture, first_query_error, flat,
    has_capture_at, line_number, line_of, match_view, matches_view, named_in, parse_failure,
    parse_source, query_error, query_matches, run_query, CaptureView, Grammar, SyntaxCapture,
    SyntaxFailure, SyntaxQuery,
};
use crate::graph::identity::{edge_id_of, key_of, EdgeId, KeyView, MaterializedKey};
use crate::graph::types::{
    construct_views, edge_views, failure_views, lemma_construct_views_push, lemma_edge_views_push,
    lemma_failure_views_push, lemma_unresolved_views_push, ParseFailure, ParseFailureView, unresolved_views, ConstructView, Confidence, EdgeCategory,
    EdgeData, EdgeKind, EdgeView, EntityKind, Language, LocationView, NodeData, NodeKind,
    NodeView, OverlayStatus, OverlayView, SourceLocation, UnresolvedImport, UnresolvedReason,
    UnresolvedView, UnsupportedConstruct, UnsupportedConstructType,
};
use crate::health::compatibility::{
    detail, details_view, lemma_most_severe_concat, lemma_most_severe_single, more_severe, most_severe,
    CompatibilityDetail, SupportStatus,
};
use crate::paths::{
    file_name_of, join_path, opt_view, parent_dir, parent_or_empty, path_equiv, path_file_name,
    path_join, path_parent, relative_or_self, relative_to, same_path,
};
use crate::text::{
    chars_of, concat3, contains_char, contains_text, decimal, decimal_string, ends_with, has_infix,
    is_prefix, is_suffix, join_strings, join_with, prefix_string, push_all, push_char, same_text,
    starts_with, string_of, substring, trim, trim_end_ws, trim_start_ws, trim_ws,
};
use crate::workspace::{JsPackageInfo, JsWorkspaceMeta, TsconfigInfo, WorkspaceInfo};

verus! {

/// TypeScript/JavaScript detector.
pub struct TypeScriptDetector;

// ---------------------------------------------------------------------------
// Compatibility
// ---------------------------------------------------------------------------

/// A detail as feature, status and explanation.
pub type DetailView = (Seq<char>, SupportStatus, Seq<char>);

/// The names of the packages with an `exports` field, in order.
pub open spec fn exports_names(pkgs: Seq<JsPackageInfo>) -> Seq<Seq<char>> {
    pkgs.filter(|p: JsPackageInfo| p.has_exports_field).map_values(|p: JsPackageInfo| p.name@)
}

/// The names of the packages with an `imports` field, in order.
pub open spec fn imports_names(pkgs: Seq<JsPackageInfo>) -> Seq<Seq<char>> {
    pkgs.filter(|p: JsPackageInfo| p.has_imports_field).map_values(|p: JsPackageInfo| p.name@)
}

/// Whether some package declares module type `t`.
pub open spec fn has_module_type(pkgs: Seq<JsPackageInfo>, t: Seq<char>) -> bool {
    exists|i: int| 0 <= i < pkgs.len() && #[trigger] opt_view(pkgs[i].module_type) == Some(t)
}

/// Whether some package declares no module type (CommonJS by default).
pub open spec fn has_untyped_package(pkgs: Seq<JsPackageInfo>) -> bool {
    exists|i: int| 0 <= i < pkgs.len() && #[trigger] pkgs[i].module_type is None
}

/// Whether both ESM and CommonJS packages are present: some package is
/// `module`, and some is `commonjs` or has no type.
pub open spec fn mixed_modules(pkgs: Seq<JsPackageInfo>) -> bool {
    has_module_type(pkgs, "module"@) && (has_module_type(pkgs, "commonjs"@) || has_untyped_package(
        pkgs,
    ))
}

/// The details on discovery and the package manager.
pub open spec fn ts_head_details(js: JsWorkspaceMeta) -> Seq<DetailView> {
    let pm = js.package_manager@;
    seq![
        (
            "Workspace package discovery"@,
            SupportStatus::Supported,
            decimal(js.packages@.len()) + " package(s) discovered via "@ + pm + " workspace"@,
        ),
        ("Package manager: "@ + pm, SupportStatus::Supported, pm + " workspace structure detected"@),
    ]
}

/// The detail on Yarn Plug'n'Play, where present.
pub open spec fn ts_pnp_details(js: JsWorkspaceMeta) -> Seq<DetailView> {
    if js.has_pnp {
        seq![
            (
                "Yarn Plug'n'Play"@,
                SupportStatus::Unsupported,
                "Yarn PnP (.pnp.cjs) detected. PnP module resolution is not supported in POC — node_modules resolution assumed."@,
            ),
        ]
    } else {
        Seq::empty()
    }
}

/// The detail on the tsconfig's module resolution, where it names one.
pub open spec fn ts_resolution_details(t: TsconfigInfo) -> Seq<DetailView> {
    match t.module_resolution {
        Some(mode) => seq![
            (
                "Module resolution: "@ + mode@,
                SupportStatus::Supported,
                "moduleResolution \""@ + mode@ + "\" detected in tsconfig.json"@,
            ),
        ],
        None => Seq::empty(),
    }
}

/// The detail on the tsconfig's `paths`, where it has some.
pub open spec fn ts_paths_details(t: TsconfigInfo) -> Seq<DetailView> {
    if t.has_paths {
        seq![
            (
                "tsconfig paths"@,
                SupportStatus::Supported,
                "compilerOptions.paths detected — basic path alias resolution supported"@,
            ),
        ]
    } else {
        Seq::empty()
    }
}

/// The detail on the tsconfig's project references, where it has some.
pub open spec fn ts_references_details(t: TsconfigInfo) -> Seq<DetailView> {
    if t.has_project_references {
        seq![
            (
                "TypeScript project references"@,
                SupportStatus::Partial,
                "tsconfig references detected. Cross-project reference resolution is not fully supported in POC."@,
            ),
        ]
    } else {
        Seq::empty()
    }
}

/// The details drawn from the root tsconfig, or on its absence.
pub open spec fn ts_tsconfig_details(js: JsWorkspaceMeta) -> Seq<DetailView> {
    match js.root_tsconfig {
        Some(t) => ts_resolution_details(t) + ts_paths_details(t) + ts_references_details(t),
        None => seq![
            (
                "tsconfig.json"@,
                SupportStatus::Partial,
                "No tsconfig.json found at workspace root — module resolution defaults may differ from actual project configuration."@,
            ),
        ],
    }
}

/// The detail on `exports` fields, where a package has one.
pub open spec fn ts_exports_details(js: JsWorkspaceMeta) -> Seq<DetailView> {
    let exports = exports_names(js.packages@);
    if exports.len() > 0 {
        seq![
            (
                "package.json exports conditions"@,
                SupportStatus::Partial,
                "Exports field found in: "@ + join_with(exports, ", "@)
                    + ". Condition-based resolution (import/require/node/browser) is not evaluated in POC — first export path assumed."@,
            ),
        ]
    } else {
        Seq::empty()
    }
}

/// The detail on `imports` fields, where a package has one.
pub open spec fn ts_imports_details(js: JsWorkspaceMeta) -> Seq<DetailView> {
    let imports = imports_names(js.packages@);
    if imports.len() > 0 {
        seq![
            (
                "package.json imports (#imports)"@,
                SupportStatus::Partial,
                "Imports field (# aliases) found in: "@ + join_with(imports, ", "@)
                    + ". Internal import aliases are not resolved in POC."@,
            ),
        ]
    } else {
        Seq::empty()
    }
}

/// The detail on mixed module types, where they are mixed.
pub open spec fn ts_mixed_details(js: JsWorkspaceMeta) -> Seq<DetailView> {
    if mixed_modules(js.packages@) {
        seq![
            (
                "Mixed ESM/CJS modules"@,
                SupportStatus::Partial,
                "Mixed module types detected (some ESM, some CJS). Per-package resolution profiles are not available in POC — workspace-level profile used."@,
            ),
        ]
    } else {
        Seq::empty()
    }
}

/// The details on `exports` and `imports` fields and on mixed module types.
pub open spec fn ts_package_details(js: JsWorkspaceMeta) -> Seq<DetailView> {
    ts_exports_details(js) + ts_imports_details(js) + ts_mixed_details(js)
}

/// The detail on import parsing.
pub open spec fn ts_tail_details() -> Seq<DetailView> {
    seq![
        (
            "Import/export parsing"@,
            SupportStatus::Supported,
            "value vs type-only import classification via tree-sitter — will be available after full scan"@,
        ),
    ]
}

/// The details of the assessment of a JS workspace, in order.
pub open spec fn ts_details(js: JsWorkspaceMeta) -> Seq<DetailView> {
    ts_head_details(js) + ts_pnp_details(js) + ts_tsconfig_details(js) + ts_package_details(js)
        + ts_tail_details()
}

/// Unsupported with Plug'n'Play; otherwise partial where the tsconfig is
/// missing or has project references, where a package has `exports` or
/// `imports`, or where module types are mixed; supported otherwise.
pub open spec fn ts_status(js: JsWorkspaceMeta) -> SupportStatus {
    let partial = match js.root_tsconfig {
        Some(t) => t.has_project_references,
        None => true,
    } || exports_names(js.packages@).len() > 0 || imports_names(js.packages@).len() > 0
        || mixed_modules(js.packages@);
    if js.has_pnp {
        SupportStatus::Unsupported
    } else if partial {
        SupportStatus::Partial
    } else {
        SupportStatus::Supported
    }
}

/// The most severe status of a list of at most one detail is that
/// detail's, or supported.
proof fn lemma_most_severe_short(ds: Seq<DetailView>)
    requires
        ds.len() <= 1,
    ensures
        most_severe(ds) == (if ds.len() == 0 {
            SupportStatus::Supported
        } else {
            ds[0].1
        }),
{
    if ds.len() == 1 {
        lemma_most_severe_single(ds[0]);
        assert(ds =~= seq![ds[0]]);
    }
}

/// The most severe status of three lists one after the other.
proof fn lemma_most_severe_concat3(a: Seq<DetailView>, b: Seq<DetailView>, c: Seq<DetailView>)
    ensures
        most_severe(a + b + c) == more_severe(more_severe(most_severe(a), most_severe(b)), most_severe(c)),
{
    lemma_most_severe_concat(a, b);
    lemma_most_severe_concat(a + b, c);
}

/// A TypeScript assessment's status is the most severe status among its
/// details: unsupported without a JS workspace or with Plug'n'Play;
/// otherwise partial exactly where a missing tsconfig, project references,
/// `exports` or `imports` fields or mixed module types give a partial
/// detail.
pub proof fn lemma_ts_status_most_severe(ws: WorkspaceInfo)
    ensures
        match ws.js {
            None => most_severe(no_js_details()) == SupportStatus::Unsupported,
            Some(js) => most_severe(ts_details(js)) == ts_status(js),
        },
{
    match ws.js {
        None => {
            lemma_most_severe_short(no_js_details());
        },
        Some(js) => {
            let h = ts_head_details(js);
            let p = ts_pnp_details(js);
            let t = ts_tsconfig_details(js);
            let k = ts_package_details(js);
            let l = ts_tail_details();
            lemma_most_severe_concat(h, p);
            lemma_most_severe_concat(h + p, t);
            lemma_most_severe_concat(h + p + t, k);
            lemma_most_severe_concat(h + p + t + k, l);
            assert(h =~= seq![h[0]] + seq![h[1]]);
            lemma_most_severe_concat(seq![h[0]], seq![h[1]]);
            lemma_most_severe_single(h[0]);
            lemma_most_severe_single(h[1]);
            lemma_most_severe_short(p);
            lemma_most_severe_short(l);
            match js.root_tsconfig {
                Some(tc) => {
                    lemma_most_severe_concat3(ts_resolution_details(tc), ts_paths_details(tc), ts_references_details(tc));
                    lemma_most_severe_short(ts_resolution_details(tc));
                    lemma_most_severe_short(ts_paths_details(tc));
                    lemma_most_severe_short(ts_references_details(tc));
                },
                None => {
                    lemma_most_severe_short(t);
                },
            }
            lemma_most_severe_concat3(ts_exports_details(js), ts_imports_details(js), ts_mixed_details(js));
            lemma_most_severe_short(ts_exports_details(js));
            lemma_most_severe_short(ts_imports_details(js));
            lemma_most_severe_short(ts_mixed_details(js));
        },
    }
}

/// The detail given where no JS workspace was found.
pub open spec fn no_js_details() -> Seq<DetailView> {
    seq![
        (
            "JS/TS workspace"@,
            SupportStatus::Unsupported,
            "No JS/TS workspace detected (no package.json with workspaces or pnpm-workspace.yaml)"@,
        ),
    ]
}

/// The names of the packages with an `exports` field (`imports` false) or
/// with an `imports` field (`imports` true).
fn field_names(pkgs: &Vec<JsPackageInfo>, imports: bool) -> (names: Vec<String>)
    ensures
        names@.map_values(|s: String| s@) == (if imports {
            imports_names(pkgs@)
        } else {
            exports_names(pkgs@)
        }),
{
    let ghost pred = if imports {
        |p: JsPackageInfo| p.has_imports_field
    } else {
        |p: JsPackageInfo| p.has_exports_field
    };
    let mut names: Vec<String> = Vec::new();
    let mut i: usize = 0;
    while i < pkgs.len()
        invariant
            i <= pkgs@.len(),
            pred == (if imports {
                |p: JsPackageInfo| p.has_imports_field
            } else {
                |p: JsPackageInfo| p.has_exports_field
            }),
            names@.map_values(|s: String| s@) == pkgs@.take(i as int).filter(pred).map_values(
                |p: JsPackageInfo| p.name@,
            ),
        decreases pkgs@.len() - i,
    {
        let p = &pkgs[i];
        let ghost before = names@;
        proof {
            reveal(Seq::filter);
            assert(pkgs@.take(i + 1).drop_last() =~= pkgs@.take(i as int));
            assert(pkgs@.take(i + 1).last() == *p);
        }
        let flagged = if imports {
            p.has_imports_field
        } else {
            p.has_exports_field
        };
        if flagged {
            names.push(p.name.clone());
            assert(names@.map_values(|s: String| s@) =~= before.map_values(|s: String| s@).push(
                p.name@,
            ));
        }
        assert(names@.map_values(|s: String| s@) =~= pkgs@.take(i + 1).filter(pred).map_values(
            |p: JsPackageInfo| p.name@,
        ));
        i = i + 1;
    }
    assert(pkgs@.take(pkgs@.len() as int) =~= pkgs@);
    names
}

/// Whether the packages mix ESM and CommonJS (see [`mixed_modules`]).
fn modules_are_mixed(pkgs: &Vec<JsPackageInfo>) -> (r: bool)
    ensures
        r == mixed_modules(pkgs@),
{
    let mut esm = false;
    let mut cjs = false;
    let mut untyped = false;
    let mut i: usize = 0;
    while i < pkgs.len()
        invariant
            i <= pkgs@.len(),
            esm == (exists|j: int| 0 <= j < i && #[trigger] opt_view(pkgs@[j].module_type) == Some("module"@)),
            cjs == (exists|j: int| 0 <= j < i && #[trigger] opt_view(pkgs@[j].module_type) == Some("commonjs"@)),
            untyped == (exists|j: int| 0 <= j < i && #[trigger] pkgs@[j].module_type is None),
        decreases pkgs@.len() - i,
    {
        let ghost mt = opt_view(pkgs@[i as int].module_type);
        let (is_esm, is_cjs, is_untyped) = match &pkgs[i].module_type {
            Some(t) => (same_text(t.as_str(), "module"), same_text(t.as_str(), "commonjs"), false),
            None => (false, false, true),
        };
        assert(is_esm == (mt == Some("module"@)));
        assert(is_cjs == (mt == Some("commonjs"@)));
        assert(is_untyped == (pkgs@[i as int].module_type is None));
        esm = esm || is_esm;
        cjs = cjs || is_cjs;
        untyped = untyped || is_untyped;
        i = i + 1;
    }
    esm && (cjs || untyped)
}

/// Appends the details on discovery and the package manager.
fn push_head_details(js: &JsWorkspaceMeta, details: &mut Vec<CompatibilityDetail>)
    ensures
        details_view(final(details)@) == details_view(old(details)@) + ts_head_details(*js),
{
    let ghost d0 = details_view(details@);
    let pm = js.package_manager.as_str();
    let mut discovered = decimal_string(js.packages.len() as u128);
    push_all(&mut discovered, " package(s) discovered via ");
    push_all(&mut discovered, pm);
    push_all(&mut discovered, " workspace");
    details.push(detail("Workspace package discovery".to_owned(), SupportStatus::Supported, discovered));
    let mut feature = "Package manager: ".to_owned();
    push_all(&mut feature, pm);
    let mut explanation = pm.to_owned();
    push_all(&mut explanation, " workspace structure detected");
    details.push(detail(feature, SupportStatus::Supported, explanation));
    assert(details_view(details@) =~= d0 + ts_head_details(*js));
}

/// Appends the detail on Plug'n'Play; whether it was present.
fn push_pnp_details(js: &JsWorkspaceMeta, details: &mut Vec<CompatibilityDetail>) -> (unsupported: bool)
    ensures
        unsupported == js.has_pnp,
        details_view(final(details)@) == details_view(old(details)@) + ts_pnp_details(*js),
{
    let ghost d0 = details_view(details@);
    if js.has_pnp {
        details.push(
            detail(
                "Yarn Plug'n'Play".to_owned(),
                SupportStatus::Unsupported,
                "Yarn PnP (.pnp.cjs) detected. PnP module resolution is not supported in POC — node_modules resolution assumed.".to_owned(),
            ),
        );
    }
    assert(details_view(details@) =~= d0 + ts_pnp_details(*js));
    js.has_pnp
}

/// Appends the details drawn from the root tsconfig; whether any is
/// partial.
fn push_tsconfig_details(js: &JsWorkspaceMeta, details: &mut Vec<CompatibilityDetail>) -> (partial: bool)
    ensures
        partial == (match js.root_tsconfig {
            Some(t) => t.has_project_references,
            None => true,
        }),
        details_view(final(details)@) == details_view(old(details)@) + ts_tsconfig_details(*js),
{
    let ghost d0 = details_view(details@);
    let mut partial = false;
    match &js.root_tsconfig {
        Some(tsconfig) => {
            match &tsconfig.module_resolution {
                Some(mode) => {
                    let mut f = "Module resolution: ".to_owned();
                    push_all(&mut f, mode.as_str());
                    let e = concat3("moduleResolution \"", mode.as_str(), "\" detected in tsconfig.json");
                    details.push(detail(f, SupportStatus::Supported, e));
                },
                None => {},
            }
            if tsconfig.has_paths {
                details.push(
                    detail(
                        "tsconfig paths".to_owned(),
                        SupportStatus::Supported,
                        "compilerOptions.paths detected — basic path alias resolution supported".to_owned(),
                    ),
                );
            }
            if tsconfig.has_project_references {
                partial = true;
                details.push(
                    detail(
                        "TypeScript project references".to_owned(),
                        SupportStatus::Partial,
                        "tsconfig references detected. Cross-project reference resolution is not fully supported in POC.".to_owned(),
                    ),
                );
            }
        },
        None => {
            details.push(
                detail(
                    "tsconfig.json".to_owned(),
                    SupportStatus::Partial,
                    "No tsconfig.json found at workspace root — module resolution defaults may differ from actual project configuration.".to_owned(),
                ),
            );
            partial = true;
        },
    }
    assert(details_view(details@) =~= d0 + ts_tsconfig_details(*js));
    partial
}

/// Appends the details on package fields and module types; whether any
/// was added (all are partial).
fn push_package_details(js: &JsWorkspaceMeta, details: &mut Vec<CompatibilityDetail>) -> (partial: bool)
    ensures
        partial == (exports_names(js.packages@).len() > 0 || imports_names(js.packages@).len() > 0
            || mixed_modules(js.packages@)),
        details_view(final(details)@) == details_view(old(details)@) + ts_package_details(*js),
{
    let ghost d0 = details_view(details@);
    let mut partial = false;
    let exports = field_names(&js.packages, false);
    if exports.len() > 0 {
        partial = true;
        let listed = join_strings(&exports, ", ");
        let e = concat3(
            "Exports field found in: ",
            listed.as_str(),
            ". Condition-based resolution (import/require/node/browser) is not evaluated in POC — first export path assumed.",
        );
        details.push(detail("package.json exports conditions".to_owned(), SupportStatus::Partial, e));
    }
    let imports = field_names(&js.packages, true);
    if imports.len() > 0 {
        partial = true;
        let listed = join_strings(&imports, ", ");
        let e = concat3(
            "Imports field (# aliases) found in: ",
            listed.as_str(),
            ". Internal import aliases are not resolved in POC.",
        );
        details.push(detail("package.json imports (#imports)".to_owned(), SupportStatus::Partial, e));
    }
    if modules_are_mixed(&js.packages) {
        partial = true;
        details.push(
            detail(
                "Mixed ESM/CJS modules".to_owned(),
                SupportStatus::Partial,
                "Mixed module types detected (some ESM, some CJS). Per-package resolution profiles are not available in POC — workspace-level profile used.".to_owned(),
            ),
        );
    }
    assert(details_view(details@) =~= d0 + ts_package_details(*js));
    partial
}

/// The compatibility assessment of the workspace for TypeScript:
/// unsupported without JS metadata; otherwise the details of
/// [`ts_details`] with the status of [`ts_status`].
pub fn ts_compatibility(workspace: &WorkspaceInfo) -> (a: CompatibilityAssessment)
    ensures
        a.language == Language::TypeScript,
        match workspace.js {
            None => a.status == SupportStatus::Unsupported && details_view(a.details@)
                == no_js_details(),
            Some(js) => a.status == ts_status(js) && details_view(a.details@) == ts_details(js),
        },
{
    let js = match &workspace.js {
        Some(j) => j,
        None => {
            let mut details = Vec::new();
            details.push(
                detail(
                    "JS/TS workspace".to_owned(),
                    SupportStatus::Unsupported,
                    "No JS/TS workspace detected (no package.json with workspaces or pnpm-workspace.yaml)".to_owned(),
                ),
            );
            assert(details_view(details@) =~= no_js_details());
            return CompatibilityAssessment {
                language: Language::TypeScript,
                status: SupportStatus::Unsupported,
                details,
            };
        },
    };
    let mut details: Vec<CompatibilityDetail> = Vec::new();
    push_head_details(js, &mut details);
    let has_unsupported = push_pnp_details(js, &mut details);
    let tsconfig_partial = push_tsconfig_details(js, &mut details);
    let package_partial = push_package_details(js, &mut details);
    let ghost d = details_view(details@);
    details.push(
        detail(
            "Import/export parsing".to_owned(),
            SupportStatus::Supported,
            "value vs type-only import classification via tree-sitter — will be available after full scan".to_owned(),
        ),
    );
    assert(details_view(details@) =~= d + ts_tail_details());
    assert(details_view(details@) =~= ts_details(*js));
    let status = if has_unsupported {
        SupportStatus::Unsupported
    } else if tsconfig_partial || package_partial {
        SupportStatus::Partial
    } else {
        SupportStatus::Supported
    };
    CompatibilityAssessment { language: Language::TypeScript, status, details }
}

impl Detector for TypeScriptDetector {
    fn name(&self) -> (n: &'static str)
        ensures
            n@ == "typescript-imports"@,
    {
        "typescript-imports"
    }

    fn language(&self) -> (l: Language)
        ensures
            l == Language::TypeScript,
    {
        Language::TypeScript
    }

    fn applies_to(&self, workspace: &WorkspaceInfo) -> (b: bool)
        ensures
            b == workspace.js is Some,
    {
        workspace.js.is_some()
    }

    fn compatibility(&self, workspace: &WorkspaceInfo) -> (a: CompatibilityAssessment)
        ensures
            a.language == Language::TypeScript,
            match workspace.js {
                None => a.status == SupportStatus::Unsupported && details_view(a.details@)
                    == no_js_details(),
                Some(js) => a.status == ts_status(js) && details_view(a.details@) == ts_details(js),
            },
    {
        ts_compatibility(workspace)
    }
}

// ---------------------------------------------------------------------------
// Package topology
// ---------------------------------------------------------------------------

/// The key of the TypeScript package at relative directory `rel`.
pub open spec fn ts_package_key(rel: Seq<char>) -> KeyView {
    key_of(Language::TypeScript, EntityKind::Package, rel)
}

/// The relative directory of the last package named `name`, if any
/// (packages are looked up by name, so a later one takes the place of an
/// earlier one).
pub open spec fn path_of_name(pkgs: Seq<JsPackageInfo>, name: Seq<char>) -> Option<Seq<char>>
    decreases pkgs.len(),
{
    if pkgs.len() == 0 {
        None
    } else if pkgs.last().name@ == name {
        Some(pkgs.last().relative_path@)
    } else {
        path_of_name(pkgs.drop_last(), name)
    }
}

/// The relative directory of the last package named `name`, if any.
fn find_path_of_name(pkgs: &Vec<JsPackageInfo>, name: &str) -> (r: Option<String>)
    ensures
        opt_view(r) == path_of_name(pkgs@, name@),
{
    let mut i: usize = pkgs.len();
    assert(pkgs@.take(pkgs@.len() as int) =~= pkgs@);
    while i > 0
        invariant
            i <= pkgs@.len(),
            path_of_name(pkgs@, name@) == path_of_name(pkgs@.take(i as int), name@),
        decreases i,
    {
        assert(pkgs@.take(i as int).drop_last() =~= pkgs@.take(i - 1));
        assert(pkgs@.take(i as int).last() == pkgs@[i - 1]);
        if same_text(pkgs[i - 1].name.as_str(), name) {
            return Some(pkgs[i - 1].relative_path.clone());
        }
        i = i - 1;
    }
    None
}

/// The dependencies a `package.json` declares, in order: `dependencies`
/// (normal), then `devDependencies` (dev), then `peerDependencies`
/// (normal).
pub open spec fn declared_dependencies(
    dependencies: Seq<String>,
    dev: Seq<String>,
    peer: Seq<String>,
) -> Seq<(Seq<char>, EdgeCategory)> {
    dependencies.map_values(|n: String| (n@, EdgeCategory::Normal)) + dev.map_values(
        |n: String| (n@, EdgeCategory::Dev),
    ) + peer.map_values(|n: String| (n@, EdgeCategory::Normal))
}

/// The dependencies a `package.json` declares, with their categories (see
/// [`declared_dependencies`]).
pub fn package_dependencies(dependencies: Vec<String>, dev: Vec<String>, peer: Vec<String>) -> (r: Vec<(String, EdgeCategory)>)
    ensures
        deps_view(r) == declared_dependencies(dependencies@, dev@, peer@),
{
    let mut r: Vec<(String, EdgeCategory)> = Vec::new();
    push_named(&mut r, &dependencies, EdgeCategory::Normal);
    push_named(&mut r, &dev, EdgeCategory::Dev);
    push_named(&mut r, &peer, EdgeCategory::Normal);
    assert(deps_view(r) =~= declared_dependencies(dependencies@, dev@, peer@));
    r
}

/// Appends each name with category `category`.
fn push_named(r: &mut Vec<(String, EdgeCategory)>, names: &Vec<String>, category: EdgeCategory)
    ensures
        deps_view(*final(r)) == deps_view(*old(r)) + names@.map_values(|n: String| (n@, category)),
{
    let ghost start = deps_view(*r);
    let mut i: usize = 0;
    while i < names.len()
        invariant
            i <= names@.len(),
            deps_view(*r) == start + names@.take(i as int).map_values(|n: String| (n@, category)),
        decreases names@.len() - i,
    {
        let ghost before = deps_view(*r);
        let n = names[i].clone();
        let ghost nv = n@;
        r.push((n, category));
        assert(deps_view(*r) =~= before.push((nv, category)));
        i = i + 1;
        assert(deps_view(*r) =~= start + names@.take(i as int).map_values(|n: String| (n@, category)));
    }
    assert(names@.take(i as int) =~= names@);
}

/// The package node of a JS package.
pub open spec fn ts_package_node_view(p: JsPackageInfo) -> NodeView {
    NodeView {
        key: ts_package_key(p.relative_path@),
        lineage: None,
        label: p.name@,
        kind: NodeKind::Package,
        language: Language::TypeScript,
        parent: None,
    }
}

/// The finding for a package whose `package.json` has `exports`
/// conditions, where it has them.
pub open spec fn exports_constructs(p: JsPackageInfo) -> Seq<ConstructView> {
    if p.has_exports_field {
        seq![
            ConstructView {
                construct_type: UnsupportedConstructType::ExportsCondition,
                location: LocationView {
                    path: path_join(p.relative_path@, "package.json"@),
                    start_line: 1,
                    end_line: 1,
                },
                impact: "package.json exports conditions in "@ + p.name@
                    + " — condition-based resolution not evaluated in POC"@,
                how_to_address: "Imports resolve to the package root; subpath exports are not followed"@,
            },
        ]
    } else {
        Seq::empty()
    }
}

/// The findings for the packages of `prefix`, in order.
pub open spec fn ts_topology_constructs(prefix: Seq<JsPackageInfo>) -> Seq<ConstructView>
    decreases prefix.len(),
{
    if prefix.len() == 0 {
        Seq::empty()
    } else {
        ts_topology_constructs(prefix.drop_last()) + exports_constructs(prefix.last())
    }
}

/// The dependency edge from package `p` to the package at `target` in
/// category `category`.
pub open spec fn ts_dependency_edge_view(p: JsPackageInfo, target: Seq<char>, category: EdgeCategory) -> EdgeView {
    let s = ts_package_key(p.relative_path@);
    let t = ts_package_key(target);
    EdgeView {
        edge_id: edge_id_of(s, t, EdgeKind::DependsOn, category),
        source: s,
        target: t,
        kind: EdgeKind::DependsOn,
        category,
        confidence: Confidence::StructureOnly,
        location: None,
        resolution_method: Some("package.json"@),
        overlay: OverlayView::Unaffected,
    }
}

/// The dependency edges of package `p` for declared dependencies `deps`:
/// one per dependency on a workspace package, in order.
pub open spec fn ts_dep_edges(
    pkgs: Seq<JsPackageInfo>,
    p: JsPackageInfo,
    deps: Seq<(Seq<char>, EdgeCategory)>,
) -> Seq<EdgeView>
    decreases deps.len(),
{
    if deps.len() == 0 {
        Seq::empty()
    } else {
        let rest = ts_dep_edges(pkgs, p, deps.drop_last());
        match path_of_name(pkgs, deps.last().0) {
            Some(t) => rest.push(ts_dependency_edge_view(p, t, deps.last().1)),
            None => rest,
        }
    }
}

/// The view of declared dependencies.
pub open spec fn deps_view(d: Vec<(String, EdgeCategory)>) -> Seq<(Seq<char>, EdgeCategory)> {
    d@.map_values(|x: (String, EdgeCategory)| (x.0@, x.1))
}

/// The dependency edges of the first `n` packages, in order.
pub open spec fn ts_topology_edges(
    pkgs: Seq<JsPackageInfo>,
    deps: Seq<Vec<(String, EdgeCategory)>>,
    n: int,
) -> Seq<EdgeView>
    decreases n,
{
    if n <= 0 {
        Seq::empty()
    } else {
        ts_topology_edges(pkgs, deps, n - 1) + ts_dep_edges(pkgs, pkgs[n - 1], deps_view(deps[n - 1]))
    }
}

/// Appends the dependency edges of package `pkgs[i]`.
fn push_ts_dependency_edges(
    pkgs: &Vec<JsPackageInfo>,
    i: usize,
    deps: &Vec<(String, EdgeCategory)>,
    edges: &mut Vec<EdgeData>,
)
    requires
        i < pkgs@.len(),
    ensures
        edge_views(final(edges)@) == edge_views(old(edges)@) + ts_dep_edges(
            pkgs@,
            pkgs@[i as int],
            deps_view(*deps),
        ),
{
    let p = &pkgs[i];
    let key = MaterializedKey::new(Language::TypeScript, EntityKind::Package, p.relative_path.as_str());
    let ghost start = edge_views(edges@);
    let mut j: usize = 0;
    while j < deps.len()
        invariant
            i < pkgs@.len(),
            *p == pkgs@[i as int],
            key@ == ts_package_key(p.relative_path@),
            j <= deps@.len(),
            edge_views(edges@) == start + ts_dep_edges(pkgs@, *p, deps_view(*deps).take(j as int)),
        decreases deps@.len() - j,
    {
        let d = &deps[j];
        assert(deps_view(*deps).take(j + 1).drop_last() =~= deps_view(*deps).take(j as int));
        assert(deps_view(*deps).take(j + 1).last() == (d.0@, d.1));
        match find_path_of_name(pkgs, d.0.as_str()) {
            Some(target_path) => {
                let target_key = MaterializedKey::new(
                    Language::TypeScript,
                    EntityKind::Package,
                    target_path.as_str(),
                );
                let e = EdgeData {
                    edge_id: EdgeId::new(&key, &target_key, EdgeKind::DependsOn, d.1),
                    source_key: key.clone(),
                    target_key,
                    kind: EdgeKind::DependsOn,
                    category: d.1,
                    confidence: Confidence::StructureOnly,
                    source_location: None,
                    resolution_method: Some("package.json".to_owned()),
                    overlay_status: OverlayStatus::Unaffected,
                };
                proof {
                    lemma_edge_views_push(edges@, e);
                }
                edges.push(e);
            },
            None => {},
        }
        j = j + 1;
    }
    assert(deps_view(*deps).take(deps@.len() as int) =~= deps_view(*deps));
}

/// Package nodes and inter-package dependency edges of a JS workspace:
/// one package node per package, one `DependsOn` edge per declared
/// dependency (`deps[i]` are those of package `i`) on a workspace package,
/// and a finding per package with `exports` conditions, appended to the
/// report.
pub fn detect_ts_package_topology(
    js: &JsWorkspaceMeta,
    deps: &Vec<Vec<(String, EdgeCategory)>>,
    report: &mut DetectorReport,
) -> (r: Result<(Vec<NodeData>, Vec<EdgeData>), DetectorError>)
    requires
        deps@.len() == js.packages@.len(),
    ensures
        r matches Ok((nodes, edges)) && nodes@.len() == js.packages@.len() && (forall|i: int|
            0 <= i < nodes@.len() ==> #[trigger] nodes@[i]@ == ts_package_node_view(js.packages@[i]))
            && edge_views(edges@) == ts_topology_edges(js.packages@, deps@, js.packages@.len() as int),
        construct_views(final(report).unsupported_constructs@) == construct_views(
            old(report).unsupported_constructs@,
        ) + ts_topology_constructs(js.packages@),
        final(report).nodes_discovered == old(report).nodes_discovered,
        final(report).edges_discovered == old(report).edges_discovered,
        final(report).parse_failures == old(report).parse_failures,
        final(report).unresolved_imports == old(report).unresolved_imports,
{
    let pkgs = &js.packages;
    let mut nodes: Vec<NodeData> = Vec::new();
    let mut edges: Vec<EdgeData> = Vec::new();
    let ghost start = construct_views(report.unsupported_constructs@);
    let mut i: usize = 0;
    while i < pkgs.len()
        invariant
            i <= pkgs@.len(),
            pkgs == js.packages,
            deps@.len() == pkgs@.len(),
            nodes@.len() == i,
            forall|k: int| 0 <= k < i ==> #[trigger] nodes@[k]@ == ts_package_node_view(pkgs@[k]),
            edge_views(edges@) == ts_topology_edges(pkgs@, deps@, i as int),
            construct_views(report.unsupported_constructs@) == start + ts_topology_constructs(
                pkgs@.take(i as int),
            ),
            report.nodes_discovered == old(report).nodes_discovered,
            report.edges_discovered == old(report).edges_discovered,
            report.parse_failures == old(report).parse_failures,
            report.unresolved_imports == old(report).unresolved_imports,
        decreases pkgs@.len() - i,
    {
        let p = &pkgs[i];
        let key = MaterializedKey::new(Language::TypeScript, EntityKind::Package, p.relative_path.as_str());
        nodes.push(
            NodeData {
                materialized_key: key,
                lineage_key: None,
                label: p.name.clone(),
                kind: NodeKind::Package,
                language: Language::TypeScript,
                parent_key: None,
            },
        );
        if p.has_exports_field {
            let c = UnsupportedConstruct {
                construct_type: UnsupportedConstructType::ExportsCondition,
                location: SourceLocation {
                    path: join_path(p.relative_path.as_str(), "package.json"),
                    start_line: 1,
                    end_line: 1,
                },
                impact: concat3(
                    "package.json exports conditions in ",
                    p.name.as_str(),
                    " — condition-based resolution not evaluated in POC",
                ),
                how_to_address: "Imports resolve to the package root; subpath exports are not followed".to_owned(),
            };
            proof {
                lemma_construct_views_push(report.unsupported_constructs@, c);
            }
            report.unsupported_constructs.push(c);
        }
        assert(pkgs@.take(i + 1).drop_last() =~= pkgs@.take(i as int));
        assert(pkgs@.take(i + 1).last() == *p);
        push_ts_dependency_edges(pkgs, i, &deps[i], &mut edges);
        i = i + 1;
    }
    assert(pkgs@.take(pkgs@.len() as int) =~= pkgs@);
    Ok((nodes, edges))
}

// ---------------------------------------------------------------------------
// Import resolution
// ---------------------------------------------------------------------------

/// A tsconfig `paths` entry: the pattern split at its first `*` (prefix and
/// suffix; a pattern without `*` is all prefix) and its replacement
/// templates.
#[derive(Debug, Clone, PartialEq, Eq)]
pub struct PathMapping {
    pub prefix: String,
    pub suffix: String,
    pub replacements: Vec<String>,
}

/// The index of the first `c` in `s` (the length where there is none).
pub open spec fn first_index_of(s: Seq<char>, c: char) -> int
    decreases s.len(),
{
    if s.len() == 0 {
        0
    } else if s[0] == c {
        0
    } else {
        1 + first_index_of(s.drop_first(), c)
    }
}

proof fn lemma_first_index_of(s: Seq<char>, c: char)
    ensures
        0 <= first_index_of(s, c) <= s.len(),
        first_index_of(s, c) < s.len() <==> s.contains(c),
        first_index_of(s, c) < s.len() ==> s[first_index_of(s, c)] == c,
    decreases s.len(),
{
    if s.len() > 0 && s[0] != c {
        lemma_first_index_of(s.drop_first(), c);
        if s.contains(c) {
            let k = choose|k: int| 0 <= k < s.len() && s[k] == c;
            assert(s.drop_first()[k - 1] == c);
        }
        if s.drop_first().contains(c) {
            let k = choose|k: int| 0 <= k < s.drop_first().len() && s.drop_first()[k] == c;
            assert(s[k + 1] == c);
        }
    } else if s.len() > 0 {
        assert(s[0] == c);
    }
}

/// Builds a `paths` entry from its pattern and replacement templates.
pub fn path_mapping(pattern: &str, replacements: Vec<String>) -> (m: PathMapping)
    ensures
        pattern@.contains('*') ==> m.prefix@ == pattern@.take(first_index_of(pattern@, '*'))
            && m.suffix@ == pattern@.skip(first_index_of(pattern@, '*') + 1),
        !pattern@.contains('*') ==> m.prefix@ == pattern@ && m.suffix@.len() == 0,
        m.replacements == replacements,
{
    let cs = chars_of(pattern);
    proof {
        lemma_first_index_of(pattern@, '*');
    }
    let mut k: usize = 0;
    assert(pattern@.skip(0) =~= pattern@);
    while k < cs.len() && cs[k] != '*'
        invariant
            k <= cs@.len(),
            cs@ == pattern@,
            forall|j: int| 0 <= j < k ==> cs@[j] != '*',
            first_index_of(pattern@, '*') == k + first_index_of(pattern@.skip(k as int), '*'),
        decreases cs@.len() - k,
    {
        assert(pattern@.skip(k as int).drop_first() =~= pattern@.skip(k + 1));
        k = k + 1;
    }
    if k < cs.len() {
        assert(pattern@.skip(k as int)[0] == '*');
        let prefix = prefix_string(&cs, k);
        let suffix = substring(pattern, k + 1, cs.len());
        assert(pattern@.subrange(k + 1, pattern@.len() as int) =~= pattern@.skip(k + 1));
        PathMapping { prefix, suffix, replacements }
    } else {
        assert(!pattern@.contains('*')) by {
            if pattern@.contains('*') {
                let j = choose|j: int| 0 <= j < pattern@.len() && pattern@[j] == '*';
                assert(cs@[j] != '*');
            }
        }
        PathMapping { prefix: pattern.to_owned(), suffix: String::new(), replacements }
    }
}

/// Resolves import specifiers: workspace package names, tsconfig `paths`
/// aliases, relative paths and `baseUrl`, each probed with the usual
/// extensions. Conditions of `exports`/`imports`, PnP, project references
/// and `node_modules` are not resolved.
#[derive(Debug, Clone, PartialEq, Eq)]
pub struct TsConfigResolver {
    /// `compilerOptions.baseUrl`, resolved against the tsconfig directory.
    pub base_url: Option<String>,
    /// `compilerOptions.paths`, in the order read.
    pub paths: Vec<PathMapping>,
    /// Workspace package names and their directories, in package order.
    pub workspace_packages: Vec<(String, String)>,
}

impl TsConfigResolver {
    /// A resolver for a JS workspace rooted at `workspace_root`: package
    /// directories are the packages' paths under the root; where a root
    /// tsconfig exists, `base_url` (the raw `compilerOptions.baseUrl`) is
    /// taken relative to its directory and `paths` are its `paths` entries.
    pub fn new(
        js_meta: &JsWorkspaceMeta,
        tsconfig: Option<&TsconfigInfo>,
        base_url: Option<String>,
        paths: Vec<PathMapping>,
        workspace_root: &str,
    ) -> (r: Self)
        ensures
            r.workspace_packages@.len() == js_meta.packages@.len(),
            forall|i: int|
                0 <= i < js_meta.packages@.len() ==> #[trigger] r.workspace_packages@[i].0@
                    == js_meta.packages@[i].name@ && r.workspace_packages@[i].1@ == path_join(
                    workspace_root@,
                    js_meta.packages@[i].relative_path@,
                ),
            match tsconfig {
                Some(t) => opt_view(r.base_url) == (match base_url {
                    Some(b) => Some(
                        path_join(
                            match path_parent(t.path@) {
                                Some(d) => d,
                                None => workspace_root@,
                            },
                            b@,
                        ),
                    ),
                    None => None,
                }) && r.paths == paths,
                None => r.base_url is None && r.paths@.len() == 0,
            },
    {
        let pkgs = &js_meta.packages;
        let mut workspace_packages: Vec<(String, String)> = Vec::new();
        let mut i: usize = 0;
        while i < pkgs.len()
            invariant
                i <= pkgs@.len(),
                workspace_packages@.len() == i,
                forall|k: int|
                    0 <= k < i ==> #[trigger] workspace_packages@[k].0@ == pkgs@[k].name@
                        && workspace_packages@[k].1@ == path_join(
                        workspace_root@,
                        pkgs@[k].relative_path@,
                    ),
            decreases pkgs@.len() - i,
        {
            let p = &pkgs[i];
            workspace_packages.push((p.name.clone(), join_path(workspace_root, p.relative_path.as_str())));
            i = i + 1;
        }
        match tsconfig {
            Some(t) => {
                let tsconfig_dir = match crate::paths::parent_of_path(t.path.as_str()) {
                    Some(d) => d,
                    None => workspace_root.to_owned(),
                };
                let base = match base_url {
                    Some(b) => Some(join_path(tsconfig_dir.as_str(), b.as_str())),
                    None => None,
                };
                TsConfigResolver { base_url: base, paths, workspace_packages }
            },
            None => TsConfigResolver { base_url: None, paths: Vec::new(), workspace_packages },
        }
    }
}

/// What an import resolves to.
#[derive(Debug, Clone, PartialEq, Eq)]
pub enum ResolveResult {
    /// A workspace package.
    Package(MaterializedKey),
    /// A source file.
    File(MaterializedKey),
    /// Nothing, with the reason.
    Unresolved(String),
}

/// How an import is resolved: at once to a workspace package, or to the
/// first of `candidates` that is an existing file (relative to the root),
/// and where none is, unresolved with `fallback` as the reason.
#[derive(Debug, Clone, PartialEq, Eq)]
pub enum ResolvePlan {
    Package(MaterializedKey),
    Probe { candidates: Vec<String>, fallback: String },
}

/// The suffixes tried after a specifier, in order.
pub open spec fn probe_suffixes() -> Seq<Seq<char>> {
    seq![
        ".ts"@,
        ".tsx"@,
        ".js"@,
        ".jsx"@,
        "/index.ts"@,
        "/index.tsx"@,
        "/index.js"@,
        "/index.jsx"@,
    ]
}

/// A specifier without one leading `./`.
pub open spec fn clean_specifier(spec: Seq<char>) -> Seq<char> {
    if is_prefix("./"@, spec) {
        spec.skip(2)
    } else {
        spec
    }
}

/// The files tried for `spec` in `base`: the specifier (without a leading
/// `./`) with each suffix, joined to `base`.
pub open spec fn probe_candidates(base: Seq<char>, spec: Seq<char>) -> Seq<Seq<char>> {
    probe_suffixes().map_values(|ext: Seq<char>| path_join(base, clean_specifier(spec) + ext))
}

/// Whether a specifier matches a `paths` pattern.
pub open spec fn mapping_matches(m: PathMapping, spec: Seq<char>) -> bool {
    &&& is_prefix(m.prefix@, spec)
    &&& (m.suffix@.len() == 0 || is_suffix(m.suffix@, spec))
    &&& m.prefix@.len() + m.suffix@.len() <= spec.len()
}

/// What the `*` of a matching pattern captured.
pub open spec fn mapping_capture(m: PathMapping, spec: Seq<char>) -> Seq<char> {
    spec.subrange(m.prefix@.len() as int, spec.len() - m.suffix@.len())
}

/// `t` with every `*` replaced by `cap`.
pub open spec fn replace_star(t: Seq<char>, cap: Seq<char>) -> Seq<char>
    decreases t.len(),
{
    if t.len() == 0 {
        Seq::empty()
    } else {
        replace_star(t.drop_last(), cap) + (if t.last() == '*' {
            cap
        } else {
            seq![t.last()]
        })
    }
}

/// The files tried through the templates `templates` of a matching
/// pattern, in order.
pub open spec fn template_candidates(templates: Seq<String>, cap: Seq<char>, base: Seq<char>) -> Seq<Seq<char>>
    decreases templates.len(),
{
    if templates.len() == 0 {
        Seq::empty()
    } else {
        template_candidates(templates.drop_last(), cap, base) + probe_candidates(
            base,
            replace_star(templates.last()@, cap),
        )
    }
}

/// The files tried through the `paths` entries `ms` that match, in order.
pub open spec fn mapping_candidates(ms: Seq<PathMapping>, spec: Seq<char>, base: Seq<char>) -> Seq<Seq<char>>
    decreases ms.len(),
{
    if ms.len() == 0 {
        Seq::empty()
    } else {
        mapping_candidates(ms.drop_last(), spec, base) + (if mapping_matches(ms.last(), spec) {
            template_candidates(ms.last().replacements@, mapping_capture(ms.last(), spec), base)
        } else {
            Seq::empty()
        })
    }
}

/// Whether a specifier is relative (`./` or `../`).
pub open spec fn is_relative_specifier(spec: Seq<char>) -> bool {
    is_prefix("./"@, spec) || is_prefix("../"@, spec)
}

/// The reason given where nothing matched: an external package for a
/// scoped or single-segment specifier or one through `node_modules`, else
/// an unresolvable specifier; for a relative specifier, no matching file.
pub open spec fn unresolved_message(spec: Seq<char>) -> Seq<char> {
    if is_relative_specifier(spec) {
        "no matching file for relative import: "@ + spec
    } else if is_prefix("@"@, spec) || !spec.contains('/') || has_infix("node_modules"@, spec) {
        "external package (not in workspace): "@ + spec
    } else {
        "could not resolve specifier: "@ + spec
    }
}

/// The first workspace package whose name is `spec` or a prefix of it
/// followed by `/`... as a directory; `exact` lookups take the package
/// entered last.
pub open spec fn package_exact(pkgs: Seq<(String, String)>, spec: Seq<char>) -> Option<Seq<char>>
    decreases pkgs.len(),
{
    if pkgs.len() == 0 {
        None
    } else if pkgs.last().0@ == spec {
        Some(pkgs.last().1@)
    } else {
        package_exact(pkgs.drop_last(), spec)
    }
}

/// The directory of the first workspace package (in package order) whose
/// name followed by `/` begins the specifier.
pub open spec fn package_prefix(pkgs: Seq<(String, String)>, spec: Seq<char>) -> Option<Seq<char>>
    decreases pkgs.len(),
{
    if pkgs.len() == 0 {
        None
    } else if is_prefix(pkgs[0].0@ + "/"@, spec) {
        Some(pkgs[0].1@)
    } else {
        package_prefix(pkgs.drop_first(), spec)
    }
}

/// How the resolver treats `spec` imported from `from_file`: a workspace
/// package by exact name, then by name prefix; otherwise the files tried,
/// in order, through the `paths` entries (relative to `baseUrl`, else the
/// root), then relative to the importing file's directory (the specifier
/// as written, then with each suffix) for a relative specifier, else
/// relative to `baseUrl` where there is one.
pub open spec fn resolve_plan(r: TsConfigResolver, spec: Seq<char>, from_file: Seq<char>, root: Seq<char>) -> (
    Option<KeyView>,
    Seq<Seq<char>>,
    Seq<char>,
) {
    let pkgs = r.workspace_packages@;
    match package_exact(pkgs, spec) {
        Some(dir) => (Some(ts_package_key(relative_to(dir, root))), Seq::empty(), Seq::empty()),
        None => match package_prefix(pkgs, spec) {
            Some(dir) => (Some(ts_package_key(relative_to(dir, root))), Seq::empty(), Seq::empty()),
            None => {
                let mapping_base = match r.base_url {
                    Some(b) => b@,
                    None => root,
                };
                let from_dir = parent_dir(from_file);
                let rest = if is_relative_specifier(spec) {
                    seq![path_join(from_dir, spec)] + probe_candidates(from_dir, spec)
                } else {
                    match r.base_url {
                        Some(b) => probe_candidates(b@, spec),
                        None => Seq::empty(),
                    }
                };
                (None, mapping_candidates(r.paths@, spec, mapping_base) + rest, unresolved_message(spec))
            },
        },
    }
}

/// The directory `package_exact` finds is that of the last package named
/// exactly `spec`; it finds none where no package has that name.
proof fn lemma_package_exact(pkgs: Seq<(String, String)>, spec: Seq<char>)
    ensures
        package_exact(pkgs, spec) is None <==> forall|k: int| 0 <= k < pkgs.len() ==> (#[trigger] pkgs[k]).0@ != spec,
        package_exact(pkgs, spec) matches Some(d) ==> exists|k: int|
            0 <= k < pkgs.len() && (#[trigger] pkgs[k]).0@ == spec && pkgs[k].1@ == d && forall|l: int|
                k < l < pkgs.len() ==> (#[trigger] pkgs[l]).0@ != spec,
    decreases pkgs.len(),
{
    if pkgs.len() > 0 {
        let init = pkgs.drop_last();
        let last = pkgs.len() - 1;
        lemma_package_exact(init, spec);
        assert(pkgs[last] == pkgs.last());
        if pkgs.last().0@ != spec {
            if let Some(d) = package_exact(init, spec) {
                let k = choose|k: int|
                    0 <= k < init.len() && (#[trigger] init[k]).0@ == spec && init[k].1@ == d && forall|l: int|
                        k < l < init.len() ==> (#[trigger] init[l]).0@ != spec;
                assert(pkgs[k] == init[k]);
                assert forall|l: int| k < l < pkgs.len() implies (#[trigger] pkgs[l]).0@ != spec by {
                    if l < last {
                        assert(init[l] == pkgs[l]);
                    }
                }
            }
            if forall|k: int| 0 <= k < init.len() ==> (#[trigger] init[k]).0@ != spec {
                assert forall|k: int| 0 <= k < pkgs.len() implies (#[trigger] pkgs[k]).0@ != spec by {
                    if k < last {
                        assert(init[k] == pkgs[k]);
                    }
                }
            } else {
                let k = choose|k: int| !(0 <= k < init.len() ==> (#[trigger] init[k]).0@ != spec);
                assert(pkgs[k] == init[k]);
            }
        }
    }
}

/// The directory `package_prefix` finds is that of the first package whose
/// name followed by `/` begins `spec`; it finds none where no package's
/// does.
proof fn lemma_package_prefix(pkgs: Seq<(String, String)>, spec: Seq<char>)
    ensures
        package_prefix(pkgs, spec) is None <==> forall|k: int|
            0 <= k < pkgs.len() ==> !is_prefix((#[trigger] pkgs[k]).0@ + "/"@, spec),
        package_prefix(pkgs, spec) matches Some(d) ==> exists|k: int|
            0 <= k < pkgs.len() && is_prefix((#[trigger] pkgs[k]).0@ + "/"@, spec) && pkgs[k].1@ == d && forall|l: int|
                0 <= l < k ==> !is_prefix((#[trigger] pkgs[l]).0@ + "/"@, spec),
    decreases pkgs.len(),
{
    if pkgs.len() > 0 {
        let rest = pkgs.drop_first();
        lemma_package_prefix(rest, spec);
        if !is_prefix(pkgs[0].0@ + "/"@, spec) {
            if let Some(d) = package_prefix(rest, spec) {
                let k = choose|k: int|
                    0 <= k < rest.len() && is_prefix((#[trigger] rest[k]).0@ + "/"@, spec) && rest[k].1@ == d && forall|l: int|
                        0 <= l < k ==> !is_prefix((#[trigger] rest[l]).0@ + "/"@, spec);
                assert(pkgs[k + 1] == rest[k]);
                assert forall|l: int| 0 <= l < k + 1 implies !is_prefix((#[trigger] pkgs[l]).0@ + "/"@, spec) by {
                    if l > 0 {
                        assert(rest[l - 1] == pkgs[l]);
                    }
                }
            }
            if forall|k: int| 0 <= k < rest.len() ==> !is_prefix((#[trigger] rest[k]).0@ + "/"@, spec) {
                assert forall|k: int| 0 <= k < pkgs.len() implies !is_prefix((#[trigger] pkgs[k]).0@ + "/"@, spec) by {
                    if k > 0 {
                        assert(rest[k - 1] == pkgs[k]);
                    }
                }
            } else {
                let k = choose|k: int| !(0 <= k < rest.len() ==> !is_prefix((#[trigger] rest[k]).0@ + "/"@, spec));
                assert(pkgs[k + 1] == rest[k]);
            }
        } else {
            assert forall|l: int| 0 <= l < 0 implies !is_prefix((#[trigger] pkgs[l]).0@ + "/"@, spec) by {}
        }
    }
}

/// A specifier that is the name of a workspace package resolves to that
/// package (the last one entered under the name); one that is not, but
/// begins with a package's name and `/`, resolves to the first such
/// package; either way nothing is probed. A specifier that names no
/// package in either way resolves to no package.
pub proof fn lemma_package_specifier_plan(r: TsConfigResolver, spec: Seq<char>, from_file: Seq<char>, root: Seq<char>)
    ensures
        (exists|k: int| 0 <= k < r.workspace_packages@.len() && (#[trigger] r.workspace_packages@[k]).0@ == spec)
            ==> exists|k: int|
            0 <= k < r.workspace_packages@.len() && (#[trigger] r.workspace_packages@[k]).0@ == spec
                && resolve_plan(r, spec, from_file, root) == (
                Some(ts_package_key(relative_to(r.workspace_packages@[k].1@, root))),
                Seq::<Seq<char>>::empty(),
                Seq::<char>::empty(),
            ),
        (forall|k: int| 0 <= k < r.workspace_packages@.len() ==> (#[trigger] r.workspace_packages@[k]).0@ != spec)
            && (exists|k: int|
            0 <= k < r.workspace_packages@.len() && is_prefix((#[trigger] r.workspace_packages@[k]).0@ + "/"@, spec))
            ==> exists|k: int|
            0 <= k < r.workspace_packages@.len() && is_prefix((#[trigger] r.workspace_packages@[k]).0@ + "/"@, spec)
                && (forall|l: int|
                0 <= l < k ==> !is_prefix((#[trigger] r.workspace_packages@[l]).0@ + "/"@, spec))
                && resolve_plan(r, spec, from_file, root) == (
                Some(ts_package_key(relative_to(r.workspace_packages@[k].1@, root))),
                Seq::<Seq<char>>::empty(),
                Seq::<char>::empty(),
            ),
        (forall|k: int| 0 <= k < r.workspace_packages@.len() ==> (#[trigger] r.workspace_packages@[k]).0@ != spec)
            && (forall|k: int|
            0 <= k < r.workspace_packages@.len() ==> !is_prefix((#[trigger] r.workspace_packages@[k]).0@ + "/"@, spec))
            ==> resolve_plan(r, spec, from_file, root).0 is None,
{
    let pkgs = r.workspace_packages@;
    lemma_package_exact(pkgs, spec);
    lemma_package_prefix(pkgs, spec);
    if exists|k: int| 0 <= k < pkgs.len() && (#[trigger] pkgs[k]).0@ == spec {
        let k = choose|k: int| 0 <= k < pkgs.len() && (#[trigger] pkgs[k]).0@ == spec;
        assert(package_exact(pkgs, spec) is Some);
    }
    if (forall|k: int| 0 <= k < pkgs.len() ==> (#[trigger] pkgs[k]).0@ != spec) && (exists|k: int|
        0 <= k < pkgs.len() && is_prefix((#[trigger] pkgs[k]).0@ + "/"@, spec)) {
        let k = choose|k: int| 0 <= k < pkgs.len() && is_prefix((#[trigger] pkgs[k]).0@ + "/"@, spec);
        assert(package_prefix(pkgs, spec) is Some);
    }
}

/// A specifier starting with `./` or `../` that names no workspace package
/// is looked for beside the importing file: after the files that the
/// `paths` entries give, the files tried are the importing file's
/// directory joined with the specifier as written, then with each probed
/// suffix; where none exists it is reported as a relative import with no
/// matching file. `../` is treated exactly as `./` is.
pub proof fn lemma_relative_specifier_plan(r: TsConfigResolver, spec: Seq<char>, from_file: Seq<char>, root: Seq<char>)
    requires
        is_prefix("./"@, spec) || is_prefix("../"@, spec),
        package_exact(r.workspace_packages@, spec) is None,
        package_prefix(r.workspace_packages@, spec) is None,
    ensures
        resolve_plan(r, spec, from_file, root).0 is None,
        resolve_plan(r, spec, from_file, root).1 == mapping_candidates(
            r.paths@,
            spec,
            match r.base_url {
                Some(b) => b@,
                None => root,
            },
        ) + seq![path_join(parent_dir(from_file), spec)] + probe_candidates(parent_dir(from_file), spec),
        resolve_plan(r, spec, from_file, root).1.contains(path_join(parent_dir(from_file), spec)),
        resolve_plan(r, spec, from_file, root).2 == "no matching file for relative import: "@ + spec,
{
    let plan = resolve_plan(r, spec, from_file, root);
    let base = match r.base_url {
        Some(b) => b@,
        None => root,
    };
    let m = mapping_candidates(r.paths@, spec, base);
    assert(plan.1 == m + (seq![path_join(parent_dir(from_file), spec)] + probe_candidates(parent_dir(from_file), spec)));
    assert(plan.1 =~= m + seq![path_join(parent_dir(from_file), spec)] + probe_candidates(parent_dir(from_file), spec));
    assert(plan.1[m.len() as int] == path_join(parent_dir(from_file), spec));
}

/// The view of a resolution plan.
pub open spec fn plan_view(p: ResolvePlan) -> (Option<KeyView>, Seq<Seq<char>>, Seq<char>) {
    match p {
        ResolvePlan::Package(k) => (Some(k@), Seq::empty(), Seq::empty()),
        ResolvePlan::Probe { candidates, fallback } => (
            None,
            candidates@.map_values(|c: String| c@),
            fallback@,
        ),
    }
}

/// The views of a list of strings.
pub open spec fn strings_view(v: Seq<String>) -> Seq<Seq<char>> {
    v.map_values(|c: String| c@)
}

/// Appends the files tried for `spec` in `base`.
fn push_probe_candidates(base: &str, spec: &str, out: &mut Vec<String>)
    ensures
        strings_view(final(out)@) == strings_view(old(out)@) + probe_candidates(base@, spec@),
{
    proof {
        reveal_strlit("./");
    }
    let clean = if starts_with(spec, "./") {
        substring(spec, 2, chars_of(spec).len())
    } else {
        spec.to_owned()
    };
    proof {
        if is_prefix("./"@, spec@) {
            assert(spec@.subrange(2, spec@.len() as int) =~= spec@.skip(2));
        }
    }
    let ghost start = strings_view(out@);
    let exts: [&str; 8] = [".ts", ".tsx", ".js", ".jsx", "/index.ts", "/index.tsx", "/index.js", "/index.jsx"];
    let mut i: usize = 0;
    while i < 8
        invariant
            i <= 8,
            clean@ == clean_specifier(spec@),
            exts@.map_values(|e: &str| e@) == probe_suffixes(),
            strings_view(out@) == start + probe_candidates(base@, spec@).take(i as int),
        decreases 8 - i,
    {
        let mut name = clean.clone();
        push_all(&mut name, exts[i]);
        let c = join_path(base, name.as_str());
        let ghost before = strings_view(out@);
        out.push(c);
        assert(strings_view(out@) =~= before.push(c@));
        assert(exts@.map_values(|e: &str| e@)[i as int] == exts@[i as int]@);
        assert(probe_candidates(base@, spec@).take(i + 1) =~= probe_candidates(base@, spec@).take(
            i as int,
        ).push(c@));
        i = i + 1;
    }
    assert(probe_candidates(base@, spec@).take(8) =~= probe_candidates(base@, spec@));
}

/// `t` with every `*` replaced by `cap`.
fn replace_stars(t: &str, cap: &str) -> (r: String)
    ensures
        r@ == replace_star(t@, cap@),
{
    let cs = chars_of(t);
    let mut r = String::new();
    let mut i: usize = 0;
    while i < cs.len()
        invariant
            i <= cs@.len(),
            cs@ == t@,
            r@ == replace_star(t@.take(i as int), cap@),
        decreases cs@.len() - i,
    {
        assert(t@.take(i + 1).drop_last() =~= t@.take(i as int));
        if cs[i] == '*' {
            push_all(&mut r, cap);
        } else {
            push_char(&mut r, cs[i]);
        }
        i = i + 1;
        assert(r@ =~= replace_star(t@.take(i as int), cap@));
    }
    assert(t@.take(cs@.len() as int) =~= t@);
    r
}

/// Appends the files tried through the `paths` entries that match `spec`.
fn push_mapping_candidates(paths: &Vec<PathMapping>, spec: &str, base: &str, out: &mut Vec<String>)
    ensures
        strings_view(final(out)@) == strings_view(old(out)@) + mapping_candidates(paths@, spec@, base@),
{
    let ghost start = strings_view(out@);
    let spec_len = chars_of(spec).len();
    let mut i: usize = 0;
    while i < paths.len()
        invariant
            i <= paths@.len(),
            spec_len == spec@.len(),
            strings_view(out@) == start + mapping_candidates(paths@.take(i as int), spec@, base@),
        decreases paths@.len() - i,
    {
        let m = &paths[i];
        assert(paths@.take(i + 1).drop_last() =~= paths@.take(i as int));
        assert(paths@.take(i + 1).last() == *m);
        let ghost before = strings_view(out@);
        let prefix_len = chars_of(m.prefix.as_str()).len();
        let suffix_len = chars_of(m.suffix.as_str()).len();
        let matches = starts_with(spec, m.prefix.as_str()) && (suffix_len == 0 || ends_with(
            spec,
            m.suffix.as_str(),
        )) && prefix_len <= spec_len && suffix_len <= spec_len - prefix_len;
        if matches {
            let cap = substring(spec, prefix_len, spec_len - suffix_len);
            let mut j: usize = 0;
            while j < m.replacements.len()
                invariant
                    j <= m.replacements@.len(),
                    cap@ == mapping_capture(*m, spec@),
                    strings_view(out@) == before + template_candidates(
                        m.replacements@.take(j as int),
                        cap@,
                        base@,
                    ),
                decreases m.replacements@.len() - j,
            {
                assert(m.replacements@.take(j + 1).drop_last() =~= m.replacements@.take(j as int));
                let replaced = replace_stars(m.replacements[j].as_str(), cap.as_str());
                push_probe_candidates(base, replaced.as_str(), out);
                j = j + 1;
            }
            assert(m.replacements@.take(m.replacements@.len() as int) =~= m.replacements@);
        }
        i = i + 1;
    }
    assert(paths@.take(paths@.len() as int) =~= paths@);
}

impl TsConfigResolver {
    /// The package-name lookup for an exact name (the package entered last
    /// with that name).
    fn exact_package(&self, spec: &str) -> (r: Option<String>)
        ensures
            opt_view(r) == package_exact(self.workspace_packages@, spec@),
    {
        let pkgs = &self.workspace_packages;
        let mut i: usize = pkgs.len();
        assert(pkgs@.take(pkgs@.len() as int) =~= pkgs@);
        while i > 0
            invariant
                i <= pkgs@.len(),
                pkgs@ == self.workspace_packages@,
                package_exact(pkgs@, spec@) == package_exact(pkgs@.take(i as int), spec@),
            decreases i,
        {
            assert(pkgs@.take(i as int).drop_last() =~= pkgs@.take(i - 1));
            assert(pkgs@.take(i as int).last() == pkgs@[i - 1]);
            if same_text(pkgs[i - 1].0.as_str(), spec) {
                let d = pkgs[i - 1].1.clone();
                return Some(d);
            }
            i = i - 1;
        }
        None
    }

    /// The first package whose name and `/` begin the specifier.
    fn prefix_package(&self, spec: &str) -> (r: Option<String>)
        ensures
            opt_view(r) == package_prefix(self.workspace_packages@, spec@),
    {
        let pkgs = &self.workspace_packages;
        let mut i: usize = 0;
        assert(pkgs@.skip(0) =~= pkgs@);
        while i < pkgs.len()
            invariant
                i <= pkgs@.len(),
                pkgs@ == self.workspace_packages@,
                package_prefix(pkgs@, spec@) == package_prefix(pkgs@.skip(i as int), spec@),
            decreases pkgs@.len() - i,
        {
            assert(pkgs@.skip(i as int)[0] == pkgs@[i as int]);
            assert(pkgs@.skip(i as int).drop_first() =~= pkgs@.skip(i + 1));
            let mut with_sep = pkgs[i].0.clone();
            push_char(&mut with_sep, '/');
            assert(with_sep@ =~= pkgs@[i as int].0@ + "/"@) by {
                reveal_strlit("/");
            }
            if starts_with(spec, with_sep.as_str()) {
                return Some(pkgs[i].1.clone());
            }
            i = i + 1;
        }
        None
    }

    /// Plans the resolution of `specifier` imported from `from_file` (see
    /// [`resolve_plan`]).
    pub fn resolve(&self, specifier: &str, from_file: &str, workspace_root: &str) -> (p: ResolvePlan)
        ensures
            plan_view(p) == resolve_plan(*self, specifier@, from_file@, workspace_root@),
    {
        match self.exact_package(specifier) {
            Some(dir) => {
                let rel = relative_or_self(dir.as_str(), workspace_root);
                return ResolvePlan::Package(
                    MaterializedKey::new(Language::TypeScript, EntityKind::Package, rel.as_str()),
                );
            },
            None => {},
        }
        match self.prefix_package(specifier) {
            Some(dir) => {
                let rel = relative_or_self(dir.as_str(), workspace_root);
                return ResolvePlan::Package(
                    MaterializedKey::new(Language::TypeScript, EntityKind::Package, rel.as_str()),
                );
            },
            None => {},
        }
        let mut candidates: Vec<String> = Vec::new();
        let mapping_base = match &self.base_url {
            Some(b) => b.clone(),
            None => workspace_root.to_owned(),
        };
        push_mapping_candidates(&self.paths, specifier, mapping_base.as_str(), &mut candidates);
        let ghost after_mappings = strings_view(candidates@);
        proof {
            reveal_strlit("./");
            reveal_strlit("../");
        }
        let relative = starts_with(specifier, "./") || starts_with(specifier, "../");
        let from_dir = parent_or_empty(from_file);
        if relative {
            let direct = join_path(from_dir.as_str(), specifier);
            let ghost dv = direct@;
            candidates.push(direct);
            assert(strings_view(candidates@) =~= after_mappings.push(dv));
            push_probe_candidates(from_dir.as_str(), specifier, &mut candidates);
            assert(seq![dv] + probe_candidates(from_dir@, specifier@) =~= seq![dv].add(
                probe_candidates(from_dir@, specifier@),
            ));
            assert(strings_view(candidates@) =~= after_mappings + (seq![dv] + probe_candidates(
                from_dir@,
                specifier@,
            )));
        } else {
            match &self.base_url {
                Some(b) => push_probe_candidates(b.as_str(), specifier, &mut candidates),
                None => {
                    assert(strings_view(candidates@) =~= after_mappings + Seq::<Seq<char>>::empty());
                },
            }
        }
        let fallback = unresolved_reason_text(specifier);
        ResolvePlan::Probe { candidates, fallback }
    }
}

/// The reason given where nothing matched (see [`unresolved_message`]).
fn unresolved_reason_text(spec: &str) -> (r: String)
    ensures
        r@ == unresolved_message(spec@),
{
    proof {
        reveal_strlit("./");
        reveal_strlit("../");
        reveal_strlit("@");
    }
    if starts_with(spec, "./") || starts_with(spec, "../") {
        let mut r = "no matching file for relative import: ".to_owned();
        push_all(&mut r, spec);
        r
    } else if starts_with(spec, "@") || !contains_char(spec, '/') || contains_text(spec, "node_modules") {
        let mut r = "external package (not in workspace): ".to_owned();
        push_all(&mut r, spec);
        r
    } else {
        let mut r = "could not resolve specifier: ".to_owned();
        push_all(&mut r, spec);
        r
    }
}

/// The key of the file that a probe found, relative to the root.
pub fn probed_file_key(candidate: &str, workspace_root: &str) -> (k: MaterializedKey)
    ensures
        k@ == key_of(Language::TypeScript, EntityKind::File, relative_to(candidate@, workspace_root@)),
{
    let rel = relative_or_self(candidate, workspace_root);
    MaterializedKey::new(Language::TypeScript, EntityKind::File, rel.as_str())
}

// ---------------------------------------------------------------------------
// Import, re-export, dynamic import and require() findings
// ---------------------------------------------------------------------------

/// Whether stripping quotes from `s` is defined: a trimmed text of one
/// quote character alone has no inside.
pub open spec fn quotes_strippable(s: Seq<char>) -> bool {
    !(trim_ws(s).len() == 1 && (trim_ws(s)[0] == '"' || trim_ws(s)[0] == '\''))
}

/// A string literal without its surrounding quotes (double or single) and
/// surrounding whitespace; text without matching quotes is only trimmed.
pub open spec fn stripped(s: Seq<char>) -> Seq<char> {
    let t = trim_ws(s);
    if t.len() > 0 && ((t[0] == '"' && t.last() == '"') || (t[0] == '\'' && t.last() == '\'')) {
        t.subrange(1, t.len() - 1)
    } else {
        t
    }
}

/// Strips surrounding quotes from a string literal (see [`stripped`]).
pub fn strip_quotes(s: &str) -> (r: String)
    requires
        quotes_strippable(s@),
    ensures
        r@ == stripped(s@),
{
    let t = trim(s);
    let cs = chars_of(t.as_str());
    let n = cs.len();
    if n > 0 && ((cs[0] == '"' && cs[n - 1] == '"') || (cs[0] == '\'' && cs[n - 1] == '\'')) {
        substring(t.as_str(), 1, n - 1)
    } else {
        t
    }
}

/// One item of an import clause: a default import binding (a value), a
/// named import (maybe `type`) or a namespace import (a value).
#[derive(Debug, Clone, Copy, PartialEq, Eq, Structural)]
pub enum ClauseItem {
    Default,
    Named { is_type: bool },
    Namespace,
}

/// Whether an import clause imports types only: it has items and all are
/// `type` named imports, so a default or namespace import (a value) makes
/// it import values.
pub open spec fn only_type_items(items: Seq<ClauseItem>) -> bool {
    items.len() > 0 && forall|i: int| 0 <= i < items.len() ==> #[trigger] items[i] == (ClauseItem::Named { is_type: true })
}

/// Whether an import clause imports types only (see [`only_type_items`]).
pub fn has_only_type_specifiers(items: &Vec<ClauseItem>) -> (r: bool)
    ensures
        r == only_type_items(items@),
{
    let mut all_type = true;
    let mut i: usize = 0;
    while i < items.len()
        invariant
            i <= items@.len(),
            all_type == (forall|j: int| 0 <= j < i ==> #[trigger] items@[j] == (ClauseItem::Named { is_type: true })),
        decreases items@.len() - i,
    {
        let is_type = match items[i] {
            ClauseItem::Named { is_type } => is_type,
            ClauseItem::Namespace => false,
            ClauseItem::Default => false,
        };
        all_type = all_type && is_type;
        i = i + 1;
    }
    items.len() > 0 && all_type
}

/// An import statement found in a file: its specifier (quotes stripped),
/// lines, clause items, and what the specifier resolved to.
#[derive(Debug, Clone, PartialEq, Eq)]
pub struct ImportCapture {
    pub specifier: String,
    pub start_line: u32,
    pub end_line: u32,
    pub clause: Vec<ClauseItem>,
    pub resolution: ResolveResult,
}

/// A re-export (`export ... from`) found in a file: its specifier (quotes
/// stripped, empty where none was read), lines, whether it is `export
/// type`, and what the specifier resolved to.
#[derive(Debug, Clone, PartialEq, Eq)]
pub struct ReexportCapture {
    pub specifier: String,
    pub start_line: u32,
    pub end_line: u32,
    pub type_only: bool,
    pub resolution: ResolveResult,
}

/// A string argument of `import(...)` or `require(...)` as written (with
/// its quotes), with its lines.
#[derive(Debug, Clone, PartialEq, Eq)]
pub struct CallCapture {
    pub text: String,
    pub start_line: u32,
    pub end_line: u32,
}

/// The category of an import: type-only for a specifier of some `import
/// type` statement of the file or a clause of `type` imports only; value
/// otherwise.
pub open spec fn import_category(c: ImportCapture, type_sources: Seq<Seq<char>>) -> EdgeCategory {
    if type_sources.contains(c.specifier@) || only_type_items(c.clause@) {
        EdgeCategory::TypeOnly
    } else {
        EdgeCategory::Value
    }
}

/// The edge of an import or re-export from `file_key` to `target`.
pub open spec fn ts_edge_view(
    file_key: KeyView,
    target: KeyView,
    kind: EdgeKind,
    category: EdgeCategory,
    confidence: Confidence,
    file_relative: Seq<char>,
    start_line: u32,
    end_line: u32,
    method: Seq<char>,
) -> EdgeView {
    EdgeView {
        edge_id: edge_id_of(file_key, target, kind, category),
        source: file_key,
        target,
        kind,
        category,
        confidence,
        location: Some(LocationView { path: file_relative, start_line, end_line }),
        resolution_method: Some(method),
        overlay: OverlayView::Unaffected,
    }
}

/// Why an import is unresolved, from the resolver's reason: an external
/// package, no matching file, or the reason itself.
pub open spec fn unresolved_import_reason(reason: String) -> UnresolvedReason {
    if has_infix("external package"@, reason@) {
        UnresolvedReason::ExternalPackage
    } else if has_infix("could not resolve"@, reason@) {
        UnresolvedReason::NoMatchingFile
    } else {
        UnresolvedReason::Other(reason)
    }
}

/// The import edges of the imports `caps`, in order: a resolved package
/// gives a structural edge, a resolved file a resolver-aware one.
pub open spec fn import_edges(
    caps: Seq<ImportCapture>,
    type_sources: Seq<Seq<char>>,
    file_key: KeyView,
    file_relative: Seq<char>,
) -> Seq<EdgeView>
    decreases caps.len(),
{
    if caps.len() == 0 {
        Seq::empty()
    } else {
        let rest = import_edges(caps.drop_last(), type_sources, file_key, file_relative);
        let c = caps.last();
        let cat = import_category(c, type_sources);
        match c.resolution {
            ResolveResult::Package(k) => rest.push(
                ts_edge_view(file_key, k@, EdgeKind::Imports, cat, Confidence::StructureOnly, file_relative, c.start_line, c.end_line, "workspace package"@),
            ),
            ResolveResult::File(k) => rest.push(
                ts_edge_view(file_key, k@, EdgeKind::Imports, cat, Confidence::ResolverAware, file_relative, c.start_line, c.end_line, "tsconfig path resolution"@),
            ),
            ResolveResult::Unresolved(_) => rest,
        }
    }
}

/// The unresolved-import findings of the imports `caps`, in order.
pub open spec fn import_unresolved(caps: Seq<ImportCapture>, file_relative: Seq<char>) -> Seq<UnresolvedView>
    decreases caps.len(),
{
    if caps.len() == 0 {
        Seq::empty()
    } else {
        let rest = import_unresolved(caps.drop_last(), file_relative);
        let c = caps.last();
        match c.resolution {
            ResolveResult::Unresolved(r) => rest.push(
                UnresolvedView {
                    source_file: file_relative,
                    specifier: c.specifier@,
                    reason: unresolved_import_reason(r),
                },
            ),
            _ => rest,
        }
    }
}

/// Each import that resolved gives exactly one `Imports` edge and each
/// unresolved import exactly one unresolved finding, in order: the `i`-th
/// edge belongs to the `i`-th resolved import and runs from the file to
/// the key it resolved to, structural for a workspace package and
/// resolver-aware for a file, type-only exactly where the specifier is one
/// of an `import type` statement or every clause item is a `type` import;
/// the `i`-th finding names the `i`-th unresolved import's specifier.
pub proof fn lemma_import_edge_per_resolved(
    caps: Seq<ImportCapture>,
    type_sources: Seq<Seq<char>>,
    file_key: KeyView,
    file_relative: Seq<char>,
)
    ensures
        import_edges(caps, type_sources, file_key, file_relative).len() == caps.filter(
            |c: ImportCapture| !(c.resolution is Unresolved),
        ).len(),
        import_unresolved(caps, file_relative).len() == caps.filter(|c: ImportCapture| c.resolution is Unresolved).len(),
        forall|i: int|
            0 <= i < import_edges(caps, type_sources, file_key, file_relative).len() ==> {
                let e = #[trigger] import_edges(caps, type_sources, file_key, file_relative)[i];
                let c = caps.filter(|c: ImportCapture| !(c.resolution is Unresolved))[i];
                &&& (c.resolution matches ResolveResult::Package(k) ==> k@ == e.target && e.confidence
                    == Confidence::StructureOnly)
                &&& (c.resolution matches ResolveResult::File(k) ==> k@ == e.target && e.confidence
                    == Confidence::ResolverAware)
                &&& e.source == file_key
                &&& e.kind == EdgeKind::Imports
                &&& (e.category == EdgeCategory::TypeOnly <==> (type_sources.contains(c.specifier@) || (c.clause@.len()
                    > 0 && forall|j: int| 0 <= j < c.clause@.len() ==> #[trigger] c.clause@[j] == (ClauseItem::Named {
                    is_type: true,
                }))))
                &&& e.location == Some(LocationView { path: file_relative, start_line: c.start_line, end_line: c.end_line })
            },
        forall|i: int|
            0 <= i < import_unresolved(caps, file_relative).len() ==> {
                let u = #[trigger] import_unresolved(caps, file_relative)[i];
                let c = caps.filter(|c: ImportCapture| c.resolution is Unresolved)[i];
                &&& u.source_file == file_relative
                &&& u.specifier == c.specifier@
            },
    decreases caps.len(),
{
    let pe = |c: ImportCapture| !(c.resolution is Unresolved);
    let pu = |c: ImportCapture| c.resolution is Unresolved;
    reveal(Seq::filter);
    if caps.len() > 0 {
        let init = caps.drop_last();
        lemma_import_edge_per_resolved(init, type_sources, file_key, file_relative);
        let es0 = import_edges(init, type_sources, file_key, file_relative);
        let es = import_edges(caps, type_sources, file_key, file_relative);
        let us0 = import_unresolved(init, file_relative);
        let us = import_unresolved(caps, file_relative);
        let fe0 = init.filter(pe);
        let fe = caps.filter(pe);
        let fu0 = init.filter(pu);
        let fu = caps.filter(pu);
        assert(fe == if pe(caps.last()) { fe0.push(caps.last()) } else { fe0 });
        assert(fu == if pu(caps.last()) { fu0.push(caps.last()) } else { fu0 });
        assert forall|i: int| 0 <= i < es.len() implies {
            let e = #[trigger] es[i];
            let c = fe[i];
            &&& (c.resolution matches ResolveResult::Package(k) ==> k@ == e.target && e.confidence
                == Confidence::StructureOnly)
            &&& (c.resolution matches ResolveResult::File(k) ==> k@ == e.target && e.confidence
                == Confidence::ResolverAware)
            &&& e.source == file_key
            &&& e.kind == EdgeKind::Imports
            &&& (e.category == EdgeCategory::TypeOnly <==> (type_sources.contains(c.specifier@) || (c.clause@.len()
                > 0 && forall|j: int| 0 <= j < c.clause@.len() ==> #[trigger] c.clause@[j] == (ClauseItem::Named {
                is_type: true,
            }))))
            &&& e.location == Some(LocationView { path: file_relative, start_line: c.start_line, end_line: c.end_line })
        } by {
            if i < es0.len() {
                assert(es[i] == es0[i]);
                assert(fe[i] == fe0[i]);
            }
        }
        assert forall|i: int| 0 <= i < us.len() implies {
            let u = #[trigger] us[i];
            let c = fu[i];
            &&& u.source_file == file_relative
            &&& u.specifier == c.specifier@
        } by {
            if i < us0.len() {
                assert(us[i] == us0[i]);
                assert(fu[i] == fu0[i]);
            }
        }
    }
}

/// Whether some string has the view `v`.
fn contains_view(v: &Vec<String>, s: &str) -> (r: bool)
    ensures
        r == strings_view(v@).contains(s@),
{
    let mut i: usize = 0;
    while i < v.len()
        invariant
            i <= v@.len(),
            forall|j: int| 0 <= j < i ==> #[trigger] v@[j]@ != s@,
        decreases v@.len() - i,
    {
        if same_text(v[i].as_str(), s) {
            assert(strings_view(v@)[i as int] == s@);
            return true;
        }
        i = i + 1;
    }
    assert forall|j: int| 0 <= j < strings_view(v@).len() implies strings_view(v@)[j] != s@ by {
        assert(strings_view(v@)[j] == v@[j]@);
    }
    false
}

/// Import edges of one file (see [`import_edges`]), appending its
/// unresolved imports to the report. `type_sources` are the specifiers of
/// the file's `import type` statements.
pub fn import_edges_of(
    captures: &Vec<ImportCapture>,
    type_sources: &Vec<String>,
    file_key: &MaterializedKey,
    file_relative: &str,
    edges: &mut Vec<EdgeData>,
    report: &mut DetectorReport,
)
    ensures
        edge_views(final(edges)@) == edge_views(old(edges)@) + import_edges(
            captures@,
            strings_view(type_sources@),
            file_key@,
            file_relative@,
        ),
        unresolved_views(final(report).unresolved_imports@) == unresolved_views(
            old(report).unresolved_imports@,
        ) + import_unresolved(captures@, file_relative@),
        final(report).nodes_discovered == old(report).nodes_discovered,
        final(report).edges_discovered == old(report).edges_discovered,
        final(report).unsupported_constructs == old(report).unsupported_constructs,
        final(report).parse_failures == old(report).parse_failures,
{
    let ghost e0 = edge_views(edges@);
    let ghost u0 = unresolved_views(report.unresolved_imports@);
    let ghost ts = strings_view(type_sources@);
    let mut i: usize = 0;
    while i < captures.len()
        invariant
            i <= captures@.len(),
            ts == strings_view(type_sources@),
            edge_views(edges@) == e0 + import_edges(captures@.take(i as int), ts, file_key@, file_relative@),
            unresolved_views(report.unresolved_imports@) == u0 + import_unresolved(
                captures@.take(i as int),
                file_relative@,
            ),
            report.nodes_discovered == old(report).nodes_discovered,
            report.edges_discovered == old(report).edges_discovered,
            report.unsupported_constructs == old(report).unsupported_constructs,
            report.parse_failures == old(report).parse_failures,
        decreases captures@.len() - i,
    {
        let c = &captures[i];
        assert(captures@.take(i + 1).drop_last() =~= captures@.take(i as int));
        assert(captures@.take(i + 1).last() == *c);
        let type_only = contains_view(type_sources, c.specifier.as_str()) || has_only_type_specifiers(
            &c.clause,
        );
        let category = if type_only {
            EdgeCategory::TypeOnly
        } else {
            EdgeCategory::Value
        };
        let (target, confidence, method) = match &c.resolution {
            ResolveResult::Package(k) => (Some(k.clone()), Confidence::StructureOnly, "workspace package"),
            ResolveResult::File(k) => (Some(k.clone()), Confidence::ResolverAware, "tsconfig path resolution"),
            ResolveResult::Unresolved(_) => (None, Confidence::StructureOnly, ""),
        };
        match target {
            Some(target_key) => {
                let e = EdgeData {
                    edge_id: EdgeId::new(file_key, &target_key, EdgeKind::Imports, category),
                    source_key: file_key.clone(),
                    target_key,
                    kind: EdgeKind::Imports,
                    category,
                    confidence,
                    source_location: Some(
                        SourceLocation {
                            path: file_relative.to_owned(),
                            start_line: c.start_line,
                            end_line: c.end_line,
                        },
                    ),
                    resolution_method: Some(method.to_owned()),
                    overlay_status: OverlayStatus::Unaffected,
                };
                proof {
                    lemma_edge_views_push(edges@, e);
                }
                edges.push(e);
            },
            None => {
                let reason_text = match &c.resolution {
                    ResolveResult::Unresolved(r) => r.clone(),
                    _ => String::new(),
                };
                let reason = if contains_text(reason_text.as_str(), "external package") {
                    UnresolvedReason::ExternalPackage
                } else if contains_text(reason_text.as_str(), "could not resolve") {
                    UnresolvedReason::NoMatchingFile
                } else {
                    UnresolvedReason::Other(reason_text)
                };
                let u = UnresolvedImport {
                    source_file: file_relative.to_owned(),
                    specifier: c.specifier.clone(),
                    reason,
                };
                proof {
                    lemma_unresolved_views_push(report.unresolved_imports@, u);
                }
                report.unresolved_imports.push(u);
            },
        }
        i = i + 1;
    }
    assert(captures@.take(captures@.len() as int) =~= captures@);
}

/// The re-export edges of `caps`, in order: each with a specifier that
/// resolved gives a resolver-aware `ReExports` edge, type-only for `export
/// type`; unresolved re-exports give nothing.
pub open spec fn reexport_edges(caps: Seq<ReexportCapture>, file_key: KeyView, file_relative: Seq<char>) -> Seq<EdgeView>
    decreases caps.len(),
{
    if caps.len() == 0 {
        Seq::empty()
    } else {
        let rest = reexport_edges(caps.drop_last(), file_key, file_relative);
        let c = caps.last();
        let cat = if c.type_only {
            EdgeCategory::TypeOnly
        } else {
            EdgeCategory::Value
        };
        if c.specifier@.len() == 0 {
            rest
        } else {
            match c.resolution {
                ResolveResult::Package(k) => rest.push(
                    ts_edge_view(file_key, k@, EdgeKind::ReExports, cat, Confidence::ResolverAware, file_relative, c.start_line, c.end_line, "tsconfig path resolution"@),
                ),
                ResolveResult::File(k) => rest.push(
                    ts_edge_view(file_key, k@, EdgeKind::ReExports, cat, Confidence::ResolverAware, file_relative, c.start_line, c.end_line, "tsconfig path resolution"@),
                ),
                ResolveResult::Unresolved(_) => rest,
            }
        }
    }
}

/// Each re-export with a specifier that resolved to a workspace package or
/// to a file gives exactly one edge, and the others none: the `i`-th edge
/// belongs to the `i`-th such re-export and is a resolver-aware `ReExports`
/// edge from the file to the key it resolved to, type-only exactly for
/// `export type`, located at the re-export.
pub proof fn lemma_reexport_edge_per_resolved(caps: Seq<ReexportCapture>, file_key: KeyView, file_relative: Seq<char>)
    ensures
        reexport_edges(caps, file_key, file_relative).len() == caps.filter(|c: ReexportCapture| c.specifier@.len() > 0 && !(c.resolution is Unresolved)).len(),
        forall|i: int|
            0 <= i < reexport_edges(caps, file_key, file_relative).len() ==> {
                let e = #[trigger] reexport_edges(caps, file_key, file_relative)[i];
                let c = caps.filter(|c: ReexportCapture| c.specifier@.len() > 0 && !(c.resolution is Unresolved))[i];
                &&& (c.resolution matches ResolveResult::Package(k) ==> k@ == e.target)
                &&& (c.resolution matches ResolveResult::File(k) ==> k@ == e.target)
                &&& e.source == file_key
                &&& e.kind == EdgeKind::ReExports
                &&& e.confidence == Confidence::ResolverAware
                &&& (e.category == EdgeCategory::TypeOnly <==> c.type_only)
                &&& e.location == Some(LocationView { path: file_relative, start_line: c.start_line, end_line: c.end_line })
            },
    decreases caps.len(),
{
    let pred = |c: ReexportCapture| c.specifier@.len() > 0 && !(c.resolution is Unresolved);
    reveal(Seq::filter);
    if caps.len() > 0 {
        let init = caps.drop_last();
        lemma_reexport_edge_per_resolved(init, file_key, file_relative);
        let rest = reexport_edges(init, file_key, file_relative);
        let all = reexport_edges(caps, file_key, file_relative);
        let fr = init.filter(pred);
        let fa = caps.filter(pred);
        assert(fa == if pred(caps.last()) { fr.push(caps.last()) } else { fr });
        assert forall|i: int| 0 <= i < all.len() implies {
            let e = #[trigger] all[i];
            let c = fa[i];
            &&& (c.resolution matches ResolveResult::Package(k) ==> k@ == e.target)
            &&& (c.resolution matches ResolveResult::File(k) ==> k@ == e.target)
            &&& e.source == file_key
            &&& e.kind == EdgeKind::ReExports
            &&& e.confidence == Confidence::ResolverAware
            &&& (e.category == EdgeCategory::TypeOnly <==> c.type_only)
            &&& e.location == Some(LocationView { path: file_relative, start_line: c.start_line, end_line: c.end_line })
        } by {
            if i < rest.len() {
                assert(all[i] == rest[i]);
                assert(fa[i] == fr[i]);
            }
        }
    }
}

/// Re-export edges of one file (see [`reexport_edges`]).
pub fn reexport_edges_of(
    captures: &Vec<ReexportCapture>,
    file_key: &MaterializedKey,
    file_relative: &str,
    edges: &mut Vec<EdgeData>,
)
    ensures
        edge_views(final(edges)@) == edge_views(old(edges)@) + reexport_edges(
            captures@,
            file_key@,
            file_relative@,
        ),
{
    let ghost e0 = edge_views(edges@);
    let mut i: usize = 0;
    while i < captures.len()
        invariant
            i <= captures@.len(),
            edge_views(edges@) == e0 + reexport_edges(captures@.take(i as int), file_key@, file_relative@),
        decreases captures@.len() - i,
    {
        let c = &captures[i];
        assert(captures@.take(i + 1).drop_last() =~= captures@.take(i as int));
        assert(captures@.take(i + 1).last() == *c);
        let empty = chars_of(c.specifier.as_str()).len() == 0;
        if !empty {
            let target = match &c.resolution {
                ResolveResult::Package(k) => Some(k.clone()),
                ResolveResult::File(k) => Some(k.clone()),
                ResolveResult::Unresolved(_) => None,
            };
            match target {
                Some(target_key) => {
                    let category = if c.type_only {
                        EdgeCategory::TypeOnly
                    } else {
                        EdgeCategory::Value
                    };
                    let e = EdgeData {
                        edge_id: EdgeId::new(file_key, &target_key, EdgeKind::ReExports, category),
                        source_key: file_key.clone(),
                        target_key,
                        kind: EdgeKind::ReExports,
                        category,
                        confidence: Confidence::ResolverAware,
                        source_location: Some(
                            SourceLocation {
                                path: file_relative.to_owned(),
                                start_line: c.start_line,
                                end_line: c.end_line,
                            },
                        ),
                        resolution_method: Some("tsconfig path resolution".to_owned()),
                        overlay_status: OverlayStatus::Unaffected,
                    };
                    proof {
                        lemma_edge_views_push(edges@, e);
                    }
                    edges.push(e);
                },
                None => {},
            }
        }
        i = i + 1;
    }
    assert(captures@.take(captures@.len() as int) =~= captures@);
}

/// The finding for a dynamic `import(...)` or a `require(...)` call with
/// argument text `text`.
pub open spec fn call_construct(require: bool, text: Seq<char>, file_relative: Seq<char>, start_line: u32, end_line: u32) -> ConstructView {
    if require {
        ConstructView {
            construct_type: UnsupportedConstructType::CommonJsRequire,
            location: LocationView { path: file_relative, start_line, end_line },
            impact: "require("@ + text + ") — CommonJS require() is not resolved in POC"@,
            how_to_address: "Convert to ESM import or add manual edges"@,
        }
    } else {
        ConstructView {
            construct_type: UnsupportedConstructType::DynamicImport,
            location: LocationView { path: file_relative, start_line, end_line },
            impact: "dynamic import("@ + text + ") — runtime-determined, cannot be statically resolved"@,
            how_to_address: "Add manual edges in .codeatlas.yaml if the import target is known"@,
        }
    }
}

/// The findings for calls `caps`, in order.
pub open spec fn call_constructs(require: bool, caps: Seq<CallCapture>, file_relative: Seq<char>) -> Seq<ConstructView>
    decreases caps.len(),
{
    if caps.len() == 0 {
        Seq::empty()
    } else {
        call_constructs(require, caps.drop_last(), file_relative).push(
            call_construct(require, caps.last().text@, file_relative, caps.last().start_line, caps.last().end_line),
        )
    }
}

/// The unresolved imports for calls `caps`, in order.
pub open spec fn call_unresolved(require: bool, caps: Seq<CallCapture>, file_relative: Seq<char>) -> Seq<UnresolvedView>
    decreases caps.len(),
{
    if caps.len() == 0 {
        Seq::empty()
    } else {
        call_unresolved(require, caps.drop_last(), file_relative).push(
            UnresolvedView {
                source_file: file_relative,
                specifier: stripped(caps.last().text@),
                reason: if require {
                    UnresolvedReason::CommonJsRequire
                } else {
                    UnresolvedReason::DynamicImport
                },
            },
        )
    }
}

/// Findings for dynamic `import(...)` calls (`require` false) or
/// `require(...)` calls (`require` true) of one file: each is an
/// unsupported construct and an unresolved import.
pub fn call_findings(
    require: bool,
    captures: &Vec<CallCapture>,
    file_relative: &str,
    report: &mut DetectorReport,
)
    requires
        forall|i: int| 0 <= i < captures@.len() ==> quotes_strippable(#[trigger] captures@[i].text@),
    ensures
        construct_views(final(report).unsupported_constructs@) == construct_views(
            old(report).unsupported_constructs@,
        ) + call_constructs(require, captures@, file_relative@),
        unresolved_views(final(report).unresolved_imports@) == unresolved_views(
            old(report).unresolved_imports@,
        ) + call_unresolved(require, captures@, file_relative@),
        final(report).nodes_discovered == old(report).nodes_discovered,
        final(report).edges_discovered == old(report).edges_discovered,
        final(report).parse_failures == old(report).parse_failures,
{
    let ghost c0 = construct_views(report.unsupported_constructs@);
    let ghost u0 = unresolved_views(report.unresolved_imports@);
    let mut i: usize = 0;
    while i < captures.len()
        invariant
            i <= captures@.len(),
            forall|j: int| 0 <= j < captures@.len() ==> quotes_strippable(#[trigger] captures@[j].text@),
            construct_views(report.unsupported_constructs@) == c0 + call_constructs(
                require,
                captures@.take(i as int),
                file_relative@,
            ),
            unresolved_views(report.unresolved_imports@) == u0 + call_unresolved(
                require,
                captures@.take(i as int),
                file_relative@,
            ),
            report.nodes_discovered == old(report).nodes_discovered,
            report.edges_discovered == old(report).edges_discovered,
            report.parse_failures == old(report).parse_failures,
        decreases captures@.len() - i,
    {
        let c = &captures[i];
        assert(captures@.take(i + 1).drop_last() =~= captures@.take(i as int));
        assert(captures@.take(i + 1).last() == *c);
        let construct = if require {
            UnsupportedConstruct {
                construct_type: UnsupportedConstructType::CommonJsRequire,
                location: SourceLocation {
                    path: file_relative.to_owned(),
                    start_line: c.start_line,
                    end_line: c.end_line,
                },
                impact: concat3("require(", c.text.as_str(), ") — CommonJS require() is not resolved in POC"),
                how_to_address: "Convert to ESM import or add manual edges".to_owned(),
            }
        } else {
            UnsupportedConstruct {
                construct_type: UnsupportedConstructType::DynamicImport,
                location: SourceLocation {
                    path: file_relative.to_owned(),
                    start_line: c.start_line,
                    end_line: c.end_line,
                },
                impact: concat3(
                    "dynamic import(",
                    c.text.as_str(),
                    ") — runtime-determined, cannot be statically resolved",
                ),
                how_to_address: "Add manual edges in .codeatlas.yaml if the import target is known".to_owned(),
            }
        };
        proof {
            lemma_construct_views_push(report.unsupported_constructs@, construct);
        }
        report.unsupported_constructs.push(construct);
        let u = UnresolvedImport {
            source_file: file_relative.to_owned(),
            specifier: strip_quotes(c.text.as_str()),
            reason: if require {
                UnresolvedReason::CommonJsRequire
            } else {
                UnresolvedReason::DynamicImport
            },
        };
        proof {
            lemma_unresolved_views_push(report.unresolved_imports@, u);
        }
        report.unresolved_imports.push(u);
        i = i + 1;
    }
    assert(captures@.take(captures@.len() as int) =~= captures@);
}

/// Edges and findings from one parsed file, in the order they are drawn:
/// imports (with their unresolved findings), re-exports, dynamic imports,
/// then `require()` calls.
pub fn extract_import_edges(
    imports: &Vec<ImportCapture>,
    type_sources: &Vec<String>,
    reexports: &Vec<ReexportCapture>,
    dynamic_imports: &Vec<CallCapture>,
    requires_calls: &Vec<CallCapture>,
    file_key: &MaterializedKey,
    file_relative: &str,
    report: &mut DetectorReport,
) -> (edges: Vec<EdgeData>)
    requires
        forall|i: int| 0 <= i < dynamic_imports@.len() ==> quotes_strippable(#[trigger] dynamic_imports@[i].text@),
        forall|i: int| 0 <= i < requires_calls@.len() ==> quotes_strippable(#[trigger] requires_calls@[i].text@),
    ensures
        edge_views(edges@) == import_edges(imports@, strings_view(type_sources@), file_key@, file_relative@)
            + reexport_edges(reexports@, file_key@, file_relative@),
        unresolved_views(final(report).unresolved_imports@) == unresolved_views(
            old(report).unresolved_imports@,
        ) + import_unresolved(imports@, file_relative@) + call_unresolved(false, dynamic_imports@, file_relative@)
            + call_unresolved(true, requires_calls@, file_relative@),
        construct_views(final(report).unsupported_constructs@) == construct_views(
            old(report).unsupported_constructs@,
        ) + call_constructs(false, dynamic_imports@, file_relative@) + call_constructs(
            true,
            requires_calls@,
            file_relative@,
        ),
        final(report).nodes_discovered == old(report).nodes_discovered,
        final(report).edges_discovered == old(report).edges_discovered,
        final(report).parse_failures == old(report).parse_failures,
{
    let mut edges: Vec<EdgeData> = Vec::new();
    assert(edge_views(edges@) =~= Seq::<EdgeView>::empty());
    import_edges_of(imports, type_sources, file_key, file_relative, &mut edges, report);
    reexport_edges_of(reexports, file_key, file_relative, &mut edges);
    call_findings(false, dynamic_imports, file_relative, report);
    call_findings(true, requires_calls, file_relative, report);
    assert(edge_views(edges@) =~= import_edges(imports@, strings_view(type_sources@), file_key@, file_relative@)
        + reexport_edges(reexports@, file_key@, file_relative@));
    edges
}

// ---------------------------------------------------------------------------
// Module and file nodes
// ---------------------------------------------------------------------------

/// Directories that are never modules: `node_modules`, `dist`, `build`,
/// `.git` and `__pycache__`.
pub open spec fn skipped_dir_name(name: Seq<char>) -> bool {
    name == "node_modules"@ || name == "dist"@ || name == "build"@ || name == ".git"@ || name
        == "__pycache__"@
}

/// Whether a directory name is never a module (see [`skipped_dir_name`]).
pub fn is_skipped_dir(name: &str) -> (r: bool)
    ensures
        r == skipped_dir_name(name@),
{
    same_text(name, "node_modules") || same_text(name, "dist") || same_text(name, "build")
        || same_text(name, ".git") || same_text(name, "__pycache__")
}

/// Whether a source path lies in an output or dependency directory:
/// `/node_modules/`, `/dist/`, `/build/` or `/.next/`.
pub open spec fn excluded_source_path(path: Seq<char>) -> bool {
    has_infix("/node_modules/"@, path) || has_infix("/dist/"@, path) || has_infix("/build/"@, path)
        || has_infix("/.next/"@, path)
}

/// Whether a source path is excluded (see [`excluded_source_path`]).
pub fn is_excluded_source_path(path: &str) -> (r: bool)
    ensures
        r == excluded_source_path(path@),
{
    contains_text(path, "/node_modules/") || contains_text(path, "/dist/") || contains_text(path, "/build/")
        || contains_text(path, "/.next/")
}

/// The node of a source directory under `parent_key` (a module keyed by
/// its path relative to the root and labelled with its name) and the
/// structural edge that places it.
pub fn ts_module_entries(dir: &str, workspace_root: &str, parent_key: &MaterializedKey) -> (r: (
    NodeData,
    EdgeData,
))
    ensures
        ({
            let mk = key_of(Language::TypeScript, EntityKind::Module, relative_to(dir@, workspace_root@));
            &&& r.0@ == (NodeView {
                key: mk,
                lineage: None,
                label: match path_file_name(dir@) {
                    Some(n) => n,
                    None => Seq::empty(),
                },
                kind: NodeKind::Module,
                language: Language::TypeScript,
                parent: Some(parent_key@),
            })
            &&& r.1@ == contains_edge_view(parent_key@, mk, Confidence::StructureOnly, None, "filesystem"@)
        }),
{
    let rel = relative_or_self(dir, workspace_root);
    let mod_key = MaterializedKey::new(Language::TypeScript, EntityKind::Module, rel.as_str());
    let label = match file_name_of(dir) {
        Some(n) => n,
        None => String::new(),
    };
    let edge = contains_edge(parent_key, &mod_key, Confidence::StructureOnly, None, "filesystem".to_owned());
    let node = NodeData {
        materialized_key: mod_key,
        lineage_key: None,
        label,
        kind: NodeKind::Module,
        language: Language::TypeScript,
        parent_key: Some(parent_key.clone()),
    };
    (node, edge)
}

/// The parent of a source file: its package when the file sits in the
/// package's `src` directory or in the package directory itself, else the
/// module of its directory.
pub open spec fn ts_parent_key(file_path: Seq<char>, pkg_dir: Seq<char>, root: Seq<char>, pkg_key: KeyView) -> KeyView {
    let file_dir = parent_dir(file_path);
    if path_equiv(file_dir, path_join(pkg_dir, "src"@)) || path_equiv(file_dir, pkg_dir) {
        pkg_key
    } else {
        key_of(Language::TypeScript, EntityKind::Module, relative_to(file_dir, root))
    }
}

/// The parent of a source file (see [`ts_parent_key`]).
pub fn find_parent_key(file_path: &str, pkg_dir: &str, workspace_root: &str, pkg_key: &MaterializedKey) -> (k: MaterializedKey)
    ensures
        k@ == ts_parent_key(file_path@, pkg_dir@, workspace_root@, pkg_key@),
{
    let file_dir = parent_or_empty(file_path);
    let src_dir = join_path(pkg_dir, "src");
    if same_path(file_dir.as_str(), src_dir.as_str()) || same_path(file_dir.as_str(), pkg_dir) {
        return pkg_key.clone();
    }
    let rel = relative_or_self(file_dir.as_str(), workspace_root);
    MaterializedKey::new(Language::TypeScript, EntityKind::Module, rel.as_str())
}

/// The node of a TypeScript/JavaScript source file and the edge that places
/// it under its parent (see [`ts_parent_key`]).
pub fn ts_file_entries(file_path: &str, pkg_dir: &str, workspace_root: &str, pkg_key: &MaterializedKey) -> (r: (
    NodeData,
    EdgeData,
))
    ensures
        ({
            let rel = relative_to(file_path@, workspace_root@);
            let fk = key_of(Language::TypeScript, EntityKind::File, rel);
            let pk = ts_parent_key(file_path@, pkg_dir@, workspace_root@, pkg_key@);
            &&& r.0@ == (NodeView {
                key: fk,
                lineage: None,
                label: match path_file_name(file_path@) {
                    Some(n) => n,
                    None => rel,
                },
                kind: NodeKind::File,
                language: Language::TypeScript,
                parent: Some(pk),
            })
            &&& r.1@ == contains_edge_view(pk, fk, Confidence::StructureOnly, None, "filesystem"@)
        }),
{
    let file_relative = relative_or_self(file_path, workspace_root);
    let file_key = MaterializedKey::new(Language::TypeScript, EntityKind::File, file_relative.as_str());
    let parent_key = find_parent_key(file_path, pkg_dir, workspace_root, pkg_key);
    let label = match file_name_of(file_path) {
        Some(n) => n,
        None => file_relative.clone(),
    };
    let edge = contains_edge(&parent_key, &file_key, Confidence::StructureOnly, None, "filesystem".to_owned());
    let node = NodeData {
        materialized_key: file_key,
        lineage_key: None,
        label,
        kind: NodeKind::File,
        language: Language::TypeScript,
        parent_key: Some(parent_key),
    };
    (node, edge)
}

/// The workspace-level findings: project references in the root tsconfig
/// (located at the tsconfig, relative to the root), then Yarn PnP.
pub open spec fn workspace_constructs(js: JsWorkspaceMeta, root: Seq<char>) -> Seq<ConstructView> {
    (match js.root_tsconfig {
        Some(t) => if t.has_project_references {
            seq![
                ConstructView {
                    construct_type: UnsupportedConstructType::ProjectReferences,
                    location: LocationView { path: relative_to(t.path@, root), start_line: 1, end_line: 1 },
                    impact: "TypeScript project references detected — cross-project reference resolution is not supported in POC"@,
                    how_to_address: "Import resolution falls back to workspace-level tsconfig"@,
                },
            ]
        } else {
            Seq::empty()
        },
        None => Seq::empty(),
    }) + (if js.has_pnp {
        seq![
            ConstructView {
                construct_type: UnsupportedConstructType::YarnPnp,
                location: LocationView { path: ".pnp.cjs"@, start_line: 1, end_line: 1 },
                impact: "Yarn Plug'n'Play detected — PnP module resolution is not supported"@,
                how_to_address: "node_modules resolution is assumed instead of PnP"@,
            },
        ]
    } else {
        Seq::empty()
    })
}

/// Appends the workspace-level findings (see [`workspace_constructs`]).
pub fn detect_workspace_level_constructs(js: &JsWorkspaceMeta, workspace_root: &str, report: &mut DetectorReport)
    ensures
        construct_views(final(report).unsupported_constructs@) == construct_views(
            old(report).unsupported_constructs@,
        ) + workspace_constructs(*js, workspace_root@),
        final(report).nodes_discovered == old(report).nodes_discovered,
        final(report).edges_discovered == old(report).edges_discovered,
        final(report).parse_failures == old(report).parse_failures,
        final(report).unresolved_imports == old(report).unresolved_imports,
{
    let ghost c0 = construct_views(report.unsupported_constructs@);
    match &js.root_tsconfig {
        Some(t) => {
            if t.has_project_references {
                let c = UnsupportedConstruct {
                    construct_type: UnsupportedConstructType::ProjectReferences,
                    location: SourceLocation {
                        path: relative_or_self(t.path.as_str(), workspace_root),
                        start_line: 1,
                        end_line: 1,
                    },
                    impact: "TypeScript project references detected — cross-project reference resolution is not supported in POC".to_owned(),
                    how_to_address: "Import resolution falls back to workspace-level tsconfig".to_owned(),
                };
                proof {
                    lemma_construct_views_push(report.unsupported_constructs@, c);
                }
                report.unsupported_constructs.push(c);
            }
        },
        None => {},
    }
    let ghost c1 = construct_views(report.unsupported_constructs@);
    if js.has_pnp {
        let c = UnsupportedConstruct {
            construct_type: UnsupportedConstructType::YarnPnp,
            location: SourceLocation { path: ".pnp.cjs".to_owned(), start_line: 1, end_line: 1 },
            impact: "Yarn Plug'n'Play detected — PnP module resolution is not supported".to_owned(),
            how_to_address: "node_modules resolution is assumed instead of PnP".to_owned(),
        };
        proof {
            lemma_construct_views_push(report.unsupported_constructs@, c);
        }
        report.unsupported_constructs.push(c);
    }
    assert(construct_views(report.unsupported_constructs@) =~= c0 + workspace_constructs(*js, workspace_root@));
}


// ---------------------------------------------------------------------------
// Source file selection
// ---------------------------------------------------------------------------

/// The extensions of TypeScript/JavaScript source files: `ts`, `tsx`, `js`
/// and `jsx`.
pub open spec fn source_extension(ext: Seq<char>) -> bool {
    ext == "ts"@ || ext == "tsx"@ || ext == "js"@ || ext == "jsx"@
}

/// Whether a file extension marks a source file (see [`source_extension`]).
pub fn is_source_extension(ext: &str) -> (r: bool)
    ensures
        r == source_extension(ext@),
{
    same_text(ext, "ts") || same_text(ext, "tsx") || same_text(ext, "js") || same_text(ext, "jsx")
}

/// Whether a source file is parsed with the TSX grammar: `tsx` and `jsx`
/// files are.
pub fn uses_tsx_grammar(ext: &str) -> (r: bool)
    ensures
        r == (ext@ == "tsx"@ || ext@ == "jsx"@),
{
    same_text(ext, "tsx") || same_text(ext, "jsx")
}

/// The directory whose subdirectories are a package's modules: its `src`
/// directory where that exists, else the package directory.
pub fn source_root_of(pkg_dir: &str, src_exists: bool) -> (r: String)
    ensures
        src_exists ==> r@ == path_join(pkg_dir@, "src"@),
        !src_exists ==> r@ == pkg_dir@,
{
    if src_exists {
        join_path(pkg_dir, "src")
    } else {
        pkg_dir.to_owned()
    }
}

// ---------------------------------------------------------------------------
// Source files through tree-sitter
// ---------------------------------------------------------------------------

/// Query for all import statements (the source string and the statement).
pub const IMPORT_QUERY: &'static str = "(import_statement source: (string) @source) @import";

/// Query for statement-level `import type` (the anonymous `type` keyword).
pub const IMPORT_TYPE_QUERY: &'static str = "(import_statement \"type\" source: (string) @source) @type_import";

/// Query for re-exports: `export { ... } from '...'` and `export * from '...'`.
pub const REEXPORT_QUERY: &'static str = "(export_statement source: (string) @source) @reexport";

/// Query for `export type ... from '...'` re-exports.
pub const TYPE_REEXPORT_QUERY: &'static str = "(export_statement \"type\" source: (string) @source) @reexport";

/// Query for dynamic imports: `import('...')`.
pub const DYNAMIC_IMPORT_QUERY: &'static str = "(call_expression function: (import) arguments: (arguments (string) @source)) @dynamic_import";

/// Query for `require()` calls.
pub const REQUIRE_QUERY: &'static str = "(call_expression function: (identifier) @fn_name arguments: (arguments (string) @source) (#eq? @fn_name \"require\")) @require_call";

/// Query for the items of import clauses, each with its statement: default
/// bindings, namespace imports and named imports, and the named imports
/// marked `type`.
pub const CLAUSE_QUERY: &'static str = "(import_statement (import_clause (identifier) @default_import)) @clause_stmt (import_statement (import_clause (namespace_import) @namespace_import)) @clause_stmt (import_statement (import_clause (named_imports (import_specifier) @named_import))) @clause_stmt (import_specifier \"type\") @type_specifier";

/// The detector's queries, in the order they are compiled, each with the
/// start of the failure reason it gives when it does not compile.
pub open spec fn ts_query_table() -> Seq<(Seq<char>, Seq<char>)> {
    seq![
        ("invalid import query: "@, IMPORT_QUERY@),
        ("invalid import_type query: "@, IMPORT_TYPE_QUERY@),
        ("invalid reexport query: "@, REEXPORT_QUERY@),
        ("invalid type_reexport query: "@, TYPE_REEXPORT_QUERY@),
        ("invalid dynamic_import query: "@, DYNAMIC_IMPORT_QUERY@),
        ("invalid require query: "@, REQUIRE_QUERY@),
        ("invalid import_clause query: "@, CLAUSE_QUERY@),
    ]
}

/// The grammar for TSX/JSX sources (`tsx`) or other sources.
pub open spec fn ts_grammar(tsx: bool) -> Grammar {
    if tsx {
        Grammar::Tsx
    } else {
        Grammar::TypeScript
    }
}

/// The name the query failures of a grammar are reported under.
pub open spec fn ts_queries_name(tsx: bool) -> Seq<char> {
    if tsx {
        "typescript-imports (typescript-tsx)"@
    } else {
        "typescript-imports (typescript)"@
    }
}

/// The detector's queries, compiled for one grammar.
pub struct TsQueries {
    grammar: Grammar,
    import: SyntaxQuery,
    import_type: SyntaxQuery,
    reexport: SyntaxQuery,
    type_reexport: SyntaxQuery,
    dynamic_import: SyntaxQuery,
    require: SyntaxQuery,
    clause: SyntaxQuery,
}

impl TsQueries {
    /// The import query.
    pub fn import_query(&self) -> (q: &SyntaxQuery)
        requires
            self.compiled(),
        ensures
            q.grammar() == self.grammar() && q.source() == IMPORT_QUERY@,
    {
        &self.import
    }

    /// The statement-level `import type` query.
    pub fn import_type_query(&self) -> (q: &SyntaxQuery)
        requires
            self.compiled(),
        ensures
            q.grammar() == self.grammar() && q.source() == IMPORT_TYPE_QUERY@,
    {
        &self.import_type
    }

    /// The re-export query.
    pub fn reexport_query(&self) -> (q: &SyntaxQuery)
        requires
            self.compiled(),
        ensures
            q.grammar() == self.grammar() && q.source() == REEXPORT_QUERY@,
    {
        &self.reexport
    }

    /// The dynamic import query.
    pub fn dynamic_import_query(&self) -> (q: &SyntaxQuery)
        requires
            self.compiled(),
        ensures
            q.grammar() == self.grammar() && q.source() == DYNAMIC_IMPORT_QUERY@,
    {
        &self.dynamic_import
    }

    /// The `require` query.
    pub fn require_query(&self) -> (q: &SyntaxQuery)
        requires
            self.compiled(),
        ensures
            q.grammar() == self.grammar() && q.source() == REQUIRE_QUERY@,
    {
        &self.require
    }

    /// The grammar the queries are compiled for.
    pub closed spec fn grammar(self) -> Grammar {
        self.grammar
    }

    /// Each query is the detector's, compiled for the queries' grammar.
    pub closed spec fn compiled(self) -> bool {
        &&& self.import.grammar() == self.grammar && self.import.source() == IMPORT_QUERY@
        &&& self.import_type.grammar() == self.grammar && self.import_type.source() == IMPORT_TYPE_QUERY@
        &&& self.reexport.grammar() == self.grammar && self.reexport.source() == REEXPORT_QUERY@
        &&& self.type_reexport.grammar() == self.grammar && self.type_reexport.source() == TYPE_REEXPORT_QUERY@
        &&& self.dynamic_import.grammar() == self.grammar && self.dynamic_import.source() == DYNAMIC_IMPORT_QUERY@
        &&& self.require.grammar() == self.grammar && self.require.source() == REQUIRE_QUERY@
        &&& self.clause.grammar() == self.grammar && self.clause.source() == CLAUSE_QUERY@
    }
}

/// Compiles one of the detector's queries, failing with the given reason
/// prefix under the given name.
fn compile_ts_query(grammar: Grammar, text: &str, name: &str, prefix: &str) -> (r: Result<SyntaxQuery, DetectorError>)
    ensures
        match r {
            Ok(q) => q.grammar() == grammar && q.source() == text@ && query_error(grammar, text@) is None,
            Err(e) => match query_error(grammar, text@) {
                Some(m) => is_detection_failure(e, name@, prefix@ + m),
                None => false,
            },
        },
{
    match compile_query(grammar, text) {
        Ok(q) => Ok(q),
        Err(m) => Err(detection_failure(name, prefix, m.as_str())),
    }
}

/// Compiles the detector's queries for TSX/JSX sources (`tsx`) or other
/// sources; the first that does not compile fails the detector, with
/// tree-sitter's message.
pub fn compile_ts_queries(tsx: bool) -> (r: Result<TsQueries, DetectorError>)
    ensures
        match r {
            Ok(q) => q.compiled() && q.grammar() == ts_grammar(tsx) && first_query_error(ts_grammar(tsx), ts_query_table()) is None,
            Err(e) => match first_query_error(ts_grammar(tsx), ts_query_table()) {
                Some((prefix, message)) => is_detection_failure(e, ts_queries_name(tsx), prefix + message),
                None => false,
            },
        },
{
    let ghost t = ts_query_table();
    proof {
        assert(t.drop_first() =~= seq![t[1], t[2], t[3], t[4], t[5], t[6]]);
        assert(t.drop_first().drop_first() =~= seq![t[2], t[3], t[4], t[5], t[6]]);
        assert(t.drop_first().drop_first().drop_first() =~= seq![t[3], t[4], t[5], t[6]]);
        assert(t.drop_first().drop_first().drop_first().drop_first() =~= seq![t[4], t[5], t[6]]);
        assert(t.drop_first().drop_first().drop_first().drop_first().drop_first() =~= seq![t[5], t[6]]);
        assert(t.drop_first().drop_first().drop_first().drop_first().drop_first().drop_first() =~= seq![t[6]]);
        assert(t.drop_first().drop_first().drop_first().drop_first().drop_first().drop_first().drop_first()
            =~= Seq::<(Seq<char>, Seq<char>)>::empty());
        reveal_with_fuel(first_query_error, 8);
    }
    let grammar = if tsx {
        Grammar::Tsx
    } else {
        Grammar::TypeScript
    };
    let name = if tsx {
        "typescript-imports (typescript-tsx)"
    } else {
        "typescript-imports (typescript)"
    };
    let import = compile_ts_query(grammar, IMPORT_QUERY, name, "invalid import query: ")?;
    let import_type = compile_ts_query(grammar, IMPORT_TYPE_QUERY, name, "invalid import_type query: ")?;
    let reexport = compile_ts_query(grammar, REEXPORT_QUERY, name, "invalid reexport query: ")?;
    let type_reexport = compile_ts_query(grammar, TYPE_REEXPORT_QUERY, name, "invalid type_reexport query: ")?;
    let dynamic_import = compile_ts_query(grammar, DYNAMIC_IMPORT_QUERY, name, "invalid dynamic_import query: ")?;
    let require = compile_ts_query(grammar, REQUIRE_QUERY, name, "invalid require query: ")?;
    let clause = compile_ts_query(grammar, CLAUSE_QUERY, name, "invalid import_clause query: ")?;
    Ok(TsQueries { grammar, import, import_type, reexport, type_reexport, dynamic_import, require, clause })
}

/// Whether a string literal can be stripped of its quotes.
pub fn is_quotes_strippable(s: &str) -> (r: bool)
    ensures
        r == quotes_strippable(s@),
{
    let t = trim(s);
    let cs = chars_of(t.as_str());
    !(cs.len() == 1 && (cs[0] == '"' || cs[0] == '\''))
}

/// The clause item that a match of the clause query stands for: a default
/// binding, a namespace import, or a named import (`type` where the same
/// specifier is a `type_specifier` capture of the matches `cms`).
pub open spec fn clause_item_of(m: Seq<CaptureView>, cms: Seq<Seq<CaptureView>>) -> Option<ClauseItem> {
    if capture_named(m, "default_import"@) is Some {
        Some(ClauseItem::Default)
    } else if capture_named(m, "namespace_import"@) is Some {
        Some(ClauseItem::Namespace)
    } else {
        match capture_named(m, "named_import"@) {
            Some(n) => Some(ClauseItem::Named { is_type: has_capture_at(cms, "type_specifier"@, n.start_byte) }),
            None => None,
        }
    }
}

/// The clause items, in match order, of the import statement starting at
/// byte `at` (`clause_stmt`), among the first matches `ms` of the clause
/// query whose matches are `cms`.
pub open spec fn clause_of(ms: Seq<Seq<CaptureView>>, cms: Seq<Seq<CaptureView>>, at: usize) -> Seq<ClauseItem>
    decreases ms.len(),
{
    if ms.len() == 0 {
        Seq::empty()
    } else {
        let rest = clause_of(ms.drop_last(), cms, at);
        let m = ms.last();
        match capture_named(m, "clause_stmt"@) {
            Some(st) if st.start_byte == at => match clause_item_of(m, cms) {
                Some(it) => rest.push(it),
                None => rest,
            },
            _ => rest,
        }
    }
}

/// The clause items of the import statement starting at byte `at`.
pub fn clause_items_at(cms: &Vec<Vec<SyntaxCapture>>, at: usize) -> (r: Vec<ClauseItem>)
    ensures
        r@ == clause_of(matches_view(cms@), matches_view(cms@), at),
{
    let ghost mv = matches_view(cms@);
    let mut r: Vec<ClauseItem> = Vec::new();
    let mut i: usize = 0;
    while i < cms.len()
        invariant
            i <= cms@.len(),
            mv == matches_view(cms@),
            r@ == clause_of(mv.take(i as int), mv, at),
        decreases cms@.len() - i,
    {
        let m = &cms[i];
        proof {
            assert(mv.take(i + 1).drop_last() =~= mv.take(i as int));
            assert(mv.take(i + 1).last() == match_view(m@));
        }
        match find_capture(m, "clause_stmt") {
            Some(s) => {
                if m[s].start_byte == at {
                    if find_capture(m, "default_import").is_some() {
                        r.push(ClauseItem::Default);
                    } else if find_capture(m, "namespace_import").is_some() {
                        r.push(ClauseItem::Namespace);
                    } else {
                        match find_capture(m, "named_import") {
                            Some(n) => {
                                let is_type = capture_at(cms, "type_specifier", m[n].start_byte);
                                r.push(ClauseItem::Named { is_type });
                            },
                            None => {},
                        }
                    }
                }
            },
            None => {},
        }
        i = i + 1;
    }
    proof {
        assert(mv.take(cms@.len() as int) =~= mv);
    }
    r
}

/// An import statement of a file: its specifier (quotes stripped), lines
/// and clause items.
#[derive(Debug, Clone, PartialEq, Eq)]
pub struct ImportSyntax {
    pub specifier: String,
    pub start_line: u32,
    pub end_line: u32,
    pub clause: Vec<ClauseItem>,
}

/// What an import statement stands for.
pub struct ImportSyntaxView {
    pub specifier: Seq<char>,
    pub start_line: u32,
    pub end_line: u32,
    pub clause: Seq<ClauseItem>,
}

impl View for ImportSyntax {
    type V = ImportSyntaxView;

    open spec fn view(&self) -> ImportSyntaxView {
        ImportSyntaxView {
            specifier: self.specifier@,
            start_line: self.start_line,
            end_line: self.end_line,
            clause: self.clause@,
        }
    }
}

/// The views of import statements, in order.
pub open spec fn import_syntax_views(v: Seq<ImportSyntax>) -> Seq<ImportSyntaxView> {
    v.map_values(|x: ImportSyntax| x@)
}

/// The string literal of a match's `source` capture, where its text was
/// read.
pub open spec fn source_text(m: Seq<CaptureView>) -> Option<Seq<char>> {
    match capture_named(m, "source"@) {
        Some(c) => c.text,
        None => None,
    }
}

/// Every match's source literal can be stripped of its quotes.
pub open spec fn sources_strippable(ms: Seq<Seq<CaptureView>>) -> bool {
    forall|i: int| 0 <= i < ms.len() ==> (#[trigger] source_text(ms[i]) matches Some(t) ==> quotes_strippable(t))
}

/// The import statements of the matches `ims` of the import query: each
/// match whose source text was read gives its specifier without quotes,
/// the source's lines and the clause items of its statement (`import`).
pub open spec fn imports_of(ims: Seq<Seq<CaptureView>>, cms: Seq<Seq<CaptureView>>) -> Seq<ImportSyntaxView>
    decreases ims.len(),
{
    if ims.len() == 0 {
        Seq::empty()
    } else {
        let rest = imports_of(ims.drop_last(), cms);
        let m = ims.last();
        match capture_named(m, "source"@) {
            Some(c) => match c.text {
                Some(t) => rest.push(
                    ImportSyntaxView {
                        specifier: stripped(t),
                        start_line: line_of(c.start_row),
                        end_line: line_of(c.end_row),
                        clause: match capture_named(m, "import"@) {
                            Some(st) => clause_of(cms, cms, st.start_byte),
                            None => Seq::empty(),
                        },
                    },
                ),
                None => rest,
            },
            None => rest,
        }
    }
}

/// The import statements of the import query's matches `ims`, or a source
/// literal that is a lone quote.
pub fn import_statements(ims: &Vec<Vec<SyntaxCapture>>, cms: &Vec<Vec<SyntaxCapture>>) -> (r: Result<Vec<ImportSyntax>, String>)
    ensures
        match r {
            Ok(v) => sources_strippable(matches_view(ims@))
                && import_syntax_views(v@) == imports_of(matches_view(ims@), matches_view(cms@)),
            Err(t) => !sources_strippable(matches_view(ims@)) && !quotes_strippable(t@),
        },
{
    let ghost mv = matches_view(ims@);
    let mut out: Vec<ImportSyntax> = Vec::new();
    let mut i: usize = 0;
    while i < ims.len()
        invariant
            i <= ims@.len(),
            mv == matches_view(ims@),
            forall|j: int| 0 <= j < i ==> (#[trigger] source_text(mv[j]) matches Some(t) ==> quotes_strippable(t)),
            import_syntax_views(out@) == imports_of(mv.take(i as int), matches_view(cms@)),
        decreases ims@.len() - i,
    {
        let m = &ims[i];
        proof {
            assert(mv.take(i + 1).drop_last() =~= mv.take(i as int));
            assert(mv.take(i + 1).last() == match_view(m@));
            assert(mv[i as int] == match_view(m@));
        }
        match find_capture(m, "source") {
            Some(k) => match &m[k].text {
                Some(t) => {
                    if !is_quotes_strippable(t.as_str()) {
                        assert(source_text(mv[i as int]) == Some(t@));
                        return Err(t.clone());
                    }
                    let clause = match find_capture(m, "import") {
                        Some(s) => clause_items_at(cms, m[s].start_byte),
                        None => Vec::new(),
                    };
                    let x = ImportSyntax {
                        specifier: strip_quotes(t.as_str()),
                        start_line: line_number(m[k].start_row),
                        end_line: line_number(m[k].end_row),
                        clause,
                    };
                    proof {
                        assert(import_syntax_views(out@.push(x)) =~= import_syntax_views(out@).push(x@));
                    }
                    out.push(x);
                },
                None => {},
            },
            None => {},
        }
        i = i + 1;
    }
    proof {
        assert(mv.take(ims@.len() as int) =~= mv);
    }
    Ok(out)
}

/// Every capture's text can be stripped of its quotes.
pub open spec fn texts_strippable(cs: Seq<CaptureView>) -> bool {
    forall|i: int| 0 <= i < cs.len() ==> (#[trigger] cs[i].text matches Some(t) ==> quotes_strippable(t))
}

/// The texts of the captures `cs` that were read, without quotes.
pub open spec fn stripped_texts(cs: Seq<CaptureView>) -> Seq<Seq<char>>
    decreases cs.len(),
{
    if cs.len() == 0 {
        Seq::empty()
    } else {
        match cs.last().text {
            Some(t) => stripped_texts(cs.drop_last()).push(stripped(t)),
            None => stripped_texts(cs.drop_last()),
        }
    }
}

/// The specifiers (quotes stripped) of the `source` captures of the
/// matches `ms`, or a source literal that is a lone quote.
pub fn source_specifiers(ms: &Vec<Vec<SyntaxCapture>>) -> (r: Result<Vec<String>, String>)
    ensures
        match r {
            Ok(v) => texts_strippable(named_in(flat(matches_view(ms@)), "source"@))
                && strings_view(v@) == stripped_texts(named_in(flat(matches_view(ms@)), "source"@)),
            Err(t) => !texts_strippable(named_in(flat(matches_view(ms@)), "source"@)) && !quotes_strippable(t@),
        },
{
    let cs = captures_named(ms, "source");
    let ghost cv = match_view(cs@);
    let mut out: Vec<String> = Vec::new();
    let mut i: usize = 0;
    while i < cs.len()
        invariant
            i <= cs@.len(),
            cv == match_view(cs@),
            cv == named_in(flat(matches_view(ms@)), "source"@),
            forall|j: int| 0 <= j < i ==> (#[trigger] cv[j].text matches Some(t) ==> quotes_strippable(t)),
            strings_view(out@) == stripped_texts(cv.take(i as int)),
        decreases cs@.len() - i,
    {
        proof {
            assert(cv.take(i + 1).drop_last() =~= cv.take(i as int));
        }
        match &cs[i].text {
            Some(t) => {
                if !is_quotes_strippable(t.as_str()) {
                    assert(cv[i as int].text == Some(t@));
                    return Err(t.clone());
                }
                let x = strip_quotes(t.as_str());
                proof {
                    assert(strings_view(out@.push(x)) =~= strings_view(out@).push(x@));
                }
                out.push(x);
            },
            None => {},
        }
        i = i + 1;
    }
    proof {
        assert(cv.take(cs@.len() as int) =~= cv);
    }
    Ok(out)
}

/// A re-export statement of a file: its specifier (quotes stripped, empty
/// where none was read), lines and whether it is `export type`.
#[derive(Debug, Clone, PartialEq, Eq)]
pub struct ReexportSyntax {
    pub specifier: String,
    pub start_line: u32,
    pub end_line: u32,
    pub type_only: bool,
}

/// What a re-export statement stands for.
pub struct ReexportSyntaxView {
    pub specifier: Seq<char>,
    pub start_line: u32,
    pub end_line: u32,
    pub type_only: bool,
}

impl View for ReexportSyntax {
    type V = ReexportSyntaxView;

    open spec fn view(&self) -> ReexportSyntaxView {
        ReexportSyntaxView {
            specifier: self.specifier@,
            start_line: self.start_line,
            end_line: self.end_line,
            type_only: self.type_only,
        }
    }
}

/// The views of re-export statements, in order.
pub open spec fn reexport_syntax_views(v: Seq<ReexportSyntax>) -> Seq<ReexportSyntaxView> {
    v.map_values(|x: ReexportSyntax| x@)
}

/// The re-exports of the matches `rms` of the re-export query: the source
/// literal without quotes and its lines (empty and 0 where the text was not
/// read), type-only where the statement (`reexport`) is one that the
/// type re-export query matched (`trms`).
pub open spec fn reexports_of(rms: Seq<Seq<CaptureView>>, trms: Seq<Seq<CaptureView>>) -> Seq<ReexportSyntaxView>
    decreases rms.len(),
{
    if rms.len() == 0 {
        Seq::empty()
    } else {
        let m = rms.last();
        let (specifier, start_line, end_line) = match capture_named(m, "source"@) {
            Some(c) => match c.text {
                Some(t) => (stripped(t), line_of(c.start_row), line_of(c.end_row)),
                None => (Seq::empty(), 0u32, 0u32),
            },
            None => (Seq::empty(), 0u32, 0u32),
        };
        reexports_of(rms.drop_last(), trms).push(
            ReexportSyntaxView {
                specifier,
                start_line,
                end_line,
                type_only: match capture_named(m, "reexport"@) {
                    Some(n) => has_capture_at(trms, "reexport"@, n.start_byte),
                    None => false,
                },
            },
        )
    }
}

/// The re-exports of the re-export query's matches `rms`, or a source
/// literal that is a lone quote.
pub fn reexport_statements(rms: &Vec<Vec<SyntaxCapture>>, trms: &Vec<Vec<SyntaxCapture>>) -> (r: Result<Vec<ReexportSyntax>, String>)
    ensures
        match r {
            Ok(v) => sources_strippable(matches_view(rms@))
                && reexport_syntax_views(v@) == reexports_of(matches_view(rms@), matches_view(trms@)),
            Err(t) => !sources_strippable(matches_view(rms@)) && !quotes_strippable(t@),
        },
{
    let ghost mv = matches_view(rms@);
    let mut out: Vec<ReexportSyntax> = Vec::new();
    let mut i: usize = 0;
    while i < rms.len()
        invariant
            i <= rms@.len(),
            mv == matches_view(rms@),
            forall|j: int| 0 <= j < i ==> (#[trigger] source_text(mv[j]) matches Some(t) ==> quotes_strippable(t)),
            reexport_syntax_views(out@) == reexports_of(mv.take(i as int), matches_view(trms@)),
        decreases rms@.len() - i,
    {
        let m = &rms[i];
        proof {
            assert(mv.take(i + 1).drop_last() =~= mv.take(i as int));
            assert(mv.take(i + 1).last() == match_view(m@));
            assert(mv[i as int] == match_view(m@));
        }
        let mut specifier = String::new();
        let mut start_line: u32 = 0;
        let mut end_line: u32 = 0;
        match find_capture(m, "source") {
            Some(k) => match &m[k].text {
                Some(t) => {
                    if !is_quotes_strippable(t.as_str()) {
                        assert(source_text(mv[i as int]) == Some(t@));
                        return Err(t.clone());
                    }
                    specifier = strip_quotes(t.as_str());
                    start_line = line_number(m[k].start_row);
                    end_line = line_number(m[k].end_row);
                },
                None => {},
            },
            None => {},
        }
        let type_only = match find_capture(m, "reexport") {
            Some(n) => capture_at(trms, "reexport", m[n].start_byte),
            None => false,
        };
        let x = ReexportSyntax { specifier, start_line, end_line, type_only };
        proof {
            assert(reexport_syntax_views(out@.push(x)) =~= reexport_syntax_views(out@).push(x@));
        }
        out.push(x);
        i = i + 1;
    }
    proof {
        assert(mv.take(rms@.len() as int) =~= mv);
    }
    Ok(out)
}

/// A call found in a file, as plain values: its argument as written, and
/// lines.
pub open spec fn call_views(v: Seq<CallCapture>) -> Seq<(Seq<char>, u32, u32)> {
    v.map_values(|c: CallCapture| (c.text@, c.start_line, c.end_line))
}

/// The calls of the captures `cs`: each text as written (`unknown` where it
/// was not read), with its lines.
pub open spec fn calls_in(cs: Seq<CaptureView>) -> Seq<(Seq<char>, u32, u32)>
    decreases cs.len(),
{
    if cs.len() == 0 {
        Seq::empty()
    } else {
        let c = cs.last();
        calls_in(cs.drop_last()).push(
            (
                match c.text {
                    Some(t) => t,
                    None => "unknown"@,
                },
                line_of(c.start_row),
                line_of(c.end_row),
            ),
        )
    }
}

/// The calls of the `source` captures of the matches `ms` (of the dynamic
/// import or the require query), or an argument that is a lone quote.
pub fn call_arguments(ms: &Vec<Vec<SyntaxCapture>>) -> (r: Result<Vec<CallCapture>, String>)
    ensures
        match r {
            Ok(v) => texts_strippable(named_in(flat(matches_view(ms@)), "source"@))
                && call_views(v@) == calls_in(named_in(flat(matches_view(ms@)), "source"@))
                && forall|i: int| 0 <= i < v@.len() ==> quotes_strippable(#[trigger] v@[i].text@),
            Err(t) => !texts_strippable(named_in(flat(matches_view(ms@)), "source"@)) && !quotes_strippable(t@),
        },
{
    proof {
        reveal_strlit("unknown");
    }
    let cs = captures_named(ms, "source");
    let ghost cv = match_view(cs@);
    let mut out: Vec<CallCapture> = Vec::new();
    let mut i: usize = 0;
    while i < cs.len()
        invariant
            i <= cs@.len(),
            cv == match_view(cs@),
            cv == named_in(flat(matches_view(ms@)), "source"@),
            forall|j: int| 0 <= j < i ==> (#[trigger] cv[j].text matches Some(t) ==> quotes_strippable(t)),
            call_views(out@) == calls_in(cv.take(i as int)),
            forall|j: int| 0 <= j < out@.len() ==> quotes_strippable(#[trigger] out@[j].text@),
        decreases cs@.len() - i,
    {
        proof {
            assert(cv.take(i + 1).drop_last() =~= cv.take(i as int));
        }
        let text = match &cs[i].text {
            Some(t) => {
                if !is_quotes_strippable(t.as_str()) {
                    assert(cv[i as int].text == Some(t@));
                    return Err(t.clone());
                }
                t.clone()
            },
            None => "unknown".to_owned(),
        };
        assert(quotes_strippable(text@)) by {
            if cs[i as int].text is None {
                reveal_strlit("unknown");
                assert(trim_start_ws("unknown"@) == "unknown"@);
                assert(trim_end_ws("unknown"@) == "unknown"@);
            }
        }
        let x = CallCapture { text, start_line: line_number(cs[i].start_row), end_line: line_number(cs[i].end_row) };
        proof {
            assert(call_views(out@.push(x)) =~= call_views(out@).push((x.text@, x.start_line, x.end_line)));
        }
        out.push(x);
        i = i + 1;
    }
    proof {
        assert(cv.take(cs@.len() as int) =~= cv);
    }
    Ok(out)
}

/// What the import queries found in one source file.
#[derive(Debug)]
pub struct TsFileSyntax {
    /// Import statements.
    pub imports: Vec<ImportSyntax>,
    /// Specifiers of statement-level `import type` statements.
    pub type_sources: Vec<String>,
    /// Re-export statements.
    pub reexports: Vec<ReexportSyntax>,
    /// Arguments of dynamic `import(...)` calls.
    pub dynamic_imports: Vec<CallCapture>,
    /// Arguments of `require(...)` calls.
    pub requires_calls: Vec<CallCapture>,
}

/// The outcome of reading one source file's imports.
#[derive(Debug)]
pub enum TsFileOutcome {
    /// What the queries found.
    Syntax(TsFileSyntax),
    /// The file could not be parsed; the report records why.
    Unparsed,
    /// A string literal of the file is a lone quote character, which has no
    /// inside to take.
    LoneQuote(String),
}

/// The matches of the query `query` on `source` parsed with `grammar`.
pub open spec fn ts_matches(grammar: Grammar, source: Seq<char>, query: Seq<char>) -> Seq<Seq<CaptureView>> {
    query_matches(grammar, source, query)
}

/// Every string literal whose quotes are taken off can be stripped.
pub open spec fn ts_literals_strippable(grammar: Grammar, source: Seq<char>) -> bool {
    &&& sources_strippable(ts_matches(grammar, source, IMPORT_QUERY@))
    &&& texts_strippable(named_in(flat(ts_matches(grammar, source, IMPORT_TYPE_QUERY@)), "source"@))
    &&& sources_strippable(ts_matches(grammar, source, REEXPORT_QUERY@))
    &&& texts_strippable(named_in(flat(ts_matches(grammar, source, DYNAMIC_IMPORT_QUERY@)), "source"@))
    &&& texts_strippable(named_in(flat(ts_matches(grammar, source, REQUIRE_QUERY@)), "source"@))
}

/// `s` holds what the queries find in `source` parsed with `grammar`.
pub open spec fn is_file_syntax_of(s: TsFileSyntax, grammar: Grammar, source: Seq<char>) -> bool {
    &&& import_syntax_views(s.imports@) == imports_of(
        ts_matches(grammar, source, IMPORT_QUERY@),
        ts_matches(grammar, source, CLAUSE_QUERY@),
    )
    &&& strings_view(s.type_sources@) == stripped_texts(named_in(flat(ts_matches(grammar, source, IMPORT_TYPE_QUERY@)), "source"@))
    &&& reexport_syntax_views(s.reexports@) == reexports_of(
        ts_matches(grammar, source, REEXPORT_QUERY@),
        ts_matches(grammar, source, TYPE_REEXPORT_QUERY@),
    )
    &&& call_views(s.dynamic_imports@) == calls_in(named_in(flat(ts_matches(grammar, source, DYNAMIC_IMPORT_QUERY@)), "source"@))
    &&& call_views(s.requires_calls@) == calls_in(named_in(flat(ts_matches(grammar, source, REQUIRE_QUERY@)), "source"@))
    &&& forall|i: int| 0 <= i < s.dynamic_imports@.len() ==> quotes_strippable(#[trigger] s.dynamic_imports@[i].text@)
    &&& forall|i: int| 0 <= i < s.requires_calls@.len() ==> quotes_strippable(#[trigger] s.requires_calls@[i].text@)
}

/// The parse failure recorded for a source file that could not be parsed.
pub open spec fn ts_parse_failure(f: SyntaxFailure, file_relative: Seq<char>) -> ParseFailureView {
    ParseFailureView {
        path: file_relative,
        reason: match f {
            SyntaxFailure::Language => "could not set tree-sitter language"@,
            SyntaxFailure::Parse => "tree-sitter parse returned None"@,
        },
    }
}

/// Reads the imports of one source file with the queries of its grammar:
/// a file that could not be parsed is recorded as a parse failure; a file
/// with a string literal that is a lone quote gives that literal; any other
/// file gives what the queries find (see [`is_file_syntax_of`]).
pub fn ts_file_syntax(
    queries: &TsQueries,
    source: &str,
    file_relative: &str,
    report: &mut DetectorReport,
) -> (r: TsFileOutcome)
    requires
        queries.compiled(),
    ensures
        match parse_failure(queries.grammar(), source@) {
            Some(f) => {
                &&& r is Unparsed
                &&& failure_views(final(report).parse_failures@) == failure_views(old(report).parse_failures@).push(
                    ts_parse_failure(f, file_relative@),
                )
                &&& final(report).nodes_discovered == old(report).nodes_discovered
                &&& final(report).edges_discovered == old(report).edges_discovered
                &&& final(report).unsupported_constructs == old(report).unsupported_constructs
                &&& final(report).unresolved_imports == old(report).unresolved_imports
            },
            None => {
                &&& *final(report) == *old(report)
                &&& match r {
                    TsFileOutcome::Syntax(s) => ts_literals_strippable(queries.grammar(), source@)
                        && is_file_syntax_of(s, queries.grammar(), source@),
                    TsFileOutcome::LoneQuote(t) => !ts_literals_strippable(queries.grammar(), source@)
                        && !quotes_strippable(t@),
                    TsFileOutcome::Unparsed => false,
                }
            },
        },
{
    let tree = match parse_source(queries.grammar, source) {
        Ok(t) => t,
        Err(f) => {
            let reason = match f {
                SyntaxFailure::Language => "could not set tree-sitter language".to_owned(),
                SyntaxFailure::Parse => "tree-sitter parse returned None".to_owned(),
            };
            let pf = ParseFailure { path: file_relative.to_owned(), reason };
            proof {
                lemma_failure_views_push(report.parse_failures@, pf);
            }
            report.parse_failures.push(pf);
            return TsFileOutcome::Unparsed;
        },
    };
    let import_ms = run_query(&tree, &queries.import);
    let clause_ms = run_query(&tree, &queries.clause);
    let imports = match import_statements(&import_ms, &clause_ms) {
        Ok(v) => v,
        Err(t) => {
            return TsFileOutcome::LoneQuote(t);
        },
    };
    let type_ms = run_query(&tree, &queries.import_type);
    let type_sources = match source_specifiers(&type_ms) {
        Ok(v) => v,
        Err(t) => {
            return TsFileOutcome::LoneQuote(t);
        },
    };
    let reexport_ms = run_query(&tree, &queries.reexport);
    let type_reexport_ms = run_query(&tree, &queries.type_reexport);
    let reexports = match reexport_statements(&reexport_ms, &type_reexport_ms) {
        Ok(v) => v,
        Err(t) => {
            return TsFileOutcome::LoneQuote(t);
        },
    };
    let dynamic_ms = run_query(&tree, &queries.dynamic_import);
    let dynamic_imports = match call_arguments(&dynamic_ms) {
        Ok(v) => v,
        Err(t) => {
            return TsFileOutcome::LoneQuote(t);
        },
    };
    let require_ms = run_query(&tree, &queries.require);
    let requires_calls = match call_arguments(&require_ms) {
        Ok(v) => v,
        Err(t) => {
            return TsFileOutcome::LoneQuote(t);
        },
    };
    TsFileOutcome::Syntax(TsFileSyntax { imports, type_sources, reexports, dynamic_imports, requires_calls })
}

// ---------------------------------------------------------------------------
// Manifests and tsconfig
// ---------------------------------------------------------------------------

/// The dependencies a parsed `package.json` declares: the keys of its
/// `dependencies` (normal), `devDependencies` (dev) and `peerDependencies`
/// (normal) objects, in that order.
pub open spec fn manifest_dependencies(doc: JsonView) -> Seq<(Seq<char>, EdgeCategory)> {
    keys_of(json_member(doc, "dependencies"@)).map_values(|k: Seq<char>| (k, EdgeCategory::Normal))
        + keys_of(json_member(doc, "devDependencies"@)).map_values(|k: Seq<char>| (k, EdgeCategory::Dev))
        + keys_of(json_member(doc, "peerDependencies"@)).map_values(|k: Seq<char>| (k, EdgeCategory::Normal))
}

/// The names of a parsed `package.json`'s dependencies, dev dependencies
/// and peer dependencies.
pub fn dependency_names(manifest: &JsonValue) -> (r: (Vec<String>, Vec<String>, Vec<String>))
    ensures
        doc_strings(r.0@) == keys_of(json_member(manifest@, "dependencies"@)),
        doc_strings(r.1@) == keys_of(json_member(manifest@, "devDependencies"@)),
        doc_strings(r.2@) == keys_of(json_member(manifest@, "peerDependencies"@)),
{
    (
        keys_of_value(json_get(manifest, "dependencies")),
        keys_of_value(json_get(manifest, "devDependencies")),
        keys_of_value(json_get(manifest, "peerDependencies")),
    )
}

/// The dependencies that a `package.json` text declares (see
/// [`manifest_dependencies`]); none where it does not parse.
pub fn package_dependencies_from_text(text: &str) -> (r: Vec<(String, EdgeCategory)>)
    ensures
        deps_view(r) == (match json_parse(text@) {
            Ok(doc) => manifest_dependencies(doc),
            Err(_) => Seq::empty(),
        }),
{
    match parse_json(text) {
        Ok(doc) => {
            let (d, dev, peer) = dependency_names(&doc);
            let ghost (dv, devv, peerv) = (d@, dev@, peer@);
            let r = package_dependencies(d, dev, peer);
            assert(dv.map_values(|n: String| (n@, EdgeCategory::Normal)) =~= doc_strings(dv).map_values(
                |k: Seq<char>| (k, EdgeCategory::Normal),
            ));
            assert(devv.map_values(|n: String| (n@, EdgeCategory::Dev)) =~= doc_strings(devv).map_values(
                |k: Seq<char>| (k, EdgeCategory::Dev),
            ));
            assert(peerv.map_values(|n: String| (n@, EdgeCategory::Normal)) =~= doc_strings(peerv).map_values(
                |k: Seq<char>| (k, EdgeCategory::Normal),
            ));
            r
        },
        Err(_) => {
            let r: Vec<(String, EdgeCategory)> = Vec::new();
            assert(deps_view(r) =~= Seq::<(Seq<char>, EdgeCategory)>::empty());
            r
        },
    }
}

/// The entries of `compilerOptions.paths` of a parsed tsconfig, where it is
/// an object.
pub open spec fn paths_entries(doc: JsonView) -> Seq<(Seq<char>, JsonView)> {
    match member_of(json_member(doc, "compilerOptions"@), "paths"@) {
        Some(JsonView::Object(fs)) => fs,
        _ => Seq::empty(),
    }
}

/// The `compilerOptions.baseUrl` of a parsed tsconfig, where it is a
/// string.
pub open spec fn tsconfig_base_url(doc: JsonView) -> Option<Seq<char>> {
    json_text(member_of(json_member(doc, "compilerOptions"@), "baseUrl"@))
}

/// `m` is the mapping of the pattern `pattern` (split at its first `*`, see
/// [`path_mapping`]) to the replacements `reps`.
pub open spec fn is_mapping_of(m: PathMapping, pattern: Seq<char>, reps: Seq<Seq<char>>) -> bool {
    &&& pattern.contains('*') ==> m.prefix@ == pattern.take(first_index_of(pattern, '*')) && m.suffix@
        == pattern.skip(first_index_of(pattern, '*') + 1)
    &&& !pattern.contains('*') ==> m.prefix@ == pattern && m.suffix@.len() == 0
    &&& doc_strings(m.replacements@) == reps
}

/// The `baseUrl` and the path mappings of a parsed tsconfig: one mapping
/// per `compilerOptions.paths` entry, in order, to the entry's string
/// replacements (none where the entry is not an array).
pub fn tsconfig_paths(doc: &JsonValue) -> (r: (Option<String>, Vec<PathMapping>))
    ensures
        opt_view(r.0) == tsconfig_base_url(doc@),
        r.1@.len() == paths_entries(doc@).len(),
        forall|i: int|
            0 <= i < r.1@.len() ==> is_mapping_of(
                #[trigger] r.1@[i],
                paths_entries(doc@)[i].0,
                array_strings(Some(paths_entries(doc@)[i].1)),
            ),
{
    let options = json_get(doc, "compilerOptions");
    let base_url = json_as_text(json_get_opt(options, "baseUrl"));
    let mut mappings: Vec<PathMapping> = Vec::new();
    match json_get_opt(options, "paths") {
        Some(JsonValue::Object(fields)) => {
            proof {
                lemma_json_field_views(fields@);
            }
            let ghost fv = json_field_views(fields@);
            assert(paths_entries(doc@) == fv);
            let mut i: usize = 0;
            while i < fields.len()
                invariant
                    i <= fields@.len(),
                    fv == json_field_views(fields@),
                    fv == paths_entries(doc@),
                    fv.len() == fields@.len(),
                    forall|k: int| 0 <= k < fields@.len() ==> #[trigger] fv[k] == (fields@[k].0@, json_view(fields@[k].1)),
                    mappings@.len() == i,
                    forall|k: int|
                        0 <= k < i ==> is_mapping_of(#[trigger] mappings@[k], fv[k].0, array_strings(Some(fv[k].1))),
                decreases fields@.len() - i,
            {
                let reps = array_strings_of(Some(&fields[i].1));
                let m = path_mapping(fields[i].0.as_str(), reps);
                mappings.push(m);
                i = i + 1;
            }
        },
        _ => {},
    }
    (base_url, mappings)
}

/// The `baseUrl` and path mappings of a tsconfig text (comments stripped,
/// see [`tsconfig_paths`]); none where it does not parse.
pub fn tsconfig_paths_from_text(text: &str) -> (r: (Option<String>, Vec<PathMapping>))
    ensures
        match json_parse(strip_jsonc(text@)) {
            Ok(doc) => {
                &&& opt_view(r.0) == tsconfig_base_url(doc)
                &&& r.1@.len() == paths_entries(doc).len()
                &&& forall|i: int|
                    0 <= i < r.1@.len() ==> is_mapping_of(
                        #[trigger] r.1@[i],
                        paths_entries(doc)[i].0,
                        array_strings(Some(paths_entries(doc)[i].1)),
                    )
            },
            Err(_) => r.0 is None && r.1@.len() == 0,
        },
{
    let stripped = strip_jsonc_comments(text);
    match parse_json(stripped.as_str()) {
        Ok(doc) => tsconfig_paths(&doc),
        Err(_) => (None, Vec::new()),
    }
}

} // verus!
