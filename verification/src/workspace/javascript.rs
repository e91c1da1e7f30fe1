//! JavaScript/TypeScript workspace discovery decisions.
//!
//! pnpm workspaces (`pnpm-workspace.yaml`) are checked first, then the
//! `package.json` `workspaces` field (npm/yarn). This module decides the
//! package manager from lock files, plans how each workspace glob is
//! searched, assembles the discovered packages, and strips comments from
//! JSONC (`tsconfig.json`) text.

use vstd::prelude::*;

use crate::graph::types::Language;
use crate::paths::{opt_view, relative_or_self, relative_to};
use crate::text::{
    chars_of, contains_char, is_prefix, is_suffix, prefix_string, push_char, starts_with,
    string_of,
};
use crate::workspace::{
    JsDiscoveryResult, JsPackageInfo, JsWorkspaceMeta, TsconfigInfo, WorkspaceError, WorkspacePackage,
};
use crate::workspace::document::{
    array_strings, array_strings_of, field_in, json_as_text, json_field_views, json_get, json_get_opt,
    json_member, json_parse, json_text, lemma_json_views, member_of, parse_json, parse_yaml,
    string_items, string_items_of, strings_view, untag, yaml_get, yaml_member, yaml_parse,
    yaml_string_items, yaml_string_items_of, yaml_untag, JsonValue, JsonView, YamlValue, YamlView,
};

verus! {

// ---------------------------------------------------------------------------
// Package manager
// ---------------------------------------------------------------------------

/// The package manager that the lock files present at the root indicate:
/// `pnpm-lock.yaml` first, then `yarn.lock`, then either bun lock file,
/// else npm.
pub open spec fn package_manager_for(
    pnpm_lock: bool,
    yarn_lock: bool,
    bun_lockb: bool,
    bun_lock: bool,
) -> Seq<char> {
    if pnpm_lock {
        seq!['p', 'n', 'p', 'm']
    } else if yarn_lock {
        seq!['y', 'a', 'r', 'n']
    } else if bun_lockb || bun_lock {
        seq!['b', 'u', 'n']
    } else {
        seq!['n', 'p', 'm']
    }
}

/// Decides the package manager from which lock files exist at the root
/// (`pnpm-lock.yaml`, `yarn.lock`, `bun.lockb`, `bun.lock`).
pub fn package_manager_from_lockfiles(
    pnpm_lock: bool,
    yarn_lock: bool,
    bun_lockb: bool,
    bun_lock: bool,
) -> (pm: String)
    ensures
        pm@ == package_manager_for(pnpm_lock, yarn_lock, bun_lockb, bun_lock),
{
    if pnpm_lock {
        string_of(&['p', 'n', 'p', 'm'])
    } else if yarn_lock {
        string_of(&['y', 'a', 'r', 'n'])
    } else if bun_lockb || bun_lock {
        string_of(&['b', 'u', 'n'])
    } else {
        string_of(&['n', 'p', 'm'])
    }
}

// ---------------------------------------------------------------------------
// Workspace globs
// ---------------------------------------------------------------------------

/// `s` with every trailing occurrence of `suffix` removed, repeatedly
/// (std's `trim_end_matches` with a non-empty string pattern).
pub open spec fn trim_suffix_all(s: Seq<char>, suffix: Seq<char>) -> Seq<char>
    decreases s.len(),
{
    if suffix.len() > 0 && is_suffix(suffix, s) {
        trim_suffix_all(s.take(s.len() - suffix.len()), suffix)
    } else {
        s
    }
}

/// The directory a workspace glob searches: the glob without trailing
/// `/**`, then without trailing `/*`, then without trailing `*`.
pub open spec fn glob_base(glob: Seq<char>) -> Seq<char> {
    trim_suffix_all(
        trim_suffix_all(trim_suffix_all(glob, seq!['/', '*', '*']), seq!['/', '*']),
        seq!['*'],
    )
}

/// How one workspace glob is searched for packages.
#[derive(Debug, PartialEq, Eq)]
pub enum GlobPlan {
    /// A negation pattern (`!...`): not searched.
    Skip,
    /// A wildcard pattern: each immediate child directory of `base_dir`
    /// (relative to the root) is a candidate package.
    Children { base_dir: String },
    /// A plain path: that one directory (relative to the root) is the
    /// candidate package.
    Exact { dir: String },
}

/// Removes every trailing occurrence of `suffix` from the first `n`
/// characters of `cs`, giving the new length.
fn trim_suffix_len(cs: &Vec<char>, n: usize, suffix: &[char]) -> (m: usize)
    requires
        n <= cs@.len(),
        suffix@.len() > 0,
    ensures
        m <= n,
        cs@.take(m as int) == trim_suffix_all(cs@.take(n as int), suffix@),
    decreases n,
{
    let k = suffix.len();
    if k > n {
        return n;
    }
    let start = n - k;
    let mut i: usize = 0;
    while i < k
        invariant
            k == suffix@.len(),
            start + k == n <= cs@.len(),
            i <= k,
            forall|j: int| 0 <= j < i ==> cs@[start + j] == suffix@[j],
        decreases k - i,
    {
        if cs[start + i] != suffix[i] {
            proof {
                assert(cs@.take(n as int).skip(start as int)[i as int] != suffix@[i as int]);
            }
            return n;
        }
        i = i + 1;
    }
    assert(cs@.take(n as int).skip(start as int) =~= suffix@);
    assert(cs@.take(n as int).take(start as int) =~= cs@.take(start as int));
    trim_suffix_len(cs, start, suffix)
}

/// Plans how the workspace glob `glob` is searched: negations are skipped;
/// a glob with a `*` lists the children of its base directory; any other
/// glob names one directory.
pub fn plan_package_glob(glob: &str) -> (plan: GlobPlan)
    ensures
        glob@.len() > 0 && glob@[0] == '!' ==> plan == GlobPlan::Skip,
        !(glob@.len() > 0 && glob@[0] == '!') && glob@.contains('*') ==> (plan matches GlobPlan::Children { base_dir } && base_dir@ == glob_base(glob@)),
        !(glob@.len() > 0 && glob@[0] == '!') && !glob@.contains('*') ==> (plan matches GlobPlan::Exact { dir } && dir@ == glob@),
{
    proof {
        reveal_strlit("!");
    }
    if starts_with(glob, "!") {
        assert(glob@[0] == '!') by {
            assert(glob@.take(1)[0] == "!"@[0]);
        }
        return GlobPlan::Skip;
    }
    proof {
        if glob@.len() > 0 && glob@[0] == '!' {
            assert(glob@.take(1) =~= "!"@);
        }
    }
    if contains_char(glob, '*') {
        let cs = chars_of(glob);
        let n = cs.len();
        assert(cs@.take(n as int) =~= glob@);
        let s1: [char; 3] = ['/', '*', '*'];
        let s2: [char; 2] = ['/', '*'];
        let s3: [char; 1] = ['*'];
        assert(s1@ =~= seq!['/', '*', '*']);
        assert(s2@ =~= seq!['/', '*']);
        assert(s3@ =~= seq!['*']);
        let n1 = trim_suffix_len(&cs, n, &s1);
        let n2 = trim_suffix_len(&cs, n1, &s2);
        let n3 = trim_suffix_len(&cs, n2, &s3);
        let base_dir = prefix_string(&cs, n3);
        assert(base_dir@ == glob_base(glob@));
        GlobPlan::Children { base_dir }
    } else {
        GlobPlan::Exact { dir: glob.to_owned() }
    }
}

// ---------------------------------------------------------------------------
// Assembling discovered packages
// ---------------------------------------------------------------------------

/// The package record of a `package.json` found in `pkg_dir`: its name
/// (`unknown` where it has none), its directory relative to the root, and
/// the fields that matter for resolution.
pub fn js_package_info(
    root: &str,
    pkg_dir: &str,
    name: Option<String>,
    has_exports_field: bool,
    has_imports_field: bool,
    module_type: Option<String>,
) -> (p: JsPackageInfo)
    ensures
        p.name@ == (match name {
            Some(n) => n@,
            None => seq!['u', 'n', 'k', 'n', 'o', 'w', 'n'],
        }),
        p.relative_path@ == relative_to(pkg_dir@, root@),
        p.has_exports_field == has_exports_field,
        p.has_imports_field == has_imports_field,
        p.module_type == module_type,
{
    let name = match name {
        Some(n) => n,
        None => string_of(&['u', 'n', 'k', 'n', 'o', 'w', 'n']),
    };
    JsPackageInfo {
        name,
        relative_path: relative_or_self(pkg_dir, root),
        has_exports_field,
        has_imports_field,
        module_type,
    }
}

/// The workspace package that a JS package stands for (a TypeScript package
/// with the same name and path).
pub open spec fn js_workspace_package(p: JsPackageInfo) -> WorkspacePackage {
    WorkspacePackage { name: p.name, relative_path: p.relative_path, language: Language::TypeScript }
}

/// Assembles the result of JS workspace discovery: one TypeScript workspace
/// package per JS package, in order, and the JS metadata.
pub fn js_discovery(
    package_manager: String,
    packages: Vec<JsPackageInfo>,
    root_tsconfig: Option<TsconfigInfo>,
    has_pnp: bool,
) -> (r: JsDiscoveryResult)
    ensures
        r.packages@.len() == packages@.len(),
        forall|i: int| 0 <= i < packages@.len() ==> #[trigger] r.packages@[i] == js_workspace_package(
            packages@[i],
        ),
        r.js_meta == (JsWorkspaceMeta { package_manager, packages, root_tsconfig, has_pnp }),
{
    let mut ws: Vec<WorkspacePackage> = Vec::new();
    let mut i: usize = 0;
    while i < packages.len()
        invariant
            i <= packages@.len(),
            ws@.len() == i,
            forall|j: int| 0 <= j < i ==> #[trigger] ws@[j] == js_workspace_package(packages@[j]),
        decreases packages@.len() - i,
    {
        let p = &packages[i];
        ws.push(
            WorkspacePackage {
                name: p.name.clone(),
                relative_path: p.relative_path.clone(),
                language: Language::TypeScript,
            },
        );
        i = i + 1;
    }
    JsDiscoveryResult {
        packages: ws,
        js_meta: JsWorkspaceMeta { package_manager, packages, root_tsconfig, has_pnp },
    }
}

// ---------------------------------------------------------------------------
// JSONC comment stripping
// ---------------------------------------------------------------------------

/// Where a JSONC scan stands.
#[derive(Debug, Clone, Copy, PartialEq, Eq, Structural)]
pub enum JsoncState {
    /// Outside strings and comments.
    Code,
    /// Inside a string literal.
    InString,
    /// Right after a backslash inside a string literal.
    Escape,
    /// Inside a `//` comment.
    LineComment,
    /// At the `*` that opens a block comment.
    BlockOpen,
    /// Inside a block comment; `star` if the previous character was `*`.
    Block { star: bool },
}

/// One step of the scan: the state after `c` (followed by `next`) and the
/// characters kept from it.
pub open spec fn jsonc_step(st: JsoncState, c: char, next: Option<char>) -> (JsoncState, Seq<char>) {
    match st {
        JsoncState::Code => if c == '"' {
            (JsoncState::InString, seq![c])
        } else if c == '/' && next == Some('/') {
            (JsoncState::LineComment, Seq::empty())
        } else if c == '/' && next == Some('*') {
            (JsoncState::BlockOpen, Seq::empty())
        } else {
            (JsoncState::Code, seq![c])
        },
        JsoncState::InString => if c == '\\' {
            (JsoncState::Escape, seq![c])
        } else if c == '"' {
            (JsoncState::Code, seq![c])
        } else {
            (JsoncState::InString, seq![c])
        },
        JsoncState::Escape => (JsoncState::InString, seq![c]),
        JsoncState::LineComment => if c == '\n' {
            (JsoncState::Code, seq!['\n'])
        } else {
            (JsoncState::LineComment, Seq::empty())
        },
        JsoncState::BlockOpen => (JsoncState::Block { star: false }, Seq::empty()),
        JsoncState::Block { star } => if star && c == '/' {
            (JsoncState::Code, Seq::empty())
        } else {
            (JsoncState::Block { star: c == '*' }, Seq::empty())
        },
    }
}

/// The character after position `i`, if any.
pub open spec fn char_after(s: Seq<char>, i: int) -> Option<char> {
    if i + 1 < s.len() {
        Some(s[i + 1])
    } else {
        None
    }
}

/// What the scan keeps of `s` from position `i` on, starting in `st`.
pub open spec fn jsonc_run(s: Seq<char>, i: int, st: JsoncState) -> Seq<char>
    decreases s.len() - i,
{
    if i < 0 || i >= s.len() {
        Seq::empty()
    } else {
        let (next_st, out) = jsonc_step(st, s[i], char_after(s, i));
        out + jsonc_run(s, i + 1, next_st)
    }
}

/// JSONC text with its comments removed: `//` comments up to (not
/// including) the end of their line, `/* */` comments whole; comment
/// markers inside string literals (with backslash escapes) are kept.
pub open spec fn strip_jsonc(s: Seq<char>) -> Seq<char> {
    jsonc_run(s, 0, JsoncState::Code)
}

fn jsonc_step_exec(st: JsoncState, c: char, next: Option<char>) -> (r: (JsoncState, Option<char>))
    ensures
        r.0 == jsonc_step(st, c, next).0,
        jsonc_step(st, c, next).1 == (match r.1 {
            Some(k) => seq![k],
            None => Seq::<char>::empty(),
        }),
{
    match st {
        JsoncState::Code => {
            if c == '"' {
                (JsoncState::InString, Some(c))
            } else if c == '/' && next == Some('/') {
                (JsoncState::LineComment, None)
            } else if c == '/' && next == Some('*') {
                (JsoncState::BlockOpen, None)
            } else {
                (JsoncState::Code, Some(c))
            }
        },
        JsoncState::InString => {
            if c == '\\' {
                (JsoncState::Escape, Some(c))
            } else if c == '"' {
                (JsoncState::Code, Some(c))
            } else {
                (JsoncState::InString, Some(c))
            }
        },
        JsoncState::Escape => (JsoncState::InString, Some(c)),
        JsoncState::LineComment => {
            if c == '\n' {
                (JsoncState::Code, Some('\n'))
            } else {
                (JsoncState::LineComment, None)
            }
        },
        JsoncState::BlockOpen => (JsoncState::Block { star: false }, None),
        JsoncState::Block { star } => {
            if star && c == '/' {
                (JsoncState::Code, None)
            } else {
                (JsoncState::Block { star: c == '*' }, None)
            }
        },
    }
}

/// Strips `//` and `/* */` comments from JSONC text, leaving string
/// literals intact. A line comment keeps its terminating newline.
pub fn strip_jsonc_comments(input: &str) -> (r: String)
    ensures
        r@ == strip_jsonc(input@),
{
    let cs = chars_of(input);
    let mut out = String::new();
    let mut st = JsoncState::Code;
    let mut i: usize = 0;
    while i < cs.len()
        invariant
            i <= cs@.len(),
            cs@ == input@,
            out@ + jsonc_run(cs@, i as int, st) == strip_jsonc(cs@),
        decreases cs@.len() - i,
    {
        let next = if i + 1 < cs.len() {
            Some(cs[i + 1])
        } else {
            None
        };
        assert(next == char_after(cs@, i as int));
        let (st2, kept) = jsonc_step_exec(st, cs[i], next);
        let ghost before = out@;
        match kept {
            Some(k) => push_char(&mut out, k),
            None => {},
        }
        proof {
            let step = jsonc_step(st, cs@[i as int], char_after(cs@, i as int));
            assert(out@ == before + step.1);
            assert(jsonc_run(cs@, i as int, st) == step.1 + jsonc_run(cs@, i + 1, st2));
            assert(before + (step.1 + jsonc_run(cs@, i + 1, st2)) =~= out@ + jsonc_run(
                cs@,
                i + 1,
                st2,
            ));
        }
        st = st2;
        i = i + 1;
    }
    assert(out@ =~= out@ + jsonc_run(cs@, i as int, st));
    out
}

/// The scan keeps at most one character for each character it reads.
proof fn lemma_jsonc_run_len(s: Seq<char>, i: int, st: JsoncState)
    requires
        0 <= i <= s.len(),
    ensures
        jsonc_run(s, i, st).len() <= s.len() - i,
    decreases s.len() - i,
{
    if i < s.len() {
        let (n, out) = jsonc_step(st, s[i], char_after(s, i));
        lemma_jsonc_run_len(s, i + 1, n);
    }
}

/// Outside comments, text free of `/` passes through unchanged.
proof fn lemma_jsonc_run_no_slash(s: Seq<char>, i: int, st: JsoncState)
    requires
        0 <= i <= s.len(),
        st == JsoncState::Code || st == JsoncState::InString || st == JsoncState::Escape,
        forall|j: int| i <= j < s.len() ==> s[j] != '/',
    ensures
        jsonc_run(s, i, st) == s.skip(i),
    decreases s.len() - i,
{
    if i < s.len() {
        let (n, out) = jsonc_step(st, s[i], char_after(s, i));
        lemma_jsonc_run_no_slash(s, i + 1, n);
        assert(s.skip(i) =~= seq![s[i]] + s.skip(i + 1));
    } else {
        assert(s.skip(i) =~= Seq::<char>::empty());
    }
}

/// Stripping comments never lengthens the text.
pub proof fn lemma_strip_jsonc_not_longer(s: Seq<char>)
    ensures
        strip_jsonc(s).len() <= s.len(),
{
    lemma_jsonc_run_len(s, 0, JsoncState::Code);
}

/// Text without any `/` has no comments, and stripping leaves it unchanged.
pub proof fn lemma_strip_jsonc_without_slash(s: Seq<char>)
    requires
        !s.contains('/'),
    ensures
        strip_jsonc(s) == s,
{
    assert forall|j: int| 0 <= j < s.len() implies s[j] != '/' by {
        if s[j] == '/' {
            assert(s.contains('/'));
        }
    }
    lemma_jsonc_run_no_slash(s, 0, JsoncState::Code);
    assert(s.skip(0) =~= s);
}

/// Whether, scanning `s` from position `i` in state `st`, no comment
/// opens: every `/` met outside a string literal is followed by neither `/`
/// nor `*`.
pub open spec fn no_comment_opens(s: Seq<char>, i: int, st: JsoncState) -> bool
    decreases s.len() - i,
{
    if i < 0 || i >= s.len() {
        true
    } else {
        let after = char_after(s, i);
        !(st == JsoncState::Code && s[i] == '/' && (after == Some('/') || after == Some('*')))
            && no_comment_opens(s, i + 1, jsonc_step(st, s[i], after).0)
    }
}

proof fn lemma_jsonc_run_no_opening(s: Seq<char>, i: int, st: JsoncState)
    requires
        0 <= i <= s.len(),
        st == JsoncState::Code || st == JsoncState::InString || st == JsoncState::Escape,
        no_comment_opens(s, i, st),
    ensures
        jsonc_run(s, i, st) == s.skip(i),
    decreases s.len() - i,
{
    if i < s.len() {
        let (n, out) = jsonc_step(st, s[i], char_after(s, i));
        lemma_jsonc_run_no_opening(s, i + 1, n);
        assert(s.skip(i) =~= seq![s[i]] + s.skip(i + 1));
    } else {
        assert(s.skip(i) =~= Seq::<char>::empty());
    }
}

/// Where a scan of `s` from its start stands before position `j`.
pub open spec fn jsonc_state_at(s: Seq<char>, j: int) -> JsoncState
    decreases j,
{
    if j <= 0 {
        JsoncState::Code
    } else {
        jsonc_step(jsonc_state_at(s, j - 1), s[j - 1], char_after(s, j - 1)).0
    }
}

/// Every `/` of `s` lies inside a string literal: the scan from the start
/// is within a string (after an unescaped `"` and before the next one)
/// wherever it meets a `/`.
pub open spec fn slashes_in_strings(s: Seq<char>) -> bool {
    forall|j: int|
        0 <= j < s.len() && s[j] == '/' ==> (#[trigger] jsonc_state_at(s, j) == JsoncState::InString
            || jsonc_state_at(s, j) == JsoncState::Escape)
}

proof fn lemma_slashes_in_strings_open_nothing(s: Seq<char>, i: int)
    requires
        0 <= i <= s.len(),
        slashes_in_strings(s),
    ensures
        no_comment_opens(s, i, jsonc_state_at(s, i)),
    decreases s.len() - i,
{
    if i < s.len() {
        lemma_slashes_in_strings_open_nothing(s, i + 1);
        assert(jsonc_state_at(s, i + 1) == jsonc_step(jsonc_state_at(s, i), s[i], char_after(s, i)).0);
        if s[i] == '/' {
            assert(jsonc_state_at(s, i) == JsoncState::InString || jsonc_state_at(s, i) == JsoncState::Escape);
        }
    }
}

/// Text whose every `/` lies inside a string literal has no comment, and
/// stripping leaves it unchanged.
pub proof fn lemma_strip_jsonc_slashes_in_strings(s: Seq<char>)
    requires
        slashes_in_strings(s),
    ensures
        strip_jsonc(s) == s,
{
    lemma_slashes_in_strings_open_nothing(s, 0);
    lemma_strip_jsonc_without_comments(s);
}

/// Text in which no comment opens (every `/` outside a string literal, if
/// any, is followed by neither `/` nor `*`; in particular text whose every
/// `/` lies inside a string literal) is left unchanged by stripping.
pub proof fn lemma_strip_jsonc_without_comments(s: Seq<char>)
    requires
        no_comment_opens(s, 0, JsoncState::Code),
    ensures
        strip_jsonc(s) == s,
{
    lemma_jsonc_run_no_opening(s, 0, JsoncState::Code);
    assert(s.skip(0) =~= s);
}

/// The lowercase form of a text, as std's `str::to_lowercase` gives it
/// (each character mapped by the Unicode lowercase mapping, with Greek
/// final sigma handled by its context).
pub uninterp spec fn lowercase_of(s: Seq<char>) -> Seq<char>;

/// The lowercase form of a text (std's `str::to_lowercase`).
///
/// Trusted: the result depends on the text alone (Rust's lowercase mapping
/// does not depend on a locale) and is named rather than stated; the
/// Unicode tables it follows take pages.
#[verifier::external_body]
fn to_lowercase(s: &str) -> (r: String)
    ensures
        r@ == lowercase_of(s@),
{
    s.to_lowercase()
}

/// What a `tsconfig.json` gives: its path, `compilerOptions.moduleResolution`
/// lowercased, whether a `references` array is present and not empty
/// (`references_len` is its length where it is an array), and whether
/// `compilerOptions.paths` and `compilerOptions.baseUrl` are present.
pub fn tsconfig_info(
    path: String,
    module_resolution: Option<String>,
    references_len: Option<usize>,
    has_paths: bool,
    has_base_url: bool,
) -> (t: TsconfigInfo)
    ensures
        t.path@ == path@,
        opt_view(t.module_resolution) == (match module_resolution {
            Some(m) => Some(lowercase_of(m@)),
            None => None,
        }),
        t.has_project_references == (references_len matches Some(n) && n > 0),
        t.has_paths == has_paths,
        t.has_base_url == has_base_url,
{
    let module_resolution = match module_resolution {
        Some(m) => Some(to_lowercase(m.as_str())),
        None => None,
    };
    let has_project_references = match references_len {
        Some(n) => n > 0,
        None => false,
    };
    TsconfigInfo { path, module_resolution, has_project_references, has_paths, has_base_url }
}

// ---------------------------------------------------------------------------
// Manifests
// ---------------------------------------------------------------------------

/// `e` is the failure to parse the JSON file at `path`, for `reason`.
pub open spec fn is_json_parse_error(e: WorkspaceError, path: Seq<char>, reason: Seq<char>) -> bool {
    e matches WorkspaceError::JsonParse { path: p, reason: r } && p@ == path && r@ == reason
}

/// `e` is the failure to parse the YAML file at `path`, for `reason`.
pub open spec fn is_yaml_parse_error(e: WorkspaceError, path: Seq<char>, reason: Seq<char>) -> bool {
    e matches WorkspaceError::YamlParse { path: p, reason: r } && p@ == path && r@ == reason
}

/// The `tsconfig.json` information a parsed document gives (see
/// [`tsconfig_info`]): `compilerOptions.moduleResolution` lowercased,
/// whether `references` is a non-empty array, and whether
/// `compilerOptions.paths` and `compilerOptions.baseUrl` are present.
pub open spec fn is_tsconfig_of(t: TsconfigInfo, path: Seq<char>, doc: JsonView) -> bool {
    let options = json_member(doc, "compilerOptions"@);
    &&& t.path@ == path
    &&& opt_view(t.module_resolution) == (match json_text(member_of(options, "moduleResolution"@)) {
        Some(m) => Some(lowercase_of(m)),
        None => None,
    })
    &&& t.has_project_references == (json_member(doc, "references"@) matches Some(JsonView::Array(items))
        && items.len() > 0)
    &&& t.has_paths == (member_of(options, "paths"@) is Some)
    &&& t.has_base_url == (member_of(options, "baseUrl"@) is Some)
}

/// The `tsconfig.json` information of a parsed document.
pub fn tsconfig_info_from(path: String, doc: &JsonValue) -> (t: TsconfigInfo)
    ensures
        is_tsconfig_of(t, path@, doc@),
{
    let options = json_get(doc, "compilerOptions");
    let module_resolution = json_as_text(json_get_opt(options, "moduleResolution"));
    let refs = json_get(doc, "references");
    let references_len = match refs {
        Some(JsonValue::Array(items)) => {
            proof {
                lemma_json_views(items@);
            }
            Some(items.len())
        },
        _ => None,
    };
    let has_paths = json_get_opt(options, "paths").is_some();
    let has_base_url = json_get_opt(options, "baseUrl").is_some();
    tsconfig_info(path, module_resolution, references_len, has_paths, has_base_url)
}

/// Reads a `tsconfig.json` text: its comments stripped (see
/// [`strip_jsonc_comments`]), parsed as JSON; a text that does not parse
/// fails with the parser's message, another gives the information of the
/// document (see [`is_tsconfig_of`]).
pub fn tsconfig_from_text(path: String, text: &str) -> (r: Result<TsconfigInfo, WorkspaceError>)
    ensures
        match json_parse(strip_jsonc(text@)) {
            Ok(doc) => r matches Ok(t) && is_tsconfig_of(t, path@, doc),
            Err(m) => r matches Err(e) && is_json_parse_error(e, path@, m),
        },
{
    let stripped = strip_jsonc_comments(text);
    match parse_json(stripped.as_str()) {
        Ok(doc) => Ok(tsconfig_info_from(path, &doc)),
        Err(m) => Err(WorkspaceError::JsonParse { path, reason: m }),
    }
}

/// The workspace globs of a root `package.json`: the string items of
/// `workspaces` where it is an array, or of `workspaces.packages` where
/// `workspaces` is an object; none where `workspaces` is neither or no glob
/// is given.
pub open spec fn npm_globs(doc: JsonView) -> Option<Seq<Seq<char>>> {
    let globs = match json_member(doc, "workspaces"@) {
        Some(JsonView::Array(items)) => Some(string_items(items)),
        Some(JsonView::Object(fs)) => Some(array_strings(field_in(fs, "packages"@))),
        _ => None,
    };
    match globs {
        Some(g) => if g.len() > 0 {
            Some(g)
        } else {
            None
        },
        None => None,
    }
}

/// The workspace globs of a parsed root `package.json` (see [`npm_globs`]).
pub fn npm_workspace_globs(manifest: &JsonValue) -> (r: Option<Vec<String>>)
    ensures
        match r {
            Some(v) => npm_globs(manifest@) == Some(strings_view(v@)),
            None => npm_globs(manifest@) is None,
        },
{
    let ws = json_get(manifest, "workspaces");
    let globs = match ws {
        Some(JsonValue::Array(items)) => string_items_of(items),
        Some(w) => match w {
            JsonValue::Object(_) => array_strings_of(json_get(w, "packages")),
            _ => {
                return None;
            },
        },
        None => {
            return None;
        },
    };
    if globs.len() == 0 {
        None
    } else {
        Some(globs)
    }
}

/// Reads a root `package.json` text: a text that does not parse fails with
/// the parser's message; another gives its workspace globs (see
/// [`npm_globs`]).
pub fn npm_workspace_globs_from_text(path: &str, text: &str) -> (r: Result<Option<Vec<String>>, WorkspaceError>)
    ensures
        match json_parse(text@) {
            Ok(doc) => r matches Ok(g) && match g {
                Some(v) => npm_globs(doc) == Some(strings_view(v@)),
                None => npm_globs(doc) is None,
            },
            Err(m) => r matches Err(e) && is_json_parse_error(e, path@, m),
        },
{
    match parse_json(text) {
        Ok(doc) => Ok(npm_workspace_globs(&doc)),
        Err(m) => Err(WorkspaceError::JsonParse { path: path.to_owned(), reason: m }),
    }
}

/// The package globs of a `pnpm-workspace.yaml` document: the string items
/// of its `packages` sequence; none where it has none.
pub open spec fn pnpm_globs(doc: YamlView) -> Seq<Seq<char>> {
    match yaml_member(doc, "packages"@) {
        Some(p) => match yaml_untag(p) {
            YamlView::Sequence(items) => yaml_string_items(items),
            _ => Seq::empty(),
        },
        None => Seq::empty(),
    }
}

/// The package globs of a parsed `pnpm-workspace.yaml` (see [`pnpm_globs`]).
pub fn pnpm_workspace_globs(doc: &YamlValue) -> (r: Vec<String>)
    ensures
        strings_view(r@) == pnpm_globs(doc@),
{
    match yaml_get(doc, "packages") {
        Some(p) => match untag(p) {
            YamlValue::Sequence(items) => yaml_string_items_of(items),
            _ => Vec::new(),
        },
        None => Vec::new(),
    }
}

/// Reads a `pnpm-workspace.yaml` text: a text that does not parse fails
/// with the parser's message; another gives its package globs (see
/// [`pnpm_globs`]).
pub fn pnpm_workspace_globs_from_text(path: &str, text: &str) -> (r: Result<Vec<String>, WorkspaceError>)
    ensures
        match yaml_parse(text@) {
            Ok(doc) => r matches Ok(v) && strings_view(v@) == pnpm_globs(doc),
            Err(m) => r matches Err(e) && is_yaml_parse_error(e, path@, m),
        },
{
    match parse_yaml(text) {
        Ok(doc) => Ok(pnpm_workspace_globs(&doc)),
        Err(m) => Err(WorkspaceError::YamlParse { path: path.to_owned(), reason: m }),
    }
}

/// What a package's `package.json` gives: its `name` and `type` where they
/// are strings, and whether it has `exports` and `imports` fields.
pub open spec fn package_fields(doc: JsonView) -> (Option<Seq<char>>, bool, bool, Option<Seq<char>>) {
    (
        json_text(json_member(doc, "name"@)),
        json_member(doc, "exports"@) is Some,
        json_member(doc, "imports"@) is Some,
        json_text(json_member(doc, "type"@)),
    )
}

/// The fields of a parsed package `package.json` (see [`package_fields`]).
pub fn js_package_fields(manifest: &JsonValue) -> (r: (Option<String>, bool, bool, Option<String>))
    ensures
        (opt_view(r.0), r.1, r.2, opt_view(r.3)) == package_fields(manifest@),
{
    (
        json_as_text(json_get(manifest, "name")),
        json_get(manifest, "exports").is_some(),
        json_get(manifest, "imports").is_some(),
        json_as_text(json_get(manifest, "type")),
    )
}

/// Reads a package's `package.json` text in `pkg_dir`: a text that does not
/// parse fails with the parser's message; another gives the package (see
/// [`js_package_info`] and [`package_fields`]).
pub fn js_package_from_text(root: &str, pkg_dir: &str, path: &str, text: &str) -> (r: Result<JsPackageInfo, WorkspaceError>)
    ensures
        match json_parse(text@) {
            Ok(doc) => r matches Ok(p) && {
                let (name, exports, imports, module_type) = package_fields(doc);
                &&& p.name@ == (match name {
                    Some(n) => n,
                    None => "unknown"@,
                })
                &&& p.relative_path@ == relative_to(pkg_dir@, root@)
                &&& p.has_exports_field == exports
                &&& p.has_imports_field == imports
                &&& opt_view(p.module_type) == module_type
            },
            Err(m) => r matches Err(e) && is_json_parse_error(e, path@, m),
        },
{
    proof {
        reveal_strlit("unknown");
    }
    match parse_json(text) {
        Ok(doc) => {
            let (name, exports, imports, module_type) = js_package_fields(&doc);
            Ok(js_package_info(root, pkg_dir, name, exports, imports, module_type))
        },
        Err(m) => Err(WorkspaceError::JsonParse { path: path.to_owned(), reason: m }),
    }
}

} // verus!
