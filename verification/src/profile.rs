//! The graph profile: the build context that determines the graph
//! (languages, package manager, resolution mode, Cargo features), detected
//! from the workspace, with a fingerprint for change detection.

use std::collections::hash_map::DefaultHasher;
use std::hash::Hasher;

use vstd::prelude::*;
use vstd::std_specs::hash::DefaultHasherAdditionalSpecFns;

use crate::graph::types::Language;
use crate::paths::opt_view;
use crate::text::{hex16, hex_fixed, push_all, same_text};
use crate::workspace::{CargoPackageInfo, WorkspaceInfo};

verus! {

/// Content hash of a profile, for caching and comparison.
#[derive(Debug, PartialEq, Eq, Hash)]
pub struct ProfileFingerprint(pub String);

impl Clone for ProfileFingerprint {
    fn clone(&self) -> (r: Self)
        ensures
            r == *self,
    {
        ProfileFingerprint(self.0.clone())
    }
}

impl ProfileFingerprint {
    /// The fingerprint of no profile: empty text.
    pub fn empty() -> (f: Self)
        ensures
            f.0@.len() == 0,
    {
        ProfileFingerprint(String::new())
    }
}

/// The active graph profile: the build context that parameterizes the
/// graph, detected for the whole workspace.
#[derive(Debug, PartialEq, Eq)]
pub struct GraphProfile {
    /// Languages detected in the workspace.
    pub languages: Vec<Language>,
    /// Package manager (`cargo`, `pnpm`, `npm`, `yarn`, ...).
    pub package_manager: Option<String>,
    /// TypeScript module resolution mode (`bundler`, `nodenext`, ...).
    pub resolution_mode: Option<String>,
    /// Cargo features defined in the workspace.
    pub cargo_features: Vec<String>,
    /// Fingerprint for caching and comparison.
    pub fingerprint: ProfileFingerprint,
}

impl Clone for GraphProfile {
    fn clone(&self) -> (r: Self)
        ensures
            r.languages@ == self.languages@,
            r.package_manager == self.package_manager,
            r.resolution_mode == self.resolution_mode,
            r.cargo_features@ == self.cargo_features@,
            r.fingerprint == self.fingerprint,
    {
        GraphProfile {
            languages: self.languages.clone(),
            package_manager: self.package_manager.clone(),
            resolution_mode: self.resolution_mode.clone(),
            cargo_features: self.cargo_features.clone(),
            fingerprint: self.fingerprint.clone(),
        }
    }
}

impl GraphProfile {
    /// The empty profile: nothing detected.
    pub fn empty() -> (p: Self)
        ensures
            p.languages@.len() == 0,
            p.package_manager is None,
            p.resolution_mode is None,
            p.cargo_features@.len() == 0,
            p.fingerprint.0@.len() == 0,
    {
        GraphProfile {
            languages: Vec::new(),
            package_manager: None,
            resolution_mode: None,
            cargo_features: Vec::new(),
            fingerprint: ProfileFingerprint::empty(),
        }
    }
}

// ---------------------------------------------------------------------------
// Fingerprint
// ---------------------------------------------------------------------------

/// The writes std's `Hash` for `str` makes to a hasher for text `s`.
pub uninterp spec fn text_hash_writes(s: Seq<char>) -> Seq<Seq<u8>>;

/// The writes std's `Hash` for `Option<String>` makes to a hasher for `o`.
pub uninterp spec fn option_hash_writes(o: Option<Seq<char>>) -> Seq<Seq<u8>>;

/// Hashes a text into the hasher (std's `Hash::hash` for `str`).
///
/// Trusted: hashing a text makes writes determined by the text alone
/// (named here) and nothing else.
#[verifier::external_body]
fn hash_text(h: &mut DefaultHasher, s: &str)
    ensures
        final(h)@ == old(h)@ + text_hash_writes(s@),
{
    std::hash::Hash::hash(s, h)
}

/// Hashes an optional text into the hasher (std's `Hash::hash` for
/// `Option<String>`).
///
/// Trusted: hashing an optional text makes writes determined by the value
/// alone (named here) and nothing else.
#[verifier::external_body]
fn hash_option_text(h: &mut DefaultHasher, o: &Option<String>)
    ensures
        final(h)@ == old(h)@ + option_hash_writes(opt_view(*o)),
{
    std::hash::Hash::hash(o, h)
}

/// The debug name of a language (`format!("{l:?}")`).
pub open spec fn debug_name(l: Language) -> Seq<char> {
    match l {
        Language::Rust => "Rust"@,
        Language::TypeScript => "TypeScript"@,
        Language::JavaScript => "JavaScript"@,
        Language::Unknown => "Unknown"@,
    }
}

/// The writes that hashing the texts `ts` in order makes.
pub open spec fn texts_hash_writes(ts: Seq<Seq<char>>) -> Seq<Seq<u8>>
    decreases ts.len(),
{
    if ts.len() == 0 {
        Seq::empty()
    } else {
        texts_hash_writes(ts.drop_last()) + text_hash_writes(ts.last())
    }
}

/// The fingerprint of a profile: sixteen lowercase hexadecimal digits of
/// the `DefaultHasher` digest of the languages' debug names, the package
/// manager, the resolution mode and the features, hashed in that order.
pub open spec fn fingerprint_of(
    languages: Seq<Language>,
    package_manager: Option<Seq<char>>,
    resolution_mode: Option<Seq<char>>,
    features: Seq<Seq<char>>,
) -> Seq<char> {
    let writes = texts_hash_writes(languages.map_values(|l: Language| debug_name(l))) + option_hash_writes(
        package_manager,
    ) + option_hash_writes(resolution_mode) + texts_hash_writes(features);
    hex_fixed(DefaultHasher::spec_finish(writes) as nat, 16)
}

/// The debug name of a language.
fn debug_name_of(l: Language) -> (s: &'static str)
    ensures
        s@ == debug_name(l),
{
    match l {
        Language::Rust => "Rust",
        Language::TypeScript => "TypeScript",
        Language::JavaScript => "JavaScript",
        Language::Unknown => "Unknown",
    }
}

/// Computes the fingerprint of profile data (see [`fingerprint_of`]).
pub fn compute_fingerprint(
    languages: &Vec<Language>,
    package_manager: &Option<String>,
    resolution_mode: &Option<String>,
    cargo_features: &Vec<String>,
) -> (f: ProfileFingerprint)
    ensures
        f.0@ == fingerprint_of(
            languages@,
            opt_view(*package_manager),
            opt_view(*resolution_mode),
            cargo_features@.map_values(|s: String| s@),
        ),
{
    let mut hasher = DefaultHasher::new();
    let ghost names = languages@.map_values(|l: Language| debug_name(l));
    let mut i: usize = 0;
    while i < languages.len()
        invariant
            i <= languages@.len(),
            names == languages@.map_values(|l: Language| debug_name(l)),
            hasher@ == texts_hash_writes(names.take(i as int)),
        decreases languages@.len() - i,
    {
        hash_text(&mut hasher, debug_name_of(languages[i]));
        assert(names.take(i + 1).drop_last() =~= names.take(i as int));
        i = i + 1;
    }
    assert(names.take(languages@.len() as int) =~= names);
    hash_option_text(&mut hasher, package_manager);
    hash_option_text(&mut hasher, resolution_mode);
    let ghost before = hasher@;
    let ghost fs = cargo_features@.map_values(|s: String| s@);
    let mut i: usize = 0;
    while i < cargo_features.len()
        invariant
            i <= cargo_features@.len(),
            fs == cargo_features@.map_values(|s: String| s@),
            hasher@ == before + texts_hash_writes(fs.take(i as int)),
        decreases cargo_features@.len() - i,
    {
        hash_text(&mut hasher, cargo_features[i].as_str());
        assert(fs.take(i + 1).drop_last() =~= fs.take(i as int));
        i = i + 1;
    }
    assert(fs.take(cargo_features@.len() as int) =~= fs);
    let digest = hasher.finish();
    ProfileFingerprint(hex16(digest))
}

// ---------------------------------------------------------------------------
// Detection
// ---------------------------------------------------------------------------

/// Whether one of the first `n` packages is in language `l`.
pub open spec fn language_among(pkgs: Seq<crate::workspace::WorkspacePackage>, n: int, l: Language) -> bool {
    exists|k: int| 0 <= k < n && #[trigger] pkgs[k].language == l
}

/// Whether `l` is a language of the workspace: Rust for Cargo metadata and
/// TypeScript for JS metadata; without either, the languages of the
/// workspace packages.
pub open spec fn detected_language(ws: WorkspaceInfo, l: Language) -> bool {
    if ws.cargo is Some || ws.js is Some {
        (l == Language::Rust && ws.cargo is Some) || (l == Language::TypeScript && ws.js is Some)
    } else {
        language_among(ws.packages@, ws.packages@.len() as int, l)
    }
}

/// The languages in the order of their debug names.
pub open spec fn languages_by_name() -> Seq<Language> {
    seq![Language::JavaScript, Language::Rust, Language::TypeScript, Language::Unknown]
}

/// The detected languages, ordered by debug name.
pub open spec fn profile_languages(ws: WorkspaceInfo) -> Seq<Language> {
    languages_by_name().filter(|l: Language| detected_language(ws, l))
}

/// The package manager: `cargo` for Cargo, the JS package manager for JS,
/// `cargo + <js>` for both.
pub open spec fn profile_package_manager(ws: WorkspaceInfo) -> Option<Seq<char>> {
    match (ws.cargo, ws.js) {
        (Some(_), None) => Some("cargo"@),
        (None, Some(j)) => Some(j.package_manager@),
        (Some(_), Some(j)) => Some("cargo + "@ + j.package_manager@),
        (None, None) => None,
    }
}

/// The resolution mode of the root tsconfig of a JS workspace.
pub open spec fn profile_resolution_mode(ws: WorkspaceInfo) -> Option<Seq<char>> {
    match ws.js {
        Some(j) => match j.root_tsconfig {
            Some(t) => opt_view(t.module_resolution),
            None => None,
        },
        None => None,
    }
}

/// Whether `f` is a feature (other than `default`) of some Cargo package.
pub open spec fn is_workspace_feature(ws: WorkspaceInfo, f: Seq<char>) -> bool {
    match ws.cargo {
        Some(c) => f != "default"@ && feature_among(c.packages@, c.packages@.len() as int, f),
        None => false,
    }
}

/// Lexicographic order of texts by characters (std's order on `String`,
/// which compares UTF-8 bytes and so orders code points).
pub open spec fn text_le(a: Seq<char>, b: Seq<char>) -> bool
    decreases a.len(),
{
    if a.len() == 0 {
        true
    } else if b.len() == 0 {
        false
    } else if a[0] != b[0] {
        (a[0] as u32) < (b[0] as u32)
    } else {
        text_le(a.drop_first(), b.drop_first())
    }
}

/// Sorts texts in ascending order (std's `slice::sort` on `String`s).
///
/// Trusted: std documents that `sort` sorts the slice in ascending order
/// and leaves it a permutation of what it was; `String`s are ordered
/// lexicographically by their UTF-8 bytes, which orders code points.
#[verifier::external_body]
pub(crate) fn sort_texts(v: &mut Vec<String>)
    ensures
        final(v)@.to_multiset() == old(v)@.to_multiset(),
        forall|i: int, j: int| 0 <= i < j < final(v)@.len() ==> text_le(final(v)@[i]@, final(v)@[j]@),
{
    v.sort()
}

/// Whether the views of a list of texts are distinct.
pub open spec fn distinct_texts(v: Seq<String>) -> bool {
    forall|i: int, j: int| 0 <= i < j < v.len() ==> #[trigger] v[i]@ != #[trigger] v[j]@
}

/// Whether the text `s` is among `v` (by view).
fn contains_text_view(v: &Vec<String>, s: &str) -> (r: bool)
    ensures
        r == exists|i: int| 0 <= i < v@.len() && #[trigger] v@[i]@ == s@,
{
    let mut i: usize = 0;
    while i < v.len()
        invariant
            i <= v@.len(),
            forall|j: int| 0 <= j < i ==> #[trigger] v@[j]@ != s@,
        decreases v@.len() - i,
    {
        if same_text(v[i].as_str(), s) {
            return true;
        }
        i = i + 1;
    }
    false
}

/// Whether the text `f` is among `v` (by view).
pub open spec fn has_text(v: Seq<String>, f: Seq<char>) -> bool {
    exists|k: int| 0 <= k < v.len() && #[trigger] v[k]@ == f
}

/// Whether `f` is a feature of one of the first `n` packages.
pub open spec fn feature_among(pkgs: Seq<CargoPackageInfo>, n: int, f: Seq<char>) -> bool {
    exists|a: int| 0 <= a < n && #[trigger] has_text(pkgs[a].features@, f)
}

/// The distinct non-default features of the packages, in the order first
/// found.
fn collect_features(pkgs: &Vec<CargoPackageInfo>) -> (r: Vec<String>)
    ensures
        distinct_texts(r@),
        forall|f: Seq<char>| #[trigger] has_text(r@, f) <==> (f != "default"@ && feature_among(
            pkgs@,
            pkgs@.len() as int,
            f,
        )),
{
    let mut r: Vec<String> = Vec::new();
    let mut i: usize = 0;
    while i < pkgs.len()
        invariant
            i <= pkgs@.len(),
            distinct_texts(r@),
            forall|f: Seq<char>| #[trigger] has_text(r@, f) <==> (f != "default"@ && feature_among(
                pkgs@,
                i as int,
                f,
            )),
        decreases pkgs@.len() - i,
    {
        let features = &pkgs[i].features;
        let mut j: usize = 0;
        while j < features.len()
            invariant
                i < pkgs@.len(),
                features == pkgs@[i as int].features,
                j <= features@.len(),
                distinct_texts(r@),
                forall|f: Seq<char>| #[trigger] has_text(r@, f) <==> (f != "default"@ && (feature_among(
                    pkgs@,
                    i as int,
                    f,
                ) || has_text(features@.take(j as int), f))),
            decreases features@.len() - j,
        {
            let f = &features[j];
            proof {
                reveal_strlit("default");
            }
            let ghost before = r@;
            let fresh = !same_text(f.as_str(), "default") && !contains_text_view(&r, f.as_str());
            if fresh {
                r.push(f.clone());
                assert(r@ =~= before.push(*f));
            }
            proof {
                assert forall|g: Seq<char>| #[trigger] has_text(r@, g) <==> (has_text(before, g) || (fresh && g
                    == f@)) by {
                    if fresh && g == f@ {
                        assert(r@[before.len() as int]@ == g);
                    }
                    if has_text(before, g) {
                        let k = choose|k: int| 0 <= k < before.len() && #[trigger] before[k]@ == g;
                        assert(r@[k]@ == g);
                    }
                    if has_text(r@, g) {
                        let k = choose|k: int| 0 <= k < r@.len() && #[trigger] r@[k]@ == g;
                        if k < before.len() {
                            assert(before[k]@ == g);
                        }
                    }
                }
                assert forall|g: Seq<char>| #[trigger] has_text(features@.take(j + 1), g) <==> (has_text(
                    features@.take(j as int),
                    g,
                ) || g == f@) by {
                    if g == f@ {
                        assert(features@.take(j + 1)[j as int]@ == g);
                    }
                    if has_text(features@.take(j as int), g) {
                        let k = choose|k: int| 0 <= k < j && #[trigger] features@.take(j as int)[k]@ == g;
                        assert(features@.take(j + 1)[k]@ == g);
                    }
                    if has_text(features@.take(j + 1), g) {
                        let k = choose|k: int| 0 <= k < j + 1 && #[trigger] features@.take(j + 1)[k]@ == g;
                        if k < j {
                            assert(features@.take(j as int)[k]@ == g);
                        }
                    }
                }
                if fresh {
                    assert forall|a: int, b: int| 0 <= a < b < r@.len() implies #[trigger] r@[a]@
                        != #[trigger] r@[b]@ by {
                        if b == before.len() {
                            assert(before[a]@ != f@);
                        } else {
                            assert(before[a]@ != before[b]@);
                        }
                    }
                }
            }
            j = j + 1;
        }
        proof {
            assert(features@.take(features@.len() as int) =~= features@);
            assert forall|f: Seq<char>| #[trigger] feature_among(pkgs@, i + 1, f) <==> (feature_among(
                pkgs@,
                i as int,
                f,
            ) || has_text(features@, f)) by {
                if feature_among(pkgs@, i + 1, f) {
                    let a = choose|a: int| 0 <= a < i + 1 && #[trigger] has_text(pkgs@[a].features@, f);
                    if a == i {
                        assert(has_text(features@, f));
                    } else {
                        assert(feature_among(pkgs@, i as int, f));
                    }
                }
                if feature_among(pkgs@, i as int, f) {
                    let a = choose|a: int| 0 <= a < i && #[trigger] has_text(pkgs@[a].features@, f);
                    assert(feature_among(pkgs@, i + 1, f));
                }
                if has_text(features@, f) {
                    assert(has_text(pkgs@[i as int].features@, f));
                    assert(feature_among(pkgs@, i + 1, f));
                }
            }
        }
        i = i + 1;
    }
    r
}

/// Whether language `l` is among `v`.
fn has_language(v: &Vec<Language>, l: Language) -> (r: bool)
    ensures
        r == v@.contains(l),
{
    let mut i: usize = 0;
    while i < v.len()
        invariant
            i <= v@.len(),
            forall|j: int| 0 <= j < i ==> v@[j] != l,
        decreases v@.len() - i,
    {
        if v[i] == l {
            return true;
        }
        i = i + 1;
    }
    false
}

/// `p` is the profile of `ws`: its languages, package manager and
/// resolution mode, its distinct Cargo features in ascending order, and the
/// fingerprint of these.
pub open spec fn is_profile_of(p: GraphProfile, ws: WorkspaceInfo) -> bool {
    &&& p.languages@ == profile_languages(ws)
    &&& opt_view(p.package_manager) == profile_package_manager(ws)
    &&& opt_view(p.resolution_mode) == profile_resolution_mode(ws)
    &&& distinct_texts(p.cargo_features@)
    &&& forall|i: int, j: int|
        0 <= i < j < p.cargo_features@.len() ==> text_le(p.cargo_features@[i]@, p.cargo_features@[j]@)
    &&& forall|f: Seq<char>| #[trigger] has_text(p.cargo_features@, f) <==> is_workspace_feature(ws, f)
    &&& p.fingerprint.0@ == fingerprint_of(
        p.languages@,
        opt_view(p.package_manager),
        opt_view(p.resolution_mode),
        p.cargo_features@.map_values(|s: String| s@),
    )
}

/// The place of a language in the order of debug names.
pub open spec fn name_rank(l: Language) -> int {
    match l {
        Language::JavaScript => 0,
        Language::Rust => 1,
        Language::TypeScript => 2,
        Language::Unknown => 3,
    }
}

/// Filtering a list ordered by name rank keeps it so ordered.
proof fn lemma_filter_keeps_rank_order(s: Seq<Language>, pred: spec_fn(Language) -> bool)
    requires
        forall|i: int, j: int| 0 <= i < j < s.len() ==> name_rank(s[i]) < name_rank(s[j]),
    ensures
        forall|i: int, j: int|
            0 <= i < j < s.filter(pred).len() ==> name_rank(s.filter(pred)[i]) < name_rank(s.filter(pred)[j]),
        forall|i: int| 0 <= i < s.filter(pred).len() ==> s.contains(#[trigger] s.filter(pred)[i]),
    decreases s.len(),
{
    reveal(Seq::filter);
    if s.len() > 0 {
        let r = s.drop_last();
        lemma_filter_keeps_rank_order(r, pred);
        let fr = r.filter(pred);
        assert forall|i: int| 0 <= i < fr.len() implies exists|k: int| 0 <= k < r.len() && r[k] == #[trigger] fr[i] by {
            assert(r.contains(fr[i]));
        }
        if pred(s.last()) {
            let f = s.filter(pred);
            assert(f =~= fr.push(s.last()));
            assert forall|i: int, j: int| 0 <= i < j < f.len() implies name_rank(f[i]) < name_rank(f[j]) by {
                if j == f.len() - 1 {
                    let k = choose|k: int| 0 <= k < r.len() && r[k] == fr[i];
                    assert(s[k] == f[i]);
                }
            }
            assert forall|i: int| 0 <= i < f.len() implies s.contains(#[trigger] f[i]) by {
                if i < f.len() - 1 {
                    let k = choose|k: int| 0 <= k < r.len() && r[k] == fr[i];
                    assert(s[k] == f[i]);
                } else {
                    assert(s[s.len() - 1] == f[i]);
                }
            }
        } else {
            assert(s.filter(pred) =~= fr);
            assert forall|i: int| 0 <= i < fr.len() implies s.contains(#[trigger] fr[i]) by {
                let k = choose|k: int| 0 <= k < r.len() && r[k] == fr[i];
                assert(s[k] == fr[i]);
            }
        }
    }
}

/// A detected profile names each detected language once, in the order of
/// the languages' debug names; its Cargo features are distinct, ascending
/// and never `default`; and its fingerprint is that of its fields.
pub proof fn lemma_profile_shape(p: GraphProfile, ws: WorkspaceInfo)
    requires
        is_profile_of(p, ws),
    ensures
        forall|i: int, j: int|
            0 <= i < j < p.languages@.len() ==> name_rank(p.languages@[i]) < name_rank(p.languages@[j]),
        p.languages@.no_duplicates(),
        forall|l: Language| p.languages@.contains(l) ==> detected_language(ws, l),
        !has_text(p.cargo_features@, "default"@),
        distinct_texts(p.cargo_features@),
        forall|i: int, j: int|
            0 <= i < j < p.cargo_features@.len() ==> text_le(p.cargo_features@[i]@, p.cargo_features@[j]@),
        p.fingerprint.0@ == fingerprint_of(
            p.languages@,
            opt_view(p.package_manager),
            opt_view(p.resolution_mode),
            p.cargo_features@.map_values(|s: String| s@),
        ),
{
    let pred = |l: Language| detected_language(ws, l);
    lemma_filter_keeps_rank_order(languages_by_name(), pred);
    languages_by_name().filter_lemma(pred);
    assert(p.languages@ == languages_by_name().filter(pred));
    assert forall|l: Language| p.languages@.contains(l) implies detected_language(ws, l) by {
        let i = choose|i: int| 0 <= i < p.languages@.len() && p.languages@[i] == l;
        assert(pred(languages_by_name().filter(pred)[i]));
    }
    if has_text(p.cargo_features@, "default"@) {
        assert(is_workspace_feature(ws, "default"@));
    }
}

/// Texts each at most the other are equal.
proof fn lemma_text_le_antisymmetric(a: Seq<char>, b: Seq<char>)
    requires
        text_le(a, b),
        text_le(b, a),
    ensures
        a == b,
    decreases a.len(),
{
    if a.len() > 0 {
        lemma_text_le_antisymmetric(a.drop_first(), b.drop_first());
        assert(a =~= seq![a[0]] + a.drop_first());
        assert(b =~= seq![b[0]] + b.drop_first());
    } else {
        assert(b.len() == 0);
        assert(a =~= b);
    }
}

/// Texts are distinct and ascending.
pub open spec fn strictly_ascending(u: Seq<Seq<char>>) -> bool {
    forall|i: int, j: int| #![trigger u[i], u[j]] 0 <= i < j < u.len() ==> u[i] != u[j] && text_le(u[i], u[j])
}

/// Two lists of distinct ascending texts that hold the same texts are
/// equal.
proof fn lemma_ascending_unique(u: Seq<Seq<char>>, v: Seq<Seq<char>>)
    requires
        strictly_ascending(u),
        strictly_ascending(v),
        forall|x: Seq<char>| u.contains(x) <==> v.contains(x),
    ensures
        u == v,
    decreases u.len(),
{
    if u.len() == 0 {
        if v.len() > 0 {
            assert(v.contains(v[0]));
        }
        assert(u =~= v);
    } else {
        assert(u.contains(u[0]));
        assert(v.len() > 0);
        assert(v.contains(v[0]));
        let k = choose|k: int| 0 <= k < v.len() && v[k] == u[0];
        let m = choose|m: int| 0 <= m < u.len() && u[m] == v[0];
        if k > 0 {
            assert(v[0] != v[k] && text_le(v[0], v[k]));
            if m > 0 {
                assert(text_le(u[0], u[m]));
                lemma_text_le_antisymmetric(u[0], v[0]);
            }
            assert(false);
        }
        assert(u[0] == v[0]);
        let u2 = u.drop_first();
        let v2 = v.drop_first();
        assert forall|x: Seq<char>| u2.contains(x) <==> v2.contains(x) by {
            if u2.contains(x) {
                let a = choose|a: int| 0 <= a < u2.len() && u2[a] == x;
                assert(u[a + 1] == x);
                assert(u.contains(x));
                let b = choose|b: int| 0 <= b < v.len() && v[b] == x;
                assert(u[0] != u[a + 1]);
                assert(b != 0);
                assert(v2[b - 1] == x);
            }
            if v2.contains(x) {
                let a = choose|a: int| 0 <= a < v2.len() && v2[a] == x;
                assert(v[a + 1] == x);
                assert(v.contains(x));
                let b = choose|b: int| 0 <= b < u.len() && u[b] == x;
                assert(v[0] != v[a + 1]);
                assert(b != 0);
                assert(u2[b - 1] == x);
            }
        }
        lemma_ascending_unique(u2, v2);
        assert(u =~= seq![u[0]] + u2);
        assert(v =~= seq![v[0]] + v2);
    }
}

/// The features of a profile, as texts.
pub open spec fn feature_views(p: GraphProfile) -> Seq<Seq<char>> {
    p.cargo_features@.map_values(|s: String| s@)
}

/// A profile's features are distinct, ascending, and the workspace's.
proof fn lemma_profile_features(p: GraphProfile, ws: WorkspaceInfo)
    requires
        is_profile_of(p, ws),
    ensures
        strictly_ascending(feature_views(p)),
        forall|x: Seq<char>| feature_views(p).contains(x) <==> is_workspace_feature(ws, x),
{
    let fv = feature_views(p);
    assert forall|x: Seq<char>| fv.contains(x) <==> is_workspace_feature(ws, x) by {
        if fv.contains(x) {
            let k = choose|k: int| 0 <= k < fv.len() && fv[k] == x;
            assert(p.cargo_features@[k]@ == x);
            assert(has_text(p.cargo_features@, x));
        }
        if is_workspace_feature(ws, x) {
            assert(has_text(p.cargo_features@, x));
            let k = choose|k: int| 0 <= k < p.cargo_features@.len() && #[trigger] p.cargo_features@[k]@ == x;
            assert(fv[k] == x);
        }
    }
    assert forall|i: int, j: int| 0 <= i < j < fv.len() implies fv[i] != fv[j] && text_le(fv[i], fv[j]) by {
        assert(p.cargo_features@[i]@ != p.cargo_features@[j]@);
    }
}

/// The package manager of a profile comes from the workspace's metadata:
/// `cargo` for a Cargo workspace, the JS package manager (as detected, e.g.
/// `pnpm`) for a JS workspace without Cargo metadata, both joined as
/// `cargo + <js>` for a mixed one, and none without either; the resolution
/// mode is the root tsconfig's `moduleResolution`, where there is one.
pub proof fn lemma_profile_package_manager(p: GraphProfile, ws: WorkspaceInfo)
    requires
        is_profile_of(p, ws),
    ensures
        ws.cargo is None && ws.js is None ==> p.package_manager is None,
        ws.cargo is Some && ws.js is None ==> (p.package_manager matches Some(m) && m@ == "cargo"@),
        ws.cargo is None ==> (ws.js matches Some(j) ==> (p.package_manager matches Some(m) && m@ == j.package_manager@)),
        ws.cargo is Some ==> (ws.js matches Some(j) ==> (p.package_manager matches Some(m) && m@ == "cargo + "@ + j.package_manager@)),
        ws.js matches Some(j) ==> (j.root_tsconfig matches Some(t) ==> opt_view(p.resolution_mode) == opt_view(t.module_resolution)),
        ws.js is None ==> p.resolution_mode is None,
{
}

/// Detection depends on the workspace alone: two profiles of the same
/// workspace have the same languages, package manager, resolution mode,
/// features and fingerprint.
pub proof fn lemma_profile_unique(p: GraphProfile, q: GraphProfile, ws: WorkspaceInfo)
    requires
        is_profile_of(p, ws),
        is_profile_of(q, ws),
    ensures
        p.languages@ == q.languages@,
        opt_view(p.package_manager) == opt_view(q.package_manager),
        opt_view(p.resolution_mode) == opt_view(q.resolution_mode),
        feature_views(p) == feature_views(q),
        p.fingerprint.0@ == q.fingerprint.0@,
{
    lemma_profile_features(p, ws);
    lemma_profile_features(q, ws);
    assert forall|x: Seq<char>| feature_views(p).contains(x) <==> feature_views(q).contains(x) by {
        assert(feature_views(p).contains(x) <==> is_workspace_feature(ws, x));
        assert(feature_views(q).contains(x) <==> is_workspace_feature(ws, x));
    }
    lemma_ascending_unique(feature_views(p), feature_views(q));
}

impl GraphProfile {
    /// Detects the profile of a workspace: its languages ordered by debug name
    /// (see [`detected_language`]), its package manager and resolution mode,
    /// its distinct non-default Cargo features in ascending order, and the
    /// fingerprint of these.
    pub fn detect_from_workspace(workspace: &WorkspaceInfo) -> (p: Self)
        ensures
            is_profile_of(p, *workspace),
            p.languages@ == profile_languages(*workspace),
            opt_view(p.package_manager) == profile_package_manager(*workspace),
            opt_view(p.resolution_mode) == profile_resolution_mode(*workspace),
            distinct_texts(p.cargo_features@),
            forall|i: int, j: int|
                0 <= i < j < p.cargo_features@.len() ==> text_le(p.cargo_features@[i]@, p.cargo_features@[j]@),
            forall|f: Seq<char>| #[trigger] has_text(p.cargo_features@, f) <==> is_workspace_feature(*workspace, f),
            p.fingerprint.0@ == fingerprint_of(
                p.languages@,
                opt_view(p.package_manager),
                opt_view(p.resolution_mode),
                p.cargo_features@.map_values(|s: String| s@),
            ),
    {
        let mut cargo_features: Vec<String> = Vec::new();
        let mut package_manager: Option<String> = None;
        let mut resolution_mode: Option<String> = None;
        match &workspace.cargo {
            Some(cargo) => {
                package_manager = Some("cargo".to_owned());
                cargo_features = collect_features(&cargo.packages);
                let ghost before = cargo_features@;
                sort_texts(&mut cargo_features);
                proof {
                    let after = cargo_features@;
                    before.to_multiset_ensures();
                    after.to_multiset_ensures();
                    assert forall|x: String| after.contains(x) <==> before.contains(x) by {
                        assert(after.to_multiset().count(x) == before.to_multiset().count(x));
                    }
                    assert(before.no_duplicates()) by {
                        assert forall|a: int, b: int| 0 <= a < before.len() && 0 <= b < before.len() && a != b implies before[a]
                            != before[b] by {
                            if a < b {
                                assert(before[a]@ != before[b]@);
                            } else {
                                assert(before[b]@ != before[a]@);
                            }
                        }
                    }
                    before.lemma_multiset_has_no_duplicates();
                    after.lemma_multiset_has_no_duplicates_conv();
                    assert forall|a: int, b: int| 0 <= a < b < after.len() implies #[trigger] after[a]@
                        != #[trigger] after[b]@ by {
                        assert(before.contains(after[a]));
                        assert(before.contains(after[b]));
                        let pa = choose|pa: int| 0 <= pa < before.len() && before[pa] == after[a];
                        let pb = choose|pb: int| 0 <= pb < before.len() && before[pb] == after[b];
                        assert(after[a] != after[b]);
                        assert(pa != pb);
                        if pa < pb {
                            assert(before[pa]@ != before[pb]@);
                        } else {
                            assert(before[pb]@ != before[pa]@);
                        }
                    }
                    assert forall|f: Seq<char>| #[trigger] has_text(after, f) <==> has_text(before, f) by {
                        if has_text(after, f) {
                            let k = choose|k: int| 0 <= k < after.len() && #[trigger] after[k]@ == f;
                            assert(before.contains(after[k]));
                            let q = choose|q: int| 0 <= q < before.len() && before[q] == after[k];
                            assert(before[q]@ == f);
                        }
                        if has_text(before, f) {
                            let k = choose|k: int| 0 <= k < before.len() && #[trigger] before[k]@ == f;
                            assert(after.contains(before[k]));
                            let q = choose|q: int| 0 <= q < after.len() && after[q] == before[k];
                            assert(after[q]@ == f);
                        }
                    }
                }
            },
            None => {},
        }
        match &workspace.js {
            Some(js) => {
                package_manager = match package_manager {
                    None => Some(js.package_manager.clone()),
                    Some(_) => {
                        let mut both = "cargo + ".to_owned();
                        push_all(&mut both, js.package_manager.as_str());
                        Some(both)
                    },
                };
                match &js.root_tsconfig {
                    Some(t) => {
                        resolution_mode = match &t.module_resolution {
                            Some(m) => Some(m.clone()),
                            None => None,
                        };
                    },
                    None => {},
                }
            },
            None => {},
        }
        let mut present: Vec<Language> = Vec::new();
        if workspace.cargo.is_some() {
            present.push(Language::Rust);
        }
        if workspace.js.is_some() {
            present.push(Language::TypeScript);
        }
        proof {
            assert forall|l: Language| present@.contains(l) <==> ((l == Language::Rust && workspace.cargo is Some)
                || (l == Language::TypeScript && workspace.js is Some)) by {
                if l == Language::Rust && workspace.cargo is Some {
                    assert(present@[0] == l);
                }
                if l == Language::TypeScript && workspace.js is Some {
                    assert(present@[present@.len() - 1] == l);
                }
            }
        }
        if present.len() == 0 {
            let mut i: usize = 0;
            while i < workspace.packages.len()
                invariant
                    i <= workspace.packages@.len(),
                    forall|l: Language| #[trigger] present@.contains(l) <==> language_among(
                        workspace.packages@,
                        i as int,
                        l,
                    ),
                decreases workspace.packages@.len() - i,
            {
                let l = workspace.packages[i].language;
                let ghost before = present@;
                if !has_language(&present, l) {
                    present.push(l);
                }
                proof {
                    assert forall|m: Language| present@.contains(m) <==> (before.contains(m) || m == l) by {
                        if m == l && !before.contains(l) {
                            assert(present@[before.len() as int] == l);
                        }
                        if before.contains(m) {
                            let k = choose|k: int| 0 <= k < before.len() && before[k] == m;
                            assert(present@[k] == m);
                        }
                        if present@.contains(m) {
                            let k = choose|k: int| 0 <= k < present@.len() && present@[k] == m;
                            if k < before.len() {
                                assert(before[k] == m);
                            }
                        }
                    }
                    assert forall|m: Language| #[trigger] language_among(workspace.packages@, i + 1, m) <==> (
                    language_among(workspace.packages@, i as int, m) || m == l) by {
                        if m == l {
                            assert(workspace.packages@[i as int].language == m);
                        }
                        if language_among(workspace.packages@, i + 1, m) {
                            let k = choose|k: int| 0 <= k < i + 1 && #[trigger] workspace.packages@[k].language == m;
                            if k < i {
                                assert(language_among(workspace.packages@, i as int, m));
                            }
                        }
                    }
                    assert forall|m: Language| #[trigger] present@.contains(m) <==> language_among(
                        workspace.packages@,
                        i + 1,
                        m,
                    ) by {
                        assert(before.contains(m) <==> language_among(workspace.packages@, i as int, m));
                        assert(language_among(workspace.packages@, i + 1, m) <==> (language_among(
                            workspace.packages@,
                            i as int,
                            m,
                        ) || m == l));
                    }
                }
                i = i + 1;
            }
        }
        let order: [Language; 4] = [Language::JavaScript, Language::Rust, Language::TypeScript, Language::Unknown];
        assert(order@ =~= languages_by_name());
        let ghost pred = |l: Language| detected_language(*workspace, l);
        let mut languages: Vec<Language> = Vec::new();
        let mut i: usize = 0;
        while i < 4
            invariant
                i <= 4,
                order@ == languages_by_name(),
                pred == (|l: Language| detected_language(*workspace, l)),
                forall|l: Language| present@.contains(l) <==> detected_language(*workspace, l),
                languages@ == languages_by_name().take(i as int).filter(pred),
            decreases 4 - i,
        {
            proof {
                reveal(Seq::filter);
                assert(languages_by_name().take(i + 1).drop_last() =~= languages_by_name().take(i as int));
                assert(languages_by_name().take(i + 1).last() == order@[i as int]);
            }
            if has_language(&present, order[i]) {
                languages.push(order[i]);
            }
            i = i + 1;
        }
        assert(languages_by_name().take(4) =~= languages_by_name());
        let fingerprint = compute_fingerprint(&languages, &package_manager, &resolution_mode, &cargo_features);
        proof {
            reveal_strlit("cargo");
            reveal_strlit("cargo + ");
        }
        GraphProfile { languages, package_manager, resolution_mode, cargo_features, fingerprint }
    }
}

} // verus!
