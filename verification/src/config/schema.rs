//! The `.codeatlas.yaml` configuration: ignore patterns, entrypoints,
//! dependency overlays (manual edges and suppressions), per-package
//! metadata, framework hints and declarations.

use std::collections::HashMap;

use vstd::prelude::*;

use globset::{GlobSet, GlobSetBuilder};

use crate::config::ConfigError;

verus! {

// ---------------------------------------------------------------------------
// Glob sets
// ---------------------------------------------------------------------------

/// Declaration of globset's `GlobSetBuilder`.
#[verifier::external_type_specification]
#[verifier::external_body]
pub struct ExGlobSetBuilder(GlobSetBuilder);

/// Declaration of globset's `GlobSet`.
#[verifier::external_type_specification]
#[verifier::external_body]
pub struct ExGlobSet(GlobSet);

/// Whether globset accepts `pattern` as a glob (`Glob::new` succeeds).
pub uninterp spec fn glob_valid(pattern: Seq<char>) -> bool;

/// Whether a set of the valid globs `patterns` can be built
/// (`GlobSetBuilder::build` succeeds).
pub uninterp spec fn globs_build(patterns: Seq<Seq<char>>) -> bool;

/// Whether the glob `pattern` (default options) matches `path`.
pub uninterp spec fn glob_matches(pattern: Seq<char>, path: Seq<char>) -> bool;

/// The patterns a builder holds, in the order added.
pub uninterp spec fn builder_patterns(b: GlobSetBuilder) -> Seq<Seq<char>>;

/// The patterns a glob set was built from, in order.
pub uninterp spec fn set_patterns(s: GlobSet) -> Seq<Seq<char>>;

/// An empty builder (globset's `GlobSetBuilder::new`).
///
/// Trusted: a new builder holds no globs.
#[verifier::external_body]
fn new_builder() -> (b: GlobSetBuilder)
    ensures
        builder_patterns(b) == Seq::<Seq<char>>::empty(),
{
    GlobSetBuilder::new()
}

/// Parses `pattern` as a glob (globset's `Glob::new`) and, where it is
/// valid, adds it to the builder (`GlobSetBuilder::add`).
///
/// Trusted: `Glob::new` either fails or gives a glob of that pattern with
/// default options, and `add` appends it; the contract says so over the
/// named validity and builder contents.
#[verifier::external_body]
fn add_pattern(b: &mut GlobSetBuilder, pattern: &str) -> (added: bool)
    ensures
        added == glob_valid(pattern@),
        builder_patterns(*final(b)) == (if added {
            builder_patterns(*old(b)).push(pattern@)
        } else {
            builder_patterns(*old(b))
        }),
{
    match globset::Glob::new(pattern) {
        Ok(g) => {
            b.add(g);
            true
        },
        Err(_) => false,
    }
}

/// Builds a glob set from the builder's globs (globset's
/// `GlobSetBuilder::build`).
///
/// Trusted: whether building succeeds is a function of the globs alone
/// (named here); a built set holds the builder's globs.
#[verifier::external_body]
fn build_set(b: &GlobSetBuilder) -> (r: Option<GlobSet>)
    ensures
        r is Some == globs_build(builder_patterns(*b)),
        r matches Some(s) ==> set_patterns(s) == builder_patterns(*b),
{
    b.build().ok()
}

/// Whether a path matches any glob of the set (globset's
/// `GlobSet::is_match`).
///
/// Trusted: globset documents `is_match` as true exactly when some glob of
/// the set matches the path. Every set here is built from `Glob::new`
/// patterns, so each glob has default options.
#[verifier::external_body]
pub(crate) fn set_is_match(s: &GlobSet, path: &str) -> (r: bool)
    ensures
        r == (exists|i: int| 0 <= i < set_patterns(*s).len() && glob_matches(set_patterns(*s)[i], path@)),
{
    s.is_match(path)
}

/// Whether some of the patterns matches `path`.
pub open spec fn any_matches(patterns: Seq<Seq<char>>, path: Seq<char>) -> bool {
    exists|i: int| 0 <= i < patterns.len() && glob_matches(#[trigger] patterns[i], path)
}

/// The valid globs among the patterns, in order.
pub open spec fn valid_patterns(patterns: Seq<String>) -> Seq<Seq<char>> {
    patterns.filter(|p: String| glob_valid(p@)).map_values(|p: String| p@)
}

/// Whether `path` is ignored by the patterns: some pattern, the valid ones
/// forming a set that builds, matches it.
pub open spec fn ignored_by(patterns: Seq<String>, path: Seq<char>) -> bool {
    &&& patterns.len() > 0
    &&& globs_build(valid_patterns(patterns))
    &&& any_matches(valid_patterns(patterns), path)
}

// ---------------------------------------------------------------------------
// Configuration
// ---------------------------------------------------------------------------

/// What kind of entrypoint this is.
#[derive(Debug, Clone, Copy, PartialEq, Eq, Structural)]
pub enum EntrypointKind {
    App,
    PublicApi,
    Binary,
}

/// An explicit entrypoint or public API root.
#[derive(Debug, PartialEq, Eq)]
pub struct Entrypoint {
    /// Path relative to the workspace root.
    pub path: String,
    /// Kind of entrypoint.
    pub kind: EntrypointKind,
}

/// Configuration for a manually declared edge.
#[derive(Debug, PartialEq, Eq)]
pub struct ManualEdgeConfig {
    pub from: String,
    pub to: String,
    pub reason: String,
}

/// Configuration for a suppressed edge.
#[derive(Debug, PartialEq, Eq)]
pub struct SuppressionConfig {
    pub from: String,
    pub to: String,
    pub reason: String,
}

/// Dependency overlay configuration.
#[derive(Debug, PartialEq, Eq)]
pub struct DependencyOverlays {
    /// Manual edges: dependencies the scanner cannot observe.
    pub add: Vec<ManualEdgeConfig>,
    /// View-level suppressions: edges hidden in the default view.
    pub suppress: Vec<SuppressionConfig>,
}

impl Default for DependencyOverlays {
    fn default() -> (d: Self)
        ensures
            d.add@.len() == 0,
            d.suppress@.len() == 0,
    {
        DependencyOverlays { add: Vec::new(), suppress: Vec::new() }
    }
}

/// Per-package metadata from configuration.
#[derive(Debug, Clone, PartialEq, Eq)]
pub struct PackageMetadata {
    pub tags: Vec<String>,
    pub layer: Option<String>,
    pub owner: Option<String>,
}

/// Framework detector hint.
#[derive(Debug, PartialEq, Eq)]
pub struct FrameworkHint {
    pub hint_type: String,
    pub root: Option<String>,
    pub output: Option<String>,
    pub source: Option<String>,
}

/// Declaration about an unsupported construct.
#[derive(Debug, PartialEq, Eq)]
pub struct Declaration {
    pub declaration_type: String,
    pub path: String,
    pub note: Option<String>,
}

/// Root configuration from `.codeatlas.yaml`, versioned with the
/// repository.
#[derive(Debug, PartialEq, Eq)]
pub struct RepoConfig {
    /// Schema version (1).
    pub version: u32,
    /// Glob patterns for paths to ignore during scanning.
    pub ignore: Vec<String>,
    /// Explicit entrypoints and public API roots.
    pub entrypoints: Vec<Entrypoint>,
    /// Dependency overlays (manual edges and suppressions).
    pub dependencies: DependencyOverlays,
    /// Per-package metadata, by package path.
    pub packages: HashMap<String, PackageMetadata>,
    /// Framework detector hints.
    pub frameworks: Vec<FrameworkHint>,
    /// Declarations about unsupported constructs.
    pub declarations: Vec<Declaration>,
}

impl Clone for Entrypoint {
    fn clone(&self) -> (r: Self)
        ensures
            r == *self,
    {
        Entrypoint { path: self.path.clone(), kind: self.kind }
    }
}

impl Clone for ManualEdgeConfig {
    fn clone(&self) -> (r: Self)
        ensures
            r == *self,
    {
        ManualEdgeConfig { from: self.from.clone(), to: self.to.clone(), reason: self.reason.clone() }
    }
}

impl Clone for SuppressionConfig {
    fn clone(&self) -> (r: Self)
        ensures
            r == *self,
    {
        SuppressionConfig { from: self.from.clone(), to: self.to.clone(), reason: self.reason.clone() }
    }
}

/// Two overlay sections with the same additions and suppressions.
pub open spec fn same_overlays(a: DependencyOverlays, b: DependencyOverlays) -> bool {
    a.add@ == b.add@ && a.suppress@ == b.suppress@
}

impl Clone for DependencyOverlays {
    fn clone(&self) -> (r: Self)
        ensures
            same_overlays(r, *self),
    {
        DependencyOverlays { add: self.add.clone(), suppress: self.suppress.clone() }
    }
}

impl Clone for FrameworkHint {
    fn clone(&self) -> (r: Self)
        ensures
            r == *self,
    {
        FrameworkHint {
            hint_type: self.hint_type.clone(),
            root: self.root.clone(),
            output: self.output.clone(),
            source: self.source.clone(),
        }
    }
}

impl Clone for Declaration {
    fn clone(&self) -> (r: Self)
        ensures
            r == *self,
    {
        Declaration {
            declaration_type: self.declaration_type.clone(),
            path: self.path.clone(),
            note: self.note.clone(),
        }
    }
}

/// Two configurations with the same version and sections.
pub open spec fn same_config(a: RepoConfig, b: RepoConfig) -> bool {
    &&& a.version == b.version
    &&& a.ignore@ == b.ignore@
    &&& a.entrypoints@ == b.entrypoints@
    &&& same_overlays(a.dependencies, b.dependencies)
    &&& a.packages@ == b.packages@
    &&& a.frameworks@ == b.frameworks@
    &&& a.declarations@ == b.declarations@
}

impl Clone for RepoConfig {
    fn clone(&self) -> (r: Self)
        ensures
            same_config(r, *self),
    {
        RepoConfig {
            version: self.version,
            ignore: self.ignore.clone(),
            entrypoints: self.entrypoints.clone(),
            dependencies: self.dependencies.clone(),
            packages: self.packages.clone(),
            frameworks: self.frameworks.clone(),
            declarations: self.declarations.clone(),
        }
    }
}

/// The sections that are read but have no effect yet, in order: per-package
/// metadata, framework hints and declarations, each where present.
pub open spec fn non_functional(has_packages: bool, has_frameworks: bool, has_declarations: bool) -> Seq<Seq<char>> {
    (if has_packages {
        seq!["packages (per-package metadata)"@]
    } else {
        Seq::empty()
    }) + (if has_frameworks {
        seq!["frameworks (detector hints)"@]
    } else {
        Seq::empty()
    }) + (if has_declarations {
        seq!["declarations (unsupported construct annotations)"@]
    } else {
        Seq::empty()
    })
}

impl RepoConfig {
    /// The minimal configuration: version 1 and every section empty.
    pub fn default_config() -> (c: Self)
        ensures
            c.version == 1,
            c.ignore@.len() == 0,
            c.entrypoints@.len() == 0,
            c.dependencies.add@.len() == 0,
            c.dependencies.suppress@.len() == 0,
            c.packages@.dom().len() == 0,
            c.frameworks@.len() == 0,
            c.declarations@.len() == 0,
    {
        RepoConfig {
            version: 1,
            ignore: Vec::new(),
            entrypoints: Vec::new(),
            dependencies: DependencyOverlays::default(),
            packages: HashMap::new(),
            frameworks: Vec::new(),
            declarations: Vec::new(),
        }
    }

    /// Checks the schema version: only version 1 is supported.
    pub fn validate(&self) -> (r: Result<(), ConfigError>)
        ensures
            r is Ok <==> self.version == 1,
            r matches Err(e) ==> e matches ConfigError::UnsupportedVersion { version } && version == self.version,
    {
        if self.version != 1 {
            return Err(ConfigError::UnsupportedVersion { version: self.version });
        }
        Ok(())
    }

    /// The outcome of parsing `.codeatlas.yaml`: a parse failure becomes a
    /// parse error with its message; a parsed configuration is returned
    /// where it validates.
    pub fn from_parse_result(parsed: Result<RepoConfig, String>) -> (r: Result<RepoConfig, ConfigError>)
        ensures
            match parsed {
                Err(msg) => r matches Err(ConfigError::ParseError { reason }) && reason == msg,
                Ok(c) => if c.version == 1 {
                    r == Ok::<RepoConfig, ConfigError>(c)
                } else {
                    r matches Err(ConfigError::UnsupportedVersion { version }) && version == c.version
                },
            },
    {
        match parsed {
            Err(msg) => Err(ConfigError::ParseError { reason: msg }),
            Ok(c) => {
                match c.validate() {
                    Ok(()) => Ok(c),
                    Err(e) => Err(e),
                }
            },
        }
    }

    /// The glob set of the ignore patterns: none where there are no
    /// patterns or the set cannot be built; invalid patterns are left out.
    pub fn ignore_glob_set(&self) -> (r: Option<GlobSet>)
        ensures
            self.ignore@.len() == 0 ==> r is None,
            self.ignore@.len() > 0 ==> (r is Some <==> globs_build(valid_patterns(self.ignore@))),
            r matches Some(s) ==> set_patterns(s) == valid_patterns(self.ignore@),
    {
        if self.ignore.len() == 0 {
            return None;
        }
        let ghost pred = |p: String| glob_valid(p@);
        let mut builder = new_builder();
        let mut i: usize = 0;
        while i < self.ignore.len()
            invariant
                i <= self.ignore@.len(),
                pred == (|p: String| glob_valid(p@)),
                builder_patterns(builder) == self.ignore@.take(i as int).filter(pred).map_values(
                    |p: String| p@,
                ),
            decreases self.ignore@.len() - i,
        {
            let ghost before = builder_patterns(builder);
            proof {
                reveal(Seq::filter);
                assert(self.ignore@.take(i + 1).drop_last() =~= self.ignore@.take(i as int));
                assert(self.ignore@.take(i + 1).last() == self.ignore@[i as int]);
            }
            let added = add_pattern(&mut builder, self.ignore[i].as_str());
            proof {
                if added {
                    assert(builder_patterns(builder) =~= self.ignore@.take(i + 1).filter(pred).map_values(
                        |p: String| p@,
                    ));
                } else {
                    assert(builder_patterns(builder) =~= self.ignore@.take(i + 1).filter(pred).map_values(
                        |p: String| p@,
                    ));
                }
            }
            i = i + 1;
        }
        assert(self.ignore@.take(self.ignore@.len() as int) =~= self.ignore@);
        build_set(&builder)
    }

    /// Whether a path is ignored by the configuration's patterns (see
    /// [`ignored_by`]).
    pub fn is_ignored(&self, path: &str) -> (r: bool)
        ensures
            r == ignored_by(self.ignore@, path@),
    {
        match self.ignore_glob_set() {
            Some(gs) => set_is_match(&gs, path),
            None => false,
        }
    }

    /// The sections that are read but have no effect yet (see
    /// [`non_functional`]); dependency overlays have effect.
    pub fn non_functional_sections(&self) -> (r: Vec<&'static str>)
        ensures
            r@.map_values(|s: &str| s@) == non_functional(
                !self.packages@.is_empty(),
                self.frameworks@.len() > 0,
                self.declarations@.len() > 0,
            ),
    {
        let mut sections: Vec<&'static str> = Vec::new();
        if !self.packages.is_empty() {
            sections.push("packages (per-package metadata)");
        }
        if self.frameworks.len() > 0 {
            sections.push("frameworks (detector hints)");
        }
        if self.declarations.len() > 0 {
            sections.push("declarations (unsupported construct annotations)");
        }
        assert(sections@.map_values(|s: &str| s@) =~= non_functional(
            !self.packages@.is_empty(),
            self.frameworks@.len() > 0,
            self.declarations@.len() > 0,
        ));
        sections
    }
}

} // verus!
