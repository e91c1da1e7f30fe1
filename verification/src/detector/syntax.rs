//! Syntax trees and queries through tree-sitter.
//!
//! A source file is parsed once into a [`SyntaxTree`]; a query, compiled
//! once per grammar into a [`SyntaxQuery`], is then run on it and yields
//! its matches as plain values. The detectors read those values.

use vstd::prelude::*;

use tree_sitter::{QueryCursor, StreamingIterator};

use crate::paths::opt_view;
use crate::text::same_text;

verus! {

/// Declaration of tree-sitter's `Tree`.
#[verifier::external_type_specification]
#[verifier::external_body]
pub struct ExTree(tree_sitter::Tree);

/// Declaration of tree-sitter's `Query`.
#[verifier::external_type_specification]
#[verifier::external_body]
pub struct ExQuery(tree_sitter::Query);

/// The grammars the detectors parse with.
#[derive(Debug, Clone, Copy, PartialEq, Eq, Structural)]
pub enum Grammar {
    Rust,
    TypeScript,
    Tsx,
}

/// Why a source file could not be parsed: the grammar could not be set on
/// the parser, or the parser returned no tree.
#[derive(Debug, Clone, Copy, PartialEq, Eq, Structural)]
pub enum SyntaxFailure {
    Language,
    Parse,
}

/// A source file parsed with a grammar (made only by [`parse_source`]).
pub struct SyntaxTree {
    tree: tree_sitter::Tree,
    grammar: Grammar,
    text: String,
}

impl SyntaxTree {
    /// The grammar the tree was parsed with.
    pub closed spec fn grammar(self) -> Grammar {
        self.grammar
    }

    /// The text the tree was parsed from.
    pub closed spec fn source(self) -> Seq<char> {
        self.text@
    }
}

/// A query compiled for a grammar, with its capture names (made only by
/// [`compile_query`]).
pub struct SyntaxQuery {
    query: tree_sitter::Query,
    names: Vec<String>,
    grammar: Grammar,
    text: String,
}

impl SyntaxQuery {
    /// The grammar the query was compiled for.
    pub closed spec fn grammar(self) -> Grammar {
        self.grammar
    }

    /// The query's text.
    pub closed spec fn source(self) -> Seq<char> {
        self.text@
    }
}

/// A node that a query captured: the capture's name, the node's kind and
/// text, its first byte and its first and last rows (0-based).
#[derive(Debug)]
pub struct SyntaxCapture {
    pub name: String,
    pub kind: String,
    pub text: Option<String>,
    pub start_byte: usize,
    pub start_row: usize,
    pub end_row: usize,
}

/// What a capture holds, as plain values.
pub struct CaptureView {
    pub name: Seq<char>,
    pub kind: Seq<char>,
    pub text: Option<Seq<char>>,
    pub start_byte: usize,
    pub start_row: usize,
    pub end_row: usize,
}

impl View for SyntaxCapture {
    type V = CaptureView;

    open spec fn view(&self) -> CaptureView {
        CaptureView {
            name: self.name@,
            kind: self.kind@,
            text: opt_view(self.text),
            start_byte: self.start_byte,
            start_row: self.start_row,
            end_row: self.end_row,
        }
    }
}

impl Clone for SyntaxCapture {
    fn clone(&self) -> (r: Self)
        ensures
            r@ == self@,
    {
        SyntaxCapture {
            name: self.name.clone(),
            kind: self.kind.clone(),
            text: match &self.text {
                Some(t) => Some(t.clone()),
                None => None,
            },
            start_byte: self.start_byte,
            start_row: self.start_row,
            end_row: self.end_row,
        }
    }
}

/// The captures of one match, as plain values.
pub open spec fn match_view(m: Seq<SyntaxCapture>) -> Seq<CaptureView> {
    m.map_values(|c: SyntaxCapture| c@)
}

/// The matches of a query, as plain values.
pub open spec fn matches_view(ms: Seq<Vec<SyntaxCapture>>) -> Seq<Seq<CaptureView>> {
    ms.map_values(|m: Vec<SyntaxCapture>| match_view(m@))
}

/// Why tree-sitter does not parse `source` with `grammar`, if it does not.
pub uninterp spec fn parse_failure(grammar: Grammar, source: Seq<char>) -> Option<SyntaxFailure>;

/// tree-sitter's message for `query`, where it is not a valid query of
/// `grammar`. A valid query's capture names come with it.
pub uninterp spec fn query_error(grammar: Grammar, query: Seq<char>) -> Option<Seq<char>>;

/// The matches, in tree-sitter's order, of `query` on the tree of `source`
/// parsed with `grammar`.
pub uninterp spec fn query_matches(grammar: Grammar, source: Seq<char>, query: Seq<char>) -> Seq<Seq<CaptureView>>;

/// Parses `source` with `grammar` (tree-sitter's `Parser::set_language` and
/// `Parser::parse`).
///
/// Trusted: the outcome depends on the grammar and the text alone, and is
/// named rather than stated; a tree keeps both. Left unsaid is when a parse
/// fails: tree-sitter's `set_language` refuses a grammar built for another
/// ABI version, and `parse` returns no tree without a language or when
/// cancelled, which this call never asks for.
#[verifier::external_body]
pub(crate) fn parse_source(grammar: Grammar, source: &str) -> (r: Result<SyntaxTree, SyntaxFailure>)
    ensures
        match r {
            Ok(t) => t.grammar() == grammar && t.source() == source@ && parse_failure(grammar, source@) is None,
            Err(f) => parse_failure(grammar, source@) == Some(f),
        },
{
    let language: tree_sitter::Language = match grammar {
        Grammar::Rust => tree_sitter_rust::LANGUAGE,
        Grammar::TypeScript => tree_sitter_typescript::LANGUAGE_TYPESCRIPT,
        Grammar::Tsx => tree_sitter_typescript::LANGUAGE_TSX,
    }.into();
    let mut parser = tree_sitter::Parser::new();
    if parser.set_language(&language).is_err() {
        return Err(SyntaxFailure::Language);
    }
    match parser.parse(source, None) {
        Some(tree) => Ok(SyntaxTree { tree, grammar, text: source.to_string() }),
        None => Err(SyntaxFailure::Parse),
    }
}

/// Compiles `query` for `grammar` (tree-sitter's `Query::new`).
///
/// Trusted: the outcome depends on the grammar and the query text alone,
/// and is named rather than stated; an error is given by its message
/// (`QueryError`'s `Display`), a compiled query keeps the grammar and the
/// text.
#[verifier::external_body]
pub(crate) fn compile_query(grammar: Grammar, query: &str) -> (r: Result<SyntaxQuery, String>)
    ensures
        match r {
            Ok(q) => q.grammar() == grammar && q.source() == query@ && query_error(grammar, query@) is None,
            Err(e) => query_error(grammar, query@) == Some(e@),
        },
{
    let language: tree_sitter::Language = match grammar {
        Grammar::Rust => tree_sitter_rust::LANGUAGE,
        Grammar::TypeScript => tree_sitter_typescript::LANGUAGE_TYPESCRIPT,
        Grammar::Tsx => tree_sitter_typescript::LANGUAGE_TSX,
    }.into();
    match tree_sitter::Query::new(&language, query) {
        Ok(q) => {
            let names = q.capture_names().iter().map(|n| n.to_string()).collect();
            Ok(SyntaxQuery { query: q, names, grammar, text: query.to_string() })
        },
        Err(e) => Err(e.to_string()),
    }
}

/// Runs a query on a tree of its grammar (tree-sitter's
/// `QueryCursor::matches`), each match given by its captures.
///
/// Trusted: the matches depend on the grammar, the source text and the
/// query text alone (a tree and a query are made only by [`parse_source`]
/// and [`compile_query`], from those); what they are follows tree-sitter's
/// query semantics, which are named rather than stated. Each capture is
/// converted as [`SyntaxCapture`] describes.
#[verifier::external_body]
pub(crate) fn run_query(tree: &SyntaxTree, query: &SyntaxQuery) -> (r: Vec<Vec<SyntaxCapture>>)
    requires
        tree.grammar() == query.grammar(),
    ensures
        matches_view(r@) == query_matches(tree.grammar(), tree.source(), query.source()),
{
    let b = tree.text.as_bytes();
    let mut cursor = QueryCursor::new();
    let mut found = cursor.matches(&query.query, tree.tree.root_node(), b);
    let mut out = Vec::new();
    while let Some(m) = found.next() {
        out.push(m.captures().iter().map(|c| SyntaxCapture {
            name: query.names[c.index as usize].clone(),
            kind: c.node.kind().to_string(),
            text: c.node.utf8_text(b).ok().map(String::from),
            start_byte: c.node.start_byte(),
            start_row: c.node.start_position().row,
            end_row: c.node.end_position().row,
        }).collect());
    }
    out
}

/// The 1-based line of a 0-based row, as a `u32` (wrapping).
pub open spec fn line_of(row: usize) -> u32 {
    if row as u32 == u32::MAX {
        0
    } else {
        (row as u32 + 1) as u32
    }
}

/// The 1-based line of a 0-based row.
pub fn line_number(row: usize) -> (l: u32)
    ensures
        l == line_of(row),
{
    let r: u32 = #[verifier::truncate] (row as u32);
    if r == u32::MAX {
        0
    } else {
        r + 1
    }
}

/// All captures of the matches `ms`, in order.
pub open spec fn flat(ms: Seq<Seq<CaptureView>>) -> Seq<CaptureView>
    decreases ms.len(),
{
    if ms.len() == 0 {
        Seq::empty()
    } else {
        flat(ms.drop_last()) + ms.last()
    }
}

/// The last capture of a match with the given name.
pub open spec fn capture_named(m: Seq<CaptureView>, name: Seq<char>) -> Option<CaptureView>
    decreases m.len(),
{
    if m.len() == 0 {
        None
    } else if m.last().name == name {
        Some(m.last())
    } else {
        capture_named(m.drop_last(), name)
    }
}

/// Whether some match of `ms` has a capture with the given name whose node
/// starts at byte `at`.
pub open spec fn has_capture_at(ms: Seq<Seq<CaptureView>>, name: Seq<char>, at: usize) -> bool {
    exists|i: int, j: int|
        0 <= i < ms.len() && 0 <= j < ms[i].len() && #[trigger] ms[i][j].name == name
            && ms[i][j].start_byte == at
}

/// The captures of the first `i + 1` matches are those of the first `i`
/// followed by the `i`-th match's.
pub proof fn lemma_flat_step(ms: Seq<Seq<CaptureView>>, i: int)
    requires
        0 <= i < ms.len(),
    ensures
        flat(ms.take(i + 1)) == flat(ms.take(i)) + ms[i],
{
    assert(ms.take(i + 1).drop_last() =~= ms.take(i));
}

/// Indexing the view of the matches gives the views of the captures.
pub proof fn lemma_matches_view_index(ms: Seq<Vec<SyntaxCapture>>, i: int, j: int)
    requires
        0 <= i < ms.len(),
        0 <= j < ms[i]@.len(),
    ensures
        matches_view(ms)[i] == match_view(ms[i]@),
        matches_view(ms)[i][j] == ms[i]@[j]@,
        matches_view(ms)[i].len() == ms[i]@.len(),
{
}

/// Where in a match the last capture with the given name stands.
pub fn find_capture(m: &Vec<SyntaxCapture>, name: &str) -> (r: Option<usize>)
    ensures
        match r {
            Some(k) => k < m@.len() && capture_named(match_view(m@), name@) == Some(m@[k as int]@),
            None => capture_named(match_view(m@), name@) is None,
        },
{
    let mut found: Option<usize> = None;
    let mut i: usize = 0;
    while i < m.len()
        invariant
            i <= m@.len(),
            match found {
                Some(k) => k < i && capture_named(match_view(m@).take(i as int), name@) == Some(m@[k as int]@),
                None => capture_named(match_view(m@).take(i as int), name@) is None,
            },
        decreases m@.len() - i,
    {
        proof {
            assert(match_view(m@).take(i + 1).drop_last() =~= match_view(m@).take(i as int));
        }
        if same_text(m[i].name.as_str(), name) {
            found = Some(i);
        }
        i = i + 1;
    }
    proof {
        assert(match_view(m@).take(m@.len() as int) =~= match_view(m@));
    }
    found
}

/// Whether some match has a capture with the given name whose node starts
/// at byte `at`.
pub fn capture_at(ms: &Vec<Vec<SyntaxCapture>>, name: &str, at: usize) -> (r: bool)
    ensures
        r == has_capture_at(matches_view(ms@), name@, at),
{
    let mut i: usize = 0;
    while i < ms.len()
        invariant
            i <= ms@.len(),
            forall|a: int, b: int|
                0 <= a < i && 0 <= b < matches_view(ms@)[a].len() ==> !(#[trigger] matches_view(ms@)[a][b].name
                    == name@ && matches_view(ms@)[a][b].start_byte == at),
        decreases ms@.len() - i,
    {
        let m = &ms[i];
        let mut j: usize = 0;
        while j < m.len()
            invariant
                i < ms@.len(),
                *m == ms@[i as int],
                j <= m@.len(),
                forall|b: int|
                    0 <= b < j ==> !(#[trigger] matches_view(ms@)[i as int][b].name == name@
                        && matches_view(ms@)[i as int][b].start_byte == at),
            decreases m@.len() - j,
        {
            proof {
                lemma_matches_view_index(ms@, i as int, j as int);
            }
            if m[j].start_byte == at && same_text(m[j].name.as_str(), name) {
                assert(matches_view(ms@)[i as int][j as int].name == name@);
                return true;
            }
            j = j + 1;
        }
        proof {
            assert(matches_view(ms@)[i as int].len() == m@.len());
        }
        i = i + 1;
    }
    false
}

/// The captures of `cs` with the given name, in order.
pub open spec fn named_in(cs: Seq<CaptureView>, name: Seq<char>) -> Seq<CaptureView>
    decreases cs.len(),
{
    if cs.len() == 0 {
        Seq::empty()
    } else if cs.last().name == name {
        named_in(cs.drop_last(), name).push(cs.last())
    } else {
        named_in(cs.drop_last(), name)
    }
}

/// Every capture with the given name, over all matches, in order.
pub fn captures_named(ms: &Vec<Vec<SyntaxCapture>>, name: &str) -> (r: Vec<SyntaxCapture>)
    ensures
        match_view(r@) == named_in(flat(matches_view(ms@)), name@),
{
    let ghost mv = matches_view(ms@);
    let mut out: Vec<SyntaxCapture> = Vec::new();
    let mut i: usize = 0;
    while i < ms.len()
        invariant
            i <= ms@.len(),
            mv == matches_view(ms@),
            match_view(out@) == named_in(flat(mv.take(i as int)), name@),
        decreases ms@.len() - i,
    {
        let m = &ms[i];
        let ghost before = flat(mv.take(i as int));
        let mut j: usize = 0;
        while j < m.len()
            invariant
                i < ms@.len(),
                mv == matches_view(ms@),
                *m == ms@[i as int],
                j <= m@.len(),
                match_view(out@) == named_in(before + mv[i as int].take(j as int), name@),
            decreases m@.len() - j,
        {
            proof {
                lemma_matches_view_index(ms@, i as int, j as int);
                assert((before + mv[i as int].take(j + 1)).drop_last() =~= before + mv[i as int].take(j as int));
                assert((before + mv[i as int].take(j + 1)).last() == m@[j as int]@);
            }
            if same_text(m[j].name.as_str(), name) {
                let c = m[j].clone();
                proof {
                    assert(match_view(out@.push(c)) =~= match_view(out@).push(c@));
                }
                out.push(c);
            }
            j = j + 1;
        }
        proof {
            lemma_flat_step(mv, i as int);
            assert(mv[i as int].take(m@.len() as int) =~= mv[i as int]);
            assert(mv[i as int].len() == m@.len());
        }
        i = i + 1;
    }
    proof {
        assert(mv.take(ms@.len() as int) =~= mv);
    }
    out
}

/// The first of the queries `qs` (each a failure prefix and a query text)
/// that is not a valid query of `grammar`: its prefix and tree-sitter's
/// message.
pub open spec fn first_query_error(grammar: Grammar, qs: Seq<(Seq<char>, Seq<char>)>) -> Option<(Seq<char>, Seq<char>)>
    decreases qs.len(),
{
    if qs.len() == 0 {
        None
    } else {
        match query_error(grammar, qs[0].1) {
            Some(m) => Some((qs[0].0, m)),
            None => first_query_error(grammar, qs.drop_first()),
        }
    }
}

/// The matches of a compiled query on `source` parsed with the query's
/// grammar, or why the source could not be parsed.
pub fn matches_in(query: &SyntaxQuery, source: &str) -> (r: Result<Vec<Vec<SyntaxCapture>>, SyntaxFailure>)
    ensures
        match r {
            Ok(ms) => parse_failure(query.grammar(), source@) is None
                && matches_view(ms@) == query_matches(query.grammar(), source@, query.source()),
            Err(f) => parse_failure(query.grammar(), source@) == Some(f),
        },
{
    let tree = parse_source(query.grammar, source)?;
    Ok(run_query(&tree, query))
}

} // verus!
