//! Identity scheme of the graph.
//!
//! A `MaterializedKey` identifies a node within one scan as
//! `{language}:{entity_kind}:{relative_path}`, the path normalized: forward
//! slashes only, no trailing slash, no `./` prefix, `..` resolved. An
//! `EdgeId` is a digest of `(source, target, kind, category)`, so parallel
//! edges of different categories get different identities.

use std::hash::{Hash, Hasher};

use vstd::prelude::*;

use crate::graph::types::{entity_kind_name, language_name, EdgeCategory, EdgeKind, EntityKind, Language};
use crate::text::{
    chars_of, hex16, hex_fixed, is_lower_hex, join_strings, join_with, lemma_hex_fixed_digits, push_all,
    push_char, same_text,
};

verus! {

// ---------------------------------------------------------------------------
// Path components
// ---------------------------------------------------------------------------

/// The pieces of `s` between occurrences of `sep` (`s.split(sep)`); there is
/// always at least one piece.
pub open spec fn split_on(s: Seq<char>, sep: char) -> Seq<Seq<char>>
    decreases s.len(),
{
    if s.len() == 0 {
        seq![Seq::empty()]
    } else {
        let rest = split_on(s.drop_first(), sep);
        if s[0] == sep {
            seq![Seq::<char>::empty()] + rest
        } else {
            rest.update(0, seq![s[0]] + rest[0])
        }
    }
}

/// One component of a path, as a value.
pub enum PathPart {
    Prefix(Seq<char>),
    Root,
    Cur,
    Parent,
    Normal(Seq<char>),
}

/// One component of a path (camino's `Utf8Component`).
#[derive(Debug)]
pub enum PathComponent {
    Prefix(String),
    RootDir,
    CurDir,
    ParentDir,
    Normal(String),
}

impl PathComponent {
    pub open spec fn view(&self) -> PathPart {
        match self {
            PathComponent::Prefix(s) => PathPart::Prefix(s@),
            PathComponent::RootDir => PathPart::Root,
            PathComponent::CurDir => PathPart::Cur,
            PathComponent::ParentDir => PathPart::Parent,
            PathComponent::Normal(s) => PathPart::Normal(s@),
        }
    }
}

/// The component, if any, that one `/`-separated piece of a path yields:
/// empty pieces and `.` yield none, `..` the parent, anything else itself.
pub open spec fn piece_part(p: Seq<char>) -> Option<PathPart> {
    if p.len() == 0 || p == seq!['.'] {
        None
    } else if p == seq!['.', '.'] {
        Some(PathPart::Parent)
    } else {
        Some(PathPart::Normal(p))
    }
}

/// The components that a sequence of pieces yields, in order.
pub open spec fn pieces_parts(ps: Seq<Seq<char>>) -> Seq<PathPart>
    decreases ps.len(),
{
    if ps.len() == 0 {
        Seq::empty()
    } else {
        let init = pieces_parts(ps.drop_last());
        match piece_part(ps.last()) {
            Some(c) => init.push(c),
            None => init,
        }
    }
}

/// The components of a path on a Unix-like platform: a root when the path
/// starts with `/`, else a current-directory marker when its first piece is
/// `.`, then one component per non-empty piece other than `.`.
pub open spec fn path_parts(s: Seq<char>) -> Seq<PathPart> {
    let pieces = split_on(s, '/');
    let lead = if s.len() > 0 && s[0] == '/' {
        seq![PathPart::Root]
    } else if pieces[0] == seq!['.'] {
        seq![PathPart::Cur]
    } else {
        Seq::empty()
    };
    lead + pieces_parts(pieces)
}

/// The components of a path (camino's `Utf8Path::components`).
///
/// Trusted: std documents (and camino inherits) that components are the
/// path's `/`-separated pieces, with repeated separators and interior `.`
/// normalized away, a leading `.` kept as the current directory, a leading
/// `/` as the root, and `..` as the parent. On Unix-like platforms no prefix
/// is ever produced; the contract describes those platforms only (on
/// Windows, prefixes and `\\` separators would give other components).
#[verifier::external_body]
fn path_components(path: &str) -> (parts: Vec<PathComponent>)
    ensures
        parts@.len() == path_parts(path@).len(),
        forall|i: int| 0 <= i < parts@.len() ==> #[trigger] parts@[i].view() == path_parts(path@)[i],
{
    camino::Utf8Path::new(path).components().map(|c| match c {
        camino::Utf8Component::Prefix(p) => PathComponent::Prefix(p.as_str().to_string()),
        camino::Utf8Component::RootDir => PathComponent::RootDir,
        camino::Utf8Component::CurDir => PathComponent::CurDir,
        camino::Utf8Component::ParentDir => PathComponent::ParentDir,
        camino::Utf8Component::Normal(n) => PathComponent::Normal(n.to_string()),
    }).collect()
}

// ---------------------------------------------------------------------------
// Path normalization
// ---------------------------------------------------------------------------

/// `s` with every backslash replaced by a forward slash.
pub open spec fn forward_slashes(s: Seq<char>) -> Seq<char> {
    s.map_values(|c: char| if c == '\\' { '/' } else { c })
}

/// The directory stack that walking the components yields: a normal
/// component is pushed, `..` pops (when anything is left), the rest is
/// skipped.
pub open spec fn resolve_parts(parts: Seq<PathPart>) -> Seq<Seq<char>>
    decreases parts.len(),
{
    if parts.len() == 0 {
        Seq::empty()
    } else {
        let stack = resolve_parts(parts.drop_last());
        match parts.last() {
            PathPart::Normal(c) => stack.push(c),
            PathPart::Parent => if stack.len() > 0 { stack.drop_last() } else { stack },
            _ => stack,
        }
    }
}

/// The normalized form of a path: backslashes become slashes, the path is
/// split into components, `.` and `..` are resolved, the root is dropped,
/// and the remaining names are joined with `/`.
pub open spec fn normalized(p: Seq<char>) -> Seq<char> {
    join_with(resolve_parts(path_parts(forward_slashes(p))), seq!['/'])
}

fn replace_backslashes(path: &str) -> (s: String)
    ensures
        s@ == forward_slashes(path@),
{
    let cs = chars_of(path);
    let mut s = String::new();
    let mut i: usize = 0;
    while i < cs.len()
        invariant
            i <= cs@.len(),
            cs@ == path@,
            s@ == forward_slashes(path@).take(i as int),
        decreases cs@.len() - i,
    {
        if cs[i] == '\\' {
            push_char(&mut s, '/');
        } else {
            push_char(&mut s, cs[i]);
        }
        i = i + 1;
        assert(s@ =~= forward_slashes(path@).take(i as int));
    }
    assert(forward_slashes(path@).take(cs@.len() as int) =~= forward_slashes(path@));
    s
}

/// Normalizes a path for use in identity keys.
///
/// Forward slashes only, no trailing slash, no `./` prefix, `.` and `..`
/// resolved, no leading `/`; case is preserved and symlinks are not
/// followed.
pub fn normalize_path(path: &str) -> (r: String)
    ensures
        r@ == normalized(path@),
{
    let replaced = replace_backslashes(path);
    let parts = path_components(replaced.as_str());
    let ghost pv = path_parts(replaced@);
    let mut stack: Vec<String> = Vec::new();
    let mut i: usize = 0;
    while i < parts.len()
        invariant
            i <= parts@.len(),
            pv == path_parts(replaced@),
            parts@.len() == pv.len(),
            forall|j: int| 0 <= j < parts@.len() ==> #[trigger] parts@[j].view() == pv[j],
            stack@.map_values(|s: String| s@) == resolve_parts(pv.take(i as int)),
        decreases parts@.len() - i,
    {
        let ghost before = stack@.map_values(|s: String| s@);
        assert(pv.take(i + 1).drop_last() == pv.take(i as int));
        assert(pv.take(i + 1).last() == parts@[i as int].view());
        match &parts[i] {
            PathComponent::Normal(c) => {
                stack.push(c.clone());
                assert(stack@.map_values(|s: String| s@) =~= before.push(c@));
            },
            PathComponent::ParentDir => {
                if stack.len() > 0 {
                    stack.pop();
                    assert(stack@.map_values(|s: String| s@) =~= before.drop_last());
                }
            },
            _ => {},
        }
        i = i + 1;
    }
    assert(pv.take(parts@.len() as int) == pv);
    proof {
        reveal_strlit("/");
    }
    let r = join_strings(&stack, "/");
    assert(stack@.map_values(|s: String| s@) == resolve_parts(pv));
    assert("/"@ == seq!['/']);
    assert(r@ == join_with(stack@.map_values(|s: String| s@), seq!['/']));
    assert(pv == path_parts(forward_slashes(path@)));
    r
}

/// Normalizes a path given as a UTF-8 path (see [`normalize_path`]).
pub fn normalize_utf8_path(path: &str) -> (r: String)
    ensures
        r@ == normalized(path@),
{
    normalize_path(path)
}

/// A normalized path built from text (see [`normalize_path`]).
pub fn normalized_utf8_path_buf(path: &str) -> (r: String)
    ensures
        r@ == normalized(path@),
{
    normalize_path(path)
}

// ---------------------------------------------------------------------------
// Laws of normalization
// ---------------------------------------------------------------------------

/// A name that can stand between the slashes of a normalized path:
/// non-empty, free of both separators, and neither `.` nor `..`.
pub open spec fn plain_name(c: Seq<char>) -> bool {
    &&& c.len() > 0
    &&& !c.contains('/')
    &&& !c.contains('\\')
    &&& c != seq!['.']
    &&& c != seq!['.', '.']
}

proof fn lemma_split_pieces(s: Seq<char>, sep: char)
    ensures
        split_on(s, sep).len() >= 1,
        forall|i: int, c: char|
            0 <= i < split_on(s, sep).len() && #[trigger] split_on(s, sep)[i].contains(c)
                ==> c != sep && s.contains(c),
    decreases s.len(),
{
    if s.len() > 0 {
        let t = s.drop_first();
        lemma_split_pieces(t, sep);
        let rest = split_on(t, sep);
        assert forall|i: int, c: char|
            0 <= i < split_on(s, sep).len() && #[trigger] split_on(s, sep)[i].contains(c)
                implies c != sep && s.contains(c) by {
            if s[0] == sep {
                if i > 0 {
                    assert(split_on(s, sep)[i] == rest[i - 1]);
                    assert(rest[i - 1].contains(c));
                    let m = choose|m: int| 0 <= m < t.len() && t[m] == c;
                    assert(s[m + 1] == c);
                }
            } else {
                if i == 0 {
                    let piece = seq![s[0]] + rest[0];
                    let k = choose|k: int| 0 <= k < piece.len() && piece[k] == c;
                    if k == 0 {
                        assert(s[0] == c);
                    } else {
                        assert(rest[0][k - 1] == c);
                        assert(rest[0].contains(c));
                        let m = choose|m: int| 0 <= m < t.len() && t[m] == c;
                        assert(s[m + 1] == c);
                    }
                } else {
                    assert(split_on(s, sep)[i] == rest[i]);
                    assert(rest[i].contains(c));
                    let m = choose|m: int| 0 <= m < t.len() && t[m] == c;
                    assert(s[m + 1] == c);
                }
            }
        }
    }
}

proof fn lemma_split_no_sep(b: Seq<char>, sep: char)
    requires
        !b.contains(sep),
    ensures
        split_on(b, sep) == seq![b],
    decreases b.len(),
{
    if b.len() > 0 {
        let t = b.drop_first();
        assert(!t.contains(sep)) by {
            if t.contains(sep) {
                let m = choose|m: int| 0 <= m < t.len() && t[m] == sep;
                assert(b[m + 1] == sep);
            }
        }
        lemma_split_no_sep(t, sep);
        assert(b[0] != sep) by {
            if b[0] == sep {
                assert(b.contains(sep));
            }
        }
        assert(seq![b[0]] + t =~= b);
    } else {
        assert(b =~= Seq::<char>::empty());
    }
}

proof fn lemma_split_concat(x: Seq<char>, y: Seq<char>, sep: char)
    ensures
        split_on(x + seq![sep] + y, sep) == split_on(x, sep) + split_on(y, sep),
    decreases x.len(),
{
    let whole = x + seq![sep] + y;
    if x.len() == 0 {
        assert(whole =~= seq![sep] + y);
        assert(whole.drop_first() =~= y);
    } else {
        let t = x.drop_first();
        lemma_split_concat(t, y, sep);
        lemma_split_pieces(t, sep);
        assert(whole.drop_first() =~= t + seq![sep] + y);
        assert(whole[0] == x[0]);
        let rest = split_on(t + seq![sep] + y, sep);
        if x[0] == sep {
            assert(split_on(whole, sep) =~= split_on(x, sep) + split_on(y, sep));
        } else {
            assert(rest[0] == split_on(t, sep)[0]);
            assert(split_on(whole, sep) =~= split_on(x, sep) + split_on(y, sep));
        }
    }
}

proof fn lemma_join_chars(r: Seq<Seq<char>>, sep: char, c: char)
    requires
        join_with(r, seq![sep]).contains(c),
    ensures
        c == sep || exists|i: int| 0 <= i < r.len() && #[trigger] r[i].contains(c),
    decreases r.len(),
{
    if r.len() == 1 {
        assert(r[0].contains(c));
    } else if r.len() > 1 {
        let init = r.drop_last();
        let j = join_with(init, seq![sep]);
        let whole = j + seq![sep] + r.last();
        let k = choose|k: int| 0 <= k < whole.len() && whole[k] == c;
        if k < j.len() {
            assert(j[k] == c);
            assert(j.contains(c));
            lemma_join_chars(init, sep, c);
            if c != sep {
                let i = choose|i: int| 0 <= i < init.len() && #[trigger] init[i].contains(c);
                assert(r[i] == init[i]);
            }
        } else if k > j.len() {
            assert(r.last()[k - j.len() - 1] == c);
            assert(r[r.len() - 1].contains(c));
        }
    }
}

proof fn lemma_split_join(r: Seq<Seq<char>>, sep: char)
    requires
        r.len() >= 1,
        forall|i: int| 0 <= i < r.len() ==> !(#[trigger] r[i]).contains(sep),
    ensures
        split_on(join_with(r, seq![sep]), sep) == r,
    decreases r.len(),
{
    if r.len() == 1 {
        lemma_split_no_sep(r[0], sep);
        assert(r =~= seq![r[0]]);
    } else {
        let init = r.drop_last();
        lemma_split_join(init, sep);
        lemma_split_concat(join_with(init, seq![sep]), r.last(), sep);
        lemma_split_no_sep(r.last(), sep);
        assert(r =~= init + seq![r.last()]);
    }
}

proof fn lemma_join_first(r: Seq<Seq<char>>, sep: char)
    requires
        r.len() >= 1,
        r[0].len() > 0,
    ensures
        join_with(r, seq![sep]).len() > 0,
        join_with(r, seq![sep])[0] == r[0][0],
    decreases r.len(),
{
    if r.len() > 1 {
        let init = r.drop_last();
        lemma_join_first(init, sep);
    }
}

proof fn lemma_pieces_parts_normals(ps: Seq<Seq<char>>)
    ensures
        forall|i: int| 0 <= i < pieces_parts(ps).len() ==>
            (#[trigger] pieces_parts(ps)[i] matches PathPart::Normal(c) ==> {
                &&& c.len() > 0
                &&& c != seq!['.']
                &&& c != seq!['.', '.']
                &&& exists|j: int| 0 <= j < ps.len() && ps[j] == c
            }),
    decreases ps.len(),
{
    if ps.len() > 0 {
        let init = ps.drop_last();
        lemma_pieces_parts_normals(init);
        assert forall|i: int| 0 <= i < pieces_parts(ps).len() implies
            (#[trigger] pieces_parts(ps)[i] matches PathPart::Normal(c) ==> {
                &&& c.len() > 0
                &&& c != seq!['.']
                &&& c != seq!['.', '.']
                &&& exists|j: int| 0 <= j < ps.len() && ps[j] == c
            }) by {
            if i < pieces_parts(init).len() {
                assert(pieces_parts(ps)[i] == pieces_parts(init)[i]);
                if let PathPart::Normal(c) = pieces_parts(init)[i] {
                    let j = choose|j: int| 0 <= j < init.len() && init[j] == c;
                    assert(ps[j] == c);
                }
            } else {
                if let PathPart::Normal(c) = pieces_parts(ps)[i] {
                    assert(ps[ps.len() - 1] == c);
                }
            }
        }
    }
}

proof fn lemma_resolve_names(parts: Seq<PathPart>)
    requires
        forall|i: int| 0 <= i < parts.len() ==>
            (#[trigger] parts[i] matches PathPart::Normal(c) ==> plain_name(c)),
    ensures
        forall|k: int| 0 <= k < resolve_parts(parts).len() ==> plain_name(#[trigger] resolve_parts(parts)[k]),
    decreases parts.len(),
{
    if parts.len() > 0 {
        let init = parts.drop_last();
        assert forall|i: int| 0 <= i < init.len() implies
            (#[trigger] init[i] matches PathPart::Normal(c) ==> plain_name(c)) by {
            assert(init[i] == parts[i]);
        }
        lemma_resolve_names(init);
        let stack = resolve_parts(init);
        assert(parts.last() == parts[parts.len() - 1]);
        match parts.last() {
            PathPart::Normal(c) => {
                assert forall|k: int| 0 <= k < resolve_parts(parts).len() implies
                    plain_name(#[trigger] resolve_parts(parts)[k]) by {
                    if k < stack.len() {
                        assert(resolve_parts(parts)[k] == stack[k]);
                    }
                }
            },
            PathPart::Parent => {
                assert forall|k: int| 0 <= k < resolve_parts(parts).len() implies
                    plain_name(#[trigger] resolve_parts(parts)[k]) by {
                    assert(resolve_parts(parts)[k] == stack[k]);
                }
            },
            _ => {},
        }
    }
}

proof fn lemma_resolve_plain(r: Seq<Seq<char>>)
    requires
        forall|i: int| 0 <= i < r.len() ==> plain_name(#[trigger] r[i]),
    ensures
        resolve_parts(pieces_parts(r)) == r,
    decreases r.len(),
{
    if r.len() > 0 {
        let init = r.drop_last();
        assert forall|i: int| 0 <= i < init.len() implies plain_name(#[trigger] init[i]) by {
            assert(init[i] == r[i]);
        }
        lemma_resolve_plain(init);
        assert(plain_name(r[r.len() - 1]));
        let parts = pieces_parts(r);
        assert(parts == pieces_parts(init).push(PathPart::Normal(r.last())));
        assert(parts.drop_last() == pieces_parts(init));
        assert(r =~= init.push(r.last()));
    }
}

/// The names between the slashes of a normalized path are all plain.
proof fn lemma_normalized_names(p: Seq<char>)
    ensures
        forall|k: int| 0 <= k < resolve_parts(path_parts(forward_slashes(p))).len() ==>
            plain_name(#[trigger] resolve_parts(path_parts(forward_slashes(p)))[k]),
{
    let q = forward_slashes(p);
    let pieces = split_on(q, '/');
    lemma_split_pieces(q, '/');
    lemma_pieces_parts_normals(pieces);
    let parts = path_parts(q);
    let lead = if q.len() > 0 && q[0] == '/' {
        seq![PathPart::Root]
    } else if pieces[0] == seq!['.'] {
        seq![PathPart::Cur]
    } else {
        Seq::empty()
    };
    assert(parts == lead + pieces_parts(pieces));
    assert forall|i: int| 0 <= i < parts.len() implies
        (#[trigger] parts[i] matches PathPart::Normal(c) ==> plain_name(c)) by {
        if i >= lead.len() {
            assert(parts[i] == pieces_parts(pieces)[i - lead.len()]);
            if let PathPart::Normal(c) = parts[i] {
                let j = choose|j: int| 0 <= j < pieces.len() && pieces[j] == c;
                assert(!c.contains('/'));
                if c.contains('\\') {
                    assert(pieces[j].contains('\\'));
                    assert(q.contains('\\'));
                    let m = choose|m: int| 0 <= m < q.len() && q[m] == '\\';
                    assert(q[m] == (if p[m] == '\\' { '/' } else { p[m] }));
                }
            }
        }
    }
    lemma_resolve_names(parts);
}

/// Walking the components keeps only names that some normal component
/// carried.
proof fn lemma_resolve_from(parts: Seq<PathPart>, src: Seq<Seq<char>>)
    requires
        forall|i: int| 0 <= i < parts.len() ==>
            (#[trigger] parts[i] matches PathPart::Normal(c) ==> src.contains(c)),
    ensures
        forall|k: int| 0 <= k < resolve_parts(parts).len() ==> src.contains(#[trigger] resolve_parts(parts)[k]),
    decreases parts.len(),
{
    if parts.len() > 0 {
        let init = parts.drop_last();
        assert forall|i: int| 0 <= i < init.len() implies
            (#[trigger] init[i] matches PathPart::Normal(c) ==> src.contains(c)) by {
            assert(init[i] == parts[i]);
        }
        lemma_resolve_from(init, src);
        let stack = resolve_parts(init);
        assert(parts.last() == parts[parts.len() - 1]);
        assert forall|k: int| 0 <= k < resolve_parts(parts).len() implies
            src.contains(#[trigger] resolve_parts(parts)[k]) by {
            if k < stack.len() {
                assert(resolve_parts(parts)[k] == stack[k]);
            }
        }
    }
}

/// The names of a normalized path are copied from the input: each is one
/// of the `/`-separated pieces of the input with backslashes read as
/// slashes, character for character (so letters keep their case).
proof fn lemma_normalized_from_input(p: Seq<char>)
    ensures
        forall|k: int| 0 <= k < resolve_parts(path_parts(forward_slashes(p))).len() ==>
            split_on(forward_slashes(p), '/').contains(
                #[trigger] resolve_parts(path_parts(forward_slashes(p)))[k],
            ),
{
    let q = forward_slashes(p);
    let pieces = split_on(q, '/');
    lemma_pieces_parts_normals(pieces);
    let parts = path_parts(q);
    let lead = if q.len() > 0 && q[0] == '/' {
        seq![PathPart::Root]
    } else if pieces[0] == seq!['.'] {
        seq![PathPart::Cur]
    } else {
        Seq::empty()
    };
    assert(parts == lead + pieces_parts(pieces));
    assert forall|i: int| 0 <= i < parts.len() implies
        (#[trigger] parts[i] matches PathPart::Normal(c) ==> pieces.contains(c)) by {
        if i >= lead.len() {
            assert(parts[i] == pieces_parts(pieces)[i - lead.len()]);
            if let PathPart::Normal(c) = parts[i] {
                let j = choose|j: int| 0 <= j < pieces.len() && pieces[j] == c;
                assert(pieces.contains(c));
            }
        }
    }
    lemma_resolve_from(parts, pieces);
}

/// Shape of a normalized path: it holds no backslash, and unless it is
/// empty, every piece between its slashes is a plain name copied from the
/// input (one of the input's pieces, backslashes read as slashes), so it
/// has no leading or trailing slash, no doubled slash, no `.` or `..`
/// piece, and its letters keep their case.
pub proof fn lemma_normalized_shape(p: Seq<char>)
    ensures
        !normalized(p).contains('\\'),
        normalized(p).len() > 0 ==> normalized(p)[0] != '/' && normalized(p).last() != '/',
        normalized(p).len() == 0 || forall|i: int|
            0 <= i < split_on(normalized(p), '/').len() ==> plain_name(
                #[trigger] split_on(normalized(p), '/')[i],
            ),
        normalized(p).len() == 0 || forall|i: int|
            0 <= i < split_on(normalized(p), '/').len() ==> split_on(forward_slashes(p), '/').contains(
                #[trigger] split_on(normalized(p), '/')[i],
            ),
{
    let r = resolve_parts(path_parts(forward_slashes(p)));
    lemma_normalized_names(p);
    lemma_normalized_from_input(p);
    if normalized(p).contains('\\') {
        lemma_join_chars(r, '/', '\\');
        let i = choose|i: int| 0 <= i < r.len() && #[trigger] r[i].contains('\\');
        assert(plain_name(r[i]));
    }
    if r.len() >= 1 {
        assert forall|i: int| 0 <= i < r.len() implies !(#[trigger] r[i]).contains('/') by {
            assert(plain_name(r[i]));
        }
        lemma_split_join(r, '/');
    }
    lemma_join_ends(r);
}

/// Joining names that are not empty and hold no `/` with `/` gives text
/// that neither starts nor ends with `/`.
proof fn lemma_join_ends(r: Seq<Seq<char>>)
    requires
        forall|k: int| 0 <= k < r.len() ==> plain_name(#[trigger] r[k]),
    ensures
        join_with(r, seq!['/']).len() > 0 ==> join_with(r, seq!['/'])[0] != '/' && join_with(r, seq!['/']).last() != '/',
        r.len() > 0 ==> join_with(r, seq!['/']).len() > 0,
    decreases r.len(),
{
    if r.len() == 1 {
        assert(plain_name(r[0]));
        if r[0][0] == '/' {
            assert(r[0].contains('/'));
        }
        if r[0].last() == '/' {
            assert(r[0][r[0].len() - 1] == '/');
            assert(r[0].contains('/'));
        }
    } else if r.len() > 1 {
        let t = r.drop_last();
        assert forall|k: int| 0 <= k < t.len() implies plain_name(#[trigger] t[k]) by {
            assert(t[k] == r[k]);
        }
        lemma_join_ends(t);
        let l = r.last();
        assert(plain_name(r[r.len() - 1]));
        let j = join_with(t, seq!['/']) + seq!['/'] + l;
        assert(join_with(r, seq!['/']) == j);
        assert(j[0] == join_with(t, seq!['/'])[0]);
        assert(j.last() == l.last());
        if l.last() == '/' {
            assert(l[l.len() - 1] == '/');
            assert(l.contains('/'));
        }
    }
}

/// Normalization is idempotent: a normalized path normalizes to itself.
pub proof fn lemma_normalize_idempotent(p: Seq<char>)
    ensures
        normalized(normalized(p)) == normalized(p),
{
    let r = resolve_parts(path_parts(forward_slashes(p)));
    let n = normalized(p);
    lemma_normalized_shape(p);
    lemma_normalized_names(p);
    assert(forward_slashes(n) =~= n) by {
        assert forall|k: int| 0 <= k < n.len() implies forward_slashes(n)[k] == n[k] by {
            if n[k] == '\\' {
                assert(n.contains('\\'));
            }
        }
    }
    if r.len() == 0 {
        assert(n == Seq::<char>::empty());
        assert(split_on(n, '/') == seq![Seq::<char>::empty()]);
        assert(pieces_parts(seq![Seq::<char>::empty()]).len() == 0) by {
            let one = seq![Seq::<char>::empty()];
            assert(one.drop_last() =~= Seq::<Seq<char>>::empty());
            assert(one.last().len() == 0);
            assert(piece_part(one.last()) is None);
            assert(pieces_parts(one.drop_last()).len() == 0);
        }
        assert(path_parts(n) =~= Seq::<PathPart>::empty());
    } else {
        assert forall|i: int| 0 <= i < r.len() implies !(#[trigger] r[i]).contains('/') by {
            assert(plain_name(r[i]));
        }
        lemma_split_join(r, '/');
        assert(plain_name(r[0]));
        lemma_join_first(r, '/');
        assert(n[0] != '/') by {
            if n[0] == '/' {
                assert(r[0][0] == '/');
                assert(r[0].contains('/'));
            }
        }
        assert(split_on(n, '/')[0] != seq!['.']);
        assert(path_parts(n) =~= pieces_parts(r));
        lemma_resolve_plain(r);
    }
}

// ---------------------------------------------------------------------------
// MaterializedKey
// ---------------------------------------------------------------------------

/// The value a `MaterializedKey` stands for.
pub struct KeyView {
    pub language: Language,
    pub entity_kind: EntityKind,
    pub relative_path: Seq<char>,
}

/// Current-location identity of a graph node:
/// `{language}:{entity_kind}:{relative_path}`.
#[derive(Debug, Eq, Hash)]
pub struct MaterializedKey {
    pub language: Language,
    pub entity_kind: EntityKind,
    pub relative_path: String,
}

impl View for MaterializedKey {
    type V = KeyView;

    open spec fn view(&self) -> KeyView {
        KeyView {
            language: self.language,
            entity_kind: self.entity_kind,
            relative_path: self.relative_path@,
        }
    }
}

/// The key that `MaterializedKey::new` builds from its arguments.
pub open spec fn key_of(language: Language, entity_kind: EntityKind, path: Seq<char>) -> KeyView {
    KeyView { language, entity_kind, relative_path: normalized(path) }
}

/// The display form `{language}:{entity_kind}:{relative_path}` of a key.
pub open spec fn key_display(k: KeyView) -> Seq<char> {
    language_name(k.language) + seq![':'] + entity_kind_name(k.entity_kind) + seq![':']
        + k.relative_path
}

impl MaterializedKey {
    /// Creates a key with a normalized path.
    pub fn new(language: Language, entity_kind: EntityKind, relative_path: &str) -> (k: Self)
        ensures
            k@ == key_of(language, entity_kind, relative_path@),
    {
        MaterializedKey { language, entity_kind, relative_path: normalize_path(relative_path) }
    }

    /// The display form `{language}:{entity_kind}:{relative_path}`.
    pub fn to_string(&self) -> (s: String)
        ensures
            s@ == key_display(self@),
    {
        let mut s = self.language.to_string();
        push_char(&mut s, ':');
        let kind = self.entity_kind.to_string();
        push_all(&mut s, kind.as_str());
        push_char(&mut s, ':');
        push_all(&mut s, self.relative_path.as_str());
        s
    }

    /// Whether two keys identify the same node.
    pub fn same_as(&self, other: &MaterializedKey) -> (r: bool)
        ensures
            r == (self@ == other@),
    {
        let r = self.language == other.language && self.entity_kind == other.entity_kind
            && same_text(self.relative_path.as_str(), other.relative_path.as_str());
        proof {
            if self.language == other.language && self.entity_kind == other.entity_kind
                && self.relative_path@ == other.relative_path@ {
                assert(self@ == other@);
            }
        }
        r
    }
}

impl Clone for MaterializedKey {
    fn clone(&self) -> (r: Self)
        ensures
            r == *self,
    {
        MaterializedKey {
            language: self.language,
            entity_kind: self.entity_kind,
            relative_path: self.relative_path.clone(),
        }
    }
}

impl PartialEq for MaterializedKey {
    fn eq(&self, other: &Self) -> (r: bool) {
        self.same_as(other)
    }
}

impl vstd::std_specs::cmp::PartialEqSpecImpl for MaterializedKey {
    open spec fn obeys_eq_spec() -> bool {
        true
    }

    open spec fn eq_spec(&self, other: &Self) -> bool {
        self@ == other@
    }
}

// ---------------------------------------------------------------------------
// EdgeId
// ---------------------------------------------------------------------------

/// The 64-bit digest that std's `DefaultHasher` gives to the hash of
/// `(source, target, kind, category)` (each hashed in that order).
pub uninterp spec fn edge_digest(
    source: KeyView,
    target: KeyView,
    kind: EdgeKind,
    category: EdgeCategory,
) -> u64;

/// Hashes the four defining parts of an edge with a fresh `DefaultHasher`.
///
/// Trusted: `DefaultHasher::new` hashers all start from the same state, so
/// the digest is a function of the hashed values (for one platform and one
/// std build); the contract names that function and claims nothing else.
#[verifier::external_body]
fn hash_edge_parts(
    source: &MaterializedKey,
    target: &MaterializedKey,
    kind: EdgeKind,
    category: EdgeCategory,
) -> (d: u64)
    ensures
        d == edge_digest(source@, target@, kind, category),
{
    let mut hasher = std::collections::hash_map::DefaultHasher::new();
    source.hash(&mut hasher);
    target.hash(&mut hasher);
    kind.hash(&mut hasher);
    category.hash(&mut hasher);
    hasher.finish()
}

/// Deterministic identity of a graph edge.
#[derive(Debug, Eq, Hash)]
pub struct EdgeId(pub String);

impl View for EdgeId {
    type V = Seq<char>;

    open spec fn view(&self) -> Seq<char> {
        self.0@
    }
}

/// The identity that `EdgeId::new` gives an edge: its digest as sixteen
/// lowercase hexadecimal digits.
pub open spec fn edge_id_of(
    source: KeyView,
    target: KeyView,
    kind: EdgeKind,
    category: EdgeCategory,
) -> Seq<char> {
    hex_fixed(edge_digest(source, target, kind, category) as nat, 16)
}

/// Keys of one language and entity kind are equal exactly when their paths
/// normalize to the same text; a key rebuilt from its own path is the same
/// key.
pub proof fn lemma_key_identity(language: Language, entity_kind: EntityKind, p: Seq<char>, q: Seq<char>)
    ensures
        key_of(language, entity_kind, p) == key_of(language, entity_kind, q) <==> normalized(p) == normalized(q),
        key_of(language, entity_kind, key_of(language, entity_kind, p).relative_path) == key_of(
            language,
            entity_kind,
            p,
        ),
{
    lemma_normalize_idempotent(p);
}

/// An edge identity is sixteen lowercase hexadecimal digits, and it depends
/// only on the two keys, the kind and the category: edges between keys
/// built from paths that normalize alike get the same identity.
pub proof fn lemma_edge_id_deterministic(
    source_language: Language,
    source_kind: EntityKind,
    source_path_a: Seq<char>,
    source_path_b: Seq<char>,
    target: KeyView,
    kind: EdgeKind,
    category: EdgeCategory,
)
    requires
        normalized(source_path_a) == normalized(source_path_b),
    ensures
        edge_id_of(key_of(source_language, source_kind, source_path_a), target, kind, category)
            == edge_id_of(key_of(source_language, source_kind, source_path_b), target, kind, category),
        edge_id_of(key_of(source_language, source_kind, source_path_a), target, kind, category).len() == 16,
        forall|i: int|
            0 <= i < 16 ==> is_lower_hex(
                #[trigger] edge_id_of(key_of(source_language, source_kind, source_path_a), target, kind, category)[i],
            ),
{
    let s = key_of(source_language, source_kind, source_path_a);
    lemma_hex_fixed_digits(edge_digest(s, target, kind, category) as nat, 16);
}

impl EdgeId {
    /// Creates the deterministic identity of an edge from its defining parts.
    pub fn new(
        source: &MaterializedKey,
        target: &MaterializedKey,
        kind: EdgeKind,
        category: EdgeCategory,
    ) -> (id: Self)
        ensures
            id@ == edge_id_of(source@, target@, kind, category),
    {
        EdgeId(hex16(hash_edge_parts(source, target, kind, category)))
    }

    /// The identity as text.
    pub fn to_string(&self) -> (s: String)
        ensures
            s@ == self@,
    {
        self.0.clone()
    }

    /// Whether two identities are equal.
    pub fn same_as(&self, other: &EdgeId) -> (r: bool)
        ensures
            r == (self@ == other@),
    {
        same_text(self.0.as_str(), other.0.as_str())
    }
}

impl Clone for EdgeId {
    fn clone(&self) -> (r: Self)
        ensures
            r == *self,
    {
        EdgeId(self.0.clone())
    }
}

impl PartialEq for EdgeId {
    fn eq(&self, other: &Self) -> (r: bool) {
        self.same_as(other)
    }
}

impl vstd::std_specs::cmp::PartialEqSpecImpl for EdgeId {
    open spec fn obeys_eq_spec() -> bool {
        true
    }

    open spec fn eq_spec(&self, other: &Self) -> bool {
        self@ == other@
    }
}

} // verus!
