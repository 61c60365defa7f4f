//! Paths as they are printed, compared and translated between an index and a
//! search.
use crate::output::{main_separator, native_path};
use crate::snapshot_diff::option_text;
use crate::text::{
    add_text, chars_of, lemma_precedes_irreflexive, lemma_precedes_total, lemma_precedes_transitive,
    opens, owned, pieces, precedes, replace_char, replaced, same, starts_with, string_of,
};
use vstd::prelude::*;

verus! {

/// A path without the prefix that marks an extended-length path; a network
/// path gets its two backslashes back.
pub open spec fn without_verbatim_prefix(s: Seq<char>) -> Seq<char> {
    if opens(s, "\\\\?\\UNC\\"@) {
        "\\\\"@ + s.skip("\\\\?\\UNC\\"@.len() as int)
    } else if opens(s, "\\\\?\\"@) {
        s.skip("\\\\?\\"@.len() as int)
    } else {
        s
    }
}

/// What follows a prefix.
pub open spec fn after_prefix(s: Seq<char>, prefix: Seq<char>) -> Option<Seq<char>> {
    if opens(s, prefix) {
        Some(s.skip(prefix.len() as int))
    } else {
        None
    }
}

/// What follows a prefix.
pub fn strip_prefix(s: &str, prefix: &str) -> (r: Option<String>)
    ensures
        option_text(r) == after_prefix(s@, prefix@),
{
    if starts_with(s, prefix) {
        let chars = chars_of(s);
        let n: usize = prefix.unicode_len();
        assert(chars@.subrange(n as int, chars@.len() as int) =~= s@.skip(n as int));
        Some(string_of(&chars, n, chars.len()))
    } else {
        None
    }
}

/// Drops the prefix of an extended-length path.
pub fn strip_verbatim_prefix(s: &str) -> (r: String)
    ensures
        r@ == without_verbatim_prefix(s@),
{
    if let Some(rest) = strip_prefix(s, "\\\\?\\UNC\\") {
        let mut out = owned("\\\\");
        add_text(&mut out, rest.as_str());
        out
    } else if let Some(rest) = strip_prefix(s, "\\\\?\\") {
        rest
    } else {
        owned(s)
    }
}

/// Renders a path the way the user typed it.
pub fn display_path(path: &str) -> (r: String)
    ensures
        r@ == without_verbatim_prefix(path@),
{
    strip_verbatim_prefix(path)
}

/// The path to print for a file that was named directly: relative to the
/// current directory where it lies under it, otherwise as it is; always with
/// forward slashes and without the extended-length prefix.
pub open spec fn explicit_path(path: Seq<char>, below_current: Option<Seq<char>>) -> Seq<char> {
    replaced(
        without_verbatim_prefix(
            match below_current {
                Some(rel) => rel,
                None => path,
            },
        ),
        '\\',
        '/',
    )
}

/// The path to print for a file that was named directly. `below_current` is
/// its path below the current directory, where it lies there.
pub fn explicit_file_display_path(path: &str, below_current: Option<&str>) -> (r: String)
    ensures
        r@ == explicit_path(
            path@,
            match below_current {
                Some(rel) => Some(rel@),
                None => None,
            },
        ),
{
    let shown = match below_current {
        Some(rel) => strip_verbatim_prefix(rel),
        None => strip_verbatim_prefix(path),
    };
    replace_char(shown.as_str(), '\\', '/')
}

/// Which slice of an index a search root covers: an index stores paths
/// relative to the root it was built for.
#[derive(Debug, PartialEq, Eq)]
pub enum IndexScope {
    /// The search root is the indexed root.
    Whole,
    /// A directory inside it, with a slash behind it.
    Subtree(String),
    /// A single file inside it.
    File(String),
}

/// What an [`IndexScope`] is.
pub enum ScopeView {
    Whole,
    Subtree(Seq<char>),
    File(Seq<char>),
}

impl View for IndexScope {
    type V = ScopeView;

    open spec fn view(&self) -> ScopeView {
        match self {
            IndexScope::Whole => ScopeView::Whole,
            IndexScope::Subtree(p) => ScopeView::Subtree(p@),
            IndexScope::File(f) => ScopeView::File(f@),
        }
    }
}

impl ScopeView {
    /// What the indexed paths of the slice start with.
    pub open spec fn prefix(self) -> Seq<char> {
        match self {
            ScopeView::Subtree(p) => p,
            _ => Seq::empty(),
        }
    }

    /// The slice that a search root below the indexed root covers.
    pub open spec fn of(rel: Seq<char>, is_file: bool) -> ScopeView {
        let rel = replaced(rel, '\\', '/');
        if rel.len() == 0 {
            ScopeView::Whole
        } else if is_file {
            ScopeView::File(rel)
        } else {
            ScopeView::Subtree(rel + "/"@)
        }
    }

    /// An indexed path relative to the search root; none where the file lies
    /// outside it. A named file prints as the user reached it.
    pub open spec fn relative(self, indexed: Seq<char>, named: Seq<char>) -> Option<Seq<char>> {
        match self {
            ScopeView::Whole => Some(indexed),
            ScopeView::Subtree(p) => after_prefix(indexed, p),
            ScopeView::File(f) => if f == indexed {
                Some(named)
            } else {
                None
            },
        }
    }

    /// The indexed path of a path relative to the search root.
    pub open spec fn indexed(self, rel: Seq<char>) -> Seq<char> {
        match self {
            ScopeView::Whole => rel,
            ScopeView::Subtree(p) => p + rel,
            ScopeView::File(f) => f,
        }
    }
}

/// Within a scope no two indexed paths have the same relative path.
pub proof fn lemma_relative_is_told_apart(
    scope: ScopeView,
    a: Seq<char>,
    b: Seq<char>,
    named: Seq<char>,
)
    requires
        scope.relative(a, named) is Some,
        scope.relative(a, named) == scope.relative(b, named),
    ensures
        a == b,
{
    if let ScopeView::Subtree(p) = scope {
        assert(a =~= p + a.skip(p.len() as int));
        assert(b =~= p + b.skip(p.len() as int));
    }
}

/// The view of a scope that may not be there.
pub open spec fn option_scope(s: Option<IndexScope>) -> Option<ScopeView> {
    match s {
        Some(s) => Some(s@),
        None => None,
    }
}

impl IndexScope {
    /// What the indexed paths of the slice start with.
    pub fn prefix(&self) -> (r: String)
        ensures
            r@ == self@.prefix(),
    {
        match self {
            IndexScope::Subtree(p) => p.clone(),
            _ => {
                let none = String::new();
                assert(none@ =~= Seq::<char>::empty());
                none
            },
        }
    }

    /// The slice that a search root covers, given its path below the indexed
    /// root. None where it lies outside: the index cannot answer then.
    pub fn resolve(below_index_root: Option<&str>, is_file: bool) -> (r: Option<IndexScope>)
        ensures
            option_scope(r) == (match below_index_root {
                Some(rel) => Some(ScopeView::of(rel@, is_file)),
                None => None,
            }),
    {
        let rel = match below_index_root {
            Some(rel) => replace_char(rel, '\\', '/'),
            None => return None,
        };
        if rel.as_str().is_empty() {
            Some(IndexScope::Whole)
        } else if is_file {
            Some(IndexScope::File(rel))
        } else {
            let mut prefix = rel;
            add_text(&mut prefix, "/");
            Some(IndexScope::Subtree(prefix))
        }
    }

    /// An indexed path relative to the search root, or none where the file
    /// lies outside it. `named` is how a file search root is printed.
    pub fn relativize(&self, indexed: &str, named: &str) -> (r: Option<String>)
        ensures
            option_text(r) == self@.relative(indexed@, named@),
    {
        match self {
            IndexScope::Whole => Some(owned(indexed)),
            IndexScope::Subtree(prefix) => strip_prefix(indexed, prefix.as_str()),
            IndexScope::File(f) => if same(f.as_str(), indexed) {
                Some(owned(named))
            } else {
                None
            },
        }
    }

    /// The path below the indexed root of a path relative to the search root,
    /// with the platform's separator.
    pub fn full_path(&self, rel: &str) -> (r: String)
        ensures
            exists|separator: char| (separator == '/' || separator == '\\') && r@
                == #[trigger] native_path(self@.indexed(rel@), separator),
    {
        let indexed = match self {
            IndexScope::Whole => owned(rel),
            IndexScope::Subtree(prefix) => {
                let mut out = prefix.clone();
                add_text(&mut out, rel);
                out
            },
            IndexScope::File(f) => f.clone(),
        };
        let separator = main_separator();
        let r = if separator == '/' {
            indexed
        } else {
            replace_char(indexed.as_str(), '/', separator)
        };
        assert(r@ == native_path(self@.indexed(rel@), separator));
        r
    }
}

/// Every indexed path that is in a slice comes back from its relative form,
/// and a relative path of a directory slice comes back from its indexed form.
pub proof fn law_scope_translation_is_undone(
    scope: ScopeView,
    indexed: Seq<char>,
    rel: Seq<char>,
    named: Seq<char>,
)
    ensures
        scope.relative(indexed, named) matches Some(r) ==> scope.indexed(r) == indexed,
        !(scope is File) ==> scope.relative(scope.indexed(rel), named) == Some(rel),
{
    match scope {
        ScopeView::Subtree(p) => {
            if opens(indexed, p) {
                assert(p + indexed.skip(p.len() as int) =~= indexed);
            }
            assert((p + rel).take(p.len() as int) =~= p);
            assert((p + rel).skip(p.len() as int) =~= rel);
        },
        _ => {},
    }
}

/// The number of slashes in a path.
pub open spec fn slash_count(path: Seq<char>) -> nat
    decreases path.len(),
{
    if path.len() == 0 {
        0
    } else {
        slash_count(path.drop_last()) + if path.last() == '/' {
            1nat
        } else {
            0nat
        }
    }
}

/// Whether a path below the search root is shallow enough: a depth of one
/// means directly in the root.
pub open spec fn is_within_depth(rel: Seq<char>, max_depth: Option<usize>) -> bool {
    max_depth matches Some(max) ==> slash_count(rel) < max
}

/// Whether a path below the search root is shallow enough.
pub fn within_max_depth(rel: &str, max_depth: Option<usize>) -> (r: bool)
    ensures
        r == is_within_depth(rel@, max_depth),
{
    let max: usize = match max_depth {
        Some(max) => max,
        None => return true,
    };
    let chars = chars_of(rel);
    let mut n: usize = 0;
    let mut i: usize = 0;
    assert(chars@.take(0) =~= Seq::<char>::empty());
    while i < chars.len()
        invariant
            i <= chars@.len(),
            n <= i,
            n == slash_count(chars@.take(i as int)),
        decreases chars@.len() - i,
    {
        assert(chars@.take(i + 1).drop_last() =~= chars@.take(i as int));
        assert(chars@.take(i + 1).last() == chars@[i as int]);
        if chars[i] == '/' {
            n += 1;
        }
        i += 1;
    }
    assert(chars@.take(chars@.len() as int) =~= chars@);
    n < max
}

/// A path with slashes in place of the platform's separator.
pub open spec fn with_slashes(path: Seq<char>, separator: char) -> Seq<char> {
    replaced(path, separator, '/')
}

/// A component of a path: what sort it is of, and its name. The root comes
/// first, then the current directory, the parent directory, and names.
pub type Part = (int, Seq<char>);

/// The component that a piece between slashes stands for.
pub open spec fn part_of(piece: Seq<char>) -> Option<Part> {
    if piece.len() == 0 || piece == "."@ {
        None
    } else if piece == ".."@ {
        Some((2int, Seq::<char>::empty()))
    } else {
        Some((3int, piece))
    }
}

/// What a path starts with besides its names.
pub open spec fn lead_of(path: Seq<char>) -> Seq<Part> {
    if path.len() > 0 && path[0] == '/' {
        seq![(0int, Seq::<char>::empty())]
    } else if pieces(path, '/')[0] == "."@ {
        seq![(1int, Seq::<char>::empty())]
    } else {
        Seq::empty()
    }
}

/// The components of a path with slashes. Repeated slashes and inner `.` make
/// none.
pub open spec fn parts_of(path: Seq<char>) -> Seq<Part> {
    lead_of(path) + pieces(path, '/').filter_map(|p: Seq<char>| part_of(p))
}

/// The order of components.
pub open spec fn part_precedes(a: Part, b: Part) -> bool {
    a.0 < b.0 || (a.0 == b.0 && precedes(a.1, b.1))
}

/// The order of lists of components.
pub open spec fn parts_precede(a: Seq<Part>, b: Seq<Part>) -> bool
    decreases a.len(),
{
    if b.len() == 0 {
        false
    } else if a.len() == 0 {
        true
    } else if a[0] != b[0] {
        part_precedes(a[0], b[0])
    } else {
        parts_precede(a.skip(1), b.skip(1))
    }
}

proof fn lemma_part_order(a: Part, b: Part, c: Part)
    ensures
        !part_precedes(a, a),
        part_precedes(a, b) || part_precedes(b, a) || a == b,
        part_precedes(a, b) && part_precedes(b, c) ==> part_precedes(a, c),
{
    lemma_precedes_irreflexive(a.1);
    lemma_precedes_total(a.1, b.1);
    if precedes(a.1, b.1) && precedes(b.1, c.1) {
        lemma_precedes_transitive(a.1, b.1, c.1);
    }
}

pub proof fn lemma_parts_irreflexive(a: Seq<Part>)
    ensures
        !parts_precede(a, a),
    decreases a.len(),
{
    if a.len() > 0 {
        lemma_parts_irreflexive(a.skip(1));
    }
}

pub proof fn lemma_parts_transitive(a: Seq<Part>, b: Seq<Part>, c: Seq<Part>)
    requires
        parts_precede(a, b),
        parts_precede(b, c),
    ensures
        parts_precede(a, c),
    decreases a.len(),
{
    if a.len() > 0 && b.len() > 0 && c.len() > 0 {
        lemma_part_order(a[0], b[0], c[0]);
        if a[0] == b[0] && b[0] == c[0] {
            lemma_parts_transitive(a.skip(1), b.skip(1), c.skip(1));
        } else if a[0] == c[0] {
            lemma_part_order(a[0], b[0], a[0]);
        }
    }
}

pub proof fn lemma_parts_total(a: Seq<Part>, b: Seq<Part>)
    ensures
        parts_precede(a, b) || parts_precede(b, a) || a == b,
    decreases a.len(),
{
    if a.len() > 0 && b.len() > 0 {
        if a[0] == b[0] {
            lemma_parts_total(a.skip(1), b.skip(1));
            if a.skip(1) == b.skip(1) {
                assert(a =~= seq![a[0]] + a.skip(1));
                assert(b =~= seq![b[0]] + b.skip(1));
            }
        } else {
            lemma_part_order(a[0], b[0], a[0]);
        }
    } else {
        assert(a.len() == 0 && b.len() == 0 ==> a =~= b);
    }
}

} // verus!
