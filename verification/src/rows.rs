//! The rows of a server's reply.
use crate::json::{lemma_trees, trees, Json, JsonTree};
use crate::path_map::PathMap;
use crate::paths::{is_within_depth, within_max_depth, IndexScope, ScopeView};
use crate::snapshot_diff::option_text;
use crate::text::{owned, same};
use vstd::prelude::*;

verus! {

/// What a row reports.
#[derive(Clone, Copy, Debug, PartialEq, Eq, Structural)]
pub enum RowKind {
    Match,
    Context,
    /// A binary file with matches, summed up in one row.
    Binary,
    /// Something that this build does not know of.
    Other,
}

/// One row of a reply.
#[derive(Debug, PartialEq, Eq)]
pub struct Row {
    pub file: Option<String>,
    pub kind: RowKind,
    pub line: u64,
    pub content: String,
    pub offset: u64,
    pub term: u64,
    /// How many spans the row lists, where it lists them.
    pub span_count: Option<usize>,
    pub spans: Vec<(usize, usize)>,
    pub columns: Vec<usize>,
    /// How many lines of a binary file match.
    pub lines: u64,
}

/// What a [`Row`] holds.
#[verifier::ext_equal]
pub struct RowView {
    pub file: Option<Seq<char>>,
    pub kind: RowKind,
    pub line: u64,
    pub content: Seq<char>,
    pub offset: u64,
    pub term: u64,
    pub span_count: Option<nat>,
    pub spans: Seq<(usize, usize)>,
    pub columns: Seq<usize>,
    pub lines: u64,
}

impl View for Row {
    type V = RowView;

    open spec fn view(&self) -> RowView {
        RowView {
            file: option_text(self.file),
            kind: self.kind,
            line: self.line,
            content: self.content@,
            offset: self.offset,
            term: self.term,
            span_count: match self.span_count {
                Some(n) => Some(n as nat),
                None => None,
            },
            spans: self.spans@,
            columns: self.columns@,
            lines: self.lines,
        }
    }
}

/// What a list of rows holds.
pub open spec fn row_views(rows: Seq<Row>) -> Seq<RowView> {
    rows.map_values(|r: Row| r@)
}

/// The kind of row with a name.
pub open spec fn kind_named(name: Seq<char>) -> RowKind {
    if name == "match"@ {
        RowKind::Match
    } else if name == "context"@ {
        RowKind::Context
    } else if name == "binary"@ {
        RowKind::Binary
    } else {
        RowKind::Other
    }
}

/// The span that a pair of numbers stands for.
pub open spec fn span_of(tree: JsonTree) -> Option<(usize, usize)> {
    match tree {
        JsonTree::List(p) => if p.len() >= 2 {
            match (p[0].as_unsigned(), p[1].as_unsigned()) {
                (Some(a), Some(b)) => Some((a as usize, b as usize)),
                _ => None,
            }
        } else {
            None
        },
        _ => None,
    }
}

/// A number as a column.
pub open spec fn column_of(tree: JsonTree) -> Option<usize> {
    match tree.as_unsigned() {
        Some(n) => Some(n as usize),
        None => None,
    }
}

/// The number under a key, zero where there is none.
pub open spec fn number_at(tree: JsonTree, key: Seq<char>) -> u64 {
    match tree.field_unsigned(key) {
        Some(n) => n,
        None => 0,
    }
}

/// The text under a key, or another where there is none.
pub open spec fn text_at(tree: JsonTree, key: Seq<char>, default: Seq<char>) -> Seq<char> {
    match tree.field_text(key) {
        Some(s) => s,
        None => default,
    }
}

/// The row that a value stands for. A row without a type is a match.
pub open spec fn row_of(tree: JsonTree) -> RowView {
    RowView {
        file: tree.field_text("file"@),
        kind: kind_named(text_at(tree, "type"@, "match"@)),
        line: number_at(tree, "line"@),
        content: text_at(tree, "content"@, Seq::empty()),
        offset: number_at(tree, "offset"@),
        term: number_at(tree, "term"@),
        span_count: match tree.field_list("spans"@) {
            Some(items) => Some(items.len()),
            None => None,
        },
        spans: match tree.field_list("spans"@) {
            Some(items) => items.filter_map(|p: JsonTree| span_of(p)),
            None => Seq::empty(),
        },
        columns: match tree.field_list("columns"@) {
            Some(items) => items.filter_map(|c: JsonTree| column_of(c)),
            None => Seq::empty(),
        },
        lines: number_at(tree, "lines"@),
    }
}

/// The rows of a result.
pub open spec fn rows_of(result: JsonTree) -> Seq<RowView> {
    match result.field_list("matches"@) {
        Some(items) => items.map_values(|m: JsonTree| row_of(m)),
        None => Seq::empty(),
    }
}

fn read_kind(name: &str) -> (r: RowKind)
    ensures
        r == kind_named(name@),
{
    if same(name, "match") {
        RowKind::Match
    } else if same(name, "context") {
        RowKind::Context
    } else if same(name, "binary") {
        RowKind::Binary
    } else {
        RowKind::Other
    }
}

fn read_number(json: &Json, key: &str) -> (r: u64)
    ensures
        r == number_at(json@, key@),
{
    match json.get_u64(key) {
        Some(n) => n,
        None => 0,
    }
}

fn read_span(json: &Json) -> (r: Option<(usize, usize)>)
    ensures
        r == span_of(json@),
{
    let items = json.as_list()?;
    proof {
        lemma_trees(items@);
    }
    if items.len() < 2 {
        return None;
    }
    let a: u64 = items[0].as_u64()?;
    let b: u64 = items[1].as_u64()?;
    Some((#[verifier::truncate] (a as usize), #[verifier::truncate] (b as usize)))
}

fn read_spans(items: &Vec<Json>) -> (r: Vec<(usize, usize)>)
    ensures
        r@ == trees(items@).filter_map(|p: JsonTree| span_of(p)),
{
    let mut out: Vec<(usize, usize)> = Vec::new();
    let ghost all = trees(items@);
    let ghost f = |p: JsonTree| span_of(p);
    let mut i: usize = 0;
    proof {
        lemma_trees(items@);
        assert(out@ =~= all.take(0).filter_map(f));
    }
    while i < items.len()
        invariant
            i <= items@.len(),
            all == trees(items@),
            all.len() == items@.len(),
            forall|k: int| 0 <= k < items@.len() ==> #[trigger] all[k] == items@[k]@,
            f == (|p: JsonTree| span_of(p)),
            out@ == all.take(i as int).filter_map(f),
        decreases items@.len() - i,
    {
        let ghost before = out@;
        assert(all.take(i + 1).drop_last() =~= all.take(i as int));
        assert(all.take(i + 1).last() == items@[i as int]@);
        if let Some(span) = read_span(&items[i]) {
            out.push(span);
            assert(out@ =~= before + seq![span]);
        }
        i += 1;
    }
    assert(all.take(all.len() as int) =~= all);
    out
}

fn read_columns(items: &Vec<Json>) -> (r: Vec<usize>)
    ensures
        r@ == trees(items@).filter_map(|c: JsonTree| column_of(c)),
{
    let mut out: Vec<usize> = Vec::new();
    let ghost all = trees(items@);
    let ghost f = |c: JsonTree| column_of(c);
    let mut i: usize = 0;
    proof {
        lemma_trees(items@);
        assert(out@ =~= all.take(0).filter_map(f));
    }
    while i < items.len()
        invariant
            i <= items@.len(),
            all == trees(items@),
            all.len() == items@.len(),
            forall|k: int| 0 <= k < items@.len() ==> #[trigger] all[k] == items@[k]@,
            f == (|c: JsonTree| column_of(c)),
            out@ == all.take(i as int).filter_map(f),
        decreases items@.len() - i,
    {
        let ghost before = out@;
        assert(all.take(i + 1).drop_last() =~= all.take(i as int));
        assert(all.take(i + 1).last() == items@[i as int]@);
        if let Some(n) = items[i].as_u64() {
            let column: usize = #[verifier::truncate] (n as usize);
            out.push(column);
            assert(out@ =~= before + seq![column]);
        }
        i += 1;
    }
    assert(all.take(all.len() as int) =~= all);
    out
}

impl Row {
    /// Reads a row.
    pub fn from_json(json: &Json) -> (r: Row)
        ensures
            r@ == row_of(json@),
    {
        let file = match json.get_str("file") {
            Some(f) => Some(owned(f)),
            None => None,
        };
        let kind = match json.get_str("type") {
            Some(name) => read_kind(name),
            None => read_kind("match"),
        };
        let content = match json.get_str("content") {
            Some(s) => owned(s),
            None => String::new(),
        };
        let span_list = json.get_list("spans");
        proof {
            if let Some(items) = span_list {
                lemma_trees(items@);
            }
        }
        let span_count = match span_list {
            Some(items) => Some(items.len()),
            None => None,
        };
        let spans = match span_list {
            Some(items) => read_spans(items),
            None => Vec::new(),
        };
        let columns = match json.get_list("columns") {
            Some(items) => read_columns(items),
            None => Vec::new(),
        };
        let r = Row {
            file,
            kind,
            line: read_number(json, "line"),
            content,
            offset: read_number(json, "offset"),
            term: read_number(json, "term"),
            span_count,
            spans,
            columns,
            lines: read_number(json, "lines"),
        };
        assert(r@ =~= row_of(json@));
        r
    }
}

/// Reads the rows of a result.
pub fn read_rows(result: &Json) -> (r: Vec<Row>)
    ensures
        row_views(r@) == rows_of(result@),
{
    let mut out: Vec<Row> = Vec::new();
    let items = match result.get_list("matches") {
        Some(items) => items,
        None => {
            assert(row_views(out@) =~= Seq::<RowView>::empty());
            return out;
        },
    };
    let ghost all = trees(items@);
    let ghost f = |m: JsonTree| row_of(m);
    let mut i: usize = 0;
    proof {
        lemma_trees(items@);
        assert(row_views(out@) =~= all.take(0).map_values(f));
    }
    while i < items.len()
        invariant
            i <= items@.len(),
            all == trees(items@),
            all.len() == items@.len(),
            forall|k: int| 0 <= k < items@.len() ==> #[trigger] all[k] == items@[k]@,
            f == (|m: JsonTree| row_of(m)),
            row_views(out@) == all.take(i as int).map_values(f),
        decreases items@.len() - i,
    {
        let row = Row::from_json(&items[i]);
        proof {
            lemma_push_row(out@, row);
            assert(all[i as int] == items@[i as int]@);
            assert(all.take(i + 1).map_values(f) =~= all.take(i as int).map_values(f).push(row@));
        }
        out.push(row);
        i += 1;
    }
    assert(all.take(all.len() as int) =~= all);
    out
}

pub proof fn lemma_push_row(rows: Seq<Row>, row: Row)
    ensures
        row_views(rows.push(row)) == row_views(rows).push(row@),
{
    assert(row_views(rows.push(row)) =~= row_views(rows).push(row@));
}

/// Whether a list holds a row of a binary file.
pub open spec fn has_binary(rows: Seq<RowView>) -> bool {
    exists|i: int| 0 <= i < rows.len() && (#[trigger] rows[i]).kind == RowKind::Binary
}

/// Whether a file is one of the binary files of a list.
pub open spec fn is_binary_file(rows: Seq<RowView>, file: Seq<char>) -> bool {
    exists|i: int|
        0 <= i < rows.len() && (#[trigger] rows[i]).kind == RowKind::Binary && rows[i].file == Some(
            file,
        )
}

/// Whether binary files are dropped: they surface only where they were asked
/// for or named.
pub open spec fn drops_binary(rows: Seq<RowView>, scope: ScopeView, binary: bool) -> bool {
    !binary && !(scope is File) && has_binary(rows)
}

/// Whether a reply file belongs to the search, as which path.
pub open spec fn scoped_file(
    rows: Seq<RowView>,
    drop: bool,
    scope: ScopeView,
    named: Seq<char>,
    max_depth: Option<usize>,
    file: Seq<char>,
) -> Option<Seq<char>> {
    if drop && is_binary_file(rows, file) {
        None
    } else {
        match scope.relative(file, named) {
            Some(rel) => if is_within_depth(rel, max_depth) {
                Some(rel)
            } else {
                None
            },
            None => None,
        }
    }
}

/// A row as the search sees it: under its path relative to the search, or not
/// at all.
pub open spec fn scoped_row(
    rows: Seq<RowView>,
    drop: bool,
    scope: ScopeView,
    named: Seq<char>,
    max_depth: Option<usize>,
    row: RowView,
) -> Option<RowView> {
    match row.file {
        Some(file) => match scoped_file(rows, drop, scope, named, max_depth, file) {
            Some(rel) => Some(RowView { file: Some(rel), ..row }),
            None => None,
        },
        None => None,
    }
}

/// The rows that belong to a search. Where the whole index is searched and
/// nothing is left out, they are the rows as they came.
pub open spec fn scoped_rows(
    rows: Seq<RowView>,
    scope: ScopeView,
    named: Seq<char>,
    max_depth: Option<usize>,
    binary: bool,
) -> Seq<RowView> {
    let drop = drops_binary(rows, scope, binary);
    if scope is Whole && max_depth is None && !drop {
        rows
    } else {
        rows.filter_map(|r: RowView| scoped_row(rows, drop, scope, named, max_depth, r))
    }
}

/// The binary files of a list of rows.
pub(crate) fn binary_files(rows: &Vec<Row>) -> (r: (bool, PathMap<bool>))
    ensures
        r.0 == has_binary(row_views(rows@)),
        r.1.wf(),
        forall|f: Seq<char>| #[trigger]
            r.1@.contains_key(f) == is_binary_file(row_views(rows@), f),
{
    let mut any = false;
    let mut files: PathMap<bool> = PathMap::new();
    let ghost all = row_views(rows@);
    let mut i: usize = 0;
    while i < rows.len()
        invariant
            i <= rows@.len(),
            all == row_views(rows@),
            files.wf(),
            any == (exists|k: int| 0 <= k < i && (#[trigger] all[k]).kind == RowKind::Binary),
            forall|f: Seq<char>| #[trigger]
                files@.contains_key(f) == (exists|k: int|
                    0 <= k < i && (#[trigger] all[k]).kind == RowKind::Binary && all[k].file
                        == Some(f)),
        decreases rows@.len() - i,
    {
        let ghost before = files@;
        assert(all[i as int] == rows@[i as int]@);
        if rows[i].kind == RowKind::Binary {
            any = true;
            if let Some(file) = &rows[i].file {
                files.insert(file.clone(), true);
            }
        }
        proof {
            assert forall|f: Seq<char>| #[trigger] files@.contains_key(f) == (exists|k: int|
                0 <= k < i + 1 && (#[trigger] all[k]).kind == RowKind::Binary && all[k].file
                    == Some(f)) by {
                if before.contains_key(f) {
                    let k = choose|k: int|
                        0 <= k < i && (#[trigger] all[k]).kind == RowKind::Binary && all[k].file
                            == Some(f);
                    assert(all[k].kind == RowKind::Binary);
                }
                if all[i as int].kind == RowKind::Binary && all[i as int].file == Some(f) {
                    assert(files@.contains_key(f));
                }
            }
        }
        i += 1;
    }
    (any, files)
}

/// What a search's rows are taken from a reply by.
pub struct RowScope {
    pub scope: IndexScope,
    /// How a search root that is a file is printed.
    pub named: String,
    pub max_depth: Option<usize>,
    /// Whether binary files were asked for.
    pub binary: bool,
}

pub(crate) fn scope_file(
    file: &str,
    drop: bool,
    binary: &PathMap<bool>,
    by: &RowScope,
    Ghost(rows): Ghost<Seq<RowView>>,
) -> (r: Option<String>)
    requires
        binary.wf(),
        forall|f: Seq<char>| #[trigger] binary@.contains_key(f) == is_binary_file(rows, f),
    ensures
        option_text(r) == scoped_file(
            rows,
            drop,
            by.scope@,
            by.named@,
            by.max_depth,
            file@,
        ),
{
    if drop && binary.contains_key(file) {
        return None;
    }
    match by.scope.relativize(file, by.named.as_str()) {
        Some(rel) => if within_max_depth(rel.as_str(), by.max_depth) {
            Some(rel)
        } else {
            None
        },
        None => None,
    }
}

/// Takes the rows that belong to a search from a reply.
pub fn scope_rows(rows: Vec<Row>, by: &RowScope) -> (r: Vec<Row>)
    ensures
        row_views(r@) == scoped_rows(
            row_views(rows@),
            by.scope@,
            by.named@,
            by.max_depth,
            by.binary,
        ),
{
    let (any, binary) = binary_files(&rows);
    let is_file = match &by.scope {
        IndexScope::File(_) => true,
        _ => false,
    };
    let is_whole = match &by.scope {
        IndexScope::Whole => true,
        _ => false,
    };
    let drop = !by.binary && !is_file && any;
    if is_whole && by.max_depth.is_none() && !drop {
        return rows;
    }
    let ghost input = rows@;
    let ghost all = row_views(rows@);
    let ghost f = |x: RowView| scoped_row(all, drop, by.scope@, by.named@, by.max_depth, x);
    let mut out: Vec<Row> = Vec::new();
    assert(row_views(out@) =~= all.take(0).filter_map(f));
    for row in it: rows.into_iter()
        invariant
            it.seq() == input,
            all == row_views(input),
            f == (|x: RowView| scoped_row(all, drop, by.scope@, by.named@, by.max_depth, x)),
            binary.wf(),
            forall|x: Seq<char>| #[trigger] binary@.contains_key(x) == is_binary_file(all, x),
            row_views(out@) == all.take(it.index()).filter_map(f),
    {
        let ghost i = it.index();
        let ghost before = row_views(out@);
        assert(all.take(i + 1).drop_last() =~= all.take(i));
        assert(all.take(i + 1).last() == row@);
        let rel = match &row.file {
            Some(file) => scope_file(file.as_str(), drop, &binary, by, Ghost(all)),
            None => None,
        };
        if let Some(rel) = rel {
            let moved = Row { file: Some(rel), ..row };
            proof {
                lemma_push_row(out@, moved);
                assert(f(row@) == Some(moved@));
                assert(before.push(moved@) =~= before + seq![moved@]);
            }
            out.push(moved);
        }
    }
    assert(all.take(all.len() as int) =~= all);
    out
}

/// A binary file that was neither named nor asked for leaves no row: neither
/// its own nor those of its matches.
pub proof fn law_dropped_binary_files_leave_no_row(
    rows: Seq<RowView>,
    scope: ScopeView,
    named: Seq<char>,
    max_depth: Option<usize>,
    row: RowView,
)
    requires
        !(scope is File),
        scoped_rows(rows, scope, named, max_depth, false).contains(row),
    ensures
        row.kind != RowKind::Binary,
        drops_binary(rows, scope, false) ==> exists|i: int|
            0 <= i < rows.len() && (#[trigger] rows[i]).file is Some && !is_binary_file(
                rows,
                rows[i].file->0,
            ) && row == (RowView { file: row.file, ..rows[i] }),
{
    let drop = drops_binary(rows, scope, false);
    if drop {
        let f = |r: RowView| scoped_row(rows, drop, scope, named, max_depth, r);
        crate::lists::lemma_filter_map_contains(rows, f, row);
        let i = choose|i: int| 0 <= i < rows.len() && f(#[trigger] rows[i]) == Some(row);
        let came = rows[i];
        assert(came.file is Some);
        if came.kind == RowKind::Binary {
            assert(is_binary_file(rows, came.file->0));
        }
        assert(row == (RowView { file: row.file, ..came }));
    } else {
        if scope is Whole && max_depth is None {
            let i = choose|i: int| 0 <= i < rows.len() && rows[i] == row;
            assert(rows[i].kind != RowKind::Binary);
        } else {
            let f = |r: RowView| scoped_row(rows, drop, scope, named, max_depth, r);
            crate::lists::lemma_filter_map_contains(rows, f, row);
            let i = choose|i: int| 0 <= i < rows.len() && f(#[trigger] rows[i]) == Some(row);
            assert(rows[i].kind != RowKind::Binary);
        }
    }
}

} // verus!
