//! What the reply of a server means: its rows, their files, their order, what is
//! printed of them and what is counted.
use crate::json::JsonTree;
use crate::lists::lemma_filter_map_contains;
use crate::meta::FileTime;
use crate::options::SearchOptionsView;
use crate::output::{ContextView, MatchView, Style, WriterState};
use crate::paths::{is_within_depth, ScopeView};
use crate::row_output::{
    counted_files, counts_written, files_of, files_written, match_lines, match_total,
    reported_count, summed_lines,
};
use crate::rows::{
    drops_binary, has_binary, is_binary_file, row_of, rows_of, scoped_row, scoped_rows, RowKind,
    RowView,
};
use crate::server_reply::ordered_rows;
use crate::server_search::{listed_files, refusal_of, reply_printed, rows_written};
use crate::server_stats::{
    reported_binary_lines, reported_lines, reported_matches, total_lines, total_matches,
    FileStatsView,
};
use vstd::prelude::*;

verus! {

proof fn lemma_row_keys()
    ensures
        "match"@.len() == 5,
        "context"@.len() == 7,
        "binary"@.len() == 6,
{
    reveal_strlit("match");
    reveal_strlit("context");
    reveal_strlit("binary");
}

/// A row holds what its data says, each under its own name; what is missing is
/// empty or zero, and a row without a type is a match.
pub proof fn law_rows_hold_what_their_data_says(tree: JsonTree)
    ensures
        ({
            let row = row_of(tree);
            let kind = tree.field_text("type"@);
            &&& row.file == tree.field_text("file"@)
            &&& row.kind == RowKind::Match <==> kind is None || kind == Some("match"@)
            &&& row.kind == RowKind::Context <==> kind == Some("context"@)
            &&& row.kind == RowKind::Binary <==> kind == Some("binary"@)
            &&& tree.field_unsigned("line"@) matches Some(n) ==> row.line == n
            &&& tree.field_text("content"@) matches Some(s) ==> row.content == s
            &&& tree.field_unsigned("offset"@) matches Some(n) ==> row.offset == n
            &&& tree.field_unsigned("term"@) matches Some(n) ==> row.term == n
            &&& tree.field_unsigned("lines"@) matches Some(n) ==> row.lines == n
            &&& tree.field_text("content"@) is None ==> row.content.len() == 0
            &&& tree.field_unsigned("line"@) is None ==> row.line == 0
            &&& tree.field_unsigned("offset"@) is None ==> row.offset == 0
            &&& tree.field_unsigned("term"@) is None ==> row.term == 0
            &&& tree.field_unsigned("lines"@) is None ==> row.lines == 0
            &&& row.span_count == (match tree.field_list("spans"@) {
                Some(items) => Some(items.len()),
                None => None,
            })
            &&& tree.field_list("spans"@) is None ==> row.spans.len() == 0
            &&& tree.field_list("columns"@) is None ==> row.columns.len() == 0
        }),
{
    lemma_row_keys();
}

/// Whether data is a pair of numbers.
pub open spec fn is_pair(tree: JsonTree, a: usize, b: usize) -> bool {
    tree matches JsonTree::List(p) && p.len() >= 2 && p[0].as_unsigned() == Some(a as u64)
        && p[1].as_unsigned() == Some(b as u64)
}

/// The places of matches in a row are the pairs that its data lists, in order.
pub proof fn law_rows_hold_the_places_of_matches(
    tree: JsonTree,
    items: Seq<JsonTree>,
    spans: Seq<(usize, usize)>,
)
    requires
        tree.field_list("spans"@) == Some(items),
        items.len() == spans.len(),
        forall|i: int|
            0 <= i < items.len() ==> is_pair(#[trigger] items[i], spans[i].0, spans[i].1),
    ensures
        row_of(tree).spans == spans,
{
    lemma_pairs(items, spans);
}

proof fn lemma_pairs(items: Seq<JsonTree>, spans: Seq<(usize, usize)>)
    requires
        items.len() == spans.len(),
        forall|i: int|
            0 <= i < items.len() ==> is_pair(#[trigger] items[i], spans[i].0, spans[i].1),
    ensures
        items.filter_map(|p: JsonTree| crate::rows::span_of(p)) == spans,
    decreases items.len(),
{
    let f = |p: JsonTree| crate::rows::span_of(p);
    if items.len() > 0 {
        let front = items.drop_last();
        let some = spans.drop_last();
        assert forall|i: int| 0 <= i < front.len() implies is_pair(
            #[trigger] front[i],
            some[i].0,
            some[i].1,
        ) by {
            assert(front[i] == items[i]);
        }
        lemma_pairs(front, some);
        assert(is_pair(items[items.len() - 1], spans.last().0, spans.last().1));
        assert(items.filter_map(f) =~= spans);
    } else {
        assert(items.filter_map(f) =~= spans);
    }
}

/// The columns of a row are the numbers that its data lists, in order.
pub proof fn law_rows_hold_their_columns(
    tree: JsonTree,
    items: Seq<JsonTree>,
    columns: Seq<usize>,
)
    requires
        tree.field_list("columns"@) == Some(items),
        items.len() == columns.len(),
        forall|i: int|
            0 <= i < items.len() ==> (#[trigger] items[i]).as_unsigned() == Some(columns[i] as u64),
    ensures
        row_of(tree).columns == columns,
{
    lemma_columns(items, columns);
}

proof fn lemma_columns(items: Seq<JsonTree>, columns: Seq<usize>)
    requires
        items.len() == columns.len(),
        forall|i: int|
            0 <= i < items.len() ==> (#[trigger] items[i]).as_unsigned() == Some(columns[i] as u64),
    ensures
        items.filter_map(|c: JsonTree| crate::rows::column_of(c)) == columns,
    decreases items.len(),
{
    let f = |c: JsonTree| crate::rows::column_of(c);
    if items.len() > 0 {
        let front = items.drop_last();
        let some = columns.drop_last();
        assert forall|i: int| 0 <= i < front.len() implies (#[trigger] front[i]).as_unsigned()
            == Some(some[i] as u64) by {
            assert(front[i] == items[i]);
        }
        lemma_columns(front, some);
        assert(items[items.len() - 1].as_unsigned() == Some(columns.last() as u64));
        assert(items.filter_map(f) =~= columns);
    } else {
        assert(items.filter_map(f) =~= columns);
    }
}

/// The rows of a reply are those it lists, in order.
pub proof fn law_replies_hold_their_rows(result: JsonTree)
    ensures
        match result.field_list("matches"@) {
            Some(items) => rows_of(result).len() == items.len() && forall|i: int|
                0 <= i < items.len() ==> #[trigger] rows_of(result)[i] == row_of(items[i]),
            None => rows_of(result).len() == 0,
        },
{
}

/// What a row looks like in a search: the same row, with its file as the search
/// sees it; nothing of it where the file is elsewhere or too deep.
pub open spec fn seen_as(
    row: RowView,
    scope: ScopeView,
    named: Seq<char>,
    max_depth: Option<usize>,
) -> Option<RowView> {
    match row.file {
        Some(file) => match scope.relative(file, named) {
            Some(rel) => if is_within_depth(rel, max_depth) {
                Some(RowView { file: Some(rel), ..row })
            } else {
                None
            },
            None => None,
        },
        None => None,
    }
}

/// A search sees the rows of the files that it covers, under their paths
/// relative to it, and no others: a row is left out only where its file is
/// elsewhere or too deep, or is binary and was neither named nor asked for.
pub proof fn law_searches_see_the_rows_of_their_files(
    rows: Seq<RowView>,
    scope: ScopeView,
    named: Seq<char>,
    max_depth: Option<usize>,
    binary: bool,
    row: RowView,
)
    requires
        forall|i: int| 0 <= i < rows.len() ==> (#[trigger] rows[i]).file is Some,
    ensures
        scoped_rows(rows, scope, named, max_depth, binary).contains(row) <==> exists|i: int|
            0 <= i < rows.len() && seen_as(#[trigger] rows[i], scope, named, max_depth) == Some(row)
                && (binary || scope is File || !(exists|k: int|
                0 <= k < rows.len() && (#[trigger] rows[k]).kind == RowKind::Binary && rows[k].file
                    == rows[i].file)),
{
    let drop = drops_binary(rows, scope, binary);
    let f = |r: RowView| scoped_row(rows, drop, scope, named, max_depth, r);
    let seen = scoped_rows(rows, scope, named, max_depth, binary);
    assert forall|i: int| 0 <= i < rows.len() implies (f(#[trigger] rows[i]) == (if binary
        || scope is File || !(exists|k: int|
        0 <= k < rows.len() && (#[trigger] rows[k]).kind == RowKind::Binary && rows[k].file
            == rows[i].file) {
        seen_as(rows[i], scope, named, max_depth)
    } else {
        None
    })) by {
        let r = rows[i];
        if exists|k: int|
            0 <= k < rows.len() && (#[trigger] rows[k]).kind == RowKind::Binary && rows[k].file
                == r.file {
            let k = choose|k: int|
                0 <= k < rows.len() && (#[trigger] rows[k]).kind == RowKind::Binary && rows[k].file
                    == r.file;
            assert(is_binary_file(rows, r.file->0)) by {
                assert(rows[k].kind == RowKind::Binary && rows[k].file == Some(r.file->0));
            }
            assert(has_binary(rows));
        }
    }
    lemma_filter_map_contains(rows, f, row);
    if scope is Whole && max_depth is None && !drop {
        assert forall|i: int| 0 <= i < rows.len() implies f(#[trigger] rows[i]) == Some(rows[i]) by {
            assert(rows[i] == (RowView { file: rows[i].file, ..rows[i] }));
        }
        if seen.contains(row) {
            let i = choose|i: int| 0 <= i < rows.len() && rows[i] == row;
            assert(f(rows[i]) == Some(row));
        }
        if rows.filter_map(f).contains(row) {
            let i = choose|i: int| 0 <= i < rows.len() && f(#[trigger] rows[i]) == Some(row);
            assert(rows[i] == row);
        }
    }
}

/// Rows stay in order, and each is looked at by itself: what a search sees of
/// two lists of rows, one behind the other, is what it sees of the one and then
/// of the other, where none tells of a binary file.
pub proof fn law_rows_are_seen_in_order(
    a: Seq<RowView>,
    b: Seq<RowView>,
    scope: ScopeView,
    named: Seq<char>,
    max_depth: Option<usize>,
    binary: bool,
)
    requires
        !has_binary(a + b),
    ensures
        scoped_rows(a + b, scope, named, max_depth, binary) == scoped_rows(
            a,
            scope,
            named,
            max_depth,
            binary,
        ) + scoped_rows(b, scope, named, max_depth, binary),
{
    let all = a + b;
    assert(!has_binary(a)) by {
        if has_binary(a) {
            let i = choose|i: int| 0 <= i < a.len() && (#[trigger] a[i]).kind == RowKind::Binary;
            assert(all[i].kind == RowKind::Binary);
        }
    }
    assert(!has_binary(b)) by {
        if has_binary(b) {
            let i = choose|i: int| 0 <= i < b.len() && (#[trigger] b[i]).kind == RowKind::Binary;
            assert(all[a.len() + i].kind == RowKind::Binary);
        }
    }
    let f = |r: RowView| scoped_row(all, false, scope, named, max_depth, r);
    let g = |r: RowView| scoped_row(a, false, scope, named, max_depth, r);
    let h = |r: RowView| scoped_row(b, false, scope, named, max_depth, r);
    assert(f =~= g);
    assert(f =~= h);
    lemma_filter_map_parts(a, b, f);
}

proof fn lemma_filter_map_parts(
    a: Seq<RowView>,
    b: Seq<RowView>,
    f: spec_fn(RowView) -> Option<RowView>,
)
    ensures
        (a + b).filter_map(f) == a.filter_map(f) + b.filter_map(f),
    decreases b.len(),
{
    if b.len() == 0 {
        assert(a + b =~= a);
        assert(a.filter_map(f) + b.filter_map(f) =~= a.filter_map(f));
    } else {
        lemma_filter_map_parts(a, b.drop_last(), f);
        assert((a + b).drop_last() =~= a + b.drop_last());
        assert((a + b).last() == b.last());
        let one = match f(b.last()) {
            Some(r) => seq![r],
            None => Seq::empty(),
        };
        assert(a.filter_map(f) + (b.drop_last().filter_map(f) + one) =~= a.filter_map(f)
            + b.drop_last().filter_map(f) + one);
        assert(b.drop_last().filter_map(f) + one =~= b.filter_map(f));
    }
}

/// Each row is printed as what it is: a line of context as one, a note of a
/// binary file as one, and else a match; the rows in order, and lines that do
/// not join apart.
pub proof fn law_rows_are_printed_as_what_they_are(
    style: Style,
    st: WriterState,
    rows: Seq<RowView>,
    row: RowView,
    file: Seq<char>,
)
    requires
        row.file == Some(file),
    ensures
        ({
            let before = rows_written(style, st, rows);
            let after = rows_written(style, st, rows.push(row));
            let apart = style.separated(before, file, row.line as usize);
            &&& row.kind == RowKind::Context ==> after == style.context_written(
                apart,
                ContextView {
                    file,
                    line_number: row.line as usize,
                    content: row.content,
                    absolute_offset: row.offset as usize,
                    terminator_len: row.term as usize,
                },
            )
            &&& row.kind == RowKind::Binary ==> after == style.binary_noted(
                before,
                file,
                row.offset as usize,
            )
            &&& row.kind == RowKind::Match ==> after == style.match_written(
                apart,
                MatchView {
                    file,
                    line_number: row.line as usize,
                    content: row.content,
                    columns: row.columns,
                    spans: row.spans,
                    absolute_offset: row.offset as usize,
                    terminator_len: row.term as usize,
                },
            )
        }),
{
    assert(rows.push(row).drop_last() =~= rows);
}

/// Without rows nothing is printed.
pub proof fn law_no_rows_print_nothing(style: Style, st: WriterState)
    ensures
        rows_written(style, st, Seq::empty()) == st,
        files_written(style, st, Seq::empty()) == st,
{
}

/// What is asked for is what is printed of a reply: nothing, names, counts or
/// lines.
pub proof fn law_replies_are_printed_as_asked(
    style: Style,
    st: WriterState,
    rows: Seq<RowView>,
    o: SearchOptionsView,
)
    ensures
        ({
            let after = reply_printed(style, st, rows, o);
            &&& o.quiet ==> after == st
            &&& !o.quiet && o.files_only ==> after == files_written(style, st, files_of(rows))
            &&& !o.quiet && !o.files_only && (o.count || o.count_matches) ==> after
                == counts_written(style, st, rows, counted_files(rows), o.count_matches)
            &&& !o.quiet && !o.files_only && !o.count && !o.count_matches ==> after == rows_written(
                style,
                st,
                rows,
            )
        }),
{
}

/// The files of rows are those that a row names, each once, in the order in
/// which they come first.
pub proof fn law_files_are_named_once(rows: Seq<RowView>, row: RowView, file: Seq<char>)
    ensures
        files_of(rows).no_duplicates(),
        files_of(rows).contains(file) <==> exists|i: int|
            0 <= i < rows.len() && (#[trigger] rows[i]).file == Some(file),
        row.file == Some(file) && !files_of(rows).contains(file) ==> files_of(rows.push(row))
            == files_of(rows).push(file),
        row.file is None || files_of(rows).contains(row.file->0) ==> files_of(rows.push(row))
            == files_of(rows),
    decreases rows.len(),
{
    assert(rows.push(row).drop_last() =~= rows);
    if rows.len() > 0 {
        let front = rows.drop_last();
        law_files_are_named_once(front, rows.last(), file);
        let before = files_of(front);
        let all = files_of(rows);
        if exists|i: int| 0 <= i < front.len() && (#[trigger] front[i]).file == Some(file) {
            let i = choose|i: int| 0 <= i < front.len() && (#[trigger] front[i]).file == Some(file);
            assert(rows[i].file == Some(file));
        }
        if exists|i: int| 0 <= i < rows.len() && (#[trigger] rows[i]).file == Some(file) {
            let i = choose|i: int| 0 <= i < rows.len() && (#[trigger] rows[i]).file == Some(file);
            if i < front.len() {
                assert(front[i].file == Some(file));
            }
        }
        if all != before {
            let added = rows.last().file->0;
            assert(all == before.push(added));
            assert(all[all.len() - 1] == added);
            if all.contains(file) && file != added {
                let k = choose|k: int| 0 <= k < all.len() && all[k] == file;
                assert(before[k] == file);
            }
            if before.contains(file) {
                let k = choose|k: int| 0 <= k < before.len() && before[k] == file;
                assert(all[k] == file);
            }
            if file == added {
                assert(rows[rows.len() - 1].file == Some(file));
            }
        }
    }
}

/// What a server counts of a file adds up, row by row: where matches are
/// counted, a row that matches counts its matches, one at least.
pub proof fn law_matches_of_a_file_add_up(rows: Seq<RowView>, row: RowView, file: Seq<char>)
    ensures
        match_total(Seq::<RowView>::empty(), file) == 0,
        match_total(rows.push(row), file) == match_total(rows, file) + (if row.kind
            == RowKind::Match && row.file == Some(file) {
            match row.span_count {
                Some(n) => if n >= 1 {
                    n
                } else {
                    1
                },
                None => 1,
            }
        } else {
            0
        }),
{
    assert(rows.push(row).drop_last() =~= rows);
}

/// Where lines are counted, every line counts once, however many rows there are
/// of it.
pub proof fn law_lines_of_a_file_count_once(rows: Seq<RowView>, file: Seq<char>, line: u64)
    ensures
        match_lines(rows).contains((file, line)) <==> exists|i: int|
            0 <= i < rows.len() && (#[trigger] rows[i]).kind == RowKind::Match && rows[i].file
                == Some(file) && rows[i].line == line,
    decreases rows.len(),
{
    if rows.len() > 0 {
        let front = rows.drop_last();
        law_lines_of_a_file_count_once(front, file, line);
        if match_lines(front).contains((file, line)) {
            let i = choose|i: int|
                0 <= i < front.len() && (#[trigger] front[i]).kind == RowKind::Match
                    && front[i].file == Some(file) && front[i].line == line;
            assert(rows[i].line == line);
        }
        let last = rows[rows.len() - 1];
        if exists|i: int|
            0 <= i < rows.len() && (#[trigger] rows[i]).kind == RowKind::Match && rows[i].file
                == Some(file) && rows[i].line == line {
            let i = choose|i: int|
                0 <= i < rows.len() && (#[trigger] rows[i]).kind == RowKind::Match && rows[i].file
                    == Some(file) && rows[i].line == line;
            if i < front.len() {
                assert(front[i].line == line);
            }
        }
    }
}

/// The count of a file: what its note says where it is binary, and else its
/// matches where these are asked for, or its lines.
pub proof fn law_counts_of_replies_are_of_matches_or_lines(
    rows: Seq<RowView>,
    file: Seq<char>,
    note: RowView,
)
    requires
        note.kind == RowKind::Binary,
        note.file == Some(file),
        match_total(rows, file) <= usize::MAX,
        forall|i: int|
            0 <= i < rows.len() ==> !((#[trigger] rows[i]).kind == RowKind::Binary && rows[i].file
                == Some(file)),
    ensures
        reported_count(rows, file, true) == match_total(rows, file),
        reported_count(rows, file, false) == Set::new(
            |n: u64| match_lines(rows).contains((file, n)),
        ).len(),
        reported_count(rows.push(note), file, true) == note.lines as usize,
        reported_count(rows.push(note), file, false) == note.lines as usize,
{
    lemma_no_note(rows, file);
}

proof fn lemma_no_note(rows: Seq<RowView>, file: Seq<char>)
    requires
        forall|i: int|
            0 <= i < rows.len() ==> !((#[trigger] rows[i]).kind == RowKind::Binary && rows[i].file
                == Some(file)),
    ensures
        summed_lines(rows, file) is None,
    decreases rows.len(),
{
    if rows.len() > 0 {
        let front = rows.drop_last();
        assert forall|i: int| 0 <= i < front.len() implies !((#[trigger] front[i]).kind
            == RowKind::Binary && front[i].file == Some(file)) by {
            assert(front[i] == rows[i]);
        }
        lemma_no_note(front, file);
        assert(rows[rows.len() - 1] == rows.last());
    }
}

/// Each counted file brings one count, in order, and it is its own.
pub proof fn law_each_counted_file_brings_its_count(
    style: Style,
    st: WriterState,
    rows: Seq<RowView>,
    files: Seq<Seq<char>>,
    file: Seq<char>,
    count_matches: bool,
)
    ensures
        counts_written(style, st, rows, Seq::empty(), count_matches) == st,
        counts_written(style, st, rows, files.push(file), count_matches) == style.count_written(
            counts_written(style, st, rows, files, count_matches),
            file,
            reported_count(rows, file, count_matches),
        ),
        files_written(style, st, files.push(file)) == style.file_written(
            files_written(style, st, files),
            file,
        ),
{
    assert(files.push(file).drop_last() =~= files);
}

/// A file is counted if and only if a row that matches or notes a binary file
/// names it.
pub proof fn law_counted_files_have_a_match(rows: Seq<RowView>, file: Seq<char>)
    ensures
        counted_files(rows).contains(file) <==> exists|i: int|
            0 <= i < rows.len() && (#[trigger] rows[i]).file == Some(file) && (rows[i].kind
                == RowKind::Match || rows[i].kind == RowKind::Binary),
{
    let p = |r: RowView| crate::row_output::counts(r);
    let kept = rows.filter(p);
    let any = RowView {
        file: None,
        kind: RowKind::Other,
        line: 0,
        content: Seq::empty(),
        offset: 0,
        term: 0,
        span_count: None,
        spans: Seq::empty(),
        columns: Seq::empty(),
        lines: 0,
    };
    law_files_are_named_once(kept, any, file);
    if exists|i: int| 0 <= i < kept.len() && (#[trigger] kept[i]).file == Some(file) {
        let i = choose|i: int| 0 <= i < kept.len() && (#[trigger] kept[i]).file == Some(file);
        assert(kept.contains(kept[i]));
        crate::lists::lemma_filter_contains(rows, p, kept[i]);
        let k = choose|k: int| 0 <= k < rows.len() && rows[k] == kept[i];
        assert(rows[k].file == Some(file));
    }
    if exists|i: int|
        0 <= i < rows.len() && (#[trigger] rows[i]).file == Some(file) && (rows[i].kind
            == RowKind::Match || rows[i].kind == RowKind::Binary) {
        let i = choose|i: int|
            0 <= i < rows.len() && (#[trigger] rows[i]).file == Some(file) && (rows[i].kind
                == RowKind::Match || rows[i].kind == RowKind::Binary);
        assert(rows.contains(rows[i]));
        crate::lists::lemma_filter_contains(rows, p, rows[i]);
        let k = choose|k: int| 0 <= k < kept.len() && kept[k] == rows[i];
        assert(kept[k].file == Some(file));
    }
}

/// The totals that rows report add up: a row that matches its matches, and a
/// note of a binary file its lines.
pub proof fn law_reported_totals_add_up(rows: Seq<RowView>, row: RowView)
    ensures
        reported_matches(Seq::<RowView>::empty()) == 0,
        reported_binary_lines(Seq::<RowView>::empty()) == 0,
        reported_lines(Seq::<RowView>::empty()) == Set::<(Seq<char>, u64)>::empty(),
        row.kind == RowKind::Match ==> reported_matches(rows.push(row)) == reported_matches(rows) + (
        match row.span_count {
            Some(n) => n,
            None => 0,
        }),
        row.kind == RowKind::Binary ==> reported_matches(rows.push(row)) == reported_matches(rows)
            + row.lines && reported_binary_lines(rows.push(row)) == reported_binary_lines(rows)
            + row.lines,
        row.kind == RowKind::Match && row.file is Some ==> reported_lines(rows.push(row))
            == reported_lines(rows).insert((row.file->0, row.line)),
        row.kind != RowKind::Match ==> reported_lines(rows.push(row)) == reported_lines(rows),
{
    assert(rows.push(row).drop_last() =~= rows);
}

/// Where the server counts by file, the totals are the sums over the files that
/// the search sees.
pub proof fn law_totals_of_files_add_up(
    stats: Seq<FileStatsView>,
    one: FileStatsView,
    rows: Seq<RowView>,
    by: crate::rows::RowScope,
)
    requires
        by.binary || by.scope@ is File || !has_binary(rows),
    ensures
        ({
            let seen = by.scope@.relative(one.file, by.named@) matches Some(rel)
                && is_within_depth(rel, by.max_depth);
            let none = Seq::<FileStatsView>::empty();
            &&& total_matches(none, rows, by, None) == 0
            &&& total_lines(none, rows, by, None) == 0
            &&& total_matches(stats.push(one), rows, by, None) == total_matches(
                stats,
                rows,
                by,
                None,
            ) + (if seen {
                one.matches as nat
            } else {
                0
            })
            &&& total_lines(stats.push(one), rows, by, None) == total_lines(stats, rows, by, None)
                + (if seen {
                one.matched_lines as nat
            } else {
                0
            })
        }),
{
    assert(stats.push(one).drop_last() =~= stats);
}

/// A reply is refused where it carries an error, with the server's words, where
/// it has no result, and where it does not prove that it covers hidden files;
/// and else taken.
pub proof fn law_replies_are_taken_or_refused(reply: JsonTree, missing: Seq<char>)
    ensures
        ({
            let covered = reply.field("result"@) matches Some(r) && r.field_bool(
                "hidden_complete"@,
            ) == Some(true);
            let words = match reply.field("error"@) {
                Some(error) => error.field_text("message"@),
                None => None,
            };
            &&& refusal_of(reply, missing) is None <==> reply.field("error"@) is None && covered
            &&& words matches Some(m) ==> refusal_of(reply, missing) == Some("server error: "@ + m)
            &&& reply.field("error"@) is None && reply.field("result"@) is None ==> refusal_of(
                reply,
                missing,
            ) == Some(missing)
        }),
{
}

/// A list of files is what the server lists, in order, and taken only where
/// every entry is a text.
pub proof fn law_listed_files_are_those_of_the_reply(reply: JsonTree, items: Seq<JsonTree>)
    requires
        reply.field("error"@) is None,
        reply.field("result"@) matches Some(r) && r.field_bool("hidden_complete"@) == Some(true)
            && r.field_list("files"@) == Some(items),
    ensures
        match listed_files(reply) {
            Ok(files) => files.len() == items.len() && forall|i: int|
                0 <= i < items.len() ==> #[trigger] items[i] == JsonTree::Text(files[i]),
            Err(_) => exists|i: int| 0 <= i < items.len() && !((#[trigger] items[i]) is Text),
        },
{
}

/// Without an order that is asked for, rows stay as they come.
pub proof fn law_rows_stay_as_they_come(
    rows: Seq<RowView>,
    o: SearchOptionsView,
    times: Seq<Option<FileTime>>,
)
    requires
        o.sort is None,
    ensures
        ordered_rows(rows, o, times) == rows,
{
}

/// Ordering rows keeps every row, and the rows of each file together, in the
/// order in which they came; the files come in the order that is asked for.
pub proof fn law_ordered_rows_keep_files_together(
    rows: Seq<RowView>,
    o: SearchOptionsView,
    times: Seq<Option<FileTime>>,
) -> (places: Seq<usize>)
    requires
        o.sort is Some,
        rows.len() <= usize::MAX,
        forall|i: int| 0 <= i < rows.len() ==> (#[trigger] rows[i]).file is Some,
    ensures
        ({
            let done = ordered_rows(rows, o, times);
            let files = files_of(rows);
            let order = o.sort->0.order_of(files, times);
            &&& done.len() == rows.len() && places.len() == rows.len()
            &&& places.no_duplicates()
            &&& forall|i: int|
                0 <= i < places.len() ==> #[trigger] places[i] < rows.len() && done[i]
                    == rows[places[i] as int]
            &&& forall|i: int, j: int|
                0 <= i < j < places.len() && done[i].file == done[j].file ==> #[trigger] places[i]
                    < #[trigger] places[j]
            &&& forall|i: int, j: int, k: int, l: int|
                0 <= i < j < done.len() && 0 <= k < order.len() && 0 <= l < order.len()
                    && #[trigger] done[i].file == Some(files[#[trigger] order[k] as int])
                    && #[trigger] done[j].file == Some(files[#[trigger] order[l] as int]) ==> k <= l
        }),
{
    let files = files_of(rows);
    let sort = o.sort->0;
    let order = sort.order_of(files, times);
    let any = rows_any();
    lemma_files_len(rows);
    law_files_are_named_once(rows, any, Seq::empty());
    crate::sort::law_ordering_keeps_every_item(sort, files, files, times, Seq::empty());
    let ranks = crate::row_output::ranks_of(rows, files, order);
    crate::order::law_sorted_indices_are_in_stable_order::<crate::row_output::Rank>(ranks);
    let places = crate::order::sorted_indices::<crate::row_output::Rank>(ranks);
    let done = ordered_rows(rows, o, times);
    assert forall|i: int, j: int| 0 <= i < places.len() && 0 <= j < places.len() && i != j implies
        places[i] != places[j] by {
        let (a, b) = if i < j {
            (i, j)
        } else {
            (j, i)
        };
        assert(crate::order::comes_before::<crate::row_output::Rank>(
            ranks,
            places[a] as int,
            places[b] as int,
        ));
    }
    assert forall|i: int, j: int|
        0 <= i < j < places.len() && done[i].file == done[j].file implies #[trigger] places[i]
        < #[trigger] places[j] by {
        assert(crate::order::comes_before::<crate::row_output::Rank>(
            ranks,
            places[i] as int,
            places[j] as int,
        ));
    }
    assert forall|i: int, j: int, k: int, l: int|
        0 <= i < j < done.len() && 0 <= k < order.len() && 0 <= l < order.len()
            && #[trigger] done[i].file == Some(files[#[trigger] order[k] as int])
            && #[trigger] done[j].file == Some(files[#[trigger] order[l] as int]) implies k <= l by {
        assert(crate::order::comes_before::<crate::row_output::Rank>(
            ranks,
            places[i] as int,
            places[j] as int,
        ));
        lemma_rank(files, order, k);
        lemma_rank(files, order, l);
    }
    places
}

spec fn rows_any() -> RowView {
    RowView {
        file: None,
        kind: RowKind::Other,
        line: 0,
        content: Seq::empty(),
        offset: 0,
        term: 0,
        span_count: None,
        spans: Seq::empty(),
        columns: Seq::empty(),
        lines: 0,
    }
}

proof fn lemma_files_len(rows: Seq<RowView>)
    ensures
        files_of(rows).len() <= rows.len(),
    decreases rows.len(),
{
    if rows.len() > 0 {
        lemma_files_len(rows.drop_last());
    }
}

proof fn lemma_rank(files: Seq<Seq<char>>, order: Seq<usize>, k: int)
    requires
        files.no_duplicates(),
        files.len() <= usize::MAX,
        crate::sort::is_order(order, files.len()),
        order.no_duplicates(),
        0 <= k < order.len(),
    ensures
        crate::row_output::rank_of(files, order, Some(files[order[k] as int])) == k,
{
    let file = files[order[k] as int];
    assert(crate::row_output::is_place(files, order, file, k));
    let p = crate::row_output::place_of(files, order, file);
    assert(crate::row_output::is_place(files, order, file, p));
    assert(order[p] == order[k]);
}

/// What a server counts by file is read from each entry: the file, its matches
/// and its lines.
pub proof fn law_file_counts_are_read_field_by_field(value: JsonTree)
    requires
        value is Object,
    ensures
        crate::server_stats::parsed_stats(value) matches Some(s) ==> value.field_text("file"@)
            == Some(s.file) && value.field_unsigned("matches"@) == Some(s.matches)
            && value.field_unsigned("matched_lines"@) == Some(s.matched_lines),
        value.field_text("file"@) is Some && value.field_unsigned("matches"@) is Some
            && value.field_unsigned("matched_lines"@) is Some ==> crate::server_stats::parsed_stats(
            value,
        ) is Some,
{
}

/// The totals of a reply are those that the server counts by file where it does,
/// and else those of the rows; a quiet search counts the first file alone.
pub proof fn law_totals_are_of_files_or_rows(
    reply: crate::server_reply::ReplyView,
    rows: Seq<RowView>,
    o: SearchOptionsView,
    by: crate::rows::RowScope,
    stats: Seq<FileStatsView>,
)
    requires
        !o.quiet,
    ensures
        reply.result.field("file_stats"@) is None ==> (crate::server_reply::reply_totals(
            reply,
            rows,
            o,
            by,
        ) matches Some((matches, lines)) && (reported_matches(rows) <= u64::MAX ==> matches
            == reported_matches(rows)) && (reported_lines(rows).len() + reported_binary_lines(rows)
            <= u64::MAX ==> lines == reported_lines(rows).len() + reported_binary_lines(rows))),
        reply.result.field("file_stats"@) is Some && crate::server_stats::parsed_stats_list(
            reply.result.field("file_stats"@)->0,
        ) == Some(stats) ==> (crate::server_reply::reply_totals(
            reply,
            rows,
            o,
            by,
        ) matches Some((matches, lines)) && (total_matches(stats, reply.all, by, None) <= u64::MAX
            ==> matches == total_matches(stats, reply.all, by, None)) && (total_lines(
            stats,
            reply.all,
            by,
            None,
        ) <= u64::MAX ==> lines == total_lines(stats, reply.all, by, None))),
{
}

/// The totals of a reply are printed with the time it took.
pub proof fn law_totals_of_replies_are_printed(matches: u64, lines: u64, elapsed_ms: Seq<char>)
    ensures
        crate::server_reply::totals_text((matches, lines), elapsed_ms) == crate::text::decimal(
            matches as nat,
        ) + " matches ("@ + crate::text::decimal(lines as nat) + " matched lines) in "@ + elapsed_ms
            + "ms (via server)\n"@,
{
}

/// A reply is read as its rows, all of them and those that the search sees, where
/// it is taken.
pub proof fn law_replies_are_read_as_rows(line: Seq<char>, by: crate::rows::RowScope, reply: JsonTree)
    requires
        crate::json::json_parsed(line) matches Ok(read) && read == reply,
        reply.field("error"@) is None,
        reply.field("result"@) matches Some(r) && r.field_bool("hidden_complete"@) == Some(true),
    ensures
        crate::server_reply::reply_of(line, by) matches Ok(v) && reply.field("result"@) == Some(
            v.result,
        ) && v.all == rows_of(v.result) && v.rows == scoped_rows(
            v.all,
            by.scope@,
            by.named@,
            by.max_depth,
            by.binary,
        ),
{
}

/// An error without words is told all the same.
pub proof fn law_errors_without_words_are_told(reply: JsonTree, error: JsonTree, missing: Seq<char>)
    requires
        reply.field("error"@) == Some(error),
        error.field_text("message"@) is None,
    ensures
        refusal_of(reply, missing) == Some("server error: "@ + "unknown error"@),
{
}

/// A quiet search totals the first file that it sees, and no other.
pub proof fn law_quiet_searches_total_the_first_file(
    one: FileStatsView,
    stats: Seq<FileStatsView>,
    rows: Seq<RowView>,
    by: crate::rows::RowScope,
    first: Seq<char>,
)
    requires
        by.binary || by.scope@ is File || !has_binary(rows),
    ensures
        ({
            let seen = by.scope@.relative(one.file, by.named@) == Some(first) && is_within_depth(
                first,
                by.max_depth,
            );
            let only = Some(Some(first));
            total_matches(stats.push(one), rows, by, only) == total_matches(stats, rows, by, only)
                + (if seen {
                one.matches as nat
            } else {
                0
            })
        }),
        crate::server_reply::quiet_file(rows, true) == Some(
            if rows.len() > 0 {
                rows[0].file
            } else {
                None
            },
        ),
        crate::server_reply::quiet_file(rows, false) is None,
{
    assert(stats.push(one).drop_last() =~= stats);
}

/// What is written of a reply are its rows, in the order that is asked for, as
/// what is asked for; and then everything is handed on.
pub proof fn law_replies_are_written_as_asked(
    style: Style,
    st: WriterState,
    reply: crate::server_reply::ReplyView,
    o: SearchOptionsView,
    times: Seq<Option<FileTime>>,
)
    ensures
        ({
            let rows = ordered_rows(reply.rows, o, times);
            let after = crate::server_reply::reply_written(style, st, reply, o, times);
            &&& o.quiet ==> after == style.flushed(st)
            &&& !o.quiet && o.files_only ==> after == style.flushed(
                files_written(style, st, files_of(rows)),
            )
            &&& !o.quiet && !o.files_only && (o.count || o.count_matches) ==> after
                == style.flushed(
                counts_written(style, st, rows, counted_files(rows), o.count_matches),
            )
            &&& !o.quiet && !o.files_only && !o.count && !o.count_matches ==> after
                == style.flushed(rows_written(style, st, rows))
        }),
{
}

} // verus!
