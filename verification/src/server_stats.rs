//! The totals of a search through a server.
use crate::fields::{as_record, record, str_views};
use crate::json::{lemma_trees, trees, Json, JsonTree};
use crate::line_sets::LinesByFile;
use crate::rows::{
    binary_files, drops_binary, is_binary_file, row_views, scope_file, scoped_file, Row, RowKind,
    RowScope, RowView,
};
use crate::paths::IndexScope;
use crate::server_search::file_of;
use crate::snapshot_diff::option_text;
use crate::text::{add_number, add_text, decimal, number, owned, same};
use vstd::prelude::*;

verus! {

/// A sum that stops at the largest number.
pub open spec fn capped_sum(n: nat) -> u64 {
    if n > u64::MAX {
        u64::MAX
    } else {
        n as u64
    }
}

pub fn add_capped(a: u64, b: u64) -> (r: u64)
    ensures
        r == capped_sum((a + b) as nat),
{
    if b > u64::MAX - a {
        u64::MAX
    } else {
        a + b
    }
}

/// The matches that rows report: the spans of each match, and what a binary
/// file's row carries. Context rows report none.
pub open spec fn reported_matches(rows: Seq<RowView>) -> nat
    decreases rows.len(),
{
    if rows.len() == 0 {
        0
    } else {
        let row = rows.last();
        reported_matches(rows.drop_last()) + match row.kind {
            RowKind::Binary => row.lines as nat,
            RowKind::Match => match row.span_count {
                Some(n) => n,
                None => 0,
            },
            _ => 0,
        }
    }
}

/// The lines that rows report matches on, each once for its file.
pub open spec fn reported_lines(rows: Seq<RowView>) -> Set<(Seq<char>, u64)>
    decreases rows.len(),
{
    if rows.len() == 0 {
        Set::empty()
    } else {
        let row = rows.last();
        let front = reported_lines(rows.drop_last());
        if row.kind == RowKind::Match {
            front.insert((file_of(row), row.line))
        } else {
            front
        }
    }
}

/// The lines of binary files that rows report.
pub open spec fn reported_binary_lines(rows: Seq<RowView>) -> nat
    decreases rows.len(),
{
    if rows.len() == 0 {
        0
    } else {
        reported_binary_lines(rows.drop_last()) + if rows.last().kind == RowKind::Binary {
            rows.last().lines as nat
        } else {
            0
        }
    }
}

/// The numbers of matches and of matching lines that rows report. Neither
/// counts context lines; a line without spans is matched, by no match.
pub fn count_reported_matches(rows: &Vec<Row>) -> (r: (u64, u64))
    ensures
        reported_lines(row_views(rows@)).finite(),
        r.0 == capped_sum(reported_matches(row_views(rows@))),
        r.1 == capped_sum(
            reported_lines(row_views(rows@)).len() + reported_binary_lines(row_views(rows@)),
        ),
{
    let mut matches: u64 = 0;
    let mut count: u64 = 0;
    let mut seen = LinesByFile::new();
    let ghost all = row_views(rows@);
    let mut i: usize = 0;
    assert(all.take(0) =~= Seq::<RowView>::empty());
    while i < rows.len()
        invariant
            i <= rows@.len(),
            all == row_views(rows@),
            seen.wf(),
            seen@ == reported_lines(all.take(i as int)),
            seen@.finite(),
            matches == capped_sum(reported_matches(all.take(i as int))),
            count == capped_sum(
                reported_lines(all.take(i as int)).len() + reported_binary_lines(
                    all.take(i as int),
                ),
            ),
        decreases rows@.len() - i,
    {
        let ghost done = all.take(i as int);
        assert(all.take(i + 1).drop_last() =~= done);
        assert(all.take(i + 1).last() == rows@[i as int]@);
        let row = &rows[i];
        match row.kind {
            RowKind::Binary => {
                matches = add_capped(matches, row.lines);
                count = add_capped(count, row.lines);
            },
            RowKind::Match => {
                let n: u64 = match row.span_count {
                    Some(n) => n as u64,
                    None => 0,
                };
                matches = add_capped(matches, n);
                let file = match &row.file {
                    Some(file) => file.clone(),
                    None => {
                        let none = String::new();
                        assert(none@ =~= Seq::<char>::empty());
                        none
                    },
                };
                if seen.insert(file.as_str(), row.line) {
                    count = add_capped(count, 1);
                } else {
                    assert(reported_lines(done).insert((file_of(row@), row.line))
                        =~= reported_lines(done));
                }
            },
            _ => {},
        }
        i += 1;
    }
    assert(all.take(all.len() as int) =~= all);
    (matches, count)
}

/// What a server counted in one file, whatever rows it sent.
pub struct FileMatchStats {
    pub file: String,
    pub matches: u64,
    pub matched_lines: u64,
}

/// What a [`FileMatchStats`] says.
pub struct FileStatsView {
    pub file: Seq<char>,
    pub matches: u64,
    pub matched_lines: u64,
}

impl View for FileMatchStats {
    type V = FileStatsView;

    open spec fn view(&self) -> FileStatsView {
        FileStatsView {
            file: self.file@,
            matches: self.matches,
            matched_lines: self.matched_lines,
        }
    }
}

/// What a list of counts says.
pub open spec fn stats_views(list: Seq<FileMatchStats>) -> Seq<FileStatsView> {
    list.map_values(|s: FileMatchStats| s@)
}

/// The fields of a count, in order.
pub open spec fn stats_keys() -> Seq<Seq<char>> {
    seq!["file"@, "matches"@, "matched_lines"@]
}

/// The count that a value stands for.
pub open spec fn parsed_stats(value: JsonTree) -> Option<FileStatsView> {
    let tree = record(value, stats_keys(), 3);
    match (
        tree.field_text("file"@),
        tree.field_unsigned("matches"@),
        tree.field_unsigned("matched_lines"@),
    ) {
        (Some(file), Some(matches), Some(matched_lines)) => Some(
            FileStatsView { file, matches, matched_lines },
        ),
        _ => None,
    }
}

/// Whether a value is a list of counts.
pub open spec fn is_stats_list(tree: JsonTree) -> bool {
    tree matches JsonTree::List(items) && forall|i: int|
        0 <= i < items.len() ==> parsed_stats(#[trigger] items[i]) is Some
}

/// The counts that a value stands for; none where it is malformed.
pub open spec fn parsed_stats_list(tree: JsonTree) -> Option<Seq<FileStatsView>> {
    if is_stats_list(tree) {
        Some((tree->List_0).map_values(|t: JsonTree| parsed_stats(t)->0))
    } else {
        None
    }
}

/// The view of counts that may be malformed.
pub open spec fn option_stats(r: Option<Vec<FileMatchStats>>) -> Option<Seq<FileStatsView>> {
    match r {
        Some(list) => Some(stats_views(list@)),
        None => None,
    }
}

/// Reads the counts of a reply.
pub fn read_file_stats(json: &Json) -> (r: Option<Vec<FileMatchStats>>)
    ensures
        option_stats(r) == parsed_stats_list(json@),
{
    let items = json.as_list()?;
    let ghost all = trees(items@);
    proof {
        lemma_trees(items@);
    }
    let keys: Vec<&str> = vec!["file", "matches", "matched_lines"];
    assert(str_views(keys@) =~= stats_keys());
    let mut out: Vec<FileMatchStats> = Vec::new();
    let mut i: usize = 0;
    while i < items.len()
        invariant
            i <= items@.len(),
            str_views(keys@) == stats_keys(),
            all == trees(items@),
            json@ == JsonTree::List(all),
            all.len() == items@.len(),
            forall|k: int| 0 <= k < items@.len() ==> #[trigger] all[k] == items@[k]@,
            out@.len() == i,
            forall|k: int|
                0 <= k < i ==> parsed_stats(#[trigger] all[k]) == Some(stats_views(out@)[k]),
        decreases items@.len() - i,
    {
        assert(all[i as int] == items@[i as int]@);
        let item = as_record(&items[i], &keys, 3);
        match (item.get_str("file"), item.get_u64("matches"), item.get_u64("matched_lines")) {
            (Some(file), Some(matches), Some(matched_lines)) => {
                let stats = FileMatchStats { file: owned(file), matches, matched_lines };
                let ghost before = stats_views(out@);
                out.push(stats);
                assert(stats_views(out@) =~= before.push(stats@));
            },
            _ => {
                assert(parsed_stats(all[i as int]) is None);
                assert(!is_stats_list(json@));
                return None;
            },
        }
        i += 1;
    }
    assert(stats_views(out@) =~= all.map_values(|t: JsonTree| parsed_stats(t)->0));
    Some(out)
}

/// Whether a file's counts belong to the search: not where it is dropped or
/// outside, nor, where only the first matching file was looked for, where it
/// is another.
pub open spec fn is_totalled(
    file: Seq<char>,
    rows: Seq<RowView>,
    by: RowScope,
    quiet_first: Option<Option<Seq<char>>>,
) -> bool {
    match scoped_file(
        rows,
        drops_binary(rows, by.scope@, by.binary),
        by.scope@,
        by.named@,
        by.max_depth,
        file,
    ) {
        Some(rel) => match quiet_first {
            Some(first) => first == Some(rel),
            None => true,
        },
        None => false,
    }
}

/// The matches of the files that belong to the search.
pub open spec fn total_matches(
    stats: Seq<FileStatsView>,
    rows: Seq<RowView>,
    by: RowScope,
    quiet_first: Option<Option<Seq<char>>>,
) -> nat
    decreases stats.len(),
{
    if stats.len() == 0 {
        0
    } else {
        total_matches(stats.drop_last(), rows, by, quiet_first) + if is_totalled(
            stats.last().file,
            rows,
            by,
            quiet_first,
        ) {
            stats.last().matches as nat
        } else {
            0
        }
    }
}

/// The matching lines of the files that belong to the search.
pub open spec fn total_lines(
    stats: Seq<FileStatsView>,
    rows: Seq<RowView>,
    by: RowScope,
    quiet_first: Option<Option<Seq<char>>>,
) -> nat
    decreases stats.len(),
{
    if stats.len() == 0 {
        0
    } else {
        total_lines(stats.drop_last(), rows, by, quiet_first) + if is_totalled(
            stats.last().file,
            rows,
            by,
            quiet_first,
        ) {
            stats.last().matched_lines as nat
        } else {
            0
        }
    }
}

/// The view of a first file that may not be asked for.
pub open spec fn first_view(first: Option<Option<String>>) -> Option<Option<Seq<char>>> {
    match first {
        Some(f) => Some(option_text(f)),
        None => None,
    }
}

/// Adds up the counts of the files that belong to a search. `rows` are the
/// rows of the reply as they came; `quiet_first` is the first file of the
/// search's rows where only that was looked for.
pub fn total_stats(
    stats: &Vec<FileMatchStats>,
    rows: &Vec<Row>,
    by: &RowScope,
    quiet_first: &Option<Option<String>>,
) -> (r: (u64, u64))
    ensures
        r.0 == capped_sum(
            total_matches(stats_views(stats@), row_views(rows@), *by, first_view(*quiet_first)),
        ),
        r.1 == capped_sum(
            total_lines(stats_views(stats@), row_views(rows@), *by, first_view(*quiet_first)),
        ),
{
    let (any, binary) = binary_files(rows);
    let is_file = match &by.scope {
        IndexScope::File(_) => true,
        _ => false,
    };
    let drop = !by.binary && !is_file && any;
    let ghost all = row_views(rows@);
    let ghost list = stats_views(stats@);
    let ghost first = first_view(*quiet_first);
    let mut matches: u64 = 0;
    let mut lines: u64 = 0;
    let mut i: usize = 0;
    assert(list.take(0) =~= Seq::<FileStatsView>::empty());
    while i < stats.len()
        invariant
            i <= stats@.len(),
            all == row_views(rows@),
            list == stats_views(stats@),
            first == first_view(*quiet_first),
            drop == drops_binary(all, by.scope@, by.binary),
            binary.wf(),
            forall|f: Seq<char>| #[trigger] binary@.contains_key(f) == is_binary_file(all, f),
            matches == capped_sum(total_matches(list.take(i as int), all, *by, first)),
            lines == capped_sum(total_lines(list.take(i as int), all, *by, first)),
        decreases stats@.len() - i,
    {
        let item = &stats[i];
        assert(list.take(i + 1).drop_last() =~= list.take(i as int));
        assert(list.take(i + 1).last() == item@);
        let rel = scope_file(item.file.as_str(), drop, &binary, by, Ghost(all));
        let counted = match (&rel, quiet_first) {
            (Some(_), None) => true,
            (Some(rel), Some(Some(first))) => same(rel.as_str(), first.as_str()),
            (Some(_), Some(None)) => false,
            (None, _) => false,
        };
        assert(counted == is_totalled(item.file@, all, *by, first));
        if counted {
            matches = add_capped(matches, item.matches);
            lines = add_capped(lines, item.matched_lines);
        }
        i += 1;
    }
    assert(list.take(list.len() as int) =~= list);
    (matches, lines)
}

/// The totals of a search, as printed. `elapsed_ms` is the time it took.
pub fn server_stats_line(matches: u64, lines: u64, elapsed_ms: &str) -> (r: String)
    ensures
        r@ == decimal(matches as nat) + " matches ("@ + decimal(lines as nat)
            + " matched lines) in "@ + elapsed_ms@ + "ms (via server)\n"@,
{
    let mut out = number(matches);
    add_text(&mut out, " matches (");
    add_number(&mut out, lines);
    add_text(&mut out, " matched lines) in ");
    add_text(&mut out, elapsed_ms);
    add_text(&mut out, "ms (via server)\n");
    out
}

/// Context rows change neither total that rows report.
pub proof fn law_context_rows_are_not_counted(before: Seq<RowView>, row: RowView, after: Seq<RowView>)
    requires
        row.kind == RowKind::Context,
    ensures
        reported_matches(before + seq![row] + after) == reported_matches(before + after),
        reported_lines(before + seq![row] + after) == reported_lines(before + after),
        reported_binary_lines(before + seq![row] + after) == reported_binary_lines(before + after),
    decreases after.len(),
{
    let with = before + seq![row] + after;
    let without = before + after;
    if after.len() == 0 {
        assert(with.drop_last() =~= before);
        assert(without =~= before);
    } else {
        law_context_rows_are_not_counted(before, row, after.drop_last());
        assert(with.drop_last() =~= before + seq![row] + after.drop_last());
        assert(without.drop_last() =~= before + after.drop_last());
        assert(with.last() == after.last());
        assert(without.last() == after.last());
    }
}

} // verus!
