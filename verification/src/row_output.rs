//! What is printed and counted of the rows of a reply.
use crate::line_sets::{lines_in, LinesByFile};
use crate::meta::FileTime;
use crate::order::{keys_of, sorted_indices, stable_order, Ordered};
use crate::output::{Match, OutputWriter, Style, WriterState};
use crate::path_map::PathMap;
use crate::rows::{lemma_push_row, row_views, Row, RowKind, RowView};
use crate::sort::{at_places, SortMode};
use crate::text::{lemma_texts_push, texts};
use vstd::prelude::*;

verus! {

/// The files of rows, each once, in the order in which they first occur.
pub open spec fn files_of(rows: Seq<RowView>) -> Seq<Seq<char>>
    decreases rows.len(),
{
    if rows.len() == 0 {
        Seq::empty()
    } else {
        let front = files_of(rows.drop_last());
        match rows.last().file {
            Some(file) => if front.contains(file) {
                front
            } else {
                front.push(file)
            },
            None => front,
        }
    }
}

/// The files of rows, each once, in the order in which they first occur.
pub fn distinct_files(rows: &Vec<Row>) -> (r: Vec<String>)
    ensures
        texts(r@) == files_of(row_views(rows@)),
{
    let mut out: Vec<String> = Vec::new();
    let mut seen: PathMap<bool> = PathMap::new();
    let ghost all = row_views(rows@);
    let mut i: usize = 0;
    assert(texts(out@) =~= files_of(all.take(0)));
    while i < rows.len()
        invariant
            i <= rows@.len(),
            all == row_views(rows@),
            seen.wf(),
            texts(out@) == files_of(all.take(i as int)),
            forall|f: Seq<char>| #[trigger]
                seen@.contains_key(f) == files_of(all.take(i as int)).contains(f),
        decreases rows@.len() - i,
    {
        let ghost front = files_of(all.take(i as int));
        let ghost before = seen@;
        assert(all.take(i + 1).drop_last() =~= all.take(i as int));
        assert(all.take(i + 1).last() == rows@[i as int]@);
        if let Some(file) = &rows[i].file {
            if !seen.contains_key(file.as_str()) {
                seen.insert(file.clone(), true);
                let copy = file.clone();
                proof {
                    lemma_texts_push(out@, copy);
                    let after = front.push(file@);
                    assert forall|f: Seq<char>| #[trigger] seen@.contains_key(f)
                        == after.contains(f) by {
                        assert(before.contains_key(f) == front.contains(f));
                        if front.contains(f) {
                            let k = choose|k: int| 0 <= k < front.len() && front[k] == f;
                            assert(after[k] == f);
                        }
                        if after.contains(f) && f != file@ {
                            let k = choose|k: int| 0 <= k < after.len() && after[k] == f;
                            assert(front[k] == f);
                        }
                        assert(after[front.len() as int] == file@);
                    }
                }
                out.push(copy);
            }
        }
        i += 1;
    }
    assert(all.take(all.len() as int) =~= all);
    out
}

/// The place of a row's file among ordered files.
pub struct Rank {
    pub value: usize,
}

impl Ordered for Rank {
    type Key = usize;

    open spec fn key(self) -> usize {
        self.value
    }

    open spec fn at_most(a: usize, b: usize) -> bool {
        a <= b
    }

    proof fn lemma_total(a: usize, b: usize) {
    }

    proof fn lemma_transitive(a: usize, b: usize, c: usize) {
    }

    fn is_at_most(&self, other: &Self) -> (r: bool) {
        self.value <= other.value
    }
}

/// The place of a file among files in an order; behind all where it is not
/// among them.
pub open spec fn rank_of(files: Seq<Seq<char>>, order: Seq<usize>, file: Option<Seq<char>>) -> usize {
    match file {
        Some(file) => if has_place(files, order, file) {
            place_of(files, order, file) as usize
        } else {
            usize::MAX
        },
        None => usize::MAX,
    }
}

/// Whether a file stands anywhere in an order.
pub open spec fn has_place(files: Seq<Seq<char>>, order: Seq<usize>, file: Seq<char>) -> bool {
    exists|k: int| is_place(files, order, file, k)
}

/// The place of a file that has one.
pub open spec fn place_of(files: Seq<Seq<char>>, order: Seq<usize>, file: Seq<char>) -> int {
    choose|k: int| is_place(files, order, file, k)
}

/// Whether a file stands at a place of an order.
pub open spec fn is_place(files: Seq<Seq<char>>, order: Seq<usize>, file: Seq<char>, k: int) -> bool {
    0 <= k < order.len() && order[k] < files.len() && files[order[k] as int] == file
}

/// The ranks of rows.
pub open spec fn ranks_of(rows: Seq<RowView>, files: Seq<Seq<char>>, order: Seq<usize>) -> Seq<
    usize,
> {
    rows.map_values(|r: RowView| rank_of(files, order, r.file))
}

/// Rows in the order of the places of their files, the rows of each file in
/// the order in which they came.
pub open spec fn rows_by_rank(
    rows: Seq<RowView>,
    files: Seq<Seq<char>>,
    order: Seq<usize>,
) -> Seq<RowView> {
    at_places(rows, sorted_indices::<Rank>(ranks_of(rows, files, order)))
}

/// Whether no file stands at two places of an order.
pub open spec fn is_order(files: Seq<Seq<char>>, order: Seq<usize>) -> bool {
    &&& order.len() <= usize::MAX
    &&& forall|k: int| 0 <= k < order.len() ==> #[trigger] order[k] < files.len()
    &&& forall|j: int, k: int|
        0 <= j < k < order.len() ==> files[#[trigger] order[j] as int]
            != files[#[trigger] order[k] as int]
}

fn rank_map(files: &Vec<String>, order: &Vec<usize>) -> (r: PathMap<usize>)
    requires
        is_order(texts(files@), order@),
    ensures
        r.wf(),
        forall|f: Seq<char>| #[trigger]
            r@.contains_key(f) ==> r@[f] == rank_of(texts(files@), order@, Some(f)),
        forall|f: Seq<char>| #[trigger]
            r@.contains_key(f) == has_place(texts(files@), order@, f),
{
    let mut map: PathMap<usize> = PathMap::new();
    let ghost names = texts(files@);
    let mut i: usize = 0;
    while i < order.len()
        invariant
            i <= order@.len(),
            map.wf(),
            names == texts(files@),
            is_order(names, order@),
            forall|f: Seq<char>| #[trigger]
                map@.contains_key(f) ==> map@[f] < i && is_place(names, order@, f, map@[f] as int),
            forall|k: int|
                0 <= k < i ==> map@.contains_key(names[#[trigger] order@[k] as int]),
        decreases order@.len() - i,
    {
        let at: usize = order[i];
        assert(names[at as int] == files@[at as int]@);
        map.insert(files[at].clone(), i);
        assert(is_place(names, order@, names[at as int], i as int));
        i += 1;
    }
    proof {
        assert forall|f: Seq<char>| #[trigger] map@.contains_key(f) == has_place(
            names,
            order@,
            f,
        ) by {
            if has_place(names, order@, f) {
                let k = choose|k: int| is_place(names, order@, f, k);
                assert(map@.contains_key(names[order@[k] as int]));
            }
        }
        assert forall|f: Seq<char>| #[trigger] map@.contains_key(f) implies map@[f] == rank_of(
            names,
            order@,
            Some(f),
        ) by {
            let j = map@[f] as int;
            assert(is_place(names, order@, f, j));
            let k = place_of(names, order@, f);
            assert(is_place(names, order@, f, k));
            if j < k {
                assert(names[order@[j] as int] != names[order@[k] as int]);
            } else if k < j {
                assert(names[order@[k] as int] != names[order@[j] as int]);
            }
            assert(j == k);
            assert(has_place(names, order@, f));
        }
    }
    map
}

proof fn lemma_files_distinct(rows: Seq<RowView>)
    ensures
        forall|i: int, j: int|
            0 <= i < j < files_of(rows).len() ==> #[trigger] files_of(rows)[i]
                != #[trigger] files_of(rows)[j],
    decreases rows.len(),
{
    if rows.len() > 0 {
        lemma_files_distinct(rows.drop_last());
        let front = files_of(rows.drop_last());
        let all = files_of(rows);
        assert forall|i: int, j: int| 0 <= i < j < all.len() implies #[trigger] all[i]
            != #[trigger] all[j] by {
            if j < front.len() {
                assert(front[i] != front[j]);
            } else {
                assert(front[i] == all[i]);
                assert(front.contains(front[i]));
            }
        }
    }
}

/// Orders whole files of rows: the files by their relative paths and times,
/// the rows of each file as they came. `times` are those of the files as
/// [`distinct_files`] lists them.
pub fn sort_rows(rows: Vec<Row>, sort: &SortMode, times: &Vec<Option<FileTime>>) -> (r: Vec<Row>)
    ensures
        row_views(r@) == rows_by_rank(
            row_views(rows@),
            files_of(row_views(rows@)),
            sort.order_of(files_of(row_views(rows@)), times@),
        ),
        forall|k: int|
            0 <= k < r@.len() ==> row_views(rows@).contains(#[trigger] row_views(r@)[k]),
{
    let files = distinct_files(&rows);
    let order = sort.order(&files, times);
    let total: usize = order.len();
    let ghost names = texts(files@);
    let ghost all = row_views(rows@);
    proof {
        lemma_files_distinct(all);
        sort.lemma_order_distinct(names, times@);
        assert forall|j: int, k: int| 0 <= j < k < order@.len() implies names[
            #[trigger] order@[j] as int] != names[#[trigger] order@[k] as int] by {
            assert(order@[j] != order@[k]);
            if order@[j] < order@[k] {
                assert(names[order@[j] as int] != names[order@[k] as int]);
            } else {
                assert(names[order@[k] as int] != names[order@[j] as int]);
            }
        }
    }
    let map = rank_map(&files, &order);
    let mut ranks: Vec<Rank> = Vec::new();
    let ghost g = |x: RowView| rank_of(names, order@, x.file);
    let mut i: usize = 0;
    while i < rows.len()
        invariant
            i <= rows@.len(),
            all == row_views(rows@),
            names == texts(files@),
            g == (|x: RowView| rank_of(names, order@, x.file)),
            map.wf(),
            forall|f: Seq<char>| #[trigger]
                map@.contains_key(f) ==> map@[f] == rank_of(names, order@, Some(f)),
            forall|f: Seq<char>| #[trigger]
                map@.contains_key(f) == has_place(names, order@, f),
            ranks@.len() == i,
            forall|k: int|
                0 <= k < i ==> (#[trigger] ranks@[k]).value == rank_of(names, order@, all[k].file),
        decreases rows@.len() - i,
    {
        let value: usize = match &rows[i].file {
            Some(file) => match map.get(file.as_str()) {
                Some(rank) => *rank,
                None => usize::MAX,
            },
            None => usize::MAX,
        };
        proof {
            assert(all[i as int] == rows@[i as int]@);
            if let Some(file) = rows@[i as int].file {
                assert(map@.contains_key(file@) == has_place(names, order@, file@));
            }
        }
        ranks.push(Rank { value });
        i += 1;
    }
    assert(keys_of(ranks@) =~= ranks_of(all, names, order@));
    let places = stable_order(&ranks);
    let ghost f = |i: usize| all[i as int];
    let mut out: Vec<Row> = Vec::new();
    let mut k: usize = 0;
    assert(row_views(out@) =~= places@.take(0).map_values(f));
    while k < places.len()
        invariant
            k <= places@.len(),
            all == row_views(rows@),
            f == (|i: usize| all[i as int]),
            forall|j: int| 0 <= j < places@.len() ==> #[trigger] places@[j] < rows@.len(),
            row_views(out@) == places@.take(k as int).map_values(f),
            forall|j: int|
                0 <= j < out@.len() ==> all.contains(#[trigger] row_views(out@)[j]),
        decreases places@.len() - k,
    {
        let at: usize = places[k];
        let row = copy_row(&rows[at]);
        proof {
            assert(all.contains(all[at as int]));
            lemma_push_row(out@, row);
            assert(all[at as int] == rows@[at as int]@);
            assert(places@.take(k + 1).map_values(f) =~= places@.take(k as int).map_values(f).push(
                row@,
            ));
        }
        out.push(row);
        k += 1;
    }
    assert(places@.take(places@.len() as int) =~= places@);
    out
}

fn copy_row(row: &Row) -> (r: Row)
    ensures
        r@ == row@,
{
    let file = match &row.file {
        Some(f) => Some(f.clone()),
        None => None,
    };
    let mut spans: Vec<(usize, usize)> = Vec::new();
    let mut i: usize = 0;
    while i < row.spans.len()
        invariant
            i <= row.spans@.len(),
            spans@ == row.spans@.take(i as int),
        decreases row.spans@.len() - i,
    {
        spans.push(row.spans[i]);
        assert(row.spans@.take(i + 1) =~= row.spans@.take(i as int).push(row.spans@[i as int]));
        i += 1;
    }
    assert(row.spans@.take(row.spans@.len() as int) =~= row.spans@);
    let mut columns: Vec<usize> = Vec::new();
    let mut j: usize = 0;
    while j < row.columns.len()
        invariant
            j <= row.columns@.len(),
            columns@ == row.columns@.take(j as int),
        decreases row.columns@.len() - j,
    {
        columns.push(row.columns[j]);
        assert(row.columns@.take(j + 1) =~= row.columns@.take(j as int).push(
            row.columns@[j as int],
        ));
        j += 1;
    }
    assert(row.columns@.take(row.columns@.len() as int) =~= row.columns@);
    Row {
        file,
        kind: row.kind,
        line: row.line,
        content: row.content.clone(),
        offset: row.offset,
        term: row.term,
        span_count: row.span_count,
        spans,
        columns,
        lines: row.lines,
    }
}

/// The state once the names of files are written.
pub open spec fn files_written(style: Style, st: WriterState, files: Seq<Seq<char>>) -> WriterState
    decreases files.len(),
{
    if files.len() == 0 {
        st
    } else {
        style.file_written(files_written(style, st, files.drop_last()), files.last())
    }
}

/// Writes the name of each file that has a row.
pub fn write_row_files(rows: &Vec<Row>, writer: &mut OutputWriter)
    requires
        old(writer).wf(),
    ensures
        final(writer).wf(),
        final(writer).style() == old(writer).style(),
        final(writer)@ == files_written(
            old(writer).style(),
            old(writer)@,
            files_of(row_views(rows@)),
        ),
{
    let files = distinct_files(rows);
    write_files(&files, writer);
}

/// Writes the names of files.
pub fn write_files(files: &Vec<String>, writer: &mut OutputWriter)
    requires
        old(writer).wf(),
    ensures
        final(writer).wf(),
        final(writer).style() == old(writer).style(),
        final(writer)@ == files_written(old(writer).style(), old(writer)@, texts(files@)),
{
    let ghost style = writer.style();
    let ghost start = writer@;
    let ghost all = texts(files@);
    let mut i: usize = 0;
    assert(all.take(0) =~= Seq::<Seq<char>>::empty());
    while i < files.len()
        invariant
            i <= files@.len(),
            writer.wf(),
            writer.style() == style,
            all == texts(files@),
            writer@ == files_written(style, start, all.take(i as int)),
        decreases files@.len() - i,
    {
        assert(all.take(i + 1).drop_last() =~= all.take(i as int));
        assert(all.take(i + 1).last() == files@[i as int]@);
        writer.write_file(files[i].as_str());
        i += 1;
    }
    assert(all.take(all.len() as int) =~= all);
}

/// Whether a row counts: one of a match or a binary file, and of which file.
pub open spec fn counts(row: RowView) -> bool {
    row.file is Some && (row.kind == RowKind::Match || row.kind == RowKind::Binary)
}

/// The files that are counted, in the order in which they first occur.
pub open spec fn counted_files(rows: Seq<RowView>) -> Seq<Seq<char>> {
    files_of(rows.filter(|r: RowView| counts(r)))
}

/// The number of matching lines that a file's last summary row gives.
pub open spec fn summed_lines(rows: Seq<RowView>, file: Seq<char>) -> Option<usize>
    decreases rows.len(),
{
    if rows.len() == 0 {
        None
    } else if rows.last().kind == RowKind::Binary && rows.last().file == Some(file) {
        Some(rows.last().lines as usize)
    } else {
        summed_lines(rows.drop_last(), file)
    }
}

/// The number of matches on a row: a row without spans is still one match.
pub open spec fn matches_on(row: RowView) -> nat {
    match row.span_count {
        Some(n) => if n < 1 {
            1
        } else {
            n
        },
        None => 1,
    }
}

/// The number of matches in a file.
pub open spec fn match_total(rows: Seq<RowView>, file: Seq<char>) -> nat
    decreases rows.len(),
{
    if rows.len() == 0 {
        0
    } else {
        match_total(rows.drop_last(), file) + if rows.last().kind == RowKind::Match
            && rows.last().file == Some(file) {
            matches_on(rows.last())
        } else {
            0
        }
    }
}

/// The matching lines of all files.
pub open spec fn match_lines(rows: Seq<RowView>) -> Set<(Seq<char>, u64)>
    decreases rows.len(),
{
    if rows.len() == 0 {
        Set::empty()
    } else {
        let front = match_lines(rows.drop_last());
        match rows.last().file {
            Some(file) if rows.last().kind == RowKind::Match => front.insert(
                (file, rows.last().line),
            ),
            _ => front,
        }
    }
}

/// The number that is reported for a file: of its matches or its matching
/// lines; a binary file's is the one its summary row carries.
pub open spec fn reported_count(rows: Seq<RowView>, file: Seq<char>, count_matches: bool) -> nat {
    match summed_lines(rows, file) {
        Some(n) => n as nat,
        None => if count_matches {
            if match_total(rows, file) > usize::MAX {
                usize::MAX as nat
            } else {
                match_total(rows, file)
            }
        } else {
            lines_in(match_lines(rows), file).len()
        },
    }
}

/// The state once the numbers of files are written.
pub open spec fn counts_written(
    style: Style,
    st: WriterState,
    rows: Seq<RowView>,
    files: Seq<Seq<char>>,
    count_matches: bool,
) -> WriterState
    decreases files.len(),
{
    if files.len() == 0 {
        st
    } else {
        style.count_written(
            counts_written(style, st, rows, files.drop_last(), count_matches),
            files.last(),
            reported_count(rows, files.last(), count_matches),
        )
    }
}

/// The counted files of rows.
fn collect_counted(rows: &Vec<Row>) -> (r: Vec<String>)
    ensures
        texts(r@) == counted_files(row_views(rows@)),
{
    let mut out: Vec<String> = Vec::new();
    let mut seen: PathMap<bool> = PathMap::new();
    let ghost all = row_views(rows@);
    let ghost p = |r: RowView| counts(r);
    let mut i: usize = 0;
    proof {
        reveal(Seq::filter);
        assert(all.take(0).filter(p) =~= Seq::<RowView>::empty());
        assert(texts(out@) =~= files_of(all.take(0).filter(p)));
    }
    while i < rows.len()
        invariant
            i <= rows@.len(),
            all == row_views(rows@),
            p == (|r: RowView| counts(r)),
            seen.wf(),
            texts(out@) == files_of(all.take(i as int).filter(p)),
            forall|f: Seq<char>| #[trigger]
                seen@.contains_key(f) == files_of(all.take(i as int).filter(p)).contains(f),
        decreases rows@.len() - i,
    {
        let ghost kept = all.take(i as int).filter(p);
        let ghost front = files_of(kept);
        let ghost before = seen@;
        let ghost row = rows@[i as int]@;
        proof {
            reveal(Seq::filter);
            assert(all.take(i + 1).drop_last() =~= all.take(i as int));
            assert(all.take(i + 1).last() == row);
            if counts(row) {
                assert(kept.push(row).drop_last() =~= kept);
            }
        }
        if rows[i].kind == RowKind::Match || rows[i].kind == RowKind::Binary {
            if let Some(file) = &rows[i].file {
                if !seen.contains_key(file.as_str()) {
                    seen.insert(file.clone(), true);
                    let copy = file.clone();
                    proof {
                        lemma_texts_push(out@, copy);
                        let after = front.push(file@);
                        assert forall|f: Seq<char>| #[trigger] seen@.contains_key(f)
                            == after.contains(f) by {
                            assert(before.contains_key(f) == front.contains(f));
                            if front.contains(f) {
                                let k = choose|k: int| 0 <= k < front.len() && front[k] == f;
                                assert(after[k] == f);
                            }
                            if after.contains(f) && f != file@ {
                                let k = choose|k: int| 0 <= k < after.len() && after[k] == f;
                                assert(front[k] == f);
                            }
                            assert(after[front.len() as int] == file@);
                        }
                    }
                    out.push(copy);
                }
            }
        }
        i += 1;
    }
    assert(all.take(all.len() as int) =~= all);
    out
}

/// The numbers of matches and of lines by file.
struct Tally {
    exact: PathMap<usize>,
    totals: PathMap<usize>,
    lines: LinesByFile,
}

spec fn capped(n: nat) -> usize {
    if n > usize::MAX {
        usize::MAX
    } else {
        n as usize
    }
}

impl Tally {
    /// The tally is that of the rows.
    spec fn is_of(self, rows: Seq<RowView>) -> bool {
        &&& self.exact.wf()
        &&& self.totals.wf()
        &&& self.lines.wf()
        &&& self.lines@ == match_lines(rows)
        &&& forall|f: Seq<char>| #[trigger]
            self.exact@.contains_key(f) == (summed_lines(rows, f) is Some)
        &&& forall|f: Seq<char>| #[trigger]
            self.exact@.contains_key(f) ==> Some(self.exact@[f]) == summed_lines(rows, f)
        &&& forall|f: Seq<char>| #[trigger]
            self.totals@.contains_key(f) ==> self.totals@[f] == capped(match_total(rows, f))
        &&& forall|f: Seq<char>|
            !#[trigger] self.totals@.contains_key(f) ==> match_total(rows, f) == 0
    }
}

fn tally_rows(rows: &Vec<Row>) -> (r: Tally)
    ensures
        r.is_of(row_views(rows@)),
{
    let mut exact: PathMap<usize> = PathMap::new();
    let mut totals: PathMap<usize> = PathMap::new();
    let mut lines = LinesByFile::new();
    let ghost all = row_views(rows@);
    let mut i: usize = 0;
    while i < rows.len()
        invariant
            i <= rows@.len(),
            all == row_views(rows@),
            (Tally { exact, totals, lines }).is_of(all.take(i as int)),
        decreases rows@.len() - i,
    {
        let ghost done = all.take(i as int);
        let ghost next = all.take(i + 1);
        let ghost row = rows@[i as int]@;
        let ghost was = Tally { exact, totals, lines };
        proof {
            assert(next.drop_last() =~= done);
            assert(next.last() == row);
        }
        if let Some(file) = &rows[i].file {
            if rows[i].kind == RowKind::Binary {
                let n: usize = #[verifier::truncate] (rows[i].lines as usize);
                exact.insert(file.clone(), n);
            } else if rows[i].kind == RowKind::Match {
                let _ = lines.insert(file.as_str(), rows[i].line);
                let n: usize = match rows[i].span_count {
                    Some(n) => if n < 1 {
                        1
                    } else {
                        n
                    },
                    None => 1,
                };
                let total: usize = match totals.get(file.as_str()) {
                    Some(t) => *t,
                    None => 0,
                };
                let sum: usize = if n > usize::MAX - total {
                    usize::MAX
                } else {
                    total + n
                };
                totals.insert(file.clone(), sum);
            }
        }
        proof {
            let now = Tally { exact, totals, lines };
            assert forall|f: Seq<char>| #[trigger] now.exact@.contains_key(f) == (summed_lines(
                next,
                f,
            ) is Some) by {
                assert(was.exact@.contains_key(f) == (summed_lines(done, f) is Some));
            }
            assert forall|f: Seq<char>| #[trigger] now.exact@.contains_key(f) implies Some(
                now.exact@[f],
            ) == summed_lines(next, f) by {
                assert(was.exact@.contains_key(f) == (summed_lines(done, f) is Some));
            }
            assert forall|f: Seq<char>| #[trigger] now.totals@.contains_key(f) implies now.totals@[f]
                == capped(match_total(next, f)) by {
                if was.totals@.contains_key(f) {
                    assert(was.totals@[f] == capped(match_total(done, f)));
                } else {
                    assert(match_total(done, f) == 0);
                }
            }
            assert forall|f: Seq<char>|
                !#[trigger] now.totals@.contains_key(f) implies match_total(next, f) == 0 by {
                assert(!was.totals@.contains_key(f));
            }
        }
        i += 1;
    }
    assert(all.take(all.len() as int) =~= all);
    Tally { exact, totals, lines }
}

/// Writes the number of matches or of matching lines of each file that has
/// any.
pub fn write_row_counts(rows: &Vec<Row>, count_matches: bool, writer: &mut OutputWriter)
    requires
        old(writer).wf(),
    ensures
        final(writer).wf(),
        final(writer).style() == old(writer).style(),
        final(writer)@ == counts_written(
            old(writer).style(),
            old(writer)@,
            row_views(rows@),
            counted_files(row_views(rows@)),
            count_matches,
        ),
{
    let files = collect_counted(rows);
    let tally = tally_rows(rows);
    let ghost style = writer.style();
    let ghost start = writer@;
    let ghost all = row_views(rows@);
    let ghost names = texts(files@);
    let mut i: usize = 0;
    assert(names.take(0) =~= Seq::<Seq<char>>::empty());
    while i < files.len()
        invariant
            i <= files@.len(),
            writer.wf(),
            writer.style() == style,
            names == texts(files@),
            tally.is_of(all),
            writer@ == counts_written(style, start, all, names.take(i as int), count_matches),
        decreases files@.len() - i,
    {
        let file = files[i].as_str();
        assert(names.take(i + 1).drop_last() =~= names.take(i as int));
        assert(names.take(i + 1).last() == file@);
        let n: usize = match tally.exact.get(file) {
            Some(n) => *n,
            None => if count_matches {
                match tally.totals.get(file) {
                    Some(n) => *n,
                    None => 0,
                }
            } else {
                tally.lines.count(file)
            },
        };
        assert(tally.exact@.contains_key(file@) == (summed_lines(all, file@) is Some));
        assert(n == reported_count(all, file@, count_matches));
        writer.write_count(file, n);
        i += 1;
    }
    assert(names.take(names.len() as int) =~= names);
}

} // verus!
