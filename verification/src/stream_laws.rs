//! What a stream of JSON events says: one line for each event, what it is, and
//! what it counts.
use crate::clock::Elapsed;
use crate::json::{json_text, JsonTree};
use crate::output::{
    begin_tree, end_tree, line_tree, submatch_tree, summary_tree, ContextView, MatchView, Stats,
    Style, WriterState,
};
use vstd::prelude::*;

verus! {

proof fn lemma_event_keys()
    ensures
        "type"@ != "data"@,
        "type"@ != "path"@,
        "type"@ != "text"@,
        "type"@ != "lines"@,
        "type"@ != "line_number"@,
        "type"@ != "absolute_offset"@,
        "type"@ != "submatches"@,
        "type"@ != "match"@,
        "type"@ != "start"@,
        "type"@ != "end"@,
        "type"@ != "binary_offset"@,
        "type"@ != "stats"@,
        "type"@ != "elapsed"@,
        "type"@ != "searches"@,
        "type"@ != "searches_with_match"@,
        "type"@ != "bytes_searched"@,
        "type"@ != "bytes_printed"@,
        "type"@ != "matched_lines"@,
        "type"@ != "matches"@,
        "type"@ != "elapsed_total"@,
        "type"@ != "secs"@,
        "type"@ != "nanos"@,
        "type"@ != "human"@,
        "data"@ != "path"@,
        "data"@ != "text"@,
        "data"@ != "lines"@,
        "data"@ != "line_number"@,
        "data"@ != "absolute_offset"@,
        "data"@ != "submatches"@,
        "data"@ != "match"@,
        "data"@ != "start"@,
        "data"@ != "end"@,
        "data"@ != "binary_offset"@,
        "data"@ != "stats"@,
        "data"@ != "elapsed"@,
        "data"@ != "searches"@,
        "data"@ != "searches_with_match"@,
        "data"@ != "bytes_searched"@,
        "data"@ != "bytes_printed"@,
        "data"@ != "matched_lines"@,
        "data"@ != "matches"@,
        "data"@ != "elapsed_total"@,
        "data"@ != "secs"@,
        "data"@ != "nanos"@,
        "data"@ != "human"@,
        "path"@ != "text"@,
        "path"@ != "lines"@,
        "path"@ != "line_number"@,
        "path"@ != "absolute_offset"@,
        "path"@ != "submatches"@,
        "path"@ != "match"@,
        "path"@ != "start"@,
        "path"@ != "end"@,
        "path"@ != "binary_offset"@,
        "path"@ != "stats"@,
        "path"@ != "elapsed"@,
        "path"@ != "searches"@,
        "path"@ != "searches_with_match"@,
        "path"@ != "bytes_searched"@,
        "path"@ != "bytes_printed"@,
        "path"@ != "matched_lines"@,
        "path"@ != "matches"@,
        "path"@ != "elapsed_total"@,
        "path"@ != "secs"@,
        "path"@ != "nanos"@,
        "path"@ != "human"@,
        "text"@ != "lines"@,
        "text"@ != "line_number"@,
        "text"@ != "absolute_offset"@,
        "text"@ != "submatches"@,
        "text"@ != "match"@,
        "text"@ != "start"@,
        "text"@ != "end"@,
        "text"@ != "binary_offset"@,
        "text"@ != "stats"@,
        "text"@ != "elapsed"@,
        "text"@ != "searches"@,
        "text"@ != "searches_with_match"@,
        "text"@ != "bytes_searched"@,
        "text"@ != "bytes_printed"@,
        "text"@ != "matched_lines"@,
        "text"@ != "matches"@,
        "text"@ != "elapsed_total"@,
        "text"@ != "secs"@,
        "text"@ != "nanos"@,
        "text"@ != "human"@,
        "lines"@ != "line_number"@,
        "lines"@ != "absolute_offset"@,
        "lines"@ != "submatches"@,
        "lines"@ != "match"@,
        "lines"@ != "start"@,
        "lines"@ != "end"@,
        "lines"@ != "binary_offset"@,
        "lines"@ != "stats"@,
        "lines"@ != "elapsed"@,
        "lines"@ != "searches"@,
        "lines"@ != "searches_with_match"@,
        "lines"@ != "bytes_searched"@,
        "lines"@ != "bytes_printed"@,
        "lines"@ != "matched_lines"@,
        "lines"@ != "matches"@,
        "lines"@ != "elapsed_total"@,
        "lines"@ != "secs"@,
        "lines"@ != "nanos"@,
        "lines"@ != "human"@,
        "line_number"@ != "absolute_offset"@,
        "line_number"@ != "submatches"@,
        "line_number"@ != "match"@,
        "line_number"@ != "start"@,
        "line_number"@ != "end"@,
        "line_number"@ != "binary_offset"@,
        "line_number"@ != "stats"@,
        "line_number"@ != "elapsed"@,
        "line_number"@ != "searches"@,
        "line_number"@ != "searches_with_match"@,
        "line_number"@ != "bytes_searched"@,
        "line_number"@ != "bytes_printed"@,
        "line_number"@ != "matched_lines"@,
        "line_number"@ != "matches"@,
        "line_number"@ != "elapsed_total"@,
        "line_number"@ != "secs"@,
        "line_number"@ != "nanos"@,
        "line_number"@ != "human"@,
        "absolute_offset"@ != "submatches"@,
        "absolute_offset"@ != "match"@,
        "absolute_offset"@ != "start"@,
        "absolute_offset"@ != "end"@,
        "absolute_offset"@ != "binary_offset"@,
        "absolute_offset"@ != "stats"@,
        "absolute_offset"@ != "elapsed"@,
        "absolute_offset"@ != "searches"@,
        "absolute_offset"@ != "searches_with_match"@,
        "absolute_offset"@ != "bytes_searched"@,
        "absolute_offset"@ != "bytes_printed"@,
        "absolute_offset"@ != "matched_lines"@,
        "absolute_offset"@ != "matches"@,
        "absolute_offset"@ != "elapsed_total"@,
        "absolute_offset"@ != "secs"@,
        "absolute_offset"@ != "nanos"@,
        "absolute_offset"@ != "human"@,
        "submatches"@ != "match"@,
        "submatches"@ != "start"@,
        "submatches"@ != "end"@,
        "submatches"@ != "binary_offset"@,
        "submatches"@ != "stats"@,
        "submatches"@ != "elapsed"@,
        "submatches"@ != "searches"@,
        "submatches"@ != "searches_with_match"@,
        "submatches"@ != "bytes_searched"@,
        "submatches"@ != "bytes_printed"@,
        "submatches"@ != "matched_lines"@,
        "submatches"@ != "matches"@,
        "submatches"@ != "elapsed_total"@,
        "submatches"@ != "secs"@,
        "submatches"@ != "nanos"@,
        "submatches"@ != "human"@,
        "match"@ != "start"@,
        "match"@ != "end"@,
        "match"@ != "binary_offset"@,
        "match"@ != "stats"@,
        "match"@ != "elapsed"@,
        "match"@ != "searches"@,
        "match"@ != "searches_with_match"@,
        "match"@ != "bytes_searched"@,
        "match"@ != "bytes_printed"@,
        "match"@ != "matched_lines"@,
        "match"@ != "matches"@,
        "match"@ != "elapsed_total"@,
        "match"@ != "secs"@,
        "match"@ != "nanos"@,
        "match"@ != "human"@,
        "start"@ != "end"@,
        "start"@ != "binary_offset"@,
        "start"@ != "stats"@,
        "start"@ != "elapsed"@,
        "start"@ != "searches"@,
        "start"@ != "searches_with_match"@,
        "start"@ != "bytes_searched"@,
        "start"@ != "bytes_printed"@,
        "start"@ != "matched_lines"@,
        "start"@ != "matches"@,
        "start"@ != "elapsed_total"@,
        "start"@ != "secs"@,
        "start"@ != "nanos"@,
        "start"@ != "human"@,
        "end"@ != "binary_offset"@,
        "end"@ != "stats"@,
        "end"@ != "elapsed"@,
        "end"@ != "searches"@,
        "end"@ != "searches_with_match"@,
        "end"@ != "bytes_searched"@,
        "end"@ != "bytes_printed"@,
        "end"@ != "matched_lines"@,
        "end"@ != "matches"@,
        "end"@ != "elapsed_total"@,
        "end"@ != "secs"@,
        "end"@ != "nanos"@,
        "end"@ != "human"@,
        "binary_offset"@ != "stats"@,
        "binary_offset"@ != "elapsed"@,
        "binary_offset"@ != "searches"@,
        "binary_offset"@ != "searches_with_match"@,
        "binary_offset"@ != "bytes_searched"@,
        "binary_offset"@ != "bytes_printed"@,
        "binary_offset"@ != "matched_lines"@,
        "binary_offset"@ != "matches"@,
        "binary_offset"@ != "elapsed_total"@,
        "binary_offset"@ != "secs"@,
        "binary_offset"@ != "nanos"@,
        "binary_offset"@ != "human"@,
        "stats"@ != "elapsed"@,
        "stats"@ != "searches"@,
        "stats"@ != "searches_with_match"@,
        "stats"@ != "bytes_searched"@,
        "stats"@ != "bytes_printed"@,
        "stats"@ != "matched_lines"@,
        "stats"@ != "matches"@,
        "stats"@ != "elapsed_total"@,
        "stats"@ != "secs"@,
        "stats"@ != "nanos"@,
        "stats"@ != "human"@,
        "elapsed"@ != "searches"@,
        "elapsed"@ != "searches_with_match"@,
        "elapsed"@ != "bytes_searched"@,
        "elapsed"@ != "bytes_printed"@,
        "elapsed"@ != "matched_lines"@,
        "elapsed"@ != "matches"@,
        "elapsed"@ != "elapsed_total"@,
        "elapsed"@ != "secs"@,
        "elapsed"@ != "nanos"@,
        "elapsed"@ != "human"@,
        "searches"@ != "searches_with_match"@,
        "searches"@ != "bytes_searched"@,
        "searches"@ != "bytes_printed"@,
        "searches"@ != "matched_lines"@,
        "searches"@ != "matches"@,
        "searches"@ != "elapsed_total"@,
        "searches"@ != "secs"@,
        "searches"@ != "nanos"@,
        "searches"@ != "human"@,
        "searches_with_match"@ != "bytes_searched"@,
        "searches_with_match"@ != "bytes_printed"@,
        "searches_with_match"@ != "matched_lines"@,
        "searches_with_match"@ != "matches"@,
        "searches_with_match"@ != "elapsed_total"@,
        "searches_with_match"@ != "secs"@,
        "searches_with_match"@ != "nanos"@,
        "searches_with_match"@ != "human"@,
        "bytes_searched"@ != "bytes_printed"@,
        "bytes_searched"@ != "matched_lines"@,
        "bytes_searched"@ != "matches"@,
        "bytes_searched"@ != "elapsed_total"@,
        "bytes_searched"@ != "secs"@,
        "bytes_searched"@ != "nanos"@,
        "bytes_searched"@ != "human"@,
        "bytes_printed"@ != "matched_lines"@,
        "bytes_printed"@ != "matches"@,
        "bytes_printed"@ != "elapsed_total"@,
        "bytes_printed"@ != "secs"@,
        "bytes_printed"@ != "nanos"@,
        "bytes_printed"@ != "human"@,
        "matched_lines"@ != "matches"@,
        "matched_lines"@ != "elapsed_total"@,
        "matched_lines"@ != "secs"@,
        "matched_lines"@ != "nanos"@,
        "matched_lines"@ != "human"@,
        "matches"@ != "elapsed_total"@,
        "matches"@ != "secs"@,
        "matches"@ != "nanos"@,
        "matches"@ != "human"@,
        "elapsed_total"@ != "secs"@,
        "elapsed_total"@ != "nanos"@,
        "elapsed_total"@ != "human"@,
        "secs"@ != "nanos"@,
        "secs"@ != "human"@,
        "nanos"@ != "human"@,
{
    reveal_strlit("type");
    reveal_strlit("data");
    reveal_strlit("path");
    reveal_strlit("text");
    reveal_strlit("lines");
    reveal_strlit("line_number");
    reveal_strlit("absolute_offset");
    reveal_strlit("submatches");
    reveal_strlit("match");
    reveal_strlit("start");
    reveal_strlit("end");
    reveal_strlit("binary_offset");
    reveal_strlit("stats");
    reveal_strlit("elapsed");
    reveal_strlit("searches");
    reveal_strlit("searches_with_match");
    reveal_strlit("bytes_searched");
    reveal_strlit("bytes_printed");
    reveal_strlit("matched_lines");
    reveal_strlit("matches");
    reveal_strlit("elapsed_total");
    reveal_strlit("secs");
    reveal_strlit("nanos");
    reveal_strlit("human");
    assert("type"@.len() == 4);
    assert("data"@.len() == 4);
    assert("path"@.len() == 4);
    assert("text"@.len() == 4);
    assert("lines"@.len() == 5);
    assert("line_number"@.len() == 11);
    assert("absolute_offset"@.len() == 15);
    assert("submatches"@.len() == 10);
    assert("match"@.len() == 5);
    assert("start"@.len() == 5);
    assert("end"@.len() == 3);
    assert("binary_offset"@.len() == 13);
    assert("stats"@.len() == 5);
    assert("elapsed"@.len() == 7);
    assert("searches"@.len() == 8);
    assert("searches_with_match"@.len() == 19);
    assert("bytes_searched"@.len() == 14);
    assert("bytes_printed"@.len() == 13);
    assert("matched_lines"@.len() == 13);
    assert("matches"@.len() == 7);
    assert("elapsed_total"@.len() == 13);
    assert("secs"@.len() == 4);
    assert("nanos"@.len() == 5);
    assert("human"@.len() == 5);
    assert("type"@[0] != "data"@[0]);
    assert("type"@[0] != "path"@[0]);
    assert("type"@[1] != "text"@[1]);
    assert("type"@[0] != "secs"@[0]);
    assert("data"@[0] != "path"@[0]);
    assert("data"@[0] != "text"@[0]);
    assert("data"@[0] != "secs"@[0]);
    assert("path"@[0] != "text"@[0]);
    assert("path"@[0] != "secs"@[0]);
    assert("text"@[0] != "secs"@[0]);
    assert("lines"@[0] != "match"@[0]);
    assert("lines"@[0] != "start"@[0]);
    assert("lines"@[0] != "stats"@[0]);
    assert("lines"@[0] != "nanos"@[0]);
    assert("lines"@[0] != "human"@[0]);
    assert("match"@[0] != "start"@[0]);
    assert("match"@[0] != "stats"@[0]);
    assert("match"@[0] != "nanos"@[0]);
    assert("match"@[0] != "human"@[0]);
    assert("start"@[3] != "stats"@[3]);
    assert("start"@[0] != "nanos"@[0]);
    assert("start"@[0] != "human"@[0]);
    assert("binary_offset"@[1] != "bytes_printed"@[1]);
    assert("binary_offset"@[0] != "matched_lines"@[0]);
    assert("binary_offset"@[0] != "elapsed_total"@[0]);
    assert("stats"@[0] != "nanos"@[0]);
    assert("stats"@[0] != "human"@[0]);
    assert("elapsed"@[0] != "matches"@[0]);
    assert("bytes_printed"@[0] != "matched_lines"@[0]);
    assert("bytes_printed"@[0] != "elapsed_total"@[0]);
    assert("matched_lines"@[0] != "elapsed_total"@[0]);
    assert("nanos"@[0] != "human"@[0]);
}

/// What an event says under a name.
pub open spec fn said(event: JsonTree, key: Seq<char>) -> Option<JsonTree> {
    match event.field("data"@) {
        Some(data) => data.field(key),
        None => None,
    }
}

/// The text that an event wraps under a name.
pub open spec fn said_text(event: JsonTree, key: Seq<char>) -> Option<Seq<char>> {
    match said(event, key) {
        Some(inner) => inner.field_text("text"@),
        None => None,
    }
}

/// What an event counts under a name.
pub open spec fn said_count(event: JsonTree, key: Seq<char>) -> Option<u64> {
    match said(event, "stats"@) {
        Some(stats) => stats.field_unsigned(key),
        None => None,
    }
}

/// Whether an event counts what statistics hold.
pub open spec fn counts_stats(event: JsonTree, s: Stats) -> bool {
    &&& said_count(event, "searches"@) == Some(s.searches)
    &&& said_count(event, "searches_with_match"@) == Some(s.searches_with_match)
    &&& said_count(event, "bytes_searched"@) == Some(s.bytes_searched)
    &&& said_count(event, "bytes_printed"@) == Some(s.bytes_printed)
    &&& said_count(event, "matched_lines"@) == Some(s.matched_lines)
    &&& said_count(event, "matches"@) == Some(s.matches)
}

/// Whether what is written behind a text is one event on a line of its own.
pub open spec fn adds_event(before: Seq<char>, after: Seq<char>, event: JsonTree) -> bool {
    after == before + json_text(event) + seq!['\n']
}

proof fn lemma_line(event: JsonTree)
    ensures
        crate::output::event_line(event) == json_text(event) + seq!['\n'],
{
    reveal_strlit("\n");
    assert("\n"@ =~= seq!['\n']);
}

proof fn lemma_adds(before: Seq<char>, event: JsonTree)
    ensures
        adds_event(before, before + crate::output::event_line(event), event),
{
    lemma_line(event);
    assert(before + (json_text(event) + seq!['\n']) =~= before + json_text(event) + seq!['\n']);
}

/// The first event of a file says that it begins, under its path; before it the
/// file before is ended. What the file counts starts anew.
pub proof fn law_files_begin_with_an_event(style: Style, st: WriterState, file: Seq<char>)
    requires
        st.current_file != Some(file),
    ensures
        ({
            let closed = style.file_closed(st);
            let opened = style.file_opened(st, file);
            &&& exists|e: JsonTree| #[trigger]
                adds_event(closed.out, opened.out, e) && e.field_text("type"@) == Some("begin"@)
                    && said_text(e, "path"@) == Some(style.path(file))
            &&& opened.current_file == Some(file)
            &&& opened.file_stats.searches == 1
            &&& opened.file_stats.matches == closed.file_stats.matches
            &&& opened.file_stats.matched_lines == closed.file_stats.matched_lines
            &&& opened.file_stats.bytes_searched == closed.pending_bytes_searched
        }),
{
    lemma_event_keys();
    let e = begin_tree(style.path(file));
    lemma_adds(style.file_closed(st).out, e);
    assert(adds_event(style.file_closed(st).out, style.file_opened(st, file).out, e));
    assert(said_text(e, "path"@) == Some(style.path(file)));
}

/// A file that is open is not begun again.
pub proof fn law_files_begin_once(style: Style, st: WriterState, file: Seq<char>)
    requires
        st.current_file == Some(file),
    ensures
        style.file_opened(st, file) == st,
{
}

/// The last event of a file says that it ends: its path, where its null byte is,
/// and what was counted. The counts go into the totals, and the next file starts
/// without any.
pub proof fn law_files_end_with_their_counts(style: Style, st: WriterState, file: Seq<char>)
    requires
        st.current_file == Some(file),
    ensures
        ({
            let s = Stats {
                searches_with_match: if st.file_stats.matched_lines > 0 {
                    1
                } else {
                    st.file_stats.searches_with_match
                },
                ..st.file_stats
            };
            let after = style.file_closed(st);
            &&& exists|e: JsonTree| #[trigger]
                adds_event(st.out, after.out, e) && e.field_text("type"@) == Some("end"@)
                    && said_text(e, "path"@) == Some(style.path(file)) && counts_stats(e, s) && (
                match st.binary_offset {
                    Some(n) => said(e, "binary_offset"@) == Some(JsonTree::unsigned(n)),
                    None => said(e, "binary_offset"@) == Some(JsonTree::Null),
                })
            &&& after.current_file is None
            &&& after.binary_offset is None
            &&& after.file_stats == (Stats {
                searches: 0,
                searches_with_match: 0,
                bytes_searched: 0,
                bytes_printed: 0,
                matched_lines: 0,
                matches: 0,
            })
            &&& st.total_stats.matches + s.matches <= u64::MAX ==> after.total_stats.matches
                == st.total_stats.matches + s.matches
            &&& st.total_stats.matched_lines + s.matched_lines <= u64::MAX
                ==> after.total_stats.matched_lines == st.total_stats.matched_lines
                + s.matched_lines
            &&& st.total_stats.searches_with_match + s.searches_with_match <= u64::MAX
                ==> after.total_stats.searches_with_match == st.total_stats.searches_with_match
                + s.searches_with_match
        }),
{
    lemma_event_keys();
    let s = Stats {
        searches_with_match: if st.file_stats.matched_lines > 0 {
            1
        } else {
            st.file_stats.searches_with_match
        },
        ..st.file_stats
    };
    let e = end_tree(
        style.path(file),
        st.binary_offset,
        s,
        Elapsed::between(st.file_started, st.now),
    );
    lemma_adds(st.out, e);
    assert(adds_event(st.out, style.file_closed(st).out, e));
    assert(said_text(e, "path"@) == Some(style.path(file)));
    assert(counts_stats(e, s));
}

/// Without an open file there is nothing to end.
pub proof fn law_nothing_ends_without_a_file(style: Style, st: WriterState)
    requires
        st.current_file is None,
    ensures
        style.file_closed(st) == st,
{
}

/// A match is an event with its path, its line with the line feed, its number,
/// its offset, and the place and the text of each match in it. It counts as one
/// line, once, and as many matches as there are places.
pub proof fn law_matches_are_events(style: Style, st: WriterState, m: MatchView)
    requires
        style.is_json(),
        !style.config.trim,
    ensures
        ({
            let opened = style.file_opened(st, m.file);
            let after = style.match_written(st, m);
            &&& exists|e: JsonTree| #[trigger]
                adds_event(opened.out, after.out, e) && e.field_text("type"@) == Some("match"@)
                    && said_text(e, "path"@) == Some(style.path(m.file)) && said_text(e, "lines"@)
                    == Some(m.content.push('\n')) && said(e, "line_number"@) == Some(
                    JsonTree::unsigned(m.line_number as u64),
                ) && said(e, "absolute_offset"@) == Some(
                    JsonTree::unsigned(m.absolute_offset as u64),
                ) && shows_places(said(e, "submatches"@), m)
            &&& after.current_file == Some(m.file)
            &&& opened.file_stats.matches + m.spans.len() <= u64::MAX ==> after.file_stats.matches
                == opened.file_stats.matches + m.spans.len()
            &&& opened.file_stats.matched_lines < u64::MAX ==> after.file_stats.matched_lines == (
            if opened.last_json_match_line == Some(m.line_number) {
                opened.file_stats.matched_lines
            } else {
                (opened.file_stats.matched_lines + 1) as u64
            })
            &&& after.last_json_match_line == Some(m.line_number)
        }),
{
    reveal(Style::match_written);
    lemma_event_keys();
    reveal_strlit("\n");
    assert(m.content + "\n"@ =~= m.content.push('\n'));
    let opened = style.file_opened(st, m.file);
    let places = m.spans.map_values(|span: (usize, usize)| submatch_tree(m.content, span));
    let e = line_tree(
        "match"@,
        style.path(m.file),
        m.content,
        m.line_number,
        m.absolute_offset,
        places,
    );
    lemma_adds(opened.out, e);
    assert forall|i: int| 0 <= i < places.len() implies shows_place(
        #[trigger] places[i],
        m,
        i,
    ) by {}
    assert(said(e, "submatches"@) == Some(JsonTree::List(places)));
    assert(adds_event(opened.out, style.match_written(st, m).out, e));
    assert(said_text(e, "path"@) == Some(style.path(m.file)));
    assert(said_text(e, "lines"@) == Some(m.content.push('\n')));
}

/// Whether data shows the place and the text of one match of a line.
pub open spec fn shows_place(item: JsonTree, m: MatchView, i: int) -> bool {
    &&& item.field_unsigned("start"@) == Some(m.spans[i].0 as u64)
    &&& item.field_unsigned("end"@) == Some(m.spans[i].1 as u64)
    &&& item.field("match"@) matches Some(inner) && inner.field_text("text"@) == Some(
        crate::slices::piece(m.content, m.spans[i].0 as int, m.spans[i].1 as int),
    )
}

/// Whether data shows the places of all matches of a line, in order.
pub open spec fn shows_places(list: Option<JsonTree>, m: MatchView) -> bool {
    list matches Some(JsonTree::List(items)) && items.len() == m.spans.len() && forall|i: int|
        0 <= i < items.len() ==> shows_place(#[trigger] items[i], m, i)
}

/// A line of context is an event like a match, without places, and counts for
/// nothing.
pub proof fn law_context_lines_are_events(style: Style, st: WriterState, c: ContextView)
    requires
        style.is_json(),
        !style.config.trim,
    ensures
        ({
            let opened = style.file_opened(st, c.file);
            let after = style.context_written(st, c);
            &&& exists|e: JsonTree| #[trigger]
                adds_event(opened.out, after.out, e) && e.field_text("type"@) == Some("context"@)
                    && said_text(e, "path"@) == Some(style.path(c.file)) && said_text(e, "lines"@)
                    == Some(c.content.push('\n')) && said(e, "line_number"@) == Some(
                    JsonTree::unsigned(c.line_number as u64),
                ) && said(e, "absolute_offset"@) == Some(
                    JsonTree::unsigned(c.absolute_offset as u64),
                ) && (said(e, "submatches"@) matches Some(JsonTree::List(items)) && items.len()
                    == 0)
            &&& after.file_stats.matches == opened.file_stats.matches
            &&& after.file_stats.matched_lines == opened.file_stats.matched_lines
        }),
{
    reveal(Style::context_written);
    lemma_event_keys();
    reveal_strlit("\n");
    assert(c.content + "\n"@ =~= c.content.push('\n'));
    let opened = style.file_opened(st, c.file);
    let e = line_tree(
        "context"@,
        style.path(c.file),
        c.content,
        c.line_number,
        c.absolute_offset,
        Seq::empty(),
    );
    lemma_adds(opened.out, e);
    assert(adds_event(opened.out, style.context_written(st, c).out, e));
    assert(said_text(e, "path"@) == Some(style.path(c.file)));
    assert(said_text(e, "lines"@) == Some(c.content.push('\n')));
}

/// A note of a binary file opens it, and is told with its end.
pub proof fn law_null_bytes_are_told_at_the_end(
    style: Style,
    st: WriterState,
    file: Seq<char>,
    offset: usize,
)
    requires
        style.is_json(),
    ensures
        ({
            let after = style.binary_noted(st, file, offset);
            &&& after.out == style.file_opened(st, file).out
            &&& after.binary_offset == Some(offset as u64)
            &&& after.current_file == Some(file)
        }),
{
    reveal(Style::binary_noted);
}

/// A stream ends with a summary of all files: how many were searched and how
/// many bytes, and the totals of what they counted.
pub proof fn law_streams_end_with_a_summary(style: Style, st: WriterState)
    requires
        style.is_json(),
    ensures
        ({
            let closed = style.file_closed(st);
            let after = style.finished(st);
            exists|e: JsonTree| #[trigger]
                adds_event(closed.out, after.out, e) && e.field_text("type"@) == Some("summary"@)
                    && counts_stats(
                    e,
                    Stats {
                        searches: st.all_searches,
                        bytes_searched: st.all_bytes_searched,
                        ..closed.total_stats
                    },
                )
        }),
{
    lemma_event_keys();
    let closed = style.file_closed(st);
    let s = Stats {
        searches: closed.all_searches,
        bytes_searched: closed.all_bytes_searched,
        ..closed.total_stats
    };
    let e = summary_tree(s, Elapsed::between(closed.started, closed.now));
    lemma_adds(closed.out, e);
    assert(adds_event(closed.out, style.finished(st).out, e));
    assert(counts_stats(e, s));
}

/// Other output ends as it is.
pub proof fn law_other_output_ends_as_it_is(style: Style, st: WriterState)
    requires
        !style.is_json(),
    ensures
        style.finished(st).out == st.out,
        style.flushed(st).out == st.out,
        style.finished(st).flush_due,
        style.flushed(st).flush_due,
{
}

/// A time is told in seconds and nanoseconds, and as a text in seconds.
pub proof fn law_times_are_told_in_seconds(d: Elapsed)
    ensures
        ({
            let t = crate::output::duration_tree(d);
            &&& t.field_unsigned("secs"@) == Some(d.secs)
            &&& t.field_unsigned("nanos"@) == Some(d.nanos as u64)
            &&& t.field_text("human"@) == Some(
                crate::clock::seconds_text(d.secs, d.nanos, 6) + "s"@,
            )
        }),
        d.secs * 1000 + 999 <= u64::MAX && d.nanos < 1_000_000_000 ==> d.millis() == d.secs * 1000
            + d.nanos / 1_000_000,
{
    lemma_event_keys();
}

/// What is printed is counted in bytes, line by line.
pub proof fn law_printed_bytes_are_counted(style: Style, st: WriterState, event: JsonTree)
    requires
        st.file_stats.bytes_printed + vstd::utf8::encode_utf8(json_text(event) + seq!['\n']).len()
            <= u64::MAX,
    ensures
        style.event_written(st, event).file_stats.bytes_printed == st.file_stats.bytes_printed
            + vstd::utf8::encode_utf8(json_text(event) + seq!['\n']).len(),
        style.event_written(st, event).out == st.out + (json_text(event) + seq!['\n']),
{
    lemma_line(event);
}

} // verus!
