//! The reply of a server to a search, from the line it sends to what is printed.
use crate::json::{json_parsed, parse, Json, JsonTree};
use crate::meta::FileTime;
use crate::options::{SearchOptions, SearchOptionsView};
use crate::output::{OutputWriter, Style, WriterState};
use crate::row_output::{files_of, rows_by_rank, sort_rows};
use crate::rows::{
    read_rows, row_views, rows_of, scope_rows, scoped_rows, Row, RowScope, RowView,
};
use crate::server_search::{
    print_reply, prints_lines, refusal_of, reply_printed, row_fits, rows_fit, search_result,
};
use crate::server_stats::{
    capped_sum, count_reported_matches, parsed_stats_list, read_file_stats, reported_binary_lines,
    reported_lines, reported_matches, server_stats_line, total_lines, total_matches, total_stats,
};
use crate::text::decimal;
use vstd::prelude::*;

verus! {

/// A reply that answers the search.
pub struct ServerReply {
    /// What the server answered.
    pub result: Json,
    /// All its rows.
    pub all: Vec<Row>,
    /// The rows that belong to the search, under the paths it sees.
    pub rows: Vec<Row>,
}

/// What a [`ServerReply`] holds.
pub struct ReplyView {
    pub result: JsonTree,
    pub all: Seq<RowView>,
    pub rows: Seq<RowView>,
}

impl View for ServerReply {
    type V = ReplyView;

    open spec fn view(&self) -> ReplyView {
        ReplyView { result: self.result@, all: row_views(self.all@), rows: row_views(self.rows@) }
    }
}

/// The rows that belong to a search.
pub open spec fn rows_in_scope(rows: Seq<RowView>, by: RowScope) -> Seq<RowView> {
    scoped_rows(rows, by.scope@, by.named@, by.max_depth, by.binary)
}

/// What the line of a reply comes to. A reply that does not prove that it covers
/// hidden files answers nothing.
pub open spec fn reply_of(line: Seq<char>, by: RowScope) -> Result<ReplyView, Seq<char>> {
    match json_parsed(line) {
        Err(m) => Err(m),
        Ok(reply) => match refusal_of(reply, "no result in response"@) {
            Some(m) => Err(m),
            None => {
                let result = reply.field("result"@)->0;
                Ok(
                    ReplyView {
                        result,
                        all: rows_of(result),
                        rows: rows_in_scope(rows_of(result), by),
                    },
                )
            },
        },
    }
}

/// The view of a reply that may be refused.
pub open spec fn reply_view(r: Result<ServerReply, String>) -> Result<ReplyView, Seq<char>> {
    match r {
        Ok(reply) => Ok(reply@),
        Err(m) => Err(m@),
    }
}

/// Reads the line of a reply.
pub fn read_reply(line: &str, by: &RowScope) -> (r: Result<ServerReply, String>)
    ensures
        reply_view(r) == reply_of(line@, *by),
{
    let reply = match parse(line) {
        Ok(reply) => reply,
        Err(m) => {
            return Err(m);
        },
    };
    match search_result(&reply) {
        Err(m) => Err(m),
        Ok(result) => {
            let all = read_rows(result);
            let rows = scope_rows(read_rows(result), by);
            Ok(ServerReply { result: result.copy(), all, rows })
        },
    }
}

/// The rows in the order they are printed in. `times` are those of the files as
/// they first occur.
pub open spec fn ordered_rows(
    rows: Seq<RowView>,
    o: SearchOptionsView,
    times: Seq<Option<FileTime>>,
) -> Seq<RowView> {
    match o.sort {
        None => rows,
        Some(sort) => rows_by_rank(rows, files_of(rows), sort.order_of(files_of(rows), times)),
    }
}

/// The first file of the rows, where only that was looked for.
pub open spec fn quiet_file(rows: Seq<RowView>, quiet: bool) -> Option<Option<Seq<char>>> {
    if quiet {
        Some(
            if rows.len() > 0 {
                rows[0].file
            } else {
                None
            },
        )
    } else {
        None
    }
}

/// The matches and matching lines of a reply: those that the server counted for
/// the files of the search, or where it counted none, those that its rows show.
/// There is no answer where what it counted is malformed.
pub open spec fn reply_totals(
    reply: ReplyView,
    rows: Seq<RowView>,
    o: SearchOptionsView,
    by: RowScope,
) -> Option<(u64, u64)> {
    match reply.result.field("file_stats"@) {
        Some(tree) => match parsed_stats_list(tree) {
            Some(stats) => Some(
                (
                    capped_sum(total_matches(stats, reply.all, by, quiet_file(rows, o.quiet))),
                    capped_sum(total_lines(stats, reply.all, by, quiet_file(rows, o.quiet))),
                ),
            ),
            None => None,
        },
        None => Some(
            (
                capped_sum(reported_matches(rows)),
                capped_sum(reported_lines(rows).len() + reported_binary_lines(rows)),
            ),
        ),
    }
}

fn count_reply(reply: &ServerReply, rows: &Vec<Row>, o: &SearchOptions, by: &RowScope) -> (r: Option<
    (u64, u64),
>)
    ensures
        r == reply_totals(reply@, row_views(rows@), o@, *by),
{
    let counted = match reply.result.get("file_stats") {
        Some(json) => json,
        None => {
            return Some(count_reported_matches(rows));
        },
    };
    let stats = match read_file_stats(counted) {
        Some(stats) => stats,
        None => {
            return None;
        },
    };
    let quiet_first = if o.quiet {
        if rows.len() > 0 {
            match &rows[0].file {
                Some(file) => Some(Some(file.clone())),
                None => Some(None),
            }
        } else {
            Some(None)
        }
    } else {
        None
    };
    Some(total_stats(&stats, &reply.all, by, &quiet_first))
}

/// What a printed reply came to.
pub struct Printed {
    pub had_matches: bool,
    /// What is said of the totals, where that is asked for. It belongs behind
    /// the output.
    pub stats: Option<String>,
}

/// What is said of the totals of a search.
pub open spec fn totals_text(totals: (u64, u64), elapsed_ms: Seq<char>) -> Seq<char> {
    decimal(totals.0 as nat) + " matches ("@ + decimal(totals.1 as nat) + " matched lines) in "@
        + elapsed_ms + "ms (via server)\n"@
}

/// What is written of a reply: its rows in the order that is asked for, and then
/// everything is handed on.
pub open spec fn reply_written(
    style: Style,
    st: WriterState,
    reply: ReplyView,
    o: SearchOptionsView,
    times: Seq<Option<FileTime>>,
) -> WriterState {
    style.flushed(reply_printed(style, st, ordered_rows(reply.rows, o, times), o))
}

/// Prints a reply as the options ask for. `times` are those of the files of its
/// rows as they first occur, and `elapsed_ms` is the time that the server says
/// it took, where it says so. There is no answer where the server's counts are
/// malformed; its rows are printed all the same.
pub fn finish_reply(
    reply: ServerReply,
    by: &RowScope,
    o: &SearchOptions,
    times: &Vec<Option<FileTime>>,
    elapsed_ms: Option<&str>,
    writer: &mut OutputWriter,
) -> (r: Option<Printed>)
    requires
        old(writer).wf(),
        prints_lines(o@) ==> rows_fit(reply@.rows, old(writer).style()),
    ensures
        final(writer).wf(),
        final(writer)@ == reply_written(
            old(writer).style(),
            old(writer)@,
            reply@,
            o@,
            times@,
        ),
        final(writer).style() == old(writer).style(),
        ({
            let rows = ordered_rows(reply@.rows, o@, times@);
            let style = old(writer).style();
            let counts = reply_totals(reply@, rows, o@, *by);
            &&& final(writer)@ == style.flushed(reply_printed(style, old(writer)@, rows, o@))
            &&& match r {
                None => o@.stats && elapsed_ms is Some && counts is None,
                Some(printed) => {
                    &&& o@.stats && elapsed_ms is Some ==> counts is Some
                    &&& printed.had_matches == (rows.len() > 0)
                    &&& match printed.stats {
                        Some(text) => o@.stats && elapsed_ms is Some && text@ == totals_text(
                            counts->0,
                            elapsed_ms->0@,
                        ),
                        None => !(o@.stats && elapsed_ms is Some),
                    }
                },
            }
        }),
{
    let ServerReply { result, all, rows } = reply;
    let ghost came = row_views(rows@);
    let rows = match &o.sort {
        None => rows,
        Some(sort) => sort_rows(rows, sort, times),
    };
    assert(row_views(rows@) == ordered_rows(came, o@, times@));
    proof {
        let style = writer.style();
        if rows_fit(came, style) {
            assert forall|i: int| 0 <= i < rows@.len() implies row_fits(
                #[trigger] row_views(rows@)[i],
                style,
            ) by {
                let k = if o.sort is Some {
                    choose|k: int| 0 <= k < came.len() && came[k] == row_views(rows@)[i]
                } else {
                    i
                };
                assert(row_fits(came[k], style));
            }
        }
    }
    let had_matches = print_reply(&rows, o, writer);
    assert(row_views(rows@).len() == rows@.len());
    writer.flush();
    let elapsed = match elapsed_ms {
        Some(elapsed) if o.stats => elapsed,
        _ => {
            return Some(Printed { had_matches, stats: None });
        },
    };
    let empty: Vec<Row> = Vec::new();
    let counted = ServerReply { result, all, rows: empty };
    match count_reply(&counted, &rows, o, by) {
        None => None,
        Some((matches, lines)) => Some(
            Printed { had_matches, stats: Some(server_stats_line(matches, lines, elapsed)) },
        ),
    }
}

/// A reply that does not prove that it covers hidden files is refused whole,
/// whatever rows it carries.
pub proof fn law_uncovered_replies_answer_nothing(line: Seq<char>, by: RowScope, reply: JsonTree)
    requires
        json_parsed(line) matches Ok(read) && read == reply,
        !(reply.field("result"@) matches Some(result) && result.field_bool("hidden_complete"@)
            == Some(true)),
    ensures
        reply_of(line, by) is Err,
{
}

} // verus!
