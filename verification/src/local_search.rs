//! Where a search is answered from, and the searches that no server answers.
use crate::file_search::{
    emit_views, emits_fit, file_selected, search_file, FileRead, Found,
};
use crate::options::{SearchOptions, SearchOptionsView};
use crate::output::{OutputWriter, Style, WriterState};
use crate::snapshot_diff::option_text;
use crate::text::{add_number, add_text, decimal, number, owned};
use vstd::prelude::*;

verus! {

/// What is known of a search root before it is searched.
#[derive(Clone, Copy, Debug, PartialEq, Eq, Structural)]
pub struct RootFacts {
    /// The root is a single file.
    pub is_file: bool,
    /// There is an index on disk.
    pub has_index: bool,
}

/// Where a search that no server answers is answered from.
#[derive(Clone, Copy, Debug, PartialEq, Eq, Structural)]
pub enum LocalRoute {
    /// By reading every file, as asked for.
    Scan,
    /// By reading every file, for want of an index.
    ScanWithoutIndex,
    /// From the index on disk.
    Index,
}

/// Whether an index cannot answer a search: it holds neither what another
/// decoding would show, nor binary or ignored files, and a single named file
/// is read directly.
pub open spec fn bypasses_index(o: SearchOptionsView, root: RootFacts) -> bool {
    root.is_file || o.encoding is Some || o.text || o.binary || o.has_includes() || o.no_ignore
        || o.no_ignore_dot || o.no_ignore_exclude || o.no_ignore_global || o.no_ignore_parent
        || o.no_ignore_vcs
}

/// Whether a server may be asked: not where its index cannot answer, nor for
/// files without a match, zero counts or every line, which it never reports.
pub open spec fn asks_server(o: SearchOptionsView, root: RootFacts) -> bool {
    !o.no_index && !bypasses_index(o, root) && !o.passes_through() && !o.files_without_match
        && !o.include_zero
}

/// Where a search that no server answers is answered from.
pub open spec fn route_of(o: SearchOptionsView, root: RootFacts) -> LocalRoute {
    if o.no_index || bypasses_index(o, root) {
        LocalRoute::Scan
    } else if !root.has_index {
        LocalRoute::ScanWithoutIndex
    } else {
        LocalRoute::Index
    }
}

fn bypass_index(o: &SearchOptions, root: &RootFacts) -> (r: bool)
    ensures
        r == bypasses_index(o@, *root),
{
    root.is_file || o.encoding.is_some() || o.text || o.binary || o.has_includes() || o.no_ignore
        || o.no_ignore_dot || o.no_ignore_exclude || o.no_ignore_global || o.no_ignore_parent
        || o.no_ignore_vcs
}

/// Whether a server may be asked.
pub fn may_ask_server(o: &SearchOptions, root: &RootFacts) -> (r: bool)
    ensures
        r == asks_server(o@, *root),
{
    !o.no_index && !bypass_index(o, root) && !o.effective_passthru() && !o.files_without_match
        && !o.include_zero
}

/// Where a search that no server answers is answered from.
pub fn local_route(o: &SearchOptions, root: &RootFacts) -> (r: LocalRoute)
    ensures
        r == route_of(o@, *root),
{
    if o.no_index || bypass_index(o, root) {
        LocalRoute::Scan
    } else if !root.has_index {
        LocalRoute::ScanWithoutIndex
    } else {
        LocalRoute::Index
    }
}

/// What is said where a search degrades to reading every file.
pub open spec fn missing_index_text(dir: Seq<char>, explicit_path: bool) -> Seq<char> {
    "warning: no index at "@ + dir + " - scanning every file (slow on large trees)\n"@ + (
    if explicit_path {
        "note: build one with `tgrep index --index-path "@ + dir + "`\n"@
    } else {
        "note: if a server is running with `--index-path <dir>`, pass the same --index-path here; otherwise build an index with `tgrep index`\n"@
    })
}

/// What is said where a search degrades to reading every file. Only a quiet
/// search says nothing of it.
pub fn warn_missing_index(dir: &str, explicit_path: bool, quiet: bool) -> (r: Option<String>)
    ensures
        option_text(r) == (if quiet {
            None
        } else {
            Some(missing_index_text(dir@, explicit_path))
        }),
{
    if quiet {
        return None;
    }
    let mut out = owned("warning: no index at ");
    add_text(&mut out, dir);
    add_text(&mut out, " - scanning every file (slow on large trees)\n");
    let mut note = owned(
        "note: if a server is running with `--index-path <dir>`, pass the same --index-path here; otherwise build an index with `tgrep index`\n",
    );
    if explicit_path {
        note = owned("note: build one with `tgrep index --index-path ");
        add_text(&mut note, dir);
        add_text(&mut note, "`\n");
    }
    add_text(&mut out, note.as_str());
    Some(out)
}

/// What an index on disk says of itself.
#[derive(Clone, Copy, Debug, PartialEq, Eq, Structural)]
pub struct IndexFacts {
    pub complete: bool,
    pub hidden_complete: bool,
    /// It was written in the format of this build.
    pub current_format: bool,
    /// There is a record of which paths are visible.
    pub has_visibility: bool,
    /// That record covers the index and its path table.
    pub covers_index: bool,
    /// The search root lies in the indexed tree.
    pub covers_root: bool,
}

/// Why an index on disk does not answer a search; nothing where it does.
pub open spec fn index_problem(meta: Result<IndexFacts, Seq<char>>) -> Option<Seq<char>> {
    match meta {
        Err(error) => Some(
            "warning: index coverage metadata unavailable ("@ + error
                + ") - scanning filesystem"@,
        ),
        Ok(facts) => if !facts.complete || !facts.hidden_complete || !facts.current_format {
            Some(
                "warning: index lacks complete hidden-file coverage - scanning filesystem; rebuild with `tgrep index` or upgrade with `tgrep serve`"@,
            )
        } else if !facts.has_visibility {
            Some("warning: atomic index visibility unavailable - scanning filesystem"@)
        } else if !facts.covers_index {
            Some(
                "warning: index visibility, coverage, and path table differ - scanning filesystem"@,
            )
        } else if !facts.covers_root {
            Some(Seq::empty())
        } else {
            None
        },
    }
}

/// The view of facts that may be unreadable.
pub open spec fn facts_view(meta: Result<IndexFacts, String>) -> Result<IndexFacts, Seq<char>> {
    match meta {
        Ok(facts) => Ok(facts),
        Err(error) => Err(error@),
    }
}

/// Why an index on disk does not answer a search, as a warning, which is empty
/// where there is nothing to warn of; nothing where it does.
pub fn check_index(meta: &Result<IndexFacts, String>) -> (r: Option<String>)
    ensures
        option_text(r) == index_problem(facts_view(*meta)),
{
    match meta {
        Err(error) => {
            let mut out = owned("warning: index coverage metadata unavailable (");
            add_text(&mut out, error.as_str());
            add_text(&mut out, ") - scanning filesystem");
            Some(out)
        },
        Ok(facts) => if !facts.complete || !facts.hidden_complete || !facts.current_format {
            Some(
                owned(
                    "warning: index lacks complete hidden-file coverage - scanning filesystem; rebuild with `tgrep index` or upgrade with `tgrep serve`",
                ),
            )
        } else if !facts.has_visibility {
            Some(owned("warning: atomic index visibility unavailable - scanning filesystem"))
        } else if !facts.covers_index {
            Some(
                owned(
                    "warning: index visibility, coverage, and path table differ - scanning filesystem",
                ),
            )
        } else if !facts.covers_root {
            let none = String::new();
            assert(none@ =~= Seq::<char>::empty());
            Some(none)
        } else {
            None
        },
    }
}

/// Whether a warning is printed.
pub fn shows_warnings(o: &SearchOptions) -> (r: bool)
    ensures
        r == warnings_shown(o@),
        r == (!o.quiet && !o.no_messages),
{
    !o.quiet && !o.no_messages
}

/// How candidates are narrowed.
#[derive(Clone, Copy, Debug, PartialEq, Eq, Structural)]
pub enum PlanChoice {
    /// Not at all.
    MatchAll,
    /// By the trigrams of the patterns.
    Patterns,
    /// By the trigrams of the patterns relaxed to what can be analysed.
    Relaxed,
}

/// How candidates are narrowed: not where every line is printed or files are
/// decoded anew; patterns of another engine are relaxed first.
pub fn choose_plan(o: &SearchOptions, standard_matcher: bool) -> (r: PlanChoice)
    ensures
        r == plan_chosen(o@, standard_matcher),
        r == (if o@.passes_through() || o@.encoding is Some {
            PlanChoice::MatchAll
        } else if standard_matcher || o.fixed_string {
            PlanChoice::Patterns
        } else {
            PlanChoice::Relaxed
        }),
{
    if o.effective_passthru() || o.encoding.is_some() {
        PlanChoice::MatchAll
    } else if standard_matcher || o.fixed_string {
        PlanChoice::Patterns
    } else {
        PlanChoice::Relaxed
    }
}

/// Whether every indexed file is a candidate: where nothing narrows them, and
/// where files are reported that the plan excludes.
pub fn takes_every_file(o: &SearchOptions, match_all: bool) -> (r: bool)
    ensures
        r == every_file_taken(o@, match_all),
        r == (match_all || o.files_without_match || o.invert_match || o.include_zero),
{
    match_all || o.files_without_match || o.invert_match || o.include_zero
}

/// A file that was read, and what was found in it.
pub struct SearchedFile {
    pub path: String,
    pub read: FileRead,
    pub found: Found,
}

/// Whether a file's findings can be printed.
pub open spec fn is_printable(f: SearchedFile, style: Style) -> bool {
    f.read.fixups.wf() && emits_fit(emit_views(f.found.emits@), style, f.read.fixups@.len() > 0)
}

/// What is written of files in turn, and whether any was what was looked for.
/// A quiet search stops at the first.
pub open spec fn files_searched(
    style: Style,
    st: WriterState,
    files: Seq<SearchedFile>,
    o: SearchOptionsView,
    explicit: bool,
) -> (WriterState, bool)
    decreases files.len(),
{
    if files.len() == 0 {
        (st, false)
    } else {
        let (before, had) = files_searched(style, st, files.drop_last(), o, explicit);
        if had && o.quiet {
            (before, had)
        } else {
            let f = files.last();
            let (after, selected) = file_selected(
                style,
                before,
                f.read,
                f.found,
                f.path@,
                o,
                explicit,
            );
            (after, had || selected)
        }
    }
}

proof fn lemma_quiet_search_stops(
    style: Style,
    st: WriterState,
    files: Seq<SearchedFile>,
    o: SearchOptionsView,
    explicit: bool,
    at: int,
)
    requires
        0 <= at <= files.len(),
        o.quiet,
        files_searched(style, st, files.take(at), o, explicit).1,
    ensures
        files_searched(style, st, files, o, explicit) == files_searched(
            style,
            st,
            files.take(at),
            o,
            explicit,
        ),
    decreases files.len(),
{
    if at == files.len() {
        assert(files.take(at) =~= files);
    } else {
        assert(files.drop_last().take(at) =~= files.take(at));
        lemma_quiet_search_stops(style, st, files.drop_last(), o, explicit, at);
    }
}

/// Reports files in turn; whether any was what was looked for. A quiet search
/// stops at the first.
pub fn search_files_in_turn(
    files: &Vec<SearchedFile>,
    o: &SearchOptions,
    writer: &mut OutputWriter,
    explicit: bool,
) -> (had_matches: bool)
    requires
        old(writer).wf(),
        forall|i: int|
            0 <= i < files@.len() ==> is_printable(#[trigger] files@[i], old(writer).style()),
    ensures
        final(writer).wf(),
        final(writer).style() == old(writer).style(),
        (final(writer)@, had_matches) == files_searched(
            old(writer).style(),
            old(writer)@,
            files@,
            o@,
            explicit,
        ),
{
    let ghost style = writer.style();
    let ghost start = writer@;
    let mut had = false;
    let mut i: usize = 0;
    assert(files@.take(0) =~= Seq::<SearchedFile>::empty());
    while i < files.len()
        invariant
            i <= files@.len(),
            writer.wf(),
            writer.style() == style,
            style == old(writer).style(),
            start == old(writer)@,
            forall|k: int|
                0 <= k < files@.len() ==> is_printable(#[trigger] files@[k], style),
            (writer@, had) == files_searched(style, start, files@.take(i as int), o@, explicit),
            !(had && o.quiet),
        decreases files@.len() - i,
    {
        let f = &files[i];
        assert(files@.take(i + 1).drop_last() =~= files@.take(i as int));
        assert(files@.take(i + 1).last() == *f);
        assert(is_printable(files@[i as int], style));
        if search_file(&f.read, &f.found, f.path.as_str(), o, writer, explicit) {
            had = true;
        }
        if had && o.quiet {
            proof {
                lemma_quiet_search_stops(style, start, files@, o@, explicit, i + 1);
            }
            return true;
        }
        i += 1;
    }
    assert(files@.take(files@.len() as int) =~= files@);
    had
}

/// Whether a list of files from an index is what a walk would show.
pub open spec fn is_filename_compatible(o: SearchOptionsView) -> bool {
    !o.no_index && !o.no_ignore && !o.no_ignore_dot && !o.no_ignore_exclude && !o.no_ignore_global
        && !o.no_ignore_parent && !o.no_ignore_vcs && !o.no_require_git && !o.follow
        && !o.one_file_system && o.ignore_files.len() == 0 && !o.ignore_file_case_insensitive
        && !o.max_filesize_requested
}

/// Whether a list of files from an index is what a walk would show.
pub fn filename_index_compatible(o: &SearchOptions) -> (r: bool)
    ensures
        r == is_filename_compatible(o@),
{
    !o.no_index && !o.no_ignore && !o.no_ignore_dot && !o.no_ignore_exclude && !o.no_ignore_global
        && !o.no_ignore_parent && !o.no_ignore_vcs && !o.no_require_git && !o.follow
        && !o.one_file_system && o.ignore_files.len() == 0 && !o.ignore_file_case_insensitive
        && !o.max_filesize_requested
}

/// Where a list of files comes from.
#[derive(Clone, Copy, Debug, PartialEq, Eq, Structural)]
pub enum ListRoute {
    /// The root is one file.
    File,
    /// A server's list.
    Server,
    /// The index on disk.
    Index,
    /// A walk of the tree.
    Walk,
}

/// What is known of the sources of a list of files.
#[derive(Clone, Copy, Debug, PartialEq, Eq, Structural)]
pub struct ListFacts {
    pub is_file: bool,
    /// A server listed files of a tree that holds the root.
    pub server_listed: bool,
    /// A complete index on disk lists files of a tree that holds the root.
    pub index_listed: bool,
}

/// Where a list of files comes from: an index only where it shows what a walk
/// would, and a server's before the one on disk.
pub fn list_route(o: &SearchOptions, facts: &ListFacts) -> (r: ListRoute)
    ensures
        r == listing_route(o@, *facts),
        r == (if facts.is_file {
            ListRoute::File
        } else if !is_filename_compatible(o@) || o@.has_includes() {
            ListRoute::Walk
        } else if facts.server_listed {
            ListRoute::Server
        } else if facts.index_listed {
            ListRoute::Index
        } else {
            ListRoute::Walk
        }),
{
    if facts.is_file {
        ListRoute::File
    } else if !filename_index_compatible(o) || o.has_includes() {
        ListRoute::Walk
    } else if facts.server_listed {
        ListRoute::Server
    } else if facts.index_listed {
        ListRoute::Index
    } else {
        ListRoute::Walk
    }
}

/// Whether an index on disk lists every file: it is complete, hidden files
/// included, in the format of this build, and its record of visible paths is
/// complete and covers it.
pub fn lists_every_file(facts: &IndexFacts, visibility_complete: bool) -> (r: bool)
    ensures
        r == every_file_listed(*facts, visibility_complete),
        r == (facts.complete && facts.hidden_complete && facts.current_format
            && facts.has_visibility && visibility_complete && facts.covers_index),
{
    facts.complete && facts.hidden_complete && facts.current_format && facts.has_visibility
        && visibility_complete && facts.covers_index
}

/// How a query is answered from trigrams.
pub enum QueryPlan {
    /// So many trigrams must all occur.
    And(usize),
    /// One of several plans must hold.
    Or(Vec<QueryPlan>),
    /// Every file may match.
    MatchAll,
}

/// A plan as printed.
pub open spec fn plan_text(plan: QueryPlan) -> Seq<char>
    decreases plan,
{
    match plan {
        QueryPlan::And(n) => "AND("@ + decimal(n as nat) + " trigrams)"@,
        QueryPlan::Or(plans) => "OR("@ + plans_text(plans@) + ")"@,
        QueryPlan::MatchAll => "MatchAll (full scan)"@,
    }
}

/// Plans as printed, with commas between them.
pub open spec fn plans_text(plans: Seq<QueryPlan>) -> Seq<char>
    decreases plans,
{
    if plans.len() == 0 {
        Seq::empty()
    } else if plans.len() == 1 {
        plan_text(plans[0])
    } else {
        plans_text(plans.drop_last()) + ", "@ + plan_text(plans.last())
    }
}

/// A plan as printed.
pub fn plan_summary(plan: &QueryPlan) -> (r: String)
    ensures
        r@ == plan_text(*plan),
    decreases plan,
{
    match plan {
        QueryPlan::And(n) => {
            let mut out = owned("AND(");
            add_number(&mut out, *n as u64);
            add_text(&mut out, " trigrams)");
            out
        },
        QueryPlan::Or(plans) => {
            let mut inner = String::new();
            let mut i: usize = 0;
            assert(inner@ =~= plans_text(plans@.take(0)));
            while i < plans.len()
                invariant
                    i <= plans@.len(),
                    *plan == QueryPlan::Or(*plans),
                    inner@ == plans_text(plans@.take(i as int)),
                decreases plans@.len() - i,
            {
                assert(decreases_to!(*plan => plan->Or_0));
                assert(decreases_to!(plans => plans@));
                assert(decreases_to!(plans@ => plans@[i as int]));
                assert(plans@.take(i + 1).drop_last() =~= plans@.take(i as int));
                assert(plans@.take(i + 1).last() == plans@[i as int]);
                let one = plan_summary(&plans[i]);
                if i > 0 {
                    add_text(&mut inner, ", ");
                    add_text(&mut inner, one.as_str());
                } else {
                    assert(plans@.take(1)[0] == plans@[0]);
                    inner = one;
                }
                i += 1;
            }
            assert(plans@.take(plans@.len() as int) =~= plans@);
            let mut out = owned("OR(");
            add_text(&mut out, inner.as_str());
            add_text(&mut out, ")");
            out
        },
        QueryPlan::MatchAll => owned("MatchAll (full scan)"),
    }
}

/// The totals of a search by index, as printed.
pub open spec fn index_totals(
    plan: QueryPlan,
    candidates: usize,
    files: usize,
    elapsed_ms: Seq<char>,
    matches: u64,
    matched_lines: u64,
) -> Seq<char> {
    "Query plan: "@ + plan_text(plan) + " (candidates: "@ + decimal(candidates as nat) + "/"@
        + decimal(files as nat) + ")\nSearch completed in "@ + elapsed_ms + "ms: "@ + decimal(
        matches as nat,
    ) + " matches ("@ + decimal(matched_lines as nat) + " matched lines)\n"@
}

/// The totals of a search by index, as printed. `elapsed_ms` is the time it
/// took.
pub fn index_stats_text(
    plan: &QueryPlan,
    candidates: usize,
    files: usize,
    elapsed_ms: &str,
    matches: u64,
    matched_lines: u64,
) -> (r: String)
    ensures
        r@ == index_totals(*plan, candidates, files, elapsed_ms@, matches, matched_lines),
{
    let mut out = owned("Query plan: ");
    let summary = plan_summary(plan);
    add_text(&mut out, summary.as_str());
    add_text(&mut out, " (candidates: ");
    add_number(&mut out, candidates as u64);
    add_text(&mut out, "/");
    add_number(&mut out, files as u64);
    add_text(&mut out, ")\nSearch completed in ");
    add_text(&mut out, elapsed_ms);
    add_text(&mut out, "ms: ");
    add_number(&mut out, matches);
    add_text(&mut out, " matches (");
    add_number(&mut out, matched_lines);
    add_text(&mut out, " matched lines)\n");
    out
}

/// The totals of a search that read every file, as printed.
pub open spec fn scan_totals(
    files: Option<usize>,
    elapsed_ms: Seq<char>,
    matches: u64,
    matched_lines: u64,
) -> Seq<char> {
    "Brute-force search completed in "@ + elapsed_ms + "ms ("@ + (match files {
        Some(n) => decimal(n as nat) + " files"@,
        None => "1 file"@,
    }) + "): "@ + decimal(matches as nat) + " matches ("@ + decimal(matched_lines as nat)
        + " matched lines)\n"@
}

/// The totals of a search that read every file, as printed. `files` is their
/// number; none where one file was named.
pub fn scan_stats_text(
    files: Option<usize>,
    elapsed_ms: &str,
    matches: u64,
    matched_lines: u64,
) -> (r: String)
    ensures
        r@ == scan_totals(files, elapsed_ms@, matches, matched_lines),
{
    let mut out = owned("Brute-force search completed in ");
    add_text(&mut out, elapsed_ms);
    add_text(&mut out, "ms (");
    let mut read = owned("1 file");
    if let Some(n) = files {
        read = number(n as u64);
        add_text(&mut read, " files");
    }
    add_text(&mut out, read.as_str());
    add_text(&mut out, "): ");
    add_number(&mut out, matches);
    add_text(&mut out, " matches (");
    add_number(&mut out, matched_lines);
    add_text(&mut out, " matched lines)\n");
    out
}

/// How the files of a search were chosen.
pub enum ChosenBy {
    /// By a plan, which left so many candidates of so many indexed files.
    Index(QueryPlan, usize, usize),
    /// Not at all: so many files were read, or one that was named.
    Scan(Option<usize>),
}

/// What a search that no server answered came to.
pub struct LocalDone {
    pub had_matches: bool,
    /// What is said of the totals, where that is asked for. It belongs behind
    /// the output.
    pub stats: Option<String>,
}

/// What is said of the totals of a search.
pub open spec fn local_totals(by: ChosenBy, elapsed_ms: Seq<char>, st: WriterState) -> Seq<char> {
    match by {
        ChosenBy::Index(plan, candidates, files) => index_totals(
            plan,
            candidates,
            files,
            elapsed_ms,
            st.total_matches,
            st.total_matched_lines,
        ),
        ChosenBy::Scan(files) => scan_totals(
            files,
            elapsed_ms,
            st.total_matches,
            st.total_matched_lines,
        ),
    }
}

/// The files that a search reads, and how they were chosen.
pub struct LocalRun {
    pub files: Vec<SearchedFile>,
    pub by: ChosenBy,
    /// The search root is a file that was named.
    pub explicit: bool,
}

impl LocalRun {
    /// Whether everything that was found can be printed.
    pub open spec fn printable(self, style: Style) -> bool {
        forall|i: int| 0 <= i < self.files@.len() ==> is_printable(#[trigger] self.files@[i], style)
    }
}

/// What a search that no server answers comes to: what is written, whether
/// anything was what was looked for, and what is said of the totals.
pub struct LocalAnswer {
    pub state: WriterState,
    pub had_matches: bool,
    pub stats: Option<Seq<char>>,
}

/// What reading the files of a run comes to.
pub open spec fn run_answer(
    style: Style,
    st: WriterState,
    run: LocalRun,
    o: SearchOptionsView,
    elapsed_ms: Seq<char>,
) -> LocalAnswer {
    let (state, had_matches) = files_searched(style, st, run.files@, o, run.explicit);
    LocalAnswer {
        state: style.flushed(state),
        had_matches,
        stats: if o.stats {
            Some(local_totals(run.by, elapsed_ms, state))
        } else {
            None
        },
    }
}

/// Reports a search that no server answered: its files in turn, and its totals
/// where they are asked for. `elapsed_ms` is the time it took.
pub fn finish_local_search(
    run: &LocalRun,
    o: &SearchOptions,
    elapsed_ms: &str,
    writer: &mut OutputWriter,
) -> (r: LocalDone)
    requires
        old(writer).wf(),
        run.printable(old(writer).style()),
    ensures
        final(writer).wf(),
        final(writer).style() == old(writer).style(),
        (LocalAnswer {
            state: final(writer)@,
            had_matches: r.had_matches,
            stats: option_text(r.stats),
        }) == run_answer(old(writer).style(), old(writer)@, *run, o@, elapsed_ms@),
{
    let had_matches = search_files_in_turn(&run.files, o, writer, run.explicit);
    let (matches, matched_lines) = writer.match_totals();
    writer.flush();
    let stats = if o.stats {
        Some(
            match &run.by {
                ChosenBy::Index(plan, candidates, total) => index_stats_text(
                    plan,
                    *candidates,
                    *total,
                    elapsed_ms,
                    matches,
                    matched_lines,
                ),
                ChosenBy::Scan(read) => scan_stats_text(*read, elapsed_ms, matches, matched_lines),
            },
        )
    } else {
        None
    };
    LocalDone { had_matches, stats }
}

/// Searches by reading every file: `scanned` is what a walk of the root found.
pub fn brute_force_search(
    scanned: &LocalRun,
    o: &SearchOptions,
    elapsed_ms: &str,
    writer: &mut OutputWriter,
) -> (r: LocalDone)
    requires
        old(writer).wf(),
        scanned.printable(old(writer).style()),
    ensures
        final(writer).wf(),
        final(writer).style() == old(writer).style(),
        (LocalAnswer {
            state: final(writer)@,
            had_matches: r.had_matches,
            stats: option_text(r.stats),
        }) == run_answer(old(writer).style(), old(writer)@, *scanned, o@, elapsed_ms@),
{
    finish_local_search(scanned, o, elapsed_ms, writer)
}

/// What answers a search where there is an index on disk.
#[derive(Clone, Copy, Debug, PartialEq, Eq, Structural)]
pub enum AnsweredBy {
    Index,
    /// Every file is read, as if there were no index.
    Scan,
}

/// What answers a search: an index that is refused leaves it to the scan.
pub open spec fn answered_by(meta: Result<IndexFacts, Seq<char>>) -> AnsweredBy {
    if index_problem(meta) is None {
        AnsweredBy::Index
    } else {
        AnsweredBy::Scan
    }
}

/// Decides what answers a search where there is an index on disk.
pub fn choose_answer(meta: &Result<IndexFacts, String>) -> (r: AnsweredBy)
    ensures
        r == answered_by(facts_view(*meta)),
{
    match check_index(meta) {
        None => AnsweredBy::Index,
        Some(_) => AnsweredBy::Scan,
    }
}

/// What a search comes to where there is an index on disk.
pub open spec fn index_answer(
    meta: Result<IndexFacts, Seq<char>>,
    style: Style,
    st: WriterState,
    indexed: LocalRun,
    scanned: LocalRun,
    o: SearchOptionsView,
    elapsed_ms: Seq<char>,
) -> LocalAnswer {
    match answered_by(meta) {
        AnsweredBy::Index => run_answer(style, st, indexed, o, elapsed_ms),
        AnsweredBy::Scan => run_answer(style, st, scanned, o, elapsed_ms),
    }
}

/// Searches where there is an index on disk: `indexed` is what the index leaves
/// to read, `scanned` what a walk of the root finds. Only the one that
/// [`choose_answer`] names is looked at.
pub fn search_local_index(
    meta: &Result<IndexFacts, String>,
    indexed: &LocalRun,
    scanned: &LocalRun,
    o: &SearchOptions,
    elapsed_ms: &str,
    writer: &mut OutputWriter,
) -> (r: LocalDone)
    requires
        old(writer).wf(),
        match answered_by(facts_view(*meta)) {
            AnsweredBy::Index => indexed.printable(old(writer).style()),
            AnsweredBy::Scan => scanned.printable(old(writer).style()),
        },
    ensures
        final(writer).wf(),
        final(writer).style() == old(writer).style(),
        (LocalAnswer {
            state: final(writer)@,
            had_matches: r.had_matches,
            stats: option_text(r.stats),
        }) == index_answer(
            facts_view(*meta),
            old(writer).style(),
            old(writer)@,
            *indexed,
            *scanned,
            o@,
            elapsed_ms@,
        ),
{
    match choose_answer(meta) {
        AnsweredBy::Index => finish_local_search(indexed, o, elapsed_ms, writer),
        AnsweredBy::Scan => brute_force_search(scanned, o, elapsed_ms, writer),
    }
}

/// How candidates are narrowed: not at all where every line is printed or the
/// text is decoded otherwise, by the patterns where these can be analysed, and
/// else by what can be analysed of them.
pub open spec fn plan_chosen(o: SearchOptionsView, standard_matcher: bool) -> PlanChoice {
    if o.passes_through() || o.encoding is Some {
        PlanChoice::MatchAll
    } else if standard_matcher || o.fixed_string {
        PlanChoice::Patterns
    } else {
        PlanChoice::Relaxed
    }
}

/// Whether every indexed file is a candidate.
pub open spec fn every_file_taken(o: SearchOptionsView, match_all: bool) -> bool {
    match_all || o.files_without_match || o.invert_match || o.include_zero
}

/// Whether warnings are shown.
pub open spec fn warnings_shown(o: SearchOptionsView) -> bool {
    !o.quiet && !o.no_messages
}

/// Where a list of files comes from.
pub open spec fn listing_route(o: SearchOptionsView, facts: ListFacts) -> ListRoute {
    if facts.is_file {
        ListRoute::File
    } else if !is_filename_compatible(o) || o.has_includes() {
        ListRoute::Walk
    } else if facts.server_listed {
        ListRoute::Server
    } else if facts.index_listed {
        ListRoute::Index
    } else {
        ListRoute::Walk
    }
}

/// Whether an index lists every file.
pub open spec fn every_file_listed(facts: IndexFacts, visibility_complete: bool) -> bool {
    facts.complete && facts.hidden_complete && facts.current_format && facts.has_visibility
        && visibility_complete && facts.covers_index
}

/// What is said of how long a list took and where it came from.
pub open spec fn listing_took(route: ListRoute, elapsed_ms: Seq<char>) -> Seq<char> {
    "Filename search completed in "@ + elapsed_ms + "ms (via "@ + (match route {
        ListRoute::Server => "server"@,
        ListRoute::Index => "local index"@,
        _ => "filesystem walk"@,
    }) + ")\n"@
}

/// How long listing files took and where the list came from, as printed.
pub fn list_stats_text(route: ListRoute, elapsed_ms: &str) -> (r: String)
    ensures
        r@ == listing_took(route, elapsed_ms@),
        r@ == "Filename search completed in "@ + elapsed_ms@ + "ms (via "@ + (match route {
            ListRoute::Server => "server"@,
            ListRoute::Index => "local index"@,
            _ => "filesystem walk"@,
        }) + ")\n"@,
{
    let mut out = owned("Filename search completed in ");
    add_text(&mut out, elapsed_ms);
    add_text(&mut out, "ms (via ");
    add_text(
        &mut out,
        match route {
            ListRoute::Server => "server",
            ListRoute::Index => "local index",
            _ => "filesystem walk",
        },
    );
    add_text(&mut out, ")\n");
    out
}

/// An index answers only where it is complete, proves that it covers hidden
/// files, has the current format, and its parts belong together and to the
/// tree that is searched.
pub proof fn law_only_covering_indexes_answer(meta: Result<IndexFacts, Seq<char>>)
    ensures
        index_problem(meta) is None <==> (meta matches Ok(facts) && facts.complete
            && facts.hidden_complete && facts.current_format && facts.has_visibility
            && facts.covers_index && facts.covers_root),
{
}

/// An index that is refused answers nothing: where its metadata cannot be read,
/// it is incomplete, does not cover hidden files or has another format, what is
/// returned and everything that is written are those of the scan, whatever the
/// index would have left to read.
pub proof fn law_refused_indexes_are_answered_by_the_scan(
    meta: Result<IndexFacts, Seq<char>>,
    style: Style,
    st: WriterState,
    indexed: LocalRun,
    scanned: LocalRun,
    o: SearchOptionsView,
    elapsed_ms: Seq<char>,
)
    requires
        index_problem(meta) is Some || meta is Err || (meta matches Ok(facts) && !(facts.complete
            && facts.hidden_complete && facts.current_format)),
    ensures
        index_answer(meta, style, st, indexed, scanned, o, elapsed_ms) == run_answer(
            style,
            st,
            scanned,
            o,
            elapsed_ms,
        ),
{
}

/// Nothing that an index cannot answer is asked of a server or read from an
/// index.
pub proof fn law_indexes_are_not_asked_what_they_cannot_know(
    o: SearchOptionsView,
    root: RootFacts,
)
    requires
        o.no_index || bypasses_index(o, root),
    ensures
        !asks_server(o, root),
        route_of(o, root) == LocalRoute::Scan,
{
}

} // verus!
