//! What options mean, where a search is answered, and what a search that no
//! server answers comes to.
use crate::clock::Elapsed;
use crate::file_search::{
    emit_views, emits_written, file_noted, file_searched, file_selected, shifted_columns, EmitView,
    FileRead, Found,
};
use crate::fixups::{source_offset, Repair};
use crate::local_search::{
    asks_server, every_file_listed, every_file_taken, files_searched, index_answer, is_filename_compatible, route_of, listing_route, listing_took, plan_chosen, run_answer, warnings_shown,
    ChosenBy, IndexFacts, ListFacts, ListRoute, LocalRoute, LocalRun, PlanChoice, QueryPlan, RootFacts, SearchedFile,
};
use crate::options::{
    is_output_config, is_upper, is_walk, type_filter_for, SearchOptions, SearchOptionsView,
    TypeFilterView, TypeStepView, WalkOptions,
};
use crate::output::{
    new_style, ColorMode, ContextView, MatchView, OutputConfig, OutputFormat, Style, WriterState,
};
use crate::text::decimal;
use vstd::prelude::*;

verus! {

/// Case is ignored where that is asked for before all; counts where that is
/// asked for; and by smart case it counts as soon as the pattern has an
/// upper-case character. Where nothing is asked for it counts.
pub proof fn law_case_is_treated_as_asked(o: SearchOptions)
    ensures
        ({
            let ignored = o@.ignores_case();
            let upper = exists|i: int| 0 <= i < o.pattern@.len() && is_upper(#[trigger] o.pattern@[i]);
            &&& o.case_insensitive ==> ignored
            &&& !o.case_insensitive && o.case_sensitive ==> !ignored
            &&& !o.case_insensitive && !o.case_sensitive && o.smart_case ==> (ignored <==> !upper)
            &&& !o.case_insensitive && !o.case_sensitive && !o.smart_case ==> !ignored
        }),
{
}

/// Lines of context are as many as asked for on each side, and else as many as
/// asked for on both.
pub proof fn law_context_is_as_large_as_asked(o: SearchOptions)
    ensures
        o.after_context matches Some(n) ==> o@.after_lines() == n,
        o.before_context matches Some(n) ==> o@.before_lines() == n,
        o.after_context is None && o.context is Some ==> o@.after_lines() == o.context->0,
        o.before_context is None && o.context is Some ==> o@.before_lines() == o.context->0,
        o.after_context is None && o.context is None ==> o@.after_lines() == 0,
        o.before_context is None && o.context is None ==> o@.before_lines() == 0,
{
}

/// All patterns are searched for: the first, then the further ones, then those
/// of a file; an empty first one only where there are no others.
pub proof fn law_all_patterns_are_searched_for(o: SearchOptions, i: int)
    requires
        o.pattern_file is None,
    ensures
        ({
            let all = o@.patterns(None);
            let more = o.extra_patterns@;
            &&& o.pattern@.len() > 0 || more.len() == 0 ==> all.len() == more.len() + 1 && all[0]
                == o.pattern@ && (0 <= i < more.len() ==> all[i + 1] == more[i]@)
            &&& o.pattern@.len() == 0 && more.len() > 0 ==> all.len() == more.len() && (0 <= i
                < more.len() ==> all[i] == more[i]@)
        }),
{
}

/// The patterns of a file are its lines that are not blank, without the white
/// space around them, behind all others.
pub proof fn law_files_of_patterns_hold_one_for_each_line(
    o: SearchOptions,
    content: Seq<char>,
    line: Seq<char>,
)
    requires
        o.pattern_file is Some,
        crate::text::lines_of(content).contains(line),
    ensures
        crate::text::trimmed(line).len() > 0 ==> o@.patterns(Some(content)).contains(
            crate::text::trimmed(line),
        ),
{
    let f = |line: Seq<char>|
        if crate::text::trimmed(line).len() > 0 {
            Some(crate::text::trimmed(line))
        } else {
            None
        };
    let lines = crate::text::lines_of(content);
    let t = crate::text::trimmed(line);
    if t.len() > 0 {
        let i = choose|i: int| 0 <= i < lines.len() && lines[i] == line;
        assert(f(lines[i]) == Some(t));
        crate::lists::lemma_filter_map_contains(lines, f, t);
        let found = lines.filter_map(f);
        let k = choose|k: int| 0 <= k < found.len() && found[k] == t;
        let all = o@.patterns(Some(content));
        let head = all.len() - found.len();
        assert(all[head + k] == t);
    }
}

/// Printing is set up as the options ask: JSON before names, names before
/// counts, counts before rows for an editor; and everything else as it is.
pub proof fn law_printing_is_set_up_as_asked(config: OutputConfig, o: SearchOptions)
    requires
        is_output_config(config, o@),
    ensures
        o.json ==> config.format == OutputFormat::Json,
        !o.json && o.files_only ==> config.format == OutputFormat::FilesOnly,
        !o.json && !o.files_only && (o.count || o.count_matches) ==> config.format
            == OutputFormat::Count,
        !o.json && !o.files_only && !o.count && !o.count_matches && o.vimgrep ==> config.format
            == OutputFormat::Vimgrep,
        !o.json && !o.files_only && !o.count && !o.count_matches && !o.vimgrep ==> config.format
            == OutputFormat::Heading,
        config.color == o.color,
        config.heading == o.heading,
        config.null == o.null,
        config.trim == o.trim,
        config.no_filename == o.no_filename,
        config.no_line_number == o.no_line_number,
        config.column == o.column,
        config.byte_offset == o.byte_offset,
        config.max_columns == o.max_columns,
        config.max_columns_preview == o.max_columns_preview,
        config.field_match_separator@ == o.field_match_separator@,
        config.field_context_separator@ == o.field_context_separator@,
        config.line_buffered == o.line_buffered,
        config.path_display@ == o.path_display@,
        config.context_separator is Some <==> o.context_separator is Some,
        config.context_separator is Some ==> config.context_separator->0@
            == o.context_separator->0@,
        config.path_separator is Some <==> o.path_separator is Some,
        config.path_separator is Some ==> config.path_separator->0@ == o.path_separator->0@,
        config.context <==> o@.after_lines() > 0 || o@.before_lines() > 0,
{
}

/// Colors and headings are as asked for, and else as a terminal has them; rows
/// for an editor never have a heading of their own accord.
pub proof fn law_terminals_get_colors_and_headings(
    config: OutputConfig,
    is_tty: bool,
    separator: char,
)
    ensures
        ({
            let style = new_style(config, is_tty, separator);
            &&& config.color == ColorMode::Always ==> style.use_color
            &&& config.color == ColorMode::Never ==> !style.use_color
            &&& config.color == ColorMode::Auto ==> style.use_color == is_tty
            &&& config.heading matches Some(h) ==> style.use_heading == h
            &&& config.heading is None && config.format == OutputFormat::Heading
                ==> style.use_heading == is_tty
            &&& config.heading is None && config.format == OutputFormat::Vimgrep
                ==> !style.use_heading
            &&& config.heading is None && config.format == OutputFormat::Flat ==> !style.use_heading
            &&& style.config == config && style.separator == separator
        }),
{
}

/// An index is left aside where it cannot know: for a single file, another
/// decoding, binary or ignored files, and what a glob takes in.
pub proof fn law_indexes_are_left_aside_where_they_cannot_know(o: SearchOptionsView, root: RootFacts)
    ensures
        ({
            let aside = root.is_file || o.encoding is Some || o.text || o.binary || o.no_ignore
                || o.no_ignore_dot || o.no_ignore_exclude || o.no_ignore_global
                || o.no_ignore_parent || o.no_ignore_vcs || o.has_includes();
            &&& route_of(o, root) == LocalRoute::Scan <==> o.no_index || aside
            &&& route_of(o, root) == LocalRoute::ScanWithoutIndex <==> !o.no_index && !aside
                && !root.has_index
            &&& route_of(o, root) == LocalRoute::Index <==> !o.no_index && !aside && root.has_index
            &&& asks_server(o, root) ==> !o.no_index && !aside && !o.files_without_match
                && !o.include_zero
            &&& !o.no_index && !aside && !o.files_without_match && !o.include_zero && !o.passthru
                ==> asks_server(o, root)
        }),
{
}

/// A glob takes files in unless it starts with an exclamation mark.
pub proof fn law_globs_take_files_in(o: SearchOptions, i: int)
    ensures
        0 <= i < o.glob@.len() && (o.glob@[i]@.len() == 0 || o.glob@[i]@[0] != '!')
            ==> o@.has_includes(),
        0 <= i < o.iglob@.len() && (o.iglob@[i]@.len() == 0 || o.iglob@[i]@[0] != '!')
            ==> o@.has_includes(),
        (forall|k: int| 0 <= k < o.glob@.len() ==> (#[trigger] o.glob@[k])@.len() > 0 && o.glob@[k]@[0]
            == '!') && (forall|k: int|
            0 <= k < o.iglob@.len() ==> (#[trigger] o.iglob@[k])@.len() > 0 && o.iglob@[k]@[0]
                == '!') ==> !o@.has_includes(),
{
    if 0 <= i < o.glob@.len() && (o.glob@[i]@.len() == 0 || o.glob@[i]@[0] != '!') {
        assert(crate::options::is_include(o@.glob[i]));
    }
    if 0 <= i < o.iglob@.len() && (o.iglob@[i]@.len() == 0 || o.iglob@[i]@[0] != '!') {
        assert(crate::options::is_include(o@.iglob[i]));
    }
    if (forall|k: int|
        0 <= k < o.glob@.len() ==> (#[trigger] o.glob@[k])@.len() > 0 && o.glob@[k]@[0] == '!') && (
    forall|k: int|
        0 <= k < o.iglob@.len() ==> (#[trigger] o.iglob@[k])@.len() > 0 && o.iglob@[k]@[0] == '!') {
        assert forall|k: int| 0 <= k < o@.glob.len() implies !crate::options::is_include(
            #[trigger] o@.glob[k],
        ) by {
            assert(o@.glob[k] == o.glob@[k]@);
        }
        assert forall|k: int| 0 <= k < o@.iglob.len() implies !crate::options::is_include(
            #[trigger] o@.iglob[k],
        ) by {
            assert(o@.iglob[k] == o.iglob@[k]@);
        }
    }
}

/// A list of names comes from an index only where the tree would be walked by
/// the rules that the index was built with.
pub proof fn law_names_come_from_an_index_by_its_own_rules(o: SearchOptionsView)
    ensures
        is_filename_compatible(o) <==> !(o.no_index || o.no_ignore || o.no_ignore_dot
            || o.no_ignore_exclude || o.no_ignore_global || o.no_ignore_parent || o.no_ignore_vcs
            || o.no_require_git || o.follow || o.one_file_system || o.ignore_files.len() > 0
            || o.ignore_file_case_insensitive || o.max_filesize_requested),
{
}

/// Files are searched in turn: each is reported behind those before it, and
/// something was found as soon as one was what was looked for. A quiet search
/// looks at no more files then.
pub proof fn law_files_are_searched_in_turn(
    style: Style,
    st: WriterState,
    files: Seq<SearchedFile>,
    f: SearchedFile,
    o: SearchOptionsView,
    explicit: bool,
)
    ensures
        files_searched(style, st, Seq::empty(), o, explicit) == (st, false),
        ({
            let (before, had) = files_searched(style, st, files, o, explicit);
            let (after, found) = files_searched(style, st, files.push(f), o, explicit);
            let (alone, selected) = file_selected(
                style,
                before,
                f.read,
                f.found,
                f.path@,
                o,
                explicit,
            );
            &&& o.quiet && had ==> after == before && found
            &&& !(o.quiet && had) ==> after == alone && (found <==> had || selected)
        }),
{
    assert(files.push(f).drop_last() =~= files);
}

/// A search ends with everything handed on, and says how much it found only
/// where that is asked for: what was counted of the files it read.
pub proof fn law_searches_say_how_much_they_found(
    style: Style,
    st: WriterState,
    run: LocalRun,
    o: SearchOptionsView,
    elapsed_ms: Seq<char>,
)
    ensures
        ({
            let (state, had) = files_searched(style, st, run.files@, o, run.explicit);
            let answer = run_answer(style, st, run, o, elapsed_ms);
            let found = decimal(state.total_matches as nat) + " matches ("@ + decimal(
                state.total_matched_lines as nat,
            ) + " matched lines)\n"@;
            &&& answer.had_matches == had
            &&& answer.state == style.flushed(state)
            &&& answer.stats is Some <==> o.stats
            &&& answer.stats matches Some(text) ==> crate::text::closes(text, found)
        }),
{
    let (state, had) = files_searched(style, st, run.files@, o, run.explicit);
    let a = decimal(state.total_matches as nat);
    let b = decimal(state.total_matched_lines as nat);
    let found = a + " matches ("@ + b + " matched lines)\n"@;
    match run.by {
        ChosenBy::Index(plan, candidates, files) => {
            let head = "Query plan: "@ + crate::local_search::plan_text(plan) + " (candidates: "@
                + decimal(candidates as nat) + "/"@ + decimal(files as nat)
                + ")\nSearch completed in "@ + elapsed_ms + "ms: "@;
            lemma_closes(head, a, " matches ("@, b, " matched lines)\n"@);
        },
        ChosenBy::Scan(files) => {
            let head = "Brute-force search completed in "@ + elapsed_ms + "ms ("@ + (match files {
                Some(n) => decimal(n as nat) + " files"@,
                None => "1 file"@,
            }) + "): "@;
            lemma_closes(head, a, " matches ("@, b, " matched lines)\n"@);
        },
    }
}

proof fn lemma_closes(head: Seq<char>, a: Seq<char>, x: Seq<char>, b: Seq<char>, y: Seq<char>)
    ensures
        crate::text::closes(head + a + x + b + y, a + x + b + y),
{
    let all = head + a + x + b + y;
    let tail = a + x + b + y;
    assert(all.skip(head.len() as int) =~= tail);
}

/// Where an index is there and everything about it is in order it answers, and
/// else the scan does.
pub proof fn law_sound_indexes_answer(
    facts: IndexFacts,
    style: Style,
    st: WriterState,
    indexed: LocalRun,
    scanned: LocalRun,
    o: SearchOptionsView,
    elapsed_ms: Seq<char>,
)
    ensures
        ({
            let sound = facts.complete && facts.hidden_complete && facts.current_format
                && facts.has_visibility && facts.covers_index && facts.covers_root;
            index_answer(Ok(facts), style, st, indexed, scanned, o, elapsed_ms) == run_answer(
                style,
                st,
                if sound {
                    indexed
                } else {
                    scanned
                },
                o,
                elapsed_ms,
            )
        }),
{
}

/// Of a file with a match, where lines are asked for, every line is printed that
/// the matcher handed on, in order.
pub proof fn law_found_lines_are_printed(
    style: Style,
    st: WriterState,
    read: FileRead,
    found: Found,
    file: Seq<char>,
    o: SearchOptionsView,
    explicit: bool,
)
    requires
        read.first_nul is None || o.text,
        !found.is_empty,
        !o.quiet && !o.files_only && !o.files_without_match && !o.count && !o.count_matches,
    ensures
        ({
            let noted = file_noted(st, read, found, o);
            file_selected(style, st, read, found, file, o, explicit) == (
                emits_written(style, noted, read.fixups@, file, emit_views(found.emits@)),
                true,
            )
        }),
{
    reveal(file_selected);
    reveal(file_searched);
}

/// What is searched is counted: one file more, and its bytes; and its matches
/// and lines where totals are asked for. Nothing is printed by that.
pub proof fn law_searched_files_are_counted(
    st: WriterState,
    read: FileRead,
    found: Found,
    o: SearchOptionsView,
)
    requires
        st.all_searches < u64::MAX,
        st.total_matches + found.total_matches <= u64::MAX,
        st.total_matched_lines + found.total_matched_lines <= u64::MAX,
    ensures
        ({
            let after = file_noted(st, read, found, o);
            &&& after.out == st.out
            &&& after.all_searches == st.all_searches + 1
            &&& o.stats ==> after.total_matches == st.total_matches + found.total_matches
            &&& o.stats ==> after.total_matched_lines == st.total_matched_lines
                + found.total_matched_lines
            &&& !o.stats ==> after.total_matches == st.total_matches && after.total_matched_lines
                == st.total_matched_lines
            &&& after.current_file == st.current_file && after.last_printed == st.last_printed
        }),
{
}

/// A line that the matcher handed on is printed with its own number, text,
/// places and offset, in a file that was decoded as it is.
pub proof fn law_found_lines_keep_their_places(
    style: Style,
    st: WriterState,
    file: Seq<char>,
    emits: Seq<EmitView>,
    line_number: usize,
    content: Seq<char>,
    columns: Seq<usize>,
    spans: Seq<(usize, usize)>,
    absolute_offset: usize,
    line_offset: usize,
    terminator_len: usize,
)
    ensures
        ({
            let none = Seq::<Repair>::empty();
            let before = emits_written(style, st, none, file, emits);
            let apart = style.separated(before, file, line_number);
            let hit = EmitView::Match {
                line_number,
                content,
                columns,
                spans,
                absolute_offset,
                line_offset,
                column_shifts: Seq::empty(),
                offset_shift: 0,
                terminator_len,
            };
            let near = EmitView::Context { line_number, content, absolute_offset, terminator_len };
            &&& emits_written(style, st, none, file, emits.push(hit)) == style.match_written(
                apart,
                MatchView {
                    file,
                    line_number,
                    content,
                    columns,
                    spans,
                    absolute_offset,
                    terminator_len,
                },
            )
            &&& emits_written(style, st, none, file, emits.push(near)) == style.context_written(
                apart,
                ContextView { file, line_number, content, absolute_offset, terminator_len },
            )
        }),
{
    let none = Seq::<Repair>::empty();
    let hit = EmitView::Match {
        line_number,
        content,
        columns,
        spans,
        absolute_offset,
        line_offset,
        column_shifts: Seq::empty(),
        offset_shift: 0,
        terminator_len,
    };
    let near = EmitView::Context { line_number, content, absolute_offset, terminator_len };
    assert(emits.push(hit).drop_last() =~= emits);
    assert(emits.push(near).drop_last() =~= emits);
    assert(source_offset(none, absolute_offset as int) == absolute_offset);
    let cols = crate::file_search::source_columns(none, line_offset as int, columns);
    assert(cols =~= columns);
    assert(shifted_columns(cols, Seq::empty()) =~= columns);
}

/// Where a line was shifted before it was matched, its columns are shifted back,
/// but never before the first.
pub proof fn law_columns_are_shifted_back(columns: Seq<usize>, shifts: Seq<isize>, i: int)
    requires
        0 <= i < columns.len(),
        i < shifts.len(),
    ensures
        shifted_columns(columns, shifts).len() == columns.len(),
        1 <= columns[i] + shifts[i] <= usize::MAX ==> shifted_columns(columns, shifts)[i]
            == columns[i] + shifts[i],
        columns[i] + shifts[i] < 1 ==> shifted_columns(columns, shifts)[i] == 1,
{
}

/// A place in a decoded text is found on disk: before a repair where it is, and
/// behind it earlier by as much as the replacement is longer than what it stands
/// for.
pub proof fn law_repairs_move_what_is_behind_them(repairs: Seq<Repair>, r: Repair, offset: int)
    requires
        1 <= r.source_len <= 3,
        0 <= offset,
    ensures
        source_offset(Seq::empty(), offset) == offset,
        offset <= r.at ==> source_offset(repairs.push(r), offset) == source_offset(repairs, offset),
        offset >= r.at + 3 ==> source_offset(repairs.push(r), offset) == source_offset(
            repairs,
            offset,
        ) - (3 - r.source_len),
{
    assert(repairs.push(r).drop_last() =~= repairs);
}

/// Columns count bytes on disk from the start of the line.
pub proof fn law_columns_count_from_the_start_of_the_line(
    repairs: Seq<Repair>,
    line_offset: int,
    column: int,
)
    requires
        repairs.len() > 0,
    ensures
        crate::file_search::source_column(repairs, line_offset, column) - 1 == source_offset(
            repairs,
            line_offset + (column - 1),
        ) - source_offset(repairs, line_offset),
{
}

/// The time between two moments is their difference, and none where the clock
/// went back.
pub proof fn law_time_goes_forward(start: Elapsed, now: Elapsed)
    requires
        start.nanos < 1_000_000_000,
        now.nanos < 1_000_000_000,
    ensures
        ({
            let d = Elapsed::between(start, now);
            let a = start.secs * 1_000_000_000 + start.nanos;
            let b = now.secs * 1_000_000_000 + now.nanos;
            &&& b <= a ==> d.secs == 0 && d.nanos == 0
            &&& b > a ==> d.secs * 1_000_000_000 + d.nanos == b - a && d.nanos < 1_000_000_000
        }),
{
    let a = start.secs * 1_000_000_000 + start.nanos;
    let b = now.secs * 1_000_000_000 + now.nanos;
    if b > a {
        let n = b - a;
        assert(n / 1_000_000_000 <= u64::MAX) by (nonlinear_arith)
            requires
                n == b - a,
                b == now.secs * 1_000_000_000 + now.nanos,
                a >= 0,
                now.secs <= u64::MAX,
                now.nanos < 1_000_000_000,
        ;
    }
}

/// Where every line is printed, the lines of a file without a match are printed
/// too, and the file is no match for it.
pub proof fn law_passing_through_prints_every_line(
    style: Style,
    st: WriterState,
    read: FileRead,
    found: Found,
    file: Seq<char>,
    o: SearchOptionsView,
    explicit: bool,
)
    requires
        read.first_nul is None || o.text,
        found.is_empty,
        o.passthru && o.max_count != Some(0usize),
        !o.quiet && !o.files_only && !o.files_without_match && !o.count && !o.count_matches,
    ensures
        file_selected(style, st, read, found, file, o, explicit) == (
            emits_written(
                style,
                file_noted(st, read, found, o),
                read.fixups@,
                file,
                emit_views(found.emits@),
            ),
            false,
        ),
{
    reveal(file_selected);
    reveal(file_searched);
}

/// Nothing is printed of a file without a match, where only matches are asked
/// for.
pub proof fn law_files_without_a_match_print_nothing(
    style: Style,
    st: WriterState,
    read: FileRead,
    found: Found,
    file: Seq<char>,
    o: SearchOptionsView,
    explicit: bool,
)
    requires
        found.is_empty,
        !o.passthru && !o.files_without_match && !o.include_zero,
    ensures
        ({
            let (after, selected) = file_selected(style, st, read, found, file, o, explicit);
            after.out == st.out && !selected
        }),
{
    reveal(file_selected);
    reveal(file_searched);
}

/// What is searched of a file is counted in bytes on disk: up to the first null
/// byte where it is searched as binary, and else all of it.
pub proof fn law_searched_bytes_are_counted(
    st: WriterState,
    read: FileRead,
    found: Found,
    o: SearchOptionsView,
)
    requires
        read.fixups@.len() == 0,
    ensures
        ({
            let bytes = match read.first_nul {
                Some(at) => if o.text {
                    vstd::utf8::encode_utf8(read.text@).len() as u64
                } else {
                    at as u64
                },
                None => vstd::utf8::encode_utf8(read.text@).len() as u64,
            };
            let after = file_noted(st, read, found, o);
            &&& after.pending_bytes_searched == bytes
            &&& st.all_bytes_searched + bytes <= u64::MAX ==> after.all_bytes_searched
                == st.all_bytes_searched + bytes
        }),
{
    assert(crate::fixups::widened(read.fixups@, 0) == 0);
}

/// The first null byte of a file is the first: there is one there, and none
/// before it.
pub proof fn law_the_first_null_byte_is_the_first(bytes: Seq<u8>, i: usize, j: int)
    ensures
        crate::scan::is_first_nul(bytes, Some(i)) ==> i < bytes.len() && bytes[i as int] == 0,
        crate::scan::is_first_nul(bytes, Some(i)) && 0 <= j < i ==> bytes[j] != 0,
        crate::scan::is_first_nul(bytes, None) && 0 <= j < bytes.len() ==> bytes[j] != 0,
{
}

/// Candidates are narrowed by the patterns as far as that is safe: not where
/// every line is printed or a text is decoded otherwise; and every file is a
/// candidate where files without a match matter.
pub proof fn law_candidates_are_narrowed_only_where_that_is_safe(
    o: SearchOptionsView,
    standard: bool,
    match_all: bool,
)
    ensures
        o.encoding is Some ==> plan_chosen(o, standard) == PlanChoice::MatchAll,
        o.encoding is None && !o.passthru && (standard || o.fixed_string) ==> plan_chosen(
            o,
            standard,
        ) == PlanChoice::Patterns,
        o.encoding is None && !o.passthru && !standard && !o.fixed_string ==> plan_chosen(
            o,
            standard,
        ) == PlanChoice::Relaxed,
        every_file_taken(o, match_all) <==> match_all || o.files_without_match || o.invert_match
            || o.include_zero,
        warnings_shown(o) <==> !o.quiet && !o.no_messages,
{
}

/// A list of files comes from a server before an index on disk, and from either
/// only where it shows what a walk would.
pub proof fn law_lists_come_from_an_index_where_they_can(o: SearchOptionsView, facts: ListFacts)
    ensures
        ({
            let route = listing_route(o, facts);
            let compatible = is_filename_compatible(o) && !o.has_includes();
            &&& route == ListRoute::File <==> facts.is_file
            &&& route == ListRoute::Server <==> !facts.is_file && compatible && facts.server_listed
            &&& route == ListRoute::Index <==> !facts.is_file && compatible && !facts.server_listed
                && facts.index_listed
        }),
{
}

/// An index lists every file only where it is complete, covers hidden files, has
/// the current format, and knows which paths are visible, all of them.
pub proof fn law_only_whole_indexes_list_every_file(facts: IndexFacts, visibility_complete: bool)
    ensures
        every_file_listed(facts, visibility_complete) <==> facts.complete && facts.hidden_complete
            && facts.current_format && facts.has_visibility && facts.covers_index
            && visibility_complete,
{
}

/// What is said of a list of files says where it came from and how long it took.
pub proof fn law_lists_say_where_they_come_from(elapsed_ms: Seq<char>)
    ensures
        listing_took(ListRoute::Server, elapsed_ms) == "Filename search completed in "@ + elapsed_ms
            + "ms (via "@ + "server"@ + ")\n"@,
        listing_took(ListRoute::Index, elapsed_ms) == "Filename search completed in "@ + elapsed_ms
            + "ms (via "@ + "local index"@ + ")\n"@,
        listing_took(ListRoute::Walk, elapsed_ms) == "Filename search completed in "@ + elapsed_ms
            + "ms (via "@ + "filesystem walk"@ + ")\n"@,
{
}

/// What is said of a search from an index gives its plan and how many of the
/// indexed files were candidates; of a scan, how many files were read.
pub proof fn law_totals_say_what_was_looked_at(
    candidates: usize,
    files: usize,
    n: usize,
    elapsed_ms: Seq<char>,
    matches: u64,
    lines: u64,
)
    ensures
        crate::local_search::index_totals(
            QueryPlan::And(n),
            candidates,
            files,
            elapsed_ms,
            matches,
            lines,
        ) == "Query plan: "@ + ("AND("@ + decimal(n as nat) + " trigrams)"@) + " (candidates: "@
            + decimal(candidates as nat) + "/"@ + decimal(files as nat) + ")\nSearch completed in "@
            + elapsed_ms + "ms: "@ + decimal(matches as nat) + " matches ("@ + decimal(lines as nat)
            + " matched lines)\n"@,
        crate::local_search::scan_totals(Some(files), elapsed_ms, matches, lines)
            == "Brute-force search completed in "@ + elapsed_ms + "ms ("@ + (decimal(files as nat)
            + " files"@) + "): "@ + decimal(matches as nat) + " matches ("@ + decimal(lines as nat)
            + " matched lines)\n"@,
        crate::local_search::scan_totals(None, elapsed_ms, matches, lines)
            == "Brute-force search completed in "@ + elapsed_ms + "ms ("@ + "1 file"@ + "): "@
            + decimal(matches as nat) + " matches ("@ + decimal(lines as nat)
            + " matched lines)\n"@,
{
}

/// Where there is no index, what is said names where it was looked for, and how
/// to build one there where the place was given.
pub proof fn law_missing_indexes_are_named(dir: Seq<char>)
    ensures
        crate::local_search::missing_index_text(dir, true) == "warning: no index at "@ + dir
            + " - scanning every file (slow on large trees)\n"@ + (
        "note: build one with `tgrep index --index-path "@ + dir + "`\n"@),
        crate::text::opens(
            crate::local_search::missing_index_text(dir, false),
            "warning: no index at "@ + dir,
        ),
{
    let text = crate::local_search::missing_index_text(dir, false);
    let head = "warning: no index at "@ + dir;
    assert(text.take(head.len() as int) =~= head);
}

/// A tree is walked as the options ask: hidden files, ignore rules, links and
/// limits each by their own option, binary files where they are searched.
pub proof fn law_trees_are_walked_as_asked(w: WalkOptions, o: SearchOptions)
    requires
        is_walk(w, o@),
    ensures
        w.include_hidden == o.hidden,
        w.no_ignore == o.no_ignore,
        w.search_binary <==> o.text || o.binary,
        w.follow_links == o.follow,
        w.max_file_size == o.max_filesize,
        w.max_depth == o.max_depth,
        w.same_file_system == o.one_file_system,
        w.ignore_files_case_insensitive == o.ignore_file_case_insensitive,
        w.no_ignore_dot == o.no_ignore_dot,
        w.no_ignore_exclude == o.no_ignore_exclude,
        w.no_ignore_global == o.no_ignore_global,
        w.no_ignore_parent == o.no_ignore_parent,
        w.no_ignore_vcs == o.no_ignore_vcs,
        w.no_require_git == o.no_require_git,
        w.no_ignore_messages <==> o.no_messages || o.no_ignore_messages,
        w.threads == o.threads,
        w.ignore_files@.len() == o.ignore_files@.len(),
        forall|i: int|
            0 <= i < w.ignore_files@.len() ==> (#[trigger] w.ignore_files@[i])@
                == o.ignore_files@[i]@,
{
    let a = crate::text::texts(w.ignore_files@);
    let b = crate::text::texts(o.ignore_files@);
    assert(a.len() == w.ignore_files@.len() && b.len() == o.ignore_files@.len());
    assert forall|i: int| 0 <= i < w.ignore_files@.len() implies (#[trigger] w.ignore_files@[i])@
        == o.ignore_files@[i]@ by {
        assert(a[i] == b[i]);
    }
}

/// Types are selected as given: none where nothing is said, and else those that
/// are named, after every type that is to be forgotten is, and then every one
/// that is to be added to is.
pub proof fn law_types_are_selected_as_given(
    add: Seq<Seq<char>>,
    clear: Seq<Seq<char>>,
    types: Seq<Seq<char>>,
    types_not: Seq<Seq<char>>,
    i: int,
)
    ensures
        ({
            let f = type_filter_for(add, clear, types, types_not);
            let nothing = add.len() == 0 && clear.len() == 0 && types.len() == 0 && types_not.len()
                == 0;
            &&& f == TypeFilterView::Everything <==> nothing
            &&& f matches TypeFilterView::Selected { steps, types: t, types_not: n } ==> {
                &&& t == types && n == types_not
                &&& steps.len() == clear.len() + add.len()
                &&& 0 <= i < clear.len() ==> steps[i] == TypeStepView::Clear(clear[i])
                &&& 0 <= i < add.len() ==> steps[clear.len() + i] == TypeStepView::Define(add[i])
            }
        }),
{
}

} // verus!
