//! What the command line means.
use crate::args::{
    limit_result, refresh_result, size_result, sort_result, Refresh, RefreshError, WatchMode,
};
use crate::cli::{
    cpu_share, memory_cap, ActionView, Cli, Command, IndexArgs, IndexSettings, McpArgs,
    ResolvedArgs, ResolvedView, ServeArgs, ServeSettings,
};
use crate::options::RegexEngine;
use crate::output::{ColorMode, DisplayView};
use crate::state::McpOptions;
use crate::sort::{SortKey, SortMode};
use crate::text::{decimal, trimmed};
use crate::text_laws::{law_numbers_are_read_back, lemma_digits_are_not_trimmed};
use vstd::prelude::*;

verus! {

proof fn lemma_names()
    ensures
        "none"@ != "path"@,
        "none"@ != "modified"@,
        "none"@ != "accessed"@,
        "none"@ != "created"@,
        "none"@ != "default"@,
        "none"@ != "pcre2"@,
        "none"@ != "auto"@,
        "none"@ != "always"@,
        "none"@ != "never"@,
        "none"@ != "poll"@,
        "path"@ != "modified"@,
        "path"@ != "accessed"@,
        "path"@ != "created"@,
        "path"@ != "default"@,
        "path"@ != "pcre2"@,
        "path"@ != "auto"@,
        "path"@ != "always"@,
        "path"@ != "never"@,
        "path"@ != "poll"@,
        "modified"@ != "accessed"@,
        "modified"@ != "created"@,
        "modified"@ != "default"@,
        "modified"@ != "pcre2"@,
        "modified"@ != "auto"@,
        "modified"@ != "always"@,
        "modified"@ != "never"@,
        "modified"@ != "poll"@,
        "accessed"@ != "created"@,
        "accessed"@ != "default"@,
        "accessed"@ != "pcre2"@,
        "accessed"@ != "auto"@,
        "accessed"@ != "always"@,
        "accessed"@ != "never"@,
        "accessed"@ != "poll"@,
        "created"@ != "default"@,
        "created"@ != "pcre2"@,
        "created"@ != "auto"@,
        "created"@ != "always"@,
        "created"@ != "never"@,
        "created"@ != "poll"@,
        "default"@ != "pcre2"@,
        "default"@ != "auto"@,
        "default"@ != "always"@,
        "default"@ != "never"@,
        "default"@ != "poll"@,
        "pcre2"@ != "auto"@,
        "pcre2"@ != "always"@,
        "pcre2"@ != "never"@,
        "pcre2"@ != "poll"@,
        "auto"@ != "always"@,
        "auto"@ != "never"@,
        "auto"@ != "poll"@,
        "always"@ != "never"@,
        "always"@ != "poll"@,
        "never"@ != "poll"@,
{
    reveal_strlit("none");
    reveal_strlit("path");
    reveal_strlit("modified");
    reveal_strlit("accessed");
    reveal_strlit("created");
    reveal_strlit("default");
    reveal_strlit("pcre2");
    reveal_strlit("auto");
    reveal_strlit("always");
    reveal_strlit("never");
    reveal_strlit("poll");
    assert("none"@.len() == 4);
    assert("path"@.len() == 4);
    assert("modified"@.len() == 8);
    assert("accessed"@.len() == 8);
    assert("created"@.len() == 7);
    assert("default"@.len() == 7);
    assert("pcre2"@.len() == 5);
    assert("auto"@.len() == 4);
    assert("always"@.len() == 6);
    assert("never"@.len() == 5);
    assert("poll"@.len() == 4);
    assert("none"@[0] != "path"@[0]);
    assert("none"@[0] != "auto"@[0]);
    assert("none"@[0] != "poll"@[0]);
    assert("path"@[0] != "auto"@[0]);
    assert("path"@[1] != "poll"@[1]);
    assert("modified"@[0] != "accessed"@[0]);
    assert("created"@[0] != "default"@[0]);
    assert("pcre2"@[0] != "never"@[0]);
    assert("auto"@[0] != "poll"@[0]);
}

/// Whether a list of texts is one of strings.
pub open spec fn is_list(list: Seq<Seq<char>>, given: Seq<String>) -> bool {
    list.len() == given.len() && forall|i: int|
        0 <= i < list.len() ==> #[trigger] list[i] == given[i]@
}

/// Whether a text is a string, or both are missing.
pub open spec fn is_text(text: Option<Seq<char>>, given: Option<String>) -> bool {
    match given {
        Some(s) => text == Some(s@),
        None => text is None,
    }
}

/// Every flag that selects what is matched and what is printed reaches the option
/// that it is for.
pub proof fn law_flags_reach_their_options(
    cli: Cli,
    pattern: Seq<char>,
    resolved: ResolvedArgs,
    is_tty: bool,
)
    ensures
        ({
            let o = cli.search_asked(pattern, resolved, is_tty);
            &&& o.pattern == pattern
            &&& is_list(o.extra_patterns, cli.regexp@)
            &&& is_text(o.pattern_file, cli.pattern_file)
            &&& o.case_insensitive == cli.ignore_case
            &&& o.case_sensitive == cli.case_sensitive
            &&& o.smart_case == cli.smart_case
            &&& o.fixed_string == cli.fixed_strings
            &&& o.files_only == cli.files_only
            &&& o.files_without_match == cli.files_without_match
            &&& o.count == cli.count
            &&& o.word_boundary == cli.word_regexp
            &&& o.max_count == cli.max_count
            &&& o.vimgrep == cli.vimgrep
            &&& o.no_index == cli.no_index
            &&& o.glob_case_insensitive == cli.glob_case_insensitive
            &&& o.invert_match == cli.invert_match
            &&& o.only_matching == cli.only_matching
            &&& o.after_context == cli.after_context
            &&& o.before_context == cli.before_context
            &&& o.context == cli.context
            &&& o.null == cli.null
            &&& o.trim == cli.trim
            &&& o.multiline_dotall == cli.multiline_dotall
            &&& o.quiet == cli.quiet
            &&& o.no_filename == cli.no_filename
            &&& o.text == cli.text
            &&& is_list(o.glob, cli.glob@)
            &&& is_list(o.iglob, cli.iglob@)
            &&& is_list(o.types, cli.file_type@)
            &&& is_list(o.types_not, cli.type_not@)
            &&& is_list(o.type_add, cli.type_add@)
            &&& is_list(o.type_clear, cli.type_clear@)
        }),
{
}

/// Every flag of how the tree is walked and how lines are printed reaches the
/// option that it is for, and so does every value that was resolved.
pub proof fn law_settings_reach_their_options(
    cli: Cli,
    pattern: Seq<char>,
    resolved: ResolvedArgs,
    is_tty: bool,
)
    ensures
        ({
            let o = cli.search_asked(pattern, resolved, is_tty);
            &&& o.follow == cli.follow
            &&& o.no_messages == cli.no_messages
            &&& o.no_ignore_messages == cli.no_ignore_messages
            &&& o.line_regexp == cli.line_regexp
            &&& o.no_unicode == cli.no_unicode
            &&& o.passthru == cli.passthru
            &&& o.stop_on_nonmatch == cli.stop_on_nonmatch
            &&& o.byte_offset == cli.byte_offset
            &&& o.max_columns == cli.max_columns
            &&& o.max_columns_preview == cli.max_columns_preview
            &&& o.count_matches == cli.count_matches
            &&& o.include_zero == cli.include_zero
            &&& o.max_depth == cli.max_depth
            &&& o.one_file_system == cli.one_file_system
            &&& o.ignore_file_case_insensitive == cli.ignore_file_case_insensitive
            &&& o.no_ignore_dot == cli.no_ignore_dot
            &&& o.no_ignore_exclude == cli.no_ignore_exclude
            &&& o.no_ignore_global == cli.no_ignore_global
            &&& o.no_ignore_parent == cli.no_ignore_parent
            &&& o.no_ignore_vcs == cli.no_ignore_vcs
            &&& o.no_require_git == cli.no_require_git
            &&& o.threads == cli.threads
            &&& o.line_buffered == cli.line_buffered
            &&& o.max_filesize == resolved.max_filesize
            &&& o.max_filesize_requested == resolved.max_filesize_requested
            &&& is_text(o.encoding, resolved.encoding)
            &&& o.engine == resolved.engine
            &&& o.regex_size_limit == resolved.regex_size_limit
            &&& o.dfa_size_limit == resolved.dfa_size_limit
            &&& o.sort == resolved.sort
            &&& is_text(o.replace, cli.replace)
            &&& is_text(o.path_separator, cli.path_separator)
            &&& o.path_display == DisplayView::Bare
        }),
{
}

/// Flags that stand for others: each step of being unrestricted adds one, tall
/// matches are of several lines, a place is a column, and what is diagnosed is
/// counted.
pub proof fn law_some_flags_stand_for_others(
    cli: Cli,
    pattern: Seq<char>,
    resolved: ResolvedArgs,
    is_tty: bool,
)
    ensures
        ({
            let o = cli.search_asked(pattern, resolved, is_tty);
            &&& o.no_ignore <==> cli.no_ignore || cli.unrestricted >= 1
            &&& o.hidden <==> cli.hidden || cli.unrestricted >= 2
            &&& o.binary <==> cli.binary || cli.unrestricted >= 3
            &&& o.multiline <==> cli.multiline || cli.multiline_dotall
            &&& o.column <==> cli.column || cli.vimgrep
            &&& o.stats <==> cli.stats || cli.debug || cli.trace
            &&& cli.no_line_number ==> o.no_line_number
            &&& !cli.no_line_number ==> (!o.no_line_number <==> cli.line_number || cli.column
                || cli.vimgrep || cli.pretty || is_tty)
            &&& o.json <==> cli.json && !cli.count && !cli.count_matches && !cli.files_only
                && !cli.files_without_match && !cli.list_files
            &&& cli.no_ignore_files ==> o.ignore_files.len() == 0
            &&& !cli.no_ignore_files ==> is_list(o.ignore_files, cli.ignore_file@)
        }),
{
}

/// How lines are set apart: by what is given, and else by a colon in matches, a
/// dash in context, and two dashes between groups unless there is to be nothing.
pub proof fn law_lines_are_set_apart_as_given(
    cli: Cli,
    pattern: Seq<char>,
    resolved: ResolvedArgs,
    is_tty: bool,
)
    ensures
        ({
            let o = cli.search_asked(pattern, resolved, is_tty);
            &&& o.field_match_separator == (match cli.field_match_separator {
                Some(s) => s@,
                None => ":"@,
            })
            &&& o.field_context_separator == (match cli.field_context_separator {
                Some(s) => s@,
                None => "-"@,
            })
            &&& cli.no_context_separator ==> o.context_separator is None
            &&& !cli.no_context_separator ==> o.context_separator == Some(
                match cli.context_separator {
                    Some(s) => s@,
                    None => "--"@,
                },
            )
            &&& cli.heading || cli.pretty ==> o.heading == Some(true)
            &&& !cli.heading && !cli.pretty && cli.no_heading ==> o.heading == Some(false)
            &&& !cli.heading && !cli.pretty && !cli.no_heading ==> o.heading is None
            &&& cli.pretty ==> o.color == ColorMode::Always
            &&& !cli.pretty && cli.color@ == "always"@ ==> o.color == ColorMode::Always
            &&& !cli.pretty && cli.color@ == "never"@ ==> o.color == ColorMode::Never
            &&& !cli.pretty && cli.color@ == "auto"@ ==> o.color == ColorMode::Auto
        }),
{
    lemma_names();
}

/// The first text behind the flags is the pattern, unless patterns are given
/// otherwise: then it is the first path.
pub proof fn law_the_first_text_is_the_pattern(
    cli: Cli,
    positional: Option<Seq<char>>,
    rest: Seq<Seq<char>>,
)
    ensures
        ({
            let (pattern, paths) = cli.pattern_and_paths(positional, rest);
            let elsewhere = cli.regexp@.len() > 0 || cli.pattern_file is Some;
            &&& !elsewhere ==> paths == rest && (positional matches Some(p) ==> pattern == p)
            &&& elsewhere ==> pattern.len() == 0
            &&& elsewhere && positional is None ==> paths == rest
            &&& elsewhere && positional is Some ==> paths.len() == rest.len() + 1 && paths[0]
                == positional->0 && paths.skip(1) == rest
        }),
{
    if let Some(p) = positional {
        assert((seq![p] + rest).skip(1) =~= rest);
    }
}

/// What a program does: what it cannot do it refuses before anything else, a
/// value that is wrong fails, files are listed where that is asked for, a search
/// needs a pattern, and a subcommand is run.
pub proof fn law_programs_do_what_is_asked(cli: Cli, resolved: Result<ResolvedView, Seq<char>>)
    ensures
        ({
            let does = cli.action(resolved);
            let special = cli.type_list || cli.search_zip || cli.pcre2_version;
            let patterns = cli.pattern is Some || cli.regexp@.len() > 0 || cli.pattern_file is Some;
            &&& cli.type_list ==> does == ActionView::ListTypes
            &&& !cli.type_list && cli.search_zip ==> does is Fail
            &&& !cli.type_list && !cli.search_zip && cli.pcre2_version ==> does is Print
            &&& !special ==> (resolved matches Err(m) ==> does == ActionView::Fail(m))
            &&& !special && resolved is Ok && cli.command is None && cli.list_files
                ==> does is ListFiles
            &&& !special && resolved is Ok && cli.command is None && !cli.list_files && patterns
                ==> does is Search
            &&& !special && resolved is Ok && cli.command is None && !cli.list_files && !patterns
                ==> does == ActionView::Usage
            &&& !special && resolved is Ok && (cli.command matches Some(Command::Status(_)))
                ==> does == ActionView::Run
            &&& !special && resolved is Ok && (cli.command matches Some(Command::CountFiles(_)))
                ==> does == ActionView::Run
            &&& !special && resolved is Ok && (cli.command matches Some(Command::Search(_, _)))
                ==> does is Search
        }),
{
}

/// A search looks for the pattern in the paths, and a listing takes every text
/// as a path.
pub proof fn law_searches_take_patterns_and_listings_paths(
    cli: Cli,
    resolved: ResolvedView,
    pattern: String,
)
    requires
        !cli.type_list && !cli.search_zip && !cli.pcre2_version,
        cli.command is None,
        cli.pattern == Some(pattern),
        cli.regexp@.len() == 0 && cli.pattern_file is None,
    ensures
        !cli.list_files ==> (cli.action(Ok(resolved)) matches ActionView::Search(p, paths) && p
            == pattern@ && is_list(paths, cli.paths@)),
        cli.list_files ==> (cli.action(Ok(resolved)) matches ActionView::ListFiles(paths)
            && paths.len() == cli.paths@.len() + 1 && paths[0] == pattern@ && is_list(
            paths.skip(1),
            cli.paths@,
        )),
{
    let all = seq![pattern@] + crate::text::texts(cli.paths@);
    assert(all.skip(1) =~= crate::text::texts(cli.paths@));
}

proof fn lemma_size(n: u64, suffix: char)
    requires
        suffix == 'K' || suffix == 'k' || suffix == 'M' || suffix == 'm' || suffix == 'G' || suffix
            == 'g',
    ensures
        trimmed(decimal(n as nat).push(suffix)) == decimal(n as nat).push(suffix),
{
    lemma_digits_are_not_trimmed(n as nat);
    let s = decimal(n as nat);
    let all = s.push(suffix);
    lemma_first_digit(n as nat);
    assert(all[0] == s[0]);
    assert(all.last() == suffix);
}

proof fn lemma_first_digit(n: nat)
    ensures
        decimal(n).len() > 0,
        '0' <= decimal(n)[0] <= '9',
        '0' <= decimal(n).last() <= '9',
    decreases n,
{
    let d = n % 10;
    assert(d == 0 || d == 1 || d == 2 || d == 3 || d == 4 || d == 5 || d == 6 || d == 7 || d == 8
        || d == 9);
    if n >= 10 {
        lemma_first_digit(n / 10);
    }
}

/// A size is a number of bytes, or of units of a thousand and twenty-four, its
/// square or its cube; one that cannot be counted is refused.
pub proof fn law_sizes_are_in_bytes_or_units(flag: Seq<char>, n: u64)
    ensures
        size_result(flag, decimal(n as nat)) == Ok::<u64, Seq<char>>(n),
        n * 1024 <= u64::MAX ==> size_result(flag, decimal(n as nat).push('K')) == Ok::<
            u64,
            Seq<char>,
        >((n * 1024) as u64),
        n * 1024 <= u64::MAX ==> size_result(flag, decimal(n as nat).push('k')) == Ok::<
            u64,
            Seq<char>,
        >((n * 1024) as u64),
        n * 1024 * 1024 <= u64::MAX ==> size_result(flag, decimal(n as nat).push('M')) == Ok::<
            u64,
            Seq<char>,
        >((n * 1024 * 1024) as u64),
        n * 1024 * 1024 * 1024 <= u64::MAX ==> size_result(flag, decimal(n as nat).push('G'))
            == Ok::<u64, Seq<char>>((n * 1024 * 1024 * 1024) as u64),
        n * 1024 * 1024 * 1024 > u64::MAX ==> size_result(flag, decimal(n as nat).push('G')) is Err,
{
    lemma_plain(flag, n);
    lemma_sized(flag, n, 'K', 1024);
    lemma_sized(flag, n, 'k', 1024);
    lemma_sized(flag, n, 'M', 1_048_576);
    lemma_sized(flag, n, 'G', 1_073_741_824);
    assert(n * 1024 * 1024 == n * 1_048_576) by (nonlinear_arith);
    assert(n * 1024 * 1024 * 1024 == n * 1_073_741_824) by (nonlinear_arith);
}

proof fn lemma_plain(flag: Seq<char>, n: u64)
    ensures
        size_result(flag, decimal(n as nat)) == Ok::<u64, Seq<char>>(n),
{
    let s = decimal(n as nat);
    law_numbers_are_read_back(n);
    lemma_digits_are_not_trimmed(n as nat);
    lemma_first_digit(n as nat);
    assert(crate::args::suffix_factor(s.last()) is None);
    assert(crate::args::size_parts(s) == (s, 1u64));
    assert(n * 1 == n);
}

proof fn lemma_sized(flag: Seq<char>, n: u64, suffix: char, factor: u64)
    requires
        (suffix == 'K' || suffix == 'k') && factor == 1024 || suffix == 'M' && factor == 1_048_576
            || suffix == 'G' && factor == 1_073_741_824,
    ensures
        n * factor <= u64::MAX ==> size_result(flag, decimal(n as nat).push(suffix)) == Ok::<
            u64,
            Seq<char>,
        >((n * factor) as u64),
        n * factor > u64::MAX ==> size_result(flag, decimal(n as nat).push(suffix)) is Err,
{
    let s = decimal(n as nat);
    law_numbers_are_read_back(n);
    lemma_digits_are_not_trimmed(n as nat);
    lemma_size(n, suffix);
    assert(s.push(suffix).drop_last() =~= s);
    assert(s.push(suffix).last() == suffix);
    assert(crate::args::suffix_factor(suffix) == Some(factor));
    assert(crate::args::size_parts(s.push(suffix)) == (s, factor));
}

/// Files are limited in size as given, by sixty-four units of a thousand and
/// twenty-four squared where nothing is said, and not at all where that is
/// asked for.
pub proof fn law_files_are_limited_as_given(cli: Cli, s: String)
    ensures
        cli.no_max_filesize ==> cli.size_limit() == Ok::<Option<u64>, Seq<char>>(None),
        !cli.no_max_filesize && cli.max_filesize is None ==> cli.size_limit() == Ok::<
            Option<u64>,
            Seq<char>,
        >(Some(67_108_864u64)),
        !cli.no_max_filesize && cli.max_filesize == Some(s) ==> (cli.size_limit() is Ok
            <==> size_result("--max-filesize"@, s@) is Ok),
        !cli.no_max_filesize && cli.max_filesize == Some(s) ==> (size_result(
            "--max-filesize"@,
            s@,
        ) matches Ok(n) ==> cli.size_limit() == Ok::<Option<u64>, Seq<char>>(Some(n))),
{
}

/// Results are ordered by what is named: upwards, downwards, or not at all; the
/// older flag orders by path.
pub proof fn law_results_are_ordered_by_what_is_named(cli: Cli, reverse: bool)
    ensures
        sort_result("none"@, reverse) == Ok::<Option<SortMode>, Seq<char>>(None),
        sort_result("path"@, reverse) == Ok::<Option<SortMode>, Seq<char>>(
            Some(SortMode { key: SortKey::Path, reverse }),
        ),
        sort_result("modified"@, reverse) == Ok::<Option<SortMode>, Seq<char>>(
            Some(SortMode { key: SortKey::Modified, reverse }),
        ),
        sort_result("accessed"@, reverse) == Ok::<Option<SortMode>, Seq<char>>(
            Some(SortMode { key: SortKey::Accessed, reverse }),
        ),
        sort_result("created"@, reverse) == Ok::<Option<SortMode>, Seq<char>>(
            Some(SortMode { key: SortKey::Created, reverse }),
        ),
        cli.sort matches Some(key) ==> cli.sort_choice() == sort_result(key@, false),
        cli.sort is None ==> (cli.sortr matches Some(key) ==> cli.sort_choice() == sort_result(
            key@,
            true,
        )),
        cli.sort is None && cli.sortr is None && !cli.sort_files ==> cli.sort_choice() == Ok::<
            Option<SortMode>,
            Seq<char>,
        >(None),
        cli.sort is None && cli.sortr is None && cli.sort_files ==> cli.sort_choice() == Ok::<
            Option<SortMode>,
            Seq<char>,
        >(Some(SortMode { key: SortKey::Path, reverse: false })),
{
    lemma_names();
}

/// The engine is the one that is named, or the one that is asked for by its own
/// flag.
pub proof fn law_the_engine_is_the_one_that_is_named(cli: Cli)
    ensures
        cli.pcre2 ==> cli.engine_choice() == Ok::<RegexEngine, Seq<char>>(RegexEngine::Pcre2),
        !cli.pcre2 && cli.engine@ == "default"@ ==> cli.engine_choice() == Ok::<
            RegexEngine,
            Seq<char>,
        >(RegexEngine::Default),
        !cli.pcre2 && cli.engine@ == "pcre2"@ ==> cli.engine_choice() == Ok::<
            RegexEngine,
            Seq<char>,
        >(RegexEngine::Pcre2),
        !cli.pcre2 && cli.engine@ == "auto"@ ==> cli.engine_choice() == Ok::<
            RegexEngine,
            Seq<char>,
        >(RegexEngine::Auto),
        !cli.pcre2 && cli.engine@ != "default"@ && cli.engine@ != "pcre2"@ && cli.engine@
            != "auto"@ ==> cli.engine_choice() is Err,
{
    lemma_names();
}

/// What is resolved is what the single values come to, and everything is
/// resolved where every value is right.
pub proof fn law_everything_is_resolved_or_nothing(
    cli: Cli,
    known: Result<Option<Seq<char>>, Seq<char>>,
)
    ensures
        cli.resolution(known) matches Ok(r) ==> {
            &&& cli.engine_choice() == Ok::<RegexEngine, Seq<char>>(r.engine)
            &&& cli.sort_choice() == Ok::<Option<SortMode>, Seq<char>>(r.sort)
            &&& cli.size_limit() == Ok::<Option<u64>, Seq<char>>(r.max_filesize)
            &&& r.max_filesize_requested <==> cli.max_filesize is Some || cli.no_max_filesize
            &&& cli.encoding is None ==> r.encoding is None
            &&& cli.encoding is Some ==> known == Ok::<Option<Seq<char>>, Seq<char>>(r.encoding)
            &&& cli.regex_size_limit is None <==> r.regex_size_limit is None
            &&& cli.dfa_size_limit is None <==> r.dfa_size_limit is None
        },
        cli.resolution(known) is Ok <==> cli.engine_choice() is Ok && cli.sort_choice() is Ok
            && cli.size_limit() is Ok && (cli.encoding is None || known is Ok) && (
        cli.regex_size_limit matches Some(s) ==> limit_result("--regex-size-limit"@, s@) is Ok) && (
        cli.dfa_size_limit matches Some(s) ==> limit_result("--dfa-size-limit"@, s@) is Ok),
{
}

/// A server keeps up as it is told: it watches unless told not to, polls where
/// told to, every two minutes where nothing is said, and with a budget of eight
/// thousand one hundred and ninety-two.
pub proof fn law_servers_keep_up_as_told(no_watch: bool, interval: u64, budget: u64)
    requires
        1 <= interval <= 86_400,
        1 <= budget <= u32::MAX,
    ensures
        refresh_result(no_watch, None, None, None) == Ok::<Refresh, RefreshError>(
            Refresh {
                no_watch,
                watch_mode: WatchMode::Auto,
                poll_interval: 120,
                watch_budget: 8192,
            },
        ),
        refresh_result(
            false,
            Some("auto"@),
            Some(decimal(interval as nat)),
            Some(decimal(budget as nat)),
        ) == Ok::<Refresh, RefreshError>(
            Refresh {
                no_watch: false,
                watch_mode: WatchMode::Auto,
                poll_interval: interval,
                watch_budget: budget as u32,
            },
        ),
        refresh_result(false, Some("poll"@), Some(decimal(interval as nat)), None) == Ok::<
            Refresh,
            RefreshError,
        >(
            Refresh {
                no_watch: false,
                watch_mode: WatchMode::Poll,
                poll_interval: interval,
                watch_budget: 8192,
            },
        ),
        refresh_result(false, Some("poll"@), None, Some(decimal(budget as nat))) == Err::<
            Refresh,
            RefreshError,
        >(RefreshError::BudgetOfPolling),
        refresh_result(true, Some("auto"@), None, None) == Err::<Refresh, RefreshError>(
            RefreshError::Disabled,
        ),
{
    lemma_names();
    law_numbers_are_read_back(interval);
    law_numbers_are_read_back(budget);
}

/// Memory is capped by what is given in units of a thousand and twenty-four
/// squared, or by the default; half of the processors are used where nothing is
/// said.
pub proof fn law_resources_are_limited_as_given(mb: u64, default: u64, percent: u8)
    ensures
        memory_cap(None, default) == default,
        mb * 1024 * 1024 <= u64::MAX ==> memory_cap(Some(mb), default) == mb * 1024 * 1024,
        mb * 1024 * 1024 > u64::MAX ==> memory_cap(Some(mb), default) == u64::MAX,
        cpu_share(None) == 50,
        cpu_share(Some(percent)) == percent,
{
}

/// A session, an index and a server are set up as the command line asks.
pub proof fn law_subcommands_are_set_up_as_asked(
    cli: Cli,
    mcp: McpArgs,
    session: McpOptions,
    index: IndexArgs,
    building: IndexSettings,
    serve: ServeArgs,
    serving: ServeSettings,
    limit: Option<u64>,
    cap: u64,
)
    ensures
        cli.opens_session(mcp, limit, cap, session) ==> {
            &&& session.auto_index != mcp.no_auto_index
            &&& session.no_ignore <==> cli.no_ignore || cli.unrestricted >= 1
            &&& session.no_require_git == cli.no_require_git
            &&& session.max_file_size == limit
            &&& mcp.max_memory_mb is None ==> session.memory_cap_bytes == cap
            &&& session.exclude_dirs@.len() == mcp.exclude@.len()
        },
        cli.builds_index(index, limit, building) ==> {
            &&& building.root@ == index.path@
            &&& building.include_hidden
            &&& building.no_ignore <==> cli.no_ignore || cli.unrestricted >= 1
            &&& building.no_require_git == cli.no_require_git
            &&& building.strategy == index.strategy
            &&& building.index_buffer_mb == index.index_buffer_mb
            &&& building.max_file_size == limit
            &&& building.index_path is Some <==> cli.index_path is Some
            &&& building.exclude_dirs@.len() == index.exclude@.len()
        },
        cli.serves(serve, limit, cap, serving) ==> {
            &&& serving.refresh == serve.refresh
            &&& serving.no_ignore <==> cli.no_ignore || cli.unrestricted >= 1
            &&& serving.no_require_git == cli.no_require_git
            &&& serving.max_file_size == limit
            &&& serving.auto_save_mutations == serve.auto_save_mutations
            &&& serve.max_memory_mb is None ==> serving.memory_cap_bytes == cap
            &&& serve.max_cpu_percent is None ==> serving.cpu_percent == 50
            &&& serve.max_cpu_percent matches Some(p) ==> serving.cpu_percent == p
            &&& serving.exclude_dirs@.len() == serve.exclude@.len()
        },
{
    assert(crate::text::texts(session.exclude_dirs@).len() == session.exclude_dirs@.len());
    assert(crate::text::texts(mcp.exclude@).len() == mcp.exclude@.len());
    assert(crate::text::texts(building.exclude_dirs@).len() == building.exclude_dirs@.len());
    assert(crate::text::texts(index.exclude@).len() == index.exclude@.len());
    assert(crate::text::texts(serving.exclude_dirs@).len() == serving.exclude_dirs@.len());
    assert(crate::text::texts(serve.exclude@).len() == serve.exclude@.len());
}

/// Flags of how a tree is walked are refused where an index is built, since it
/// would not honour them; anything else is run.
pub proof fn law_building_an_index_refuses_flags_of_the_walk(cli: Cli, resolved: ResolvedView)
    requires
        !cli.type_list && !cli.search_zip && !cli.pcre2_version,
        cli.command is Some,
        cli.command->0 is Index || cli.command->0 is Serve || cli.command->0 is Mcp,
    ensures
        ({
            let set = cli.follow || cli.max_depth is Some || cli.one_file_system
                || cli.ignore_file@.len() > 0 || cli.ignore_file_case_insensitive
                || cli.no_ignore_dot || cli.no_ignore_exclude || cli.no_ignore_files
                || cli.no_ignore_global || cli.no_ignore_parent || cli.no_ignore_vcs;
            &&& set ==> cli.action(Ok(resolved)) is Fail
            &&& !set ==> cli.action(Ok(resolved)) == ActionView::Run
        }),
{
    let flags = cli.discovery_flags();
    let f = |f: (bool, Seq<char>)|
        if f.0 {
            Some(f.1)
        } else {
            None
        };
    let names = crate::cli::set_flags(flags);
    let set = cli.follow || cli.max_depth is Some || cli.one_file_system || cli.ignore_file@.len()
        > 0 || cli.ignore_file_case_insensitive || cli.no_ignore_dot || cli.no_ignore_exclude
        || cli.no_ignore_files || cli.no_ignore_global || cli.no_ignore_parent
        || cli.no_ignore_vcs;
    if set {
        let i: int = if cli.follow {
            0
        } else if cli.max_depth is Some {
            1
        } else if cli.one_file_system {
            2
        } else if cli.ignore_file@.len() > 0 {
            3
        } else if cli.ignore_file_case_insensitive {
            4
        } else if cli.no_ignore_dot {
            5
        } else if cli.no_ignore_exclude {
            6
        } else if cli.no_ignore_files {
            7
        } else if cli.no_ignore_global {
            8
        } else if cli.no_ignore_parent {
            9
        } else {
            10
        };
        assert(flags[i].0);
        crate::lists::lemma_filter_map_contains(flags, f, flags[i].1);
        assert(f(flags[i]) == Some(flags[i].1));
        assert(names.contains(flags[i].1));
    } else {
        if names.len() > 0 {
            assert(names.contains(names[0]));
            crate::lists::lemma_filter_map_contains(flags, f, names[0]);
            let i = choose|i: int| 0 <= i < flags.len() && f(#[trigger] flags[i]) == Some(names[0]);
            assert(flags[i].0);
        }
    }
}

} // verus!
