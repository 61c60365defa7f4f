//! What the tools of a session are asked for, what they then do, and what their
//! answers show.
use crate::answers::{
    count_lines, count_of_line, counts_in, counts_text, counts_tree, files_answer, files_text,
    hit_tree, index_status_tree, is_wanted, matches_text, path_lines, search_tree, total_count,
    wanted_paths,
};
use crate::events::{HitView, ParsedView};
use crate::json::JsonTree;
use crate::lists::lemma_filter_contains;
use crate::options::SearchOptionsView;
use crate::output::{ColorMode, DisplayView};
use crate::query::{
    count_plan_result, files_plan_result, lower_case, pattern_of, search_plan_result, wait_of,
};
use crate::ranking::{law_ranked_lists_go_from_most_to_least, ranked_list};
use crate::state::{IndexReadiness, IndexStatusView, McpOptions, ServerOrigin};
use crate::text::{decimal, lines_of, occurs, padded_left};
use crate::text_laws::{
    law_numbers_are_read_back, lemma_before_last_of, lemma_digits_are_not_trimmed, lemma_occurs,
    lemma_occurs_in_part,
};
use vstd::prelude::*;

verus! {

proof fn lemma_argument_keys()
    ensures
        "glob"@.len() == 4,
        "type"@.len() == 4,
        "type_not"@.len() == 8,
        "hidden"@.len() == 6,
        "case"@.len() == 4,
        "literal"@.len() == 7,
        "word"@.len() == 4,
        "multiline"@.len() == 9,
        "invert"@.len() == 6,
        "context"@.len() == 7,
        "max_results"@.len() == 11,
        "max_per_file"@.len() == 12,
        "max_files"@.len() == 9,
        "contains"@.len() == 8,
        "pattern"@.len() == 7,
        "wait_seconds"@.len() == 12,
        "smart"@.len() == 5,
        "sensitive"@.len() == 9,
        "insensitive"@.len() == 11,
        "glob"@[0] != "type"@[0],
        "glob"@[0] != "case"@[0],
        "glob"@[0] != "word"@[0],
        "type"@[0] != "case"@[0],
        "type"@[0] != "word"@[0],
        "type_not"@[0] != "contains"@[0],
        "hidden"@[0] != "invert"@[0],
        "case"@[0] != "word"@[0],
        "literal"@[0] != "context"@[0],
        "literal"@[0] != "pattern"@[0],
        "multiline"@[1] != "max_files"@[1],
        "multiline"@[0] != "sensitive"@[0],
        "context"@[0] != "pattern"@[0],
        "max_results"@[0] != "insensitive"@[0],
        "max_per_file"@[0] != "wait_seconds"@[0],
        "max_files"@[0] != "sensitive"@[0],
{
    reveal_strlit("glob");
    reveal_strlit("type");
    reveal_strlit("type_not");
    reveal_strlit("hidden");
    reveal_strlit("case");
    reveal_strlit("literal");
    reveal_strlit("word");
    reveal_strlit("multiline");
    reveal_strlit("invert");
    reveal_strlit("context");
    reveal_strlit("max_results");
    reveal_strlit("max_per_file");
    reveal_strlit("max_files");
    reveal_strlit("contains");
    reveal_strlit("pattern");
    reveal_strlit("wait_seconds");
    reveal_strlit("smart");
    reveal_strlit("sensitive");
    reveal_strlit("insensitive");
}

proof fn lemma_answer_keys()
    ensures
        "matches"@ != "shown"@,
        "matches"@ != "total_matches"@,
        "matches"@ != "files_with_matches"@,
        "matches"@ != "truncated"@,
        "matches"@ != "elapsed_ms"@,
        "matches"@ != "index"@,
        "matches"@ != "top_files"@,
        "matches"@ != "next_step"@,
        "matches"@ != "path"@,
        "matches"@ != "line"@,
        "matches"@ != "text"@,
        "matches"@ != "column"@,
        "matches"@ != "before"@,
        "matches"@ != "after"@,
        "matches"@ != "files"@,
        "matches"@ != "total"@,
        "matches"@ != "state"@,
        "matches"@ != "server"@,
        "matches"@ != "note"@,
        "matches"@ != "server_error"@,
        "matches"@ != "root"@,
        "matches"@ != "index_dir"@,
        "matches"@ != "index_updated_at"@,
        "matches"@ != "server_status"@,
        "shown"@ != "total_matches"@,
        "shown"@ != "files_with_matches"@,
        "shown"@ != "truncated"@,
        "shown"@ != "elapsed_ms"@,
        "shown"@ != "index"@,
        "shown"@ != "top_files"@,
        "shown"@ != "next_step"@,
        "shown"@ != "path"@,
        "shown"@ != "line"@,
        "shown"@ != "text"@,
        "shown"@ != "column"@,
        "shown"@ != "before"@,
        "shown"@ != "after"@,
        "shown"@ != "files"@,
        "shown"@ != "total"@,
        "shown"@ != "state"@,
        "shown"@ != "server"@,
        "shown"@ != "note"@,
        "shown"@ != "server_error"@,
        "shown"@ != "root"@,
        "shown"@ != "index_dir"@,
        "shown"@ != "index_updated_at"@,
        "shown"@ != "server_status"@,
        "total_matches"@ != "files_with_matches"@,
        "total_matches"@ != "truncated"@,
        "total_matches"@ != "elapsed_ms"@,
        "total_matches"@ != "index"@,
        "total_matches"@ != "top_files"@,
        "total_matches"@ != "next_step"@,
        "total_matches"@ != "path"@,
        "total_matches"@ != "line"@,
        "total_matches"@ != "text"@,
        "total_matches"@ != "column"@,
        "total_matches"@ != "before"@,
        "total_matches"@ != "after"@,
        "total_matches"@ != "files"@,
        "total_matches"@ != "total"@,
        "total_matches"@ != "state"@,
        "total_matches"@ != "server"@,
        "total_matches"@ != "note"@,
        "total_matches"@ != "server_error"@,
        "total_matches"@ != "root"@,
        "total_matches"@ != "index_dir"@,
        "total_matches"@ != "index_updated_at"@,
        "total_matches"@ != "server_status"@,
        "files_with_matches"@ != "truncated"@,
        "files_with_matches"@ != "elapsed_ms"@,
        "files_with_matches"@ != "index"@,
        "files_with_matches"@ != "top_files"@,
        "files_with_matches"@ != "next_step"@,
        "files_with_matches"@ != "path"@,
        "files_with_matches"@ != "line"@,
        "files_with_matches"@ != "text"@,
        "files_with_matches"@ != "column"@,
        "files_with_matches"@ != "before"@,
        "files_with_matches"@ != "after"@,
        "files_with_matches"@ != "files"@,
        "files_with_matches"@ != "total"@,
        "files_with_matches"@ != "state"@,
        "files_with_matches"@ != "server"@,
        "files_with_matches"@ != "note"@,
        "files_with_matches"@ != "server_error"@,
        "files_with_matches"@ != "root"@,
        "files_with_matches"@ != "index_dir"@,
        "files_with_matches"@ != "index_updated_at"@,
        "files_with_matches"@ != "server_status"@,
        "truncated"@ != "elapsed_ms"@,
        "truncated"@ != "index"@,
        "truncated"@ != "top_files"@,
        "truncated"@ != "next_step"@,
        "truncated"@ != "path"@,
        "truncated"@ != "line"@,
        "truncated"@ != "text"@,
        "truncated"@ != "column"@,
        "truncated"@ != "before"@,
        "truncated"@ != "after"@,
        "truncated"@ != "files"@,
        "truncated"@ != "total"@,
        "truncated"@ != "state"@,
        "truncated"@ != "server"@,
        "truncated"@ != "note"@,
        "truncated"@ != "server_error"@,
        "truncated"@ != "root"@,
        "truncated"@ != "index_dir"@,
        "truncated"@ != "index_updated_at"@,
        "truncated"@ != "server_status"@,
        "elapsed_ms"@ != "index"@,
        "elapsed_ms"@ != "top_files"@,
        "elapsed_ms"@ != "next_step"@,
        "elapsed_ms"@ != "path"@,
        "elapsed_ms"@ != "line"@,
        "elapsed_ms"@ != "text"@,
        "elapsed_ms"@ != "column"@,
        "elapsed_ms"@ != "before"@,
        "elapsed_ms"@ != "after"@,
        "elapsed_ms"@ != "files"@,
        "elapsed_ms"@ != "total"@,
        "elapsed_ms"@ != "state"@,
        "elapsed_ms"@ != "server"@,
        "elapsed_ms"@ != "note"@,
        "elapsed_ms"@ != "server_error"@,
        "elapsed_ms"@ != "root"@,
        "elapsed_ms"@ != "index_dir"@,
        "elapsed_ms"@ != "index_updated_at"@,
        "elapsed_ms"@ != "server_status"@,
        "index"@ != "top_files"@,
        "index"@ != "next_step"@,
        "index"@ != "path"@,
        "index"@ != "line"@,
        "index"@ != "text"@,
        "index"@ != "column"@,
        "index"@ != "before"@,
        "index"@ != "after"@,
        "index"@ != "files"@,
        "index"@ != "total"@,
        "index"@ != "state"@,
        "index"@ != "server"@,
        "index"@ != "note"@,
        "index"@ != "server_error"@,
        "index"@ != "root"@,
        "index"@ != "index_dir"@,
        "index"@ != "index_updated_at"@,
        "index"@ != "server_status"@,
        "top_files"@ != "next_step"@,
        "top_files"@ != "path"@,
        "top_files"@ != "line"@,
        "top_files"@ != "text"@,
        "top_files"@ != "column"@,
        "top_files"@ != "before"@,
        "top_files"@ != "after"@,
        "top_files"@ != "files"@,
        "top_files"@ != "total"@,
        "top_files"@ != "state"@,
        "top_files"@ != "server"@,
        "top_files"@ != "note"@,
        "top_files"@ != "server_error"@,
        "top_files"@ != "root"@,
        "top_files"@ != "index_dir"@,
        "top_files"@ != "index_updated_at"@,
        "top_files"@ != "server_status"@,
        "next_step"@ != "path"@,
        "next_step"@ != "line"@,
        "next_step"@ != "text"@,
        "next_step"@ != "column"@,
        "next_step"@ != "before"@,
        "next_step"@ != "after"@,
        "next_step"@ != "files"@,
        "next_step"@ != "total"@,
        "next_step"@ != "state"@,
        "next_step"@ != "server"@,
        "next_step"@ != "note"@,
        "next_step"@ != "server_error"@,
        "next_step"@ != "root"@,
        "next_step"@ != "index_dir"@,
        "next_step"@ != "index_updated_at"@,
        "next_step"@ != "server_status"@,
        "path"@ != "line"@,
        "path"@ != "text"@,
        "path"@ != "column"@,
        "path"@ != "before"@,
        "path"@ != "after"@,
        "path"@ != "files"@,
        "path"@ != "total"@,
        "path"@ != "state"@,
        "path"@ != "server"@,
        "path"@ != "note"@,
        "path"@ != "server_error"@,
        "path"@ != "root"@,
        "path"@ != "index_dir"@,
        "path"@ != "index_updated_at"@,
        "path"@ != "server_status"@,
        "line"@ != "text"@,
        "line"@ != "column"@,
        "line"@ != "before"@,
        "line"@ != "after"@,
        "line"@ != "files"@,
        "line"@ != "total"@,
        "line"@ != "state"@,
        "line"@ != "server"@,
        "line"@ != "note"@,
        "line"@ != "server_error"@,
        "line"@ != "root"@,
        "line"@ != "index_dir"@,
        "line"@ != "index_updated_at"@,
        "line"@ != "server_status"@,
        "text"@ != "column"@,
        "text"@ != "before"@,
        "text"@ != "after"@,
        "text"@ != "files"@,
        "text"@ != "total"@,
        "text"@ != "state"@,
        "text"@ != "server"@,
        "text"@ != "note"@,
        "text"@ != "server_error"@,
        "text"@ != "root"@,
        "text"@ != "index_dir"@,
        "text"@ != "index_updated_at"@,
        "text"@ != "server_status"@,
        "column"@ != "before"@,
        "column"@ != "after"@,
        "column"@ != "files"@,
        "column"@ != "total"@,
        "column"@ != "state"@,
        "column"@ != "server"@,
        "column"@ != "note"@,
        "column"@ != "server_error"@,
        "column"@ != "root"@,
        "column"@ != "index_dir"@,
        "column"@ != "index_updated_at"@,
        "column"@ != "server_status"@,
        "before"@ != "after"@,
        "before"@ != "files"@,
        "before"@ != "total"@,
        "before"@ != "state"@,
        "before"@ != "server"@,
        "before"@ != "note"@,
        "before"@ != "server_error"@,
        "before"@ != "root"@,
        "before"@ != "index_dir"@,
        "before"@ != "index_updated_at"@,
        "before"@ != "server_status"@,
        "after"@ != "files"@,
        "after"@ != "total"@,
        "after"@ != "state"@,
        "after"@ != "server"@,
        "after"@ != "note"@,
        "after"@ != "server_error"@,
        "after"@ != "root"@,
        "after"@ != "index_dir"@,
        "after"@ != "index_updated_at"@,
        "after"@ != "server_status"@,
        "files"@ != "total"@,
        "files"@ != "state"@,
        "files"@ != "server"@,
        "files"@ != "note"@,
        "files"@ != "server_error"@,
        "files"@ != "root"@,
        "files"@ != "index_dir"@,
        "files"@ != "index_updated_at"@,
        "files"@ != "server_status"@,
        "total"@ != "state"@,
        "total"@ != "server"@,
        "total"@ != "note"@,
        "total"@ != "server_error"@,
        "total"@ != "root"@,
        "total"@ != "index_dir"@,
        "total"@ != "index_updated_at"@,
        "total"@ != "server_status"@,
        "state"@ != "server"@,
        "state"@ != "note"@,
        "state"@ != "server_error"@,
        "state"@ != "root"@,
        "state"@ != "index_dir"@,
        "state"@ != "index_updated_at"@,
        "state"@ != "server_status"@,
        "server"@ != "note"@,
        "server"@ != "server_error"@,
        "server"@ != "root"@,
        "server"@ != "index_dir"@,
        "server"@ != "index_updated_at"@,
        "server"@ != "server_status"@,
        "note"@ != "server_error"@,
        "note"@ != "root"@,
        "note"@ != "index_dir"@,
        "note"@ != "index_updated_at"@,
        "note"@ != "server_status"@,
        "server_error"@ != "root"@,
        "server_error"@ != "index_dir"@,
        "server_error"@ != "index_updated_at"@,
        "server_error"@ != "server_status"@,
        "root"@ != "index_dir"@,
        "root"@ != "index_updated_at"@,
        "root"@ != "server_status"@,
        "index_dir"@ != "index_updated_at"@,
        "index_dir"@ != "server_status"@,
        "index_updated_at"@ != "server_status"@,
{
    reveal_strlit("matches");
    reveal_strlit("shown");
    reveal_strlit("total_matches");
    reveal_strlit("files_with_matches");
    reveal_strlit("truncated");
    reveal_strlit("elapsed_ms");
    reveal_strlit("index");
    reveal_strlit("top_files");
    reveal_strlit("next_step");
    reveal_strlit("path");
    reveal_strlit("line");
    reveal_strlit("text");
    reveal_strlit("column");
    reveal_strlit("before");
    reveal_strlit("after");
    reveal_strlit("files");
    reveal_strlit("total");
    reveal_strlit("state");
    reveal_strlit("server");
    reveal_strlit("note");
    reveal_strlit("server_error");
    reveal_strlit("root");
    reveal_strlit("index_dir");
    reveal_strlit("index_updated_at");
    reveal_strlit("server_status");
    assert("matches"@.len() == 7);
    assert("shown"@.len() == 5);
    assert("total_matches"@.len() == 13);
    assert("files_with_matches"@.len() == 18);
    assert("truncated"@.len() == 9);
    assert("elapsed_ms"@.len() == 10);
    assert("index"@.len() == 5);
    assert("top_files"@.len() == 9);
    assert("next_step"@.len() == 9);
    assert("path"@.len() == 4);
    assert("line"@.len() == 4);
    assert("text"@.len() == 4);
    assert("column"@.len() == 6);
    assert("before"@.len() == 6);
    assert("after"@.len() == 5);
    assert("files"@.len() == 5);
    assert("total"@.len() == 5);
    assert("state"@.len() == 5);
    assert("server"@.len() == 6);
    assert("note"@.len() == 4);
    assert("server_error"@.len() == 12);
    assert("root"@.len() == 4);
    assert("index_dir"@.len() == 9);
    assert("index_updated_at"@.len() == 16);
    assert("server_status"@.len() == 13);
    assert("shown"@[0] != "index"@[0]);
    assert("shown"@[0] != "after"@[0]);
    assert("shown"@[0] != "files"@[0]);
    assert("shown"@[0] != "total"@[0]);
    assert("shown"@[1] != "state"@[1]);
    assert("total_matches"@[0] != "server_status"@[0]);
    assert("truncated"@[1] != "top_files"@[1]);
    assert("truncated"@[0] != "next_step"@[0]);
    assert("truncated"@[0] != "index_dir"@[0]);
    assert("index"@[0] != "after"@[0]);
    assert("index"@[0] != "files"@[0]);
    assert("index"@[0] != "total"@[0]);
    assert("index"@[0] != "state"@[0]);
    assert("top_files"@[0] != "next_step"@[0]);
    assert("top_files"@[0] != "index_dir"@[0]);
    assert("next_step"@[0] != "index_dir"@[0]);
    assert("path"@[0] != "line"@[0]);
    assert("path"@[0] != "text"@[0]);
    assert("path"@[0] != "note"@[0]);
    assert("path"@[0] != "root"@[0]);
    assert("line"@[0] != "text"@[0]);
    assert("line"@[0] != "note"@[0]);
    assert("line"@[0] != "root"@[0]);
    assert("text"@[0] != "note"@[0]);
    assert("text"@[0] != "root"@[0]);
    assert("column"@[0] != "before"@[0]);
    assert("column"@[0] != "server"@[0]);
    assert("before"@[0] != "server"@[0]);
    assert("after"@[0] != "files"@[0]);
    assert("after"@[0] != "total"@[0]);
    assert("after"@[0] != "state"@[0]);
    assert("files"@[0] != "total"@[0]);
    assert("files"@[0] != "state"@[0]);
    assert("total"@[0] != "state"@[0]);
    assert("note"@[0] != "root"@[0]);
}

/// Whether a list of texts is what an argument holds: nothing where it is
/// missing, one text, or a list of them.
pub open spec fn is_given(args: JsonTree, key: Seq<char>, list: Seq<Seq<char>>) -> bool {
    match args.field(key) {
        None => list.len() == 0,
        Some(JsonTree::Text(one)) => list.len() == 1 && list[0] == one,
        Some(JsonTree::List(items)) => items.len() == list.len() && forall|i: int|
            0 <= i < items.len() ==> #[trigger] items[i] == JsonTree::Text(list[i]),
        _ => list.len() == 0,
    }
}

/// Whether a number is what an argument asks for: as it is where it is within
/// the bounds, the bound where it is not, and the default where it is missing.
pub open spec fn is_asked(args: JsonTree, key: Seq<char>, n: int, default: int, most: int) -> bool {
    &&& args.field(key) is None ==> n == default
    &&& args.field_unsigned(key) matches Some(asked) ==> 1 <= n <= most && (1 <= asked <= most ==> n
        == asked) && (asked > most ==> n == most)
}

/// Whether options select the files that arguments ask for.
pub open spec fn selects_files(o: SearchOptionsView, opts: McpOptions, args: JsonTree) -> bool {
    &&& is_given(args, "glob"@, o.glob)
    &&& is_given(args, "type"@, o.types)
    &&& is_given(args, "type_not"@, o.types_not)
    &&& o.hidden <==> args.field_bool("hidden"@) == Some(true)
    &&& o.max_filesize == opts.max_file_size
    &&& o.no_require_git == opts.no_require_git
    &&& o.color == ColorMode::Never
    &&& o.path_separator == Some("/"@) && o.field_context_separator == "-"@
    &&& o.iglob.len() == 0 && o.type_add.len() == 0 && o.type_clear.len() == 0
    &&& !o.no_ignore && !o.no_ignore_dot && !o.no_ignore_exclude && !o.no_ignore_global
    &&& !o.no_ignore_parent && !o.no_ignore_vcs && o.ignore_files.len() == 0
    &&& !o.no_index && !o.follow && !o.one_file_system && o.max_depth is None
    &&& !o.text && !o.binary && o.encoding is None && o.sort is None
    &&& !o.passthru && !o.stop_on_nonmatch && !o.only_matching && o.replace is None
    &&& !o.vimgrep && !o.line_regexp && !o.max_filesize_requested && !o.null && !o.trim
}

/// Whether options treat case as arguments ask for: by the pattern where
/// nothing is said.
pub open spec fn treats_case(o: SearchOptionsView, args: JsonTree) -> bool {
    let case = args.field_text("case"@);
    &&& o.smart_case <==> case is None || case == Some("smart"@)
    &&& o.case_sensitive <==> case == Some("sensitive"@)
    &&& o.case_insensitive <==> case == Some("insensitive"@)
}

/// A search does what its arguments ask for: the pattern, taken literally, as a
/// word, over lines or inverted only where that is asked for; with the files,
/// the case, the context and the limits that are asked for.
pub proof fn law_searches_do_what_is_asked(
    opts: McpOptions,
    display: DisplayView,
    pattern: Seq<char>,
    args: JsonTree,
)
    ensures
        search_plan_result(opts, display, pattern, args) matches Ok((o, b)) ==> {
            &&& o.pattern == pattern
            &&& o.extra_patterns.len() == 0
            &&& o.fixed_string <==> args.field_bool("literal"@) == Some(true)
            &&& o.word_boundary <==> args.field_bool("word"@) == Some(true)
            &&& o.multiline <==> args.field_bool("multiline"@) == Some(true)
            &&& o.invert_match <==> args.field_bool("invert"@) == Some(true)
            &&& selects_files(o, opts, args)
            &&& treats_case(o, args)
            &&& o.json && !o.quiet && !o.count && !o.count_matches && !o.files_only
            &&& o.path_display == display
            &&& o.max_count is None
            &&& o.max_columns == Some(512usize) && o.max_columns_preview
            &&& is_asked(args, "max_results"@, b.max_results as int, 60, 1000)
            &&& is_asked(args, "max_per_file"@, b.max_per_file as int, 10, 1000)
        },
{
    lemma_argument_keys();
}

/// A search shows as many lines around a match as asked for, twenty at most, and
/// asks for as many.
pub proof fn law_searches_show_the_context_that_is_asked_for(
    opts: McpOptions,
    display: DisplayView,
    pattern: Seq<char>,
    args: JsonTree,
)
    ensures
        search_plan_result(opts, display, pattern, args) matches Ok((o, b)) ==> {
            &&& args.field("context"@) is None ==> b.context == 0
            &&& args.field_unsigned("context"@) matches Some(n) ==> (n <= 20 ==> b.context == n) && (
            n > 20 ==> b.context == 20)
            &&& o.before_context is None && o.after_context is None
            &&& b.context > 0 ==> o.context == Some(b.context)
            &&& b.context == 0 ==> o.context is None
        },
{
    lemma_argument_keys();
}

/// Counting does what its arguments ask for, and counts matches rather than
/// lines, by the same rules of which files and which case as a search.
pub proof fn law_counting_does_what_is_asked(
    opts: McpOptions,
    display: DisplayView,
    pattern: Seq<char>,
    args: JsonTree,
)
    ensures
        count_plan_result(opts, display, pattern, args) matches Ok((o, max_files)) ==> {
            &&& o.pattern == pattern
            &&& o.fixed_string <==> args.field_bool("literal"@) == Some(true)
            &&& o.word_boundary <==> args.field_bool("word"@) == Some(true)
            &&& selects_files(o, opts, args)
            &&& treats_case(o, args)
            &&& o.count_matches && !o.quiet && !o.files_only && !o.files_without_match
            &&& !o.include_zero && !o.invert_match && !o.json
            &&& o.field_match_separator == seq!['\u{1}']
            &&& o.path_display == display
            &&& !o.no_filename
            &&& is_asked(args, "max_files"@, max_files as int, 40, 1000)
        },
{
    lemma_argument_keys();
    reveal_strlit("\u{1}");
    assert("\u{1}"@ =~= seq!['\u{1}']);
}

/// Listing files does what its arguments ask for, by the same rules of which
/// files as a search.
pub proof fn law_listing_does_what_is_asked(opts: McpOptions, display: DisplayView, args: JsonTree)
    ensures
        files_plan_result(opts, display, args) matches Ok((o, max_results, needle)) ==> {
            &&& selects_files(o, opts, args)
            &&& o.path_display == display
            &&& is_asked(args, "max_results"@, max_results as int, 200, 5000)
            &&& needle is Some <==> args.field_text("contains"@) is Some
        },
{
    lemma_argument_keys();
}

/// Arguments of the wrong sort are refused, and nothing else is: a list of what
/// is no text, a number that is none, a case that is not known.
pub proof fn law_only_bad_arguments_are_refused(
    opts: McpOptions,
    display: DisplayView,
    pattern: Seq<char>,
    args: JsonTree,
)
    requires
        args.field("glob"@) is None,
        args.field("type"@) is None,
        args.field("type_not"@) is None,
        args.field("max_results"@) is None || args.field_unsigned("max_results"@) is Some,
        args.field("max_per_file"@) is None || args.field_unsigned("max_per_file"@) is Some,
        args.field("max_files"@) is None || args.field_unsigned("max_files"@) is Some,
    ensures
        files_plan_result(opts, display, args) is Ok,
        ({
            let case = args.field_text("case"@);
            let known = case is None || case == Some("smart"@) || case == Some("sensitive"@) || case
                == Some("insensitive"@);
            &&& search_plan_result(opts, display, pattern, args) is Ok <==> known
            &&& count_plan_result(opts, display, pattern, args) is Ok <==> known
        }),
{
    lemma_argument_keys();
}

/// A pattern is required, and must not be empty; it is taken as it is.
pub proof fn law_patterns_are_taken_as_they_are(args: JsonTree)
    ensures
        pattern_of(args) is Ok <==> (args.field_text("pattern"@) matches Some(p) && p.len() > 0),
        pattern_of(args) matches Ok(p) ==> args.field_text("pattern"@) == Some(p),
{
}

/// A query waits as long as asked for, ten minutes at most, and three seconds
/// where nothing is said.
pub proof fn law_queries_wait_as_long_as_asked(args: JsonTree)
    ensures
        args.field_unsigned("wait_seconds"@) is None ==> wait_of(args) == 3,
        args.field_unsigned("wait_seconds"@) matches Some(n) ==> wait_of(args) == (if n <= 600 {
            n
        } else {
            600
        }),
{
}

/// A listed file is reported if and only if nothing was typed, or what was typed
/// is in its path, whatever the case of either: from the argument to the answer.
pub proof fn law_files_are_found_whatever_the_case(
    opts: McpOptions,
    display: DisplayView,
    args: JsonTree,
    raw: Seq<char>,
    path: Seq<char>,
)
    requires
        files_plan_result(opts, display, args) is Ok,
        lines_of(raw).contains(path),
        path.len() > 0,
    ensures
        ({
            let needle = (files_plan_result(opts, display, args)->Ok_0).2;
            let found = wanted_paths(raw, needle);
            match args.field_text("contains"@) {
                Some(typed) => {
                    &&& found.contains(path) <==> occurs(lower_case(path), lower_case(typed))
                    &&& lower_case(typed) == lower_case(path) ==> found.contains(path)
                    &&& typed == path ==> found.contains(path)
                },
                None => found.contains(path),
            }
        }),
{
    let needle = (files_plan_result(opts, display, args)->Ok_0).2;
    lemma_filter_contains(lines_of(raw), |p: Seq<char>| is_wanted(p, needle), path);
    let lower = lower_case(path);
    assert(lower.subrange(0, lower.len() as int) =~= lower);
    assert(crate::text::occurs_at(lower, lower, 0));
}

/// Two ways to type a name that differ in case alone find the same files.
pub proof fn law_names_are_found_however_they_are_typed(
    opts: McpOptions,
    display: DisplayView,
    a: JsonTree,
    b: JsonTree,
    raw: Seq<char>,
    path: Seq<char>,
)
    requires
        files_plan_result(opts, display, a) is Ok,
        files_plan_result(opts, display, b) is Ok,
        a.field_text("contains"@) is Some,
        b.field_text("contains"@) is Some,
        lower_case(a.field_text("contains"@)->0) == lower_case(b.field_text("contains"@)->0),
    ensures
        ({
            let x = (files_plan_result(opts, display, a)->Ok_0).2;
            let y = (files_plan_result(opts, display, b)->Ok_0).2;
            wanted_paths(raw, x).contains(path) <==> wanted_paths(raw, y).contains(path)
        }),
{
}

/// What is reported of a list of files is from it: no line is made up, and the
/// empty ones are left out.
pub proof fn law_reported_files_are_listed(raw: Seq<char>, needle: Option<Seq<char>>, path: Seq<char>)
    ensures
        wanted_paths(raw, needle).contains(path) ==> lines_of(raw).contains(path) && path.len() > 0,
{
    lemma_filter_contains(lines_of(raw), |p: Seq<char>| is_wanted(p, needle), path);
}

/// The answer to a listing shows the first files up to the limit, says how many
/// there are, and whether the list was cut.
pub proof fn law_listings_show_the_first_files(
    all: Seq<Seq<char>>,
    limit: nat,
    elapsed_ms: u64,
    s: IndexStatusView,
)
    ensures
        ({
            let tree = files_answer(all, limit, elapsed_ms, s).structured;
            let shown = if all.len() <= limit {
                all.len()
            } else {
                limit
            };
            &&& tree.field_list("files"@) matches Some(items) && items.len() == shown && forall|i: int|
                0 <= i < shown ==> #[trigger] items[i] == JsonTree::Text(all[i])
            &&& tree.field_unsigned("shown"@) == Some(shown as u64)
            &&& tree.field_unsigned("total"@) == Some(all.len() as u64)
            &&& tree.field_bool("truncated"@) == Some(all.len() > limit)
            &&& tree.field_unsigned("elapsed_ms"@) == Some(elapsed_ms)
        }),
{
    lemma_answer_keys();
}

/// Whether data shows a hit: where it is, its text, and the lines around it
/// where there are any.
pub open spec fn shows_hit(item: JsonTree, h: HitView) -> bool {
    &&& item.field_text("path"@) == Some(h.path)
    &&& item.field_unsigned("line"@) == Some(h.line)
    &&& item.field_text("text"@) == Some(h.text)
    &&& item.field_unsigned("column"@) == h.column
    &&& h.before.len() > 0 ==> shows_texts(item.field_list("before"@), h.before)
    &&& h.after.len() > 0 ==> shows_texts(item.field_list("after"@), h.after)
}

/// Whether data is a list of texts.
pub open spec fn shows_texts(items: Option<Seq<JsonTree>>, list: Seq<Seq<char>>) -> bool {
    &&& items is Some
    &&& items->0.len() == list.len()
    &&& forall|i: int| 0 <= i < list.len() ==> #[trigger] items->0[i] == JsonTree::Text(list[i])
}

proof fn lemma_hit_shown(h: HitView)
    ensures
        shows_hit(hit_tree(h), h),
{
    lemma_answer_keys();
}

/// The answer to a search shows every hit, and the totals of all matches.
pub proof fn law_searches_show_every_hit(p: ParsedView, elapsed_ms: u64, s: IndexStatusView)
    ensures
        ({
            let tree = search_tree(p, elapsed_ms, s);
            &&& tree.field_list("matches"@) matches Some(items) && items.len() == p.hits.len()
                && forall|i: int|
                0 <= i < items.len() ==> shows_hit(#[trigger] items[i], p.hits[i])
            &&& tree.field_unsigned("shown"@) == Some(p.hits.len() as u64)
            &&& tree.field_unsigned("total_matches"@) == Some(p.total_matches)
            &&& tree.field_unsigned("files_with_matches"@) == Some(p.files_with_matches)
            &&& tree.field_bool("truncated"@) == Some(p.total_matches > p.hits.len())
            &&& tree.field_unsigned("elapsed_ms"@) == Some(elapsed_ms)
        }),
{
    lemma_answer_keys();
    let items = p.hits.map_values(|h: HitView| hit_tree(h));
    assert forall|i: int| 0 <= i < items.len() implies shows_hit(#[trigger] items[i], p.hits[i]) by {
        lemma_hit_shown(p.hits[i]);
    }
}

/// Whether data shows a file with its number of matches.
pub open spec fn shows_count(item: JsonTree, count: (Seq<char>, u64)) -> bool {
    item.field_text("path"@) == Some(count.0) && item.field_unsigned("matches"@) == Some(count.1)
}

/// A search that is cut shows the files with the most matches, eight at most,
/// more before less.
pub proof fn law_cut_searches_show_the_top_files(
    p: ParsedView,
    elapsed_ms: u64,
    s: IndexStatusView,
    i: int,
)
    requires
        p.total_matches > p.hits.len(),
        p.per_file.len() <= usize::MAX,
        0 <= i,
    ensures
        ({
            let top = search_tree(p, elapsed_ms, s).field_list("top_files"@);
            let ranked = ranked_list(p.per_file);
            &&& top is Some
            &&& top->0.len() == (if p.per_file.len() <= 8 {
                p.per_file.len()
            } else {
                8
            })
            &&& i < top->0.len() ==> shows_count(top->0[i], ranked[i]) && p.per_file.contains(
                ranked[i],
            )
            &&& i + 1 < top->0.len() ==> ranked[i].1 >= ranked[i + 1].1
        }),
{
    lemma_answer_keys();
    lemma_ranked_members(p.per_file);
    let ranked = ranked_list(p.per_file);
    if i + 1 < p.per_file.len() {
        law_ranked_lists_go_from_most_to_least(p.per_file, ranked[i], i, i + 1);
    }
}

proof fn lemma_ranked_members(items: Seq<(Seq<char>, u64)>)
    requires
        items.len() <= usize::MAX,
    ensures
        ranked_list(items).len() == items.len(),
        forall|i: int| 0 <= i < items.len() ==> items.contains(#[trigger] ranked_list(items)[i]),
{
    crate::order::law_sorted_indices_are_in_stable_order::<crate::ranking::Counted>(items);
}

/// The answer to counting shows the files with the most matches, up to the
/// limit, each with its number, and says how many files and matches there are.
pub proof fn law_counts_show_files_by_rank(
    list: Seq<(Seq<char>, u64)>,
    limit: nat,
    total: u64,
    elapsed_ms: u64,
    s: IndexStatusView,
)
    ensures
        ({
            let tree = counts_tree(list, limit, total, elapsed_ms, s);
            let shown = if list.len() <= limit {
                list.len()
            } else {
                limit
            };
            &&& tree.field_list("files"@) matches Some(items) && items.len() == shown && forall|i: int|
                0 <= i < shown ==> shows_count(#[trigger] items[i], list[i])
            &&& tree.field_unsigned("shown"@) == Some(shown as u64)
            &&& tree.field_unsigned("files_with_matches"@) == Some(list.len() as u64)
            &&& tree.field_unsigned("total_matches"@) == Some(total)
            &&& tree.field_bool("truncated"@) == Some(list.len() > limit)
            &&& tree.field_unsigned("elapsed_ms"@) == Some(elapsed_ms)
        }),
{
    lemma_answer_keys();
}

/// The number of a readiness, as it is named.
pub open spec fn readiness_name(r: IndexReadiness) -> Seq<char> {
    match r {
        IndexReadiness::Indexed => "indexed"@,
        IndexReadiness::Building => "building"@,
        IndexReadiness::Scanning => "scanning"@,
    }
}

/// The answer about the index names its root and where it is kept, what state it
/// is in and who serves it, what there is to note, and when it was built.
pub proof fn law_index_answers_say_what_is_known(
    s: IndexStatusView,
    root: Seq<char>,
    index_dir: Seq<char>,
)
    ensures
        ({
            let tree = index_status_tree(s, root, index_dir);
            &&& tree.field_text("root"@) == Some(root)
            &&& tree.field_text("index_dir"@) == Some(index_dir)
            &&& tree.field_text("state"@) == Some(readiness_name(s.readiness))
            &&& tree.field_text("server"@) == Some(
                match s.origin {
                    ServerOrigin::External => "external"@,
                    ServerOrigin::Embedded => "embedded"@,
                    ServerOrigin::Absent => "none"@,
                },
            )
            &&& tree.field_text("note"@) == s.note
            &&& tree.field_text("server_error"@) == s.server_error
            &&& tree.field_unsigned("index_updated_at"@) == s.index_updated_at
            &&& tree.field("server_status"@) == s.server
        }),
{
    lemma_answer_keys();
}

/// Where a file and its count stand on a line with the separator between them,
/// they are read back from it, whatever the path holds.
pub proof fn law_printed_counts_are_read_back(path: Seq<char>, n: u64)
    ensures
        count_of_line(path + seq!['\u{1}'] + decimal(n as nat)) == Some((path, n)),
{
    let digits = decimal(n as nat);
    let line = path + seq!['\u{1}'] + digits;
    law_numbers_are_read_back(n);
    lemma_digits_are_not_trimmed(n as nat);
    lemma_before_last_of(path, '\u{1}', digits);
    assert(line.skip(path.len() as int + 1) =~= digits);
}

/// The total of counts is their sum.
pub proof fn law_totals_are_sums(list: Seq<(Seq<char>, u64)>, one: (Seq<char>, u64))
    ensures
        total_count(Seq::<(Seq<char>, u64)>::empty()) == 0,
        total_count(list.push(one)) == total_count(list) + one.1,
{
    assert(list.push(one).drop_last() =~= list);
}

/// A line that holds a count is counted, and nothing else is, in order.
pub proof fn law_counts_come_from_lines(raw: Seq<char>, count: (Seq<char>, u64))
    ensures
        counts_in(raw).contains(count) <==> exists|i: int|
            0 <= i < lines_of(raw).len() && count_of_line(#[trigger] lines_of(raw)[i]) == Some(
                count,
            ),
{
    crate::lists::lemma_filter_map_contains(
        lines_of(raw),
        |line: Seq<char>| count_of_line(line),
        count,
    );
}

proof fn lemma_path_line(list: Seq<Seq<char>>, i: int)
    requires
        0 <= i < list.len(),
    ensures
        occurs(path_lines(list), list[i].push('\n')),
    decreases list.len(),
{
    reveal_strlit("\n");
    let front = list.drop_last();
    let line = list.last() + "\n"@;
    assert(line =~= list.last().push('\n'));
    if i == list.len() - 1 {
        lemma_occurs(path_lines(front), line, Seq::empty());
        assert(path_lines(front) + line + Seq::<char>::empty() =~= path_lines(list));
    } else {
        lemma_path_line(front, i);
        lemma_occurs_in_part(Seq::empty(), path_lines(front), line, list[i].push('\n'));
        assert(Seq::<char>::empty() + path_lines(front) + line =~= path_lines(list));
    }
}

/// The text of a listing has a line for every shown file, and says how many
/// there are.
pub proof fn law_listing_texts_name_the_files(
    all: Seq<Seq<char>>,
    limit: nat,
    status: Seq<char>,
    i: int,
)
    requires
        0 <= i < limit,
        i < all.len(),
    ensures
        occurs(files_text(all, limit, status), all[i].push('\n')),
        occurs(files_text(all, limit, status), decimal(all.len()) + " files"@),
        occurs(files_text(all, limit, status), status),
{
    let shown = crate::snapshot_diff::first(all, limit);
    assert(shown[i] == all[i]);
    lemma_path_line(shown, i);
    let head = path_lines(shown);
    let count = decimal(all.len()) + " files"@;
    let more = if all.len() > limit {
        " (showing first "@ + decimal(limit) + ")"@
    } else {
        Seq::empty()
    };
    let text = files_text(all, limit, status);
    let tail = "\n"@ + count + more + ". "@ + status + "\n"@;
    lemma_occurs_in_part(Seq::empty(), head, tail, all[i].push('\n'));
    assert(Seq::<char>::empty() + head + tail =~= text);
    lemma_occurs(head + "\n"@, count, more + ". "@ + status + "\n"@);
    assert(head + "\n"@ + count + (more + ". "@ + status + "\n"@) =~= text);
    lemma_occurs(head + "\n"@ + count + more + ". "@, status, "\n"@);
    assert(head + "\n"@ + count + more + ". "@ + status + "\n"@ =~= text);
}

/// The line of a count.
pub open spec fn count_line(count: (Seq<char>, u64)) -> Seq<char> {
    padded_left(decimal(count.1 as nat), 6, ' ') + seq![' ', ' '] + count.0 + seq!['\n']
}

proof fn lemma_count_line(list: Seq<(Seq<char>, u64)>, i: int)
    requires
        0 <= i < list.len(),
    ensures
        occurs(count_lines(list), count_line(list[i])),
    decreases list.len(),
{
    reveal_strlit("\n");
    reveal_strlit("  ");
    let front = list.drop_last();
    let line = padded_left(decimal(list.last().1 as nat), 6, ' ') + "  "@ + list.last().0 + "\n"@;
    assert(line =~= count_line(list.last()));
    if i == list.len() - 1 {
        lemma_occurs(count_lines(front), line, Seq::empty());
        assert(count_lines(front) + line + Seq::<char>::empty() =~= count_lines(list));
    } else {
        lemma_count_line(front, i);
        lemma_occurs_in_part(Seq::empty(), count_lines(front), line, count_line(list[i]));
        assert(Seq::<char>::empty() + count_lines(front) + line =~= count_lines(list));
    }
}

/// The text of counts has a line for every shown file with its number before
/// it, and says how many matches and files there are.
pub proof fn law_count_texts_name_the_files(
    list: Seq<(Seq<char>, u64)>,
    limit: nat,
    total: u64,
    status: Seq<char>,
    i: int,
)
    requires
        0 <= i < limit,
        i < list.len(),
    ensures
        occurs(counts_text(list, limit, total, status), count_line(list[i])),
        occurs(
            counts_text(list, limit, total, status),
            decimal(total as nat) + " matches in "@ + decimal(list.len()) + " files"@,
        ),
{
    let shown = crate::snapshot_diff::first(list, limit);
    assert(shown[i] == list[i]);
    lemma_count_line(shown, i);
    let head = count_lines(shown);
    let count = decimal(total as nat) + " matches in "@ + decimal(list.len()) + " files"@;
    let more = if list.len() > limit {
        " (showing top "@ + decimal(limit) + ")"@
    } else {
        Seq::empty()
    };
    let text = counts_text(list, limit, total, status);
    let tail = "\n"@ + count + more + ". "@ + status + "\n"@;
    lemma_occurs_in_part(Seq::empty(), head, tail, count_line(list[i]));
    assert(Seq::<char>::empty() + head + tail =~= text);
    lemma_occurs(head + "\n"@, count, more + ". "@ + status + "\n"@);
    assert(head + "\n"@ + count + (more + ". "@ + status + "\n"@) =~= text);
}

/// The line of a hit, or of the context around it.
pub open spec fn line_of(n: nat, mark: char, text: Seq<char>) -> Seq<char> {
    padded_left(decimal(n), 6, ' ') + seq![mark, ' '] + text + seq!['\n']
}

proof fn lemma_numbered_line(n: u64, mark: char, text: Seq<char>, sign: Seq<char>)
    requires
        sign == seq![mark, ' '],
    ensures
        crate::answers::numbered_line(n, sign, text) == line_of(n as nat, mark, text),
{
    reveal_strlit("\n");
    assert("\n"@ =~= seq!['\n']);
}

proof fn lemma_numbered_lines(start: int, list: Seq<Seq<char>>, i: int)
    requires
        0 <= i < list.len(),
        0 <= start,
        start + list.len() <= u64::MAX,
    ensures
        occurs(
            crate::answers::numbered_lines(start, "- "@, list),
            line_of((start + i) as nat, '-', list[i]),
        ),
    decreases list.len(),
{
    reveal_strlit("- ");
    assert("- "@ =~= seq!['-', ' ']);
    let front = list.drop_last();
    let lines = crate::answers::numbered_lines(start, "- "@, front);
    let all = crate::answers::numbered_lines(start, "- "@, list);
    let n = (start + list.len() - 1) as u64;
    let line = crate::answers::numbered_line(n, "- "@, list.last());
    lemma_numbered_line(n, '-', list.last(), "- "@);
    if i == list.len() - 1 {
        lemma_occurs(lines, line, Seq::empty());
        assert(lines + line + Seq::<char>::empty() =~= all);
    } else {
        lemma_numbered_lines(start, front, i);
        let part = line_of((start + i) as nat, '-', list[i]);
        lemma_occurs_in_part(Seq::empty(), lines, line, part);
        assert(Seq::<char>::empty() + lines + line =~= all);
    }
}

/// The text of a hit has its own line under its number, and the lines before and
/// after it under theirs; the path stands above it where it is another than the
/// one before.
proof fn lemma_hit_text(previous: Seq<char>, h: HitView, i: int)
    requires
        h.before.len() <= h.line,
        h.line + 1 + h.after.len() <= u64::MAX,
    ensures
        ({
            let text = crate::answers::hit_text(previous, h);
            &&& occurs(text, line_of(h.line as nat, ':', h.text))
            &&& 0 <= i < h.before.len() ==> occurs(
                text,
                line_of((h.line - h.before.len() + i) as nat, '-', h.before[i]),
            )
            &&& 0 <= i < h.after.len() ==> occurs(
                text,
                line_of((h.line + 1 + i) as nat, '-', h.after[i]),
            )
            &&& h.path != previous ==> occurs(text, h.path.push('\n'))
        }),
{
    reveal_strlit(": ");
    assert(": "@ =~= seq![':', ' ']);
    reveal_strlit("\n");
    let text = crate::answers::hit_text(previous, h);
    let first = h.line - h.before.len();
    let lead = if previous.len() > 0 {
        "\n"@
    } else {
        Seq::empty()
    };
    let head = if h.path != previous {
        lead + h.path + "\n"@
    } else {
        Seq::empty()
    };
    let before = crate::answers::numbered_lines(first, "- "@, h.before);
    let own = crate::answers::numbered_line(h.line, ": "@, h.text);
    let after = crate::answers::numbered_lines(h.line + 1, "- "@, h.after);
    assert(text == head + before + own + after);
    lemma_numbered_line(h.line, ':', h.text, ": "@);
    lemma_occurs(head + before, own, after);
    if 0 <= i < h.before.len() {
        lemma_numbered_lines(first, h.before, i);
        lemma_occurs_in_part(head, before, own + after, line_of((first + i) as nat, '-', h.before[i]));
        assert(head + before + (own + after) =~= text);
    }
    if 0 <= i < h.after.len() {
        lemma_numbered_lines(h.line + 1, h.after, i);
        lemma_occurs_in_part(
            head + before + own,
            after,
            Seq::empty(),
            line_of((h.line + 1 + i) as nat, '-', h.after[i]),
        );
        assert(head + before + own + after + Seq::<char>::empty() =~= text);
    }
    if h.path != previous {
        assert(h.path + "\n"@ =~= h.path.push('\n'));
        lemma_occurs(lead, h.path.push('\n'), before + own + after);
        assert(lead + h.path.push('\n') + (before + own + after) =~= text);
    }
}

proof fn lemma_hits_text(hits: Seq<HitView>, h: int, part: Seq<char>)
    requires
        0 <= h < hits.len(),
        occurs(
            crate::answers::hit_text(crate::answers::previous_path(hits.take(h)), hits[h]),
            part,
        ),
    ensures
        occurs(crate::answers::hits_text(hits), part),
    decreases hits.len(),
{
    let front = hits.drop_last();
    let lines = crate::answers::hits_text(front);
    let last = crate::answers::hit_text(crate::answers::previous_path(front), hits.last());
    if h == hits.len() - 1 {
        assert(hits.take(h) =~= front);
        lemma_occurs_in_part(lines, last, Seq::empty(), part);
        assert(lines + last + Seq::<char>::empty() =~= crate::answers::hits_text(hits));
    } else {
        assert(front.take(h) =~= hits.take(h));
        lemma_hits_text(front, h, part);
        lemma_occurs_in_part(Seq::empty(), lines, last, part);
        assert(Seq::<char>::empty() + lines + last =~= crate::answers::hits_text(hits));
    }
}

/// The text of a search shows every hit: its line with its number and a colon,
/// and the lines before and after it with theirs and a dash. It ends in how many
/// are shown of how many there are.
pub proof fn law_search_texts_show_every_hit(
    p: ParsedView,
    truncated: bool,
    status: Seq<char>,
    h: int,
    i: int,
)
    requires
        0 <= h < p.hits.len(),
        p.hits[h].before.len() <= p.hits[h].line,
        p.hits[h].line + 1 + p.hits[h].after.len() <= u64::MAX,
    ensures
        ({
            let text = matches_text(p, truncated, status);
            let hit = p.hits[h];
            &&& occurs(text, line_of(hit.line as nat, ':', hit.text))
            &&& 0 <= i < hit.before.len() ==> occurs(
                text,
                line_of((hit.line - hit.before.len() + i) as nat, '-', hit.before[i]),
            )
            &&& 0 <= i < hit.after.len() ==> occurs(
                text,
                line_of((hit.line + 1 + i) as nat, '-', hit.after[i]),
            )
            &&& occurs(
                text,
                decimal(p.hits.len()) + " of "@ + decimal(p.total_matches as nat) + " matches in "@
                    + decimal(p.files_with_matches as nat) + " files"@,
            )
        }),
{
    let text = matches_text(p, truncated, status);
    let hit = p.hits[h];
    let lines = crate::answers::hits_text(p.hits);
    let count = decimal(p.hits.len()) + " of "@ + decimal(p.total_matches as nat)
        + " matches in "@ + decimal(p.files_with_matches as nat) + " files"@;
    let more = if truncated {
        " (truncated — narrow with path/glob/type, or raise max_results)"@
    } else {
        Seq::empty()
    };
    let rest = more + ". "@ + status + "\n"@;
    assert(lines + "\n"@ + count + rest =~= text);
    lemma_occurs(lines + "\n"@, count, rest);
    let tail = "\n"@ + count + rest;
    assert(Seq::<char>::empty() + lines + tail =~= text);
    let previous = crate::answers::previous_path(p.hits.take(h));
    lemma_hit_text(previous, hit, i);
    let own = line_of(hit.line as nat, ':', hit.text);
    lemma_hits_text(p.hits, h, own);
    lemma_occurs_in_part(Seq::empty(), lines, tail, own);
    if 0 <= i < hit.before.len() {
        let line = line_of((hit.line - hit.before.len() + i) as nat, '-', hit.before[i]);
        lemma_hits_text(p.hits, h, line);
        lemma_occurs_in_part(Seq::empty(), lines, tail, line);
    }
    if 0 <= i < hit.after.len() {
        let line = line_of((hit.line + 1 + i) as nat, '-', hit.after[i]);
        lemma_hits_text(p.hits, h, line);
        lemma_occurs_in_part(Seq::empty(), lines, tail, line);
    }
}

/// Every line that holds a count is counted, in order.
pub proof fn law_every_line_with_a_count_is_counted(path: Seq<char>, n: u64, rest: Seq<char>)
    requires
        !path.contains('\n'),
    ensures
        counts_in(path + seq!['\u{1}'] + decimal(n as nat) + seq!['\n'] + rest) == seq![(path, n)]
            + counts_in(rest),
{
    let line = path + seq!['\u{1}'] + decimal(n as nat);
    crate::text_laws::lemma_number_is_plain(n as nat);
    assert forall|i: int| 0 <= i < line.len() implies line[i] != '\n' by {
        if i < path.len() {
            assert(path.contains(path[i]));
        } else if i > path.len() {
            assert(line[i] == decimal(n as nat)[i - path.len() - 1]);
        }
    }
    assert(!line.contains('\n'));
    assert(line.last() == decimal(n as nat).last());
    crate::text_laws::law_lines_end_at_line_feeds(line, rest);
    law_printed_counts_are_read_back(path, n);
    crate::lists::lemma_filter_map_first(
        line,
        lines_of(rest),
        |line: Seq<char>| count_of_line(line),
    );
}

/// The text of an answer that is cut says how much is shown.
pub proof fn law_cut_answers_say_how_much_is_shown(
    list: Seq<(Seq<char>, u64)>,
    all: Seq<Seq<char>>,
    limit: nat,
    total: u64,
    status: Seq<char>,
)
    ensures
        list.len() > limit ==> crate::text::closes(
            counts_text(list, limit, total, status),
            " (showing top "@ + decimal(limit) + ")"@ + ". "@ + status + "\n"@,
        ),
        all.len() > limit ==> crate::text::closes(
            files_text(all, limit, status),
            " (showing first "@ + decimal(limit) + ")"@ + ". "@ + status + "\n"@,
        ),
{
    if list.len() > limit {
        let head = count_lines(crate::snapshot_diff::first(list, limit)) + "\n"@ + decimal(
            total as nat,
        ) + " matches in "@ + decimal(list.len()) + " files"@;
        let tail = " (showing top "@ + decimal(limit) + ")"@ + ". "@ + status + "\n"@;
        let text = counts_text(list, limit, total, status);
        assert(text =~= head + tail);
        assert((head + tail).skip(head.len() as int) =~= tail);
    }
    if all.len() > limit {
        let head = path_lines(crate::snapshot_diff::first(all, limit)) + "\n"@ + decimal(all.len())
            + " files"@;
        let tail = " (showing first "@ + decimal(limit) + ")"@ + ". "@ + status + "\n"@;
        let text = files_text(all, limit, status);
        assert(text =~= head + tail);
        assert((head + tail).skip(head.len() as int) =~= tail);
    }
}

/// The answer to a search shows every hit that the events come to and the totals
/// of all of them, as data and as text, and says so where it is cut.
pub proof fn law_searches_answer_what_the_events_come_to(
    raw: Seq<char>,
    budget: crate::events::Budget,
    elapsed_ms: u64,
    s: IndexStatusView,
)
    ensures
        ({
            let p = crate::events::parsed_events(raw, budget);
            let found = crate::events::folded(crate::events::events_in(raw), budget).result();
            let answer = crate::answers::search_answer(p, elapsed_ms, s);
            let tree = answer.structured;
            &&& p == found
            &&& tree.field_list("matches"@) matches Some(items) && items.len() == found.hits.len()
                && forall|i: int|
                0 <= i < items.len() ==> shows_hit(#[trigger] items[i], found.hits[i])
            &&& tree.field_unsigned("total_matches"@) == Some(found.total_matches)
            &&& tree.field_unsigned("files_with_matches"@) == Some(found.files_with_matches)
            &&& tree.field_bool("truncated"@) == Some(found.total_matches > found.hits.len())
            &&& answer.text == matches_text(
                found,
                found.total_matches > found.hits.len(),
                crate::answers::status_text(s),
            )
        }),
{
    let p = crate::events::parsed_events(raw, budget);
    law_searches_show_every_hit(p, elapsed_ms, s);
}

/// The answer to counting lists the files that lines count, the most matches
/// first and as many as asked for, each with its own number; it says how many
/// files there are, and the sum of their matches.
pub proof fn law_counting_answers_what_the_lines_count(
    raw: Seq<char>,
    max_files: nat,
    elapsed_ms: u64,
    s: IndexStatusView,
    i: int,
    j: int,
)
    requires
        counts_in(raw).len() <= usize::MAX,
        0 <= i < j < counts_in(raw).len(),
        j < max_files,
    ensures
        ({
            let counts = counts_in(raw);
            let answer = crate::answers::count_answer(raw, max_files, elapsed_ms, s);
            let items = answer.structured.field_list("files"@)->0;
            &&& items.len() == (if counts.len() <= max_files {
                counts.len()
            } else {
                max_files
            })
            &&& exists|a: (Seq<char>, u64), b: (Seq<char>, u64)|
                #![trigger shows_count(items[i], a), shows_count(items[j], b)]
                shows_count(items[i], a) && shows_count(items[j], b) && counts.contains(a)
                    && counts.contains(b) && a.1 >= b.1
            &&& answer.structured.field_unsigned("files_with_matches"@) == Some(counts.len() as u64)
            &&& total_count(ranked_list(counts)) <= u64::MAX ==> answer.structured.field_unsigned(
                "total_matches"@,
            ) == Some(total_count(ranked_list(counts)) as u64)
            &&& answer.structured.field_bool("truncated"@) == Some(counts.len() > max_files)
        }),
{
    let counts = counts_in(raw);
    let ranked = ranked_list(counts);
    let total = crate::server_stats::capped_sum(total_count(ranked));
    law_counts_show_files_by_rank(ranked, max_files, total, elapsed_ms, s);
    lemma_ranked_members(counts);
    law_ranked_lists_go_from_most_to_least(counts, ranked[i], i, j);
    let items = crate::answers::count_answer(
        raw,
        max_files,
        elapsed_ms,
        s,
    ).structured.field_list("files"@)->0;
    assert(shows_count(items[i], ranked[i]));
    assert(shows_count(items[j], ranked[j]));
}

/// The answer to looking for files lists those that are wanted, in order, as many
/// as asked for, and says how many there are; from the argument to the answer.
pub proof fn law_looking_for_files_answers_those_that_are_wanted(
    opts: McpOptions,
    display: DisplayView,
    args: JsonTree,
    raw: Seq<char>,
    limit: nat,
    elapsed_ms: u64,
    s: IndexStatusView,
    path: Seq<char>,
    typed: Seq<char>,
)
    requires
        files_plan_result(opts, display, args) is Ok,
        args.field_text("contains"@) == Some(typed),
        lines_of(raw).contains(path),
        path.len() > 0,
    ensures
        ({
            let needle = (files_plan_result(opts, display, args)->Ok_0).2;
            let answer = crate::answers::found_answer(raw, needle, limit, elapsed_ms, s);
            let items = answer.structured.field_list("files"@)->0;
            let total = wanted_paths(raw, needle).len();
            &&& answer.structured.field_unsigned("total"@) == Some(total as u64)
            &&& total <= limit ==> (items.contains(JsonTree::Text(path)) <==> occurs(
                lower_case(path),
                lower_case(typed),
            ))
            &&& total <= limit && typed == path ==> items.contains(JsonTree::Text(path))
        }),
{
    let needle = (files_plan_result(opts, display, args)->Ok_0).2;
    let all = wanted_paths(raw, needle);
    law_files_are_found_whatever_the_case(opts, display, args, raw, path);
    law_listings_show_the_first_files(all, limit, elapsed_ms, s);
    let answer = crate::answers::found_answer(raw, needle, limit, elapsed_ms, s);
    let items = answer.structured.field_list("files"@)->0;
    if all.len() <= limit {
        if all.contains(path) {
            let k = choose|k: int| 0 <= k < all.len() && all[k] == path;
            assert(items[k] == JsonTree::Text(path));
        }
        if items.contains(JsonTree::Text(path)) {
            let k = choose|k: int| 0 <= k < items.len() && items[k] == JsonTree::Text(path);
            assert(all[k] == path);
        }
    }
}

/// The answer about the index is what is known of it, as data and as text.
pub proof fn law_index_answers_are_both_data_and_text(
    s: IndexStatusView,
    root: Seq<char>,
    index_dir: Seq<char>,
)
    ensures
        ({
            let answer = crate::answers::index_answer(s, root, index_dir);
            &&& answer.structured == index_status_tree(s, root, index_dir)
            &&& answer.text == crate::answers::index_status_text(s, root, index_dir)
        }),
{
}

} // verus!
