//! What a server is asked for is what the options ask for.
use crate::json::JsonTree;
use crate::options::{RegexEngine, SearchOptions, SearchOptionsView};
use crate::server_search::{
    count_tree, encoding_name, engine_params, file_params, files_request_tree, further_patterns,
    line_params, option_tree_of, pattern_params, primary_pattern, reply_params,
    search_request_tree, size_tree, texts_tree, wants_context,
};
use vstd::prelude::*;

verus! {

proof fn lemma_param_keys()
    ensures
        "pattern"@.len() == 7,
        "extra_patterns"@.len() == 14,
        "case_insensitive"@.len() == 16,
        "fixed_string"@.len() == 12,
        "files_only"@.len() == 10,
        "word_boundary"@.len() == 13,
        "max_count"@.len() == 9,
        "glob"@.len() == 4,
        "iglob"@.len() == 5,
        "glob_case_insensitive"@.len() == 21,
        "types"@.len() == 5,
        "types_not"@.len() == 9,
        "type_add"@.len() == 8,
        "type_clear"@.len() == 10,
        "invert_match"@.len() == 12,
        "only_matching"@.len() == 13,
        "after_context"@.len() == 13,
        "before_context"@.len() == 14,
        "multiline"@.len() == 9,
        "multiline_dotall"@.len() == 16,
        "text"@.len() == 4,
        "binary_lines"@.len() == 12,
        "max_filesize"@.len() == 12,
        "encoding"@.len() == 8,
        "line_regexp"@.len() == 11,
        "no_unicode"@.len() == 10,
        "engine"@.len() == 6,
        "regex_size_limit"@.len() == 16,
        "dfa_size_limit"@.len() == 14,
        "replace"@.len() == 7,
        "passthru"@.len() == 8,
        "stop_on_nonmatch"@.len() == 16,
        "vimgrep"@.len() == 7,
        "detail"@.len() == 6,
        "positions"@.len() == 9,
        "stats"@.len() == 5,
        "hidden"@.len() == 6,
        "scope"@.len() == 5,
        "max_depth"@.len() == 9,
        "pattern"@[0] != "replace"@[0],
        "pattern"@[0] != "vimgrep"@[0],
        "extra_patterns"@[0] != "before_context"@[0],
        "extra_patterns"@[0] != "dfa_size_limit"@[0],
        "case_insensitive"@[0] != "multiline_dotall"@[0],
        "case_insensitive"@[0] != "regex_size_limit"@[0],
        "case_insensitive"@[0] != "stop_on_nonmatch"@[0],
        "fixed_string"@[0] != "invert_match"@[0],
        "fixed_string"@[0] != "binary_lines"@[0],
        "fixed_string"@[0] != "max_filesize"@[0],
        "files_only"@[0] != "type_clear"@[0],
        "files_only"@[0] != "no_unicode"@[0],
        "word_boundary"@[0] != "only_matching"@[0],
        "word_boundary"@[0] != "after_context"@[0],
        "max_count"@[0] != "types_not"@[0],
        "max_count"@[1] != "multiline"@[1],
        "max_count"@[0] != "positions"@[0],
        "max_count"@[4] != "max_depth"@[4],
        "glob"@[0] != "text"@[0],
        "iglob"@[0] != "types"@[0],
        "iglob"@[0] != "stats"@[0],
        "iglob"@[0] != "scope"@[0],
        "types"@[0] != "stats"@[0],
        "types"@[0] != "scope"@[0],
        "types_not"@[0] != "multiline"@[0],
        "types_not"@[0] != "positions"@[0],
        "types_not"@[0] != "max_depth"@[0],
        "type_add"@[0] != "encoding"@[0],
        "type_add"@[0] != "passthru"@[0],
        "type_clear"@[0] != "no_unicode"@[0],
        "invert_match"@[0] != "binary_lines"@[0],
        "invert_match"@[0] != "max_filesize"@[0],
        "only_matching"@[0] != "after_context"@[0],
        "before_context"@[0] != "dfa_size_limit"@[0],
        "multiline"@[0] != "positions"@[0],
        "multiline"@[1] != "max_depth"@[1],
        "multiline_dotall"@[0] != "regex_size_limit"@[0],
        "multiline_dotall"@[0] != "stop_on_nonmatch"@[0],
        "binary_lines"@[0] != "max_filesize"@[0],
        "encoding"@[0] != "passthru"@[0],
        "engine"@[0] != "detail"@[0],
        "engine"@[0] != "hidden"@[0],
        "regex_size_limit"@[0] != "stop_on_nonmatch"@[0],
        "replace"@[0] != "vimgrep"@[0],
        "detail"@[0] != "hidden"@[0],
        "positions"@[0] != "max_depth"@[0],
        "stats"@[1] != "scope"@[1],
{
    reveal_strlit("pattern");
    reveal_strlit("extra_patterns");
    reveal_strlit("case_insensitive");
    reveal_strlit("fixed_string");
    reveal_strlit("files_only");
    reveal_strlit("word_boundary");
    reveal_strlit("max_count");
    reveal_strlit("glob");
    reveal_strlit("iglob");
    reveal_strlit("glob_case_insensitive");
    reveal_strlit("types");
    reveal_strlit("types_not");
    reveal_strlit("type_add");
    reveal_strlit("type_clear");
    reveal_strlit("invert_match");
    reveal_strlit("only_matching");
    reveal_strlit("after_context");
    reveal_strlit("before_context");
    reveal_strlit("multiline");
    reveal_strlit("multiline_dotall");
    reveal_strlit("text");
    reveal_strlit("binary_lines");
    reveal_strlit("max_filesize");
    reveal_strlit("encoding");
    reveal_strlit("line_regexp");
    reveal_strlit("no_unicode");
    reveal_strlit("engine");
    reveal_strlit("regex_size_limit");
    reveal_strlit("dfa_size_limit");
    reveal_strlit("replace");
    reveal_strlit("passthru");
    reveal_strlit("stop_on_nonmatch");
    reveal_strlit("vimgrep");
    reveal_strlit("detail");
    reveal_strlit("positions");
    reveal_strlit("stats");
    reveal_strlit("hidden");
    reveal_strlit("scope");
    reveal_strlit("max_depth");
}

proof fn lemma_request_keys()
    ensures
        "jsonrpc"@.len() == 7,
        "method"@.len() == 6,
        "params"@.len() == 6,
        "id"@.len() == 2,
        "method"@[0] != "params"@[0],
{
    reveal_strlit("jsonrpc");
    reveal_strlit("method");
    reveal_strlit("params");
    reveal_strlit("id");
}

/// Whether two maps hold the same under a key.
spec fn kept(
    now: Map<Seq<char>, JsonTree>,
    was: Map<Seq<char>, JsonTree>,
    key: Seq<char>,
) -> bool {
    JsonTree::Object(now).field(key) == JsonTree::Object(was).field(key)
}

proof fn lemma_file_params_keep(head: Map<Seq<char>, JsonTree>, o: SearchOptionsView)
    ensures
        kept(file_params(head, o), head, "pattern"@),
        kept(file_params(head, o), head, "extra_patterns"@),
        kept(file_params(head, o), head, "case_insensitive"@),
        kept(file_params(head, o), head, "fixed_string"@),
        kept(file_params(head, o), head, "files_only"@),
        kept(file_params(head, o), head, "word_boundary"@),
        kept(file_params(head, o), head, "max_count"@),
{
    reveal(file_params);
    lemma_param_keys();
}

proof fn lemma_line_params_keep(head: Map<Seq<char>, JsonTree>, o: SearchOptionsView)
    ensures
        kept(line_params(head, o), head, "pattern"@),
        kept(line_params(head, o), head, "extra_patterns"@),
        kept(line_params(head, o), head, "case_insensitive"@),
        kept(line_params(head, o), head, "fixed_string"@),
        kept(line_params(head, o), head, "files_only"@),
        kept(line_params(head, o), head, "word_boundary"@),
        kept(line_params(head, o), head, "max_count"@),
        kept(line_params(head, o), head, "glob"@),
        kept(line_params(head, o), head, "iglob"@),
        kept(line_params(head, o), head, "glob_case_insensitive"@),
        kept(line_params(head, o), head, "types"@),
        kept(line_params(head, o), head, "types_not"@),
        kept(line_params(head, o), head, "type_add"@),
        kept(line_params(head, o), head, "type_clear"@),
        kept(line_params(head, o), head, "invert_match"@),
        kept(line_params(head, o), head, "only_matching"@),
{
    reveal(line_params);
    lemma_param_keys();
}

proof fn lemma_engine_params_keep(head: Map<Seq<char>, JsonTree>, o: SearchOptionsView)
    ensures
        kept(engine_params(head, o), head, "pattern"@),
        kept(engine_params(head, o), head, "extra_patterns"@),
        kept(engine_params(head, o), head, "case_insensitive"@),
        kept(engine_params(head, o), head, "fixed_string"@),
        kept(engine_params(head, o), head, "files_only"@),
        kept(engine_params(head, o), head, "word_boundary"@),
        kept(engine_params(head, o), head, "max_count"@),
        kept(engine_params(head, o), head, "glob"@),
        kept(engine_params(head, o), head, "iglob"@),
        kept(engine_params(head, o), head, "glob_case_insensitive"@),
        kept(engine_params(head, o), head, "types"@),
        kept(engine_params(head, o), head, "types_not"@),
        kept(engine_params(head, o), head, "type_add"@),
        kept(engine_params(head, o), head, "type_clear"@),
        kept(engine_params(head, o), head, "invert_match"@),
        kept(engine_params(head, o), head, "only_matching"@),
        kept(engine_params(head, o), head, "after_context"@),
        kept(engine_params(head, o), head, "before_context"@),
        kept(engine_params(head, o), head, "multiline"@),
        kept(engine_params(head, o), head, "multiline_dotall"@),
        kept(engine_params(head, o), head, "text"@),
        kept(engine_params(head, o), head, "binary_lines"@),
        kept(engine_params(head, o), head, "max_filesize"@),
{
    reveal(engine_params);
    lemma_param_keys();
}

proof fn lemma_reply_params_keep(head: Map<Seq<char>, JsonTree>, o: SearchOptionsView, prefix: Seq<char>, is_tty: bool)
    ensures
        kept(reply_params(head, o, prefix, is_tty), head, "pattern"@),
        kept(reply_params(head, o, prefix, is_tty), head, "extra_patterns"@),
        kept(reply_params(head, o, prefix, is_tty), head, "case_insensitive"@),
        kept(reply_params(head, o, prefix, is_tty), head, "fixed_string"@),
        kept(reply_params(head, o, prefix, is_tty), head, "files_only"@),
        kept(reply_params(head, o, prefix, is_tty), head, "word_boundary"@),
        kept(reply_params(head, o, prefix, is_tty), head, "max_count"@),
        kept(reply_params(head, o, prefix, is_tty), head, "glob"@),
        kept(reply_params(head, o, prefix, is_tty), head, "iglob"@),
        kept(reply_params(head, o, prefix, is_tty), head, "glob_case_insensitive"@),
        kept(reply_params(head, o, prefix, is_tty), head, "types"@),
        kept(reply_params(head, o, prefix, is_tty), head, "types_not"@),
        kept(reply_params(head, o, prefix, is_tty), head, "type_add"@),
        kept(reply_params(head, o, prefix, is_tty), head, "type_clear"@),
        kept(reply_params(head, o, prefix, is_tty), head, "invert_match"@),
        kept(reply_params(head, o, prefix, is_tty), head, "only_matching"@),
        kept(reply_params(head, o, prefix, is_tty), head, "after_context"@),
        kept(reply_params(head, o, prefix, is_tty), head, "before_context"@),
        kept(reply_params(head, o, prefix, is_tty), head, "multiline"@),
        kept(reply_params(head, o, prefix, is_tty), head, "multiline_dotall"@),
        kept(reply_params(head, o, prefix, is_tty), head, "text"@),
        kept(reply_params(head, o, prefix, is_tty), head, "binary_lines"@),
        kept(reply_params(head, o, prefix, is_tty), head, "max_filesize"@),
        kept(reply_params(head, o, prefix, is_tty), head, "encoding"@),
        kept(reply_params(head, o, prefix, is_tty), head, "line_regexp"@),
        kept(reply_params(head, o, prefix, is_tty), head, "no_unicode"@),
        kept(reply_params(head, o, prefix, is_tty), head, "engine"@),
        kept(reply_params(head, o, prefix, is_tty), head, "regex_size_limit"@),
        kept(reply_params(head, o, prefix, is_tty), head, "dfa_size_limit"@),
{
    reveal(reply_params);
    lemma_param_keys();
}

/// What comes of the fields that are put first: later ones leave them alone.
proof fn lemma_params_keep(
    o: SearchOptionsView,
    prefix: Seq<char>,
    patterns: Seq<Seq<char>>,
    ci: bool,
    is_tty: bool,
)
    ensures
        ({
            let a = pattern_params(o, patterns, ci);
            let b = file_params(a, o);
            let c = line_params(b, o);
            let d = engine_params(c, o);
            let e = reply_params(d, o, prefix, is_tty);
            &&& search_request_tree(o, prefix, patterns, ci, is_tty).field("params"@) == Some(
                JsonTree::Object(e),
            )
            &&& kept(e, a, "pattern"@)
            &&& kept(e, a, "extra_patterns"@)
            &&& kept(e, a, "case_insensitive"@)
            &&& kept(e, a, "fixed_string"@)
            &&& kept(e, a, "files_only"@)
            &&& kept(e, a, "word_boundary"@)
            &&& kept(e, a, "max_count"@)
            &&& kept(e, b, "glob"@)
            &&& kept(e, b, "iglob"@)
            &&& kept(e, b, "glob_case_insensitive"@)
            &&& kept(e, b, "types"@)
            &&& kept(e, b, "types_not"@)
            &&& kept(e, b, "type_add"@)
            &&& kept(e, b, "type_clear"@)
            &&& kept(e, b, "invert_match"@)
            &&& kept(e, b, "only_matching"@)
            &&& kept(e, c, "after_context"@)
            &&& kept(e, c, "before_context"@)
            &&& kept(e, c, "multiline"@)
            &&& kept(e, c, "multiline_dotall"@)
            &&& kept(e, c, "text"@)
            &&& kept(e, c, "binary_lines"@)
            &&& kept(e, c, "max_filesize"@)
            &&& kept(e, d, "encoding"@)
            &&& kept(e, d, "line_regexp"@)
            &&& kept(e, d, "no_unicode"@)
            &&& kept(e, d, "engine"@)
            &&& kept(e, d, "regex_size_limit"@)
            &&& kept(e, d, "dfa_size_limit"@)
        }),
{
    let a = pattern_params(o, patterns, ci);
    let b = file_params(a, o);
    let c = line_params(b, o);
    let d = engine_params(c, o);
    lemma_file_params_keep(a, o);
    lemma_line_params_keep(b, o);
    lemma_engine_params_keep(c, o);
    lemma_reply_params_keep(d, o, prefix, is_tty);
    lemma_request_keys();
}

proof fn lemma_pattern_params_hold(o: SearchOptionsView, patterns: Seq<Seq<char>>, ci: bool)
    ensures
        JsonTree::Object(pattern_params(o, patterns, ci)).field("pattern"@) == Some(
            JsonTree::Text(primary_pattern(o, patterns)),
        ),
        JsonTree::Object(pattern_params(o, patterns, ci)).field("extra_patterns"@) == Some(
            texts_tree(further_patterns(patterns)),
        ),
        JsonTree::Object(pattern_params(o, patterns, ci)).field("case_insensitive"@) == Some(
            JsonTree::Bool(ci),
        ),
        JsonTree::Object(pattern_params(o, patterns, ci)).field("fixed_string"@) == Some(
            JsonTree::Bool(o.fixed_string),
        ),
        JsonTree::Object(pattern_params(o, patterns, ci)).field("files_only"@) == Some(
            JsonTree::Bool(o.files_only),
        ),
        JsonTree::Object(pattern_params(o, patterns, ci)).field("word_boundary"@) == Some(
            JsonTree::Bool(o.word_boundary),
        ),
        JsonTree::Object(pattern_params(o, patterns, ci)).field("max_count"@) == Some(
            count_tree(o.match_limit()),
        ),
{
    reveal(pattern_params);
    lemma_param_keys();
}

proof fn lemma_file_params_hold(head: Map<Seq<char>, JsonTree>, o: SearchOptionsView)
    ensures
        JsonTree::Object(file_params(head, o)).field("glob"@) == Some(
            texts_tree(o.glob),
        ),
        JsonTree::Object(file_params(head, o)).field("iglob"@) == Some(
            texts_tree(o.iglob),
        ),
        JsonTree::Object(file_params(head, o)).field("types"@) == Some(
            texts_tree(o.types),
        ),
        JsonTree::Object(file_params(head, o)).field("types_not"@) == Some(
            texts_tree(o.types_not),
        ),
        JsonTree::Object(file_params(head, o)).field("type_add"@) == Some(
            texts_tree(o.type_add),
        ),
        JsonTree::Object(file_params(head, o)).field("type_clear"@) == Some(
            texts_tree(o.type_clear),
        ),
        JsonTree::Object(file_params(head, o)).field("glob_case_insensitive"@) == Some(
            JsonTree::Bool(o.glob_case_insensitive),
        ),
        JsonTree::Object(file_params(head, o)).field("invert_match"@) == Some(
            JsonTree::Bool(o.invert_match),
        ),
        JsonTree::Object(file_params(head, o)).field("only_matching"@) == Some(
            JsonTree::Bool(o.reports_matches_only()),
        ),
{
    reveal(file_params);
    lemma_param_keys();
}

proof fn lemma_line_params_hold(head: Map<Seq<char>, JsonTree>, o: SearchOptionsView)
    ensures
        JsonTree::Object(line_params(head, o)).field("after_context"@) == Some(
            JsonTree::unsigned(if wants_context(o) { o.after_lines() as u64 } else { 0 }),
        ),
        JsonTree::Object(line_params(head, o)).field("before_context"@) == Some(
            JsonTree::unsigned(if wants_context(o) { o.before_lines() as u64 } else { 0 }),
        ),
        JsonTree::Object(line_params(head, o)).field("multiline"@) == Some(
            JsonTree::Bool(o.multiline),
        ),
        JsonTree::Object(line_params(head, o)).field("multiline_dotall"@) == Some(
            JsonTree::Bool(o.multiline_dotall),
        ),
        JsonTree::Object(line_params(head, o)).field("text"@) == Some(
            JsonTree::Bool(o.text),
        ),
        JsonTree::Object(line_params(head, o)).field("binary_lines"@) == Some(
            JsonTree::Bool(o.json),
        ),
        JsonTree::Object(line_params(head, o)).field("max_filesize"@) == Some(
            size_tree(o.max_filesize),
        ),
{
    reveal(line_params);
    lemma_param_keys();
}

proof fn lemma_engine_params_hold(head: Map<Seq<char>, JsonTree>, o: SearchOptionsView)
    ensures
        JsonTree::Object(engine_params(head, o)).field("encoding"@) == Some(
            JsonTree::Text(encoding_name(o.encoding)),
        ),
        JsonTree::Object(engine_params(head, o)).field("line_regexp"@) == Some(
            JsonTree::Bool(o.line_regexp),
        ),
        JsonTree::Object(engine_params(head, o)).field("no_unicode"@) == Some(
            JsonTree::Bool(o.no_unicode),
        ),
        JsonTree::Object(engine_params(head, o)).field("engine"@) == Some(
            JsonTree::Text(o.engine.name()),
        ),
        JsonTree::Object(engine_params(head, o)).field("regex_size_limit"@) == Some(
            count_tree(o.regex_size_limit),
        ),
        JsonTree::Object(engine_params(head, o)).field("dfa_size_limit"@) == Some(
            count_tree(o.dfa_size_limit),
        ),
{
    reveal(engine_params);
    lemma_param_keys();
}

proof fn lemma_reply_params_hold(head: Map<Seq<char>, JsonTree>, o: SearchOptionsView, prefix: Seq<char>, is_tty: bool)
    ensures
        JsonTree::Object(reply_params(head, o, prefix, is_tty)).field("replace"@) == Some(
            option_tree_of(o.replace),
        ),
        JsonTree::Object(reply_params(head, o, prefix, is_tty)).field("passthru"@) == Some(
            JsonTree::Bool(o.passes_through()),
        ),
        JsonTree::Object(reply_params(head, o, prefix, is_tty)).field("stop_on_nonmatch"@) == Some(
            JsonTree::Bool(o.stop_on_nonmatch),
        ),
        JsonTree::Object(reply_params(head, o, prefix, is_tty)).field("vimgrep"@) == Some(
            JsonTree::Bool(o.vimgrep),
        ),
        JsonTree::Object(reply_params(head, o, prefix, is_tty)).field("detail"@) == Some(
            JsonTree::Bool(o.needs_match_detail(is_tty)),
        ),
        JsonTree::Object(reply_params(head, o, prefix, is_tty)).field("positions"@) == Some(
            JsonTree::Bool(o.needs_position_detail()),
        ),
        JsonTree::Object(reply_params(head, o, prefix, is_tty)).field("stats"@) == Some(
            JsonTree::Bool(o.stats),
        ),
        JsonTree::Object(reply_params(head, o, prefix, is_tty)).field("hidden"@) == Some(
            JsonTree::Bool(o.hidden),
        ),
        JsonTree::Object(reply_params(head, o, prefix, is_tty)).field("scope"@) == Some(
            JsonTree::Text(prefix),
        ),
        JsonTree::Object(reply_params(head, o, prefix, is_tty)).field("max_depth"@) == Some(
            count_tree(o.max_depth),
        ),
{
    reveal(reply_params);
    lemma_param_keys();
}

proof fn lemma_params_hold(
    o: SearchOptionsView,
    prefix: Seq<char>,
    patterns: Seq<Seq<char>>,
    ci: bool,
    is_tty: bool,
)
    ensures
        ({
            let p = search_request_tree(o, prefix, patterns, ci, is_tty).field("params"@)->0;
            &&& p.field("pattern"@) == Some(JsonTree::Text(primary_pattern(o, patterns)))
            &&& p.field("extra_patterns"@) == Some(texts_tree(further_patterns(patterns)))
            &&& p.field("case_insensitive"@) == Some(JsonTree::Bool(ci))
            &&& p.field("fixed_string"@) == Some(JsonTree::Bool(o.fixed_string))
            &&& p.field("files_only"@) == Some(JsonTree::Bool(o.files_only))
            &&& p.field("word_boundary"@) == Some(JsonTree::Bool(o.word_boundary))
            &&& p.field("max_count"@) == Some(count_tree(o.match_limit()))
            &&& p.field("glob"@) == Some(texts_tree(o.glob))
            &&& p.field("iglob"@) == Some(texts_tree(o.iglob))
            &&& p.field("types"@) == Some(texts_tree(o.types))
            &&& p.field("types_not"@) == Some(texts_tree(o.types_not))
            &&& p.field("type_add"@) == Some(texts_tree(o.type_add))
            &&& p.field("type_clear"@) == Some(texts_tree(o.type_clear))
            &&& p.field("glob_case_insensitive"@) == Some(JsonTree::Bool(o.glob_case_insensitive))
            &&& p.field("invert_match"@) == Some(JsonTree::Bool(o.invert_match))
            &&& p.field("only_matching"@) == Some(JsonTree::Bool(o.reports_matches_only()))
            &&& p.field("after_context"@) == Some(JsonTree::unsigned(if wants_context(o) { o.after_lines() as u64 } else { 0 }))
            &&& p.field("before_context"@) == Some(JsonTree::unsigned(if wants_context(o) { o.before_lines() as u64 } else { 0 }))
            &&& p.field("multiline"@) == Some(JsonTree::Bool(o.multiline))
            &&& p.field("multiline_dotall"@) == Some(JsonTree::Bool(o.multiline_dotall))
            &&& p.field("text"@) == Some(JsonTree::Bool(o.text))
            &&& p.field("binary_lines"@) == Some(JsonTree::Bool(o.json))
            &&& p.field("max_filesize"@) == Some(size_tree(o.max_filesize))
            &&& p.field("encoding"@) == Some(JsonTree::Text(encoding_name(o.encoding)))
            &&& p.field("line_regexp"@) == Some(JsonTree::Bool(o.line_regexp))
            &&& p.field("no_unicode"@) == Some(JsonTree::Bool(o.no_unicode))
            &&& p.field("engine"@) == Some(JsonTree::Text(o.engine.name()))
            &&& p.field("regex_size_limit"@) == Some(count_tree(o.regex_size_limit))
            &&& p.field("dfa_size_limit"@) == Some(count_tree(o.dfa_size_limit))
            &&& p.field("replace"@) == Some(option_tree_of(o.replace))
            &&& p.field("passthru"@) == Some(JsonTree::Bool(o.passes_through()))
            &&& p.field("stop_on_nonmatch"@) == Some(JsonTree::Bool(o.stop_on_nonmatch))
            &&& p.field("vimgrep"@) == Some(JsonTree::Bool(o.vimgrep))
            &&& p.field("detail"@) == Some(JsonTree::Bool(o.needs_match_detail(is_tty)))
            &&& p.field("positions"@) == Some(JsonTree::Bool(o.needs_position_detail()))
            &&& p.field("stats"@) == Some(JsonTree::Bool(o.stats))
            &&& p.field("hidden"@) == Some(JsonTree::Bool(o.hidden))
            &&& p.field("scope"@) == Some(JsonTree::Text(prefix))
            &&& p.field("max_depth"@) == Some(count_tree(o.max_depth))
        }),
{
    let a = pattern_params(o, patterns, ci);
    let b = file_params(a, o);
    let c = line_params(b, o);
    let d = engine_params(c, o);
    lemma_params_keep(o, prefix, patterns, ci, is_tty);
    lemma_pattern_params_hold(o, patterns, ci);
    lemma_file_params_hold(a, o);
    lemma_line_params_hold(b, o);
    lemma_engine_params_hold(c, o);
    lemma_reply_params_hold(d, o, prefix, is_tty);
}

/// Whether data is a list of texts.
pub open spec fn is_list_of(tree: Option<JsonTree>, list: Seq<String>) -> bool {
    tree matches Some(JsonTree::List(items)) && items.len() == list.len() && forall|i: int|
        0 <= i < items.len() ==> #[trigger] items[i] == JsonTree::Text(list[i]@)
}

/// Whether data is a number, or `null` where there is none.
pub open spec fn is_count(tree: Option<JsonTree>, n: Option<int>) -> bool {
    match n {
        Some(n) => tree matches Some(t) && t.as_unsigned() == Some(n as u64),
        None => tree == Some(JsonTree::Null),
    }
}

/// A number of things as a mathematical one.
pub open spec fn as_count(n: Option<usize>) -> Option<int> {
    match n {
        Some(n) => Some(n as int),
        None => None,
    }
}

/// A search is asked for with every flag of the options under its own name.
pub proof fn law_requests_carry_the_flags(
    o: SearchOptions,
    prefix: Seq<char>,
    patterns: Seq<Seq<char>>,
    ci: bool,
    is_tty: bool,
)
    ensures
        ({
            let p = search_request_tree(o@, prefix, patterns, ci, is_tty).field("params"@)->0;
            &&& p.field_bool("case_insensitive"@) == Some(ci)
            &&& p.field_bool("fixed_string"@) == Some(o.fixed_string)
            &&& p.field_bool("files_only"@) == Some(o.files_only)
            &&& p.field_bool("word_boundary"@) == Some(o.word_boundary)
            &&& p.field_bool("glob_case_insensitive"@) == Some(o.glob_case_insensitive)
            &&& p.field_bool("invert_match"@) == Some(o.invert_match)
            &&& p.field_bool("only_matching"@) == Some(o.only_matching && !o.json)
            &&& p.field_bool("multiline"@) == Some(o.multiline)
            &&& p.field_bool("multiline_dotall"@) == Some(o.multiline_dotall)
            &&& p.field_bool("text"@) == Some(o.text)
            &&& p.field_bool("binary_lines"@) == Some(o.json)
            &&& p.field_bool("line_regexp"@) == Some(o.line_regexp)
            &&& p.field_bool("no_unicode"@) == Some(o.no_unicode)
            &&& p.field_bool("stop_on_nonmatch"@) == Some(o.stop_on_nonmatch)
            &&& p.field_bool("vimgrep"@) == Some(o.vimgrep)
            &&& p.field_bool("stats"@) == Some(o.stats)
            &&& p.field_bool("hidden"@) == Some(o.hidden)
        }),
{
    lemma_params_hold(o@, prefix, patterns, ci, is_tty);
}

/// Every line is asked for only where that is what will be printed.
pub proof fn law_requests_pass_through_only_what_is_printed(
    o: SearchOptions,
    prefix: Seq<char>,
    patterns: Seq<Seq<char>>,
    ci: bool,
    is_tty: bool,
)
    ensures
        ({
            let p = search_request_tree(o@, prefix, patterns, ci, is_tty).field("params"@)->0;
            &&& p.field_bool("passthru"@) == Some(o.passthru && o.max_count != Some(0usize) && !o.files_only && !o.files_without_match && !o.count && !o.count_matches && !o.quiet)
            &&& p.field_bool("positions"@) == Some(o.byte_offset || o.max_columns is Some)
            &&& (o.json || o.vimgrep || o.column || o.count_matches || o.only_matching || o.replace is Some
                || o.stats) ==> p.field_bool("detail"@) == Some(true)
            &&& o.color == crate::output::ColorMode::Always ==> p.field_bool("detail"@) == Some(true)
            &&& !(o.json || o.vimgrep || o.column || o.count_matches || o.only_matching || o.replace is Some
                || o.stats) && o.color == crate::output::ColorMode::Never ==> p.field_bool("detail"@) == Some(false)
        }),
{
    lemma_params_hold(o@, prefix, patterns, ci, is_tty);
}

/// A search is asked for in the part of the index that it covers, and only for
/// the files that the globs and types take.
pub proof fn law_requests_name_the_files(
    o: SearchOptions,
    prefix: Seq<char>,
    patterns: Seq<Seq<char>>,
    ci: bool,
    is_tty: bool,
)
    ensures
        ({
            let p = search_request_tree(o@, prefix, patterns, ci, is_tty).field("params"@)->0;
            &&& p.field_text("scope"@) == Some(prefix)
            &&& is_list_of(p.field("glob"@), o.glob@)
            &&& is_list_of(p.field("iglob"@), o.iglob@)
            &&& is_list_of(p.field("types"@), o.types@)
            &&& is_list_of(p.field("types_not"@), o.types_not@)
            &&& is_list_of(p.field("type_add"@), o.type_add@)
            &&& is_list_of(p.field("type_clear"@), o.type_clear@)
            &&& is_count(p.field("max_depth"@), as_count(o.max_depth))
            &&& is_count(
                p.field("max_filesize"@),
                match o.max_filesize {
                    Some(n) => Some(n as int),
                    None => None,
                },
            )
        }),
{
    lemma_params_hold(o@, prefix, patterns, ci, is_tty);
}

/// A search is asked for with its first pattern as the pattern and the others
/// beside it.
pub proof fn law_requests_carry_the_patterns(
    o: SearchOptions,
    prefix: Seq<char>,
    patterns: Seq<Seq<char>>,
    ci: bool,
    is_tty: bool,
)
    ensures
        ({
            let p = search_request_tree(o@, prefix, patterns, ci, is_tty).field("params"@)->0;
            &&& patterns.len() > 0 ==> p.field_text("pattern"@) == Some(patterns[0])
            &&& patterns.len() == 0 ==> p.field_text("pattern"@) == Some(o.pattern@)
            &&& p.field_list("extra_patterns"@) matches Some(items) && (patterns.len() > 0 ==> items.len() + 1
                == patterns.len()) && (patterns.len() == 0 ==> items.len() == 0) && forall|i: int|
                0 <= i < items.len() ==> #[trigger] items[i] == JsonTree::Text(patterns[i + 1])
        }),
{
    lemma_params_hold(o@, prefix, patterns, ci, is_tty);
}

/// A search is asked for with the limits and the lines of context that the
/// options ask for. One match is enough where only the fact that a file has one
/// counts, and no context is asked for that will not be printed.
pub proof fn law_requests_carry_the_limits(
    o: SearchOptions,
    prefix: Seq<char>,
    patterns: Seq<Seq<char>>,
    ci: bool,
    is_tty: bool,
)
    ensures
        ({
            let p = search_request_tree(o@, prefix, patterns, ci, is_tty).field("params"@)->0;
            &&& is_count(
                p.field("max_count"@),
                if o.quiet || o.files_without_match {
                    Some(1)
                } else {
                    as_count(o.max_count)
                },
            )
            &&& is_count(p.field("regex_size_limit"@), as_count(o.regex_size_limit))
            &&& is_count(p.field("dfa_size_limit"@), as_count(o.dfa_size_limit))
            &&& (o.count || o.count_matches || o.files_only || o.quiet) ==> p.field_unsigned("after_context"@)
                == Some(0u64) && p.field_unsigned("before_context"@) == Some(0u64)
            &&& !(o.count || o.count_matches || o.files_only || o.quiet) ==> {
                &&& o.after_context matches Some(n) ==> p.field_unsigned("after_context"@) == Some(
                    n as u64,
                )
                &&& o.before_context matches Some(n) ==> p.field_unsigned("before_context"@)
                    == Some(n as u64)
                &&& o.after_context is None && o.context is Some ==> p.field_unsigned(
                    "after_context"@,
                ) == Some(o.context->0 as u64)
                &&& o.before_context is None && o.context is Some ==> p.field_unsigned(
                    "before_context"@,
                ) == Some(o.context->0 as u64)
                &&& o.after_context is None && o.context is None ==> p.field_unsigned(
                    "after_context"@,
                ) == Some(0u64)
                &&& o.before_context is None && o.context is None ==> p.field_unsigned(
                    "before_context"@,
                ) == Some(0u64)
            }
        }),
{
    lemma_params_hold(o@, prefix, patterns, ci, is_tty);
}

/// A search is asked for with the encoding, the engine and the replacement that
/// the options name.
pub proof fn law_requests_name_the_engine(
    o: SearchOptions,
    prefix: Seq<char>,
    patterns: Seq<Seq<char>>,
    ci: bool,
    is_tty: bool,
)
    ensures
        ({
            let p = search_request_tree(o@, prefix, patterns, ci, is_tty).field("params"@)->0;
            &&& o.encoding matches Some(label) ==> p.field_text("encoding"@) == Some(label@)
            &&& o.encoding is None ==> p.field_text("encoding"@) == Some("auto"@)
            &&& o.engine == RegexEngine::Default ==> p.field_text("engine"@) == Some("default"@)
            &&& o.engine == RegexEngine::Pcre2 ==> p.field_text("engine"@) == Some("pcre2"@)
            &&& o.engine == RegexEngine::Auto ==> p.field_text("engine"@) == Some("auto"@)
            &&& o.replace matches Some(with) ==> p.field_text("replace"@) == Some(with@)
            &&& o.replace is None ==> p.field("replace"@) == Some(JsonTree::Null)
        }),
{
    lemma_params_hold(o@, prefix, patterns, ci, is_tty);
}

/// A request names its method: a search is asked for as a search, and a list of
/// files as one, of the part of the index and with or without hidden files.
pub proof fn law_requests_name_their_method(
    o: SearchOptions,
    prefix: Seq<char>,
    patterns: Seq<Seq<char>>,
    ci: bool,
    is_tty: bool,
    hidden: bool,
)
    ensures
        ({
            let search = search_request_tree(o@, prefix, patterns, ci, is_tty);
            let files = files_request_tree(hidden, prefix);
            &&& search.field_text("method"@) == Some("search"@)
            &&& files.field_text("method"@) == Some("files"@)
            &&& search.field_text("jsonrpc"@) == Some("2.0"@)
            &&& files.field_text("jsonrpc"@) == Some("2.0"@)
            &&& search.field_unsigned("id"@) == Some(1u64)
            &&& files.field_unsigned("id"@) == Some(1u64)
            &&& (files.field("params"@)->0).field_bool("hidden"@) == Some(hidden)
            &&& (files.field("params"@)->0).field_text("scope"@) == Some(prefix)
        }),
{
    lemma_request_keys();
    lemma_param_keys();
}

} // verus!
