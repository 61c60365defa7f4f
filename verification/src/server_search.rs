//! Searching through a server: the request, and what becomes of the reply.
use crate::json::{lemma_trees, lemma_trees_push, trees, Json, JsonTree};
use crate::options::{SearchOptions, SearchOptionsView};
use crate::output::{
    lemma_printed_spans_fit, spans_fit, ContextLine, ContextView, Match, MatchView, OutputWriter,
    Style, WriterState,
};
use crate::paths::IndexScope;
use crate::row_output::{
    counted_files, counts_written, files_of, files_written, write_row_counts, write_row_files,
};
use crate::rows::{row_views, Row, RowKind, RowView};
use crate::slices::is_boundary;
use crate::snapshot_diff::option_text;
use crate::text::{add_text, byte_len, lemma_texts_push, owned, texts};
use vstd::prelude::*;

verus! {

/// A list of texts as data.
pub open spec fn texts_tree(list: Seq<Seq<char>>) -> JsonTree {
    JsonTree::List(list.map_values(|s: Seq<char>| JsonTree::Text(s)))
}

/// A number that may be absent, as data.
pub open spec fn count_tree(n: Option<usize>) -> JsonTree {
    match n {
        Some(n) => JsonTree::unsigned(n as u64),
        None => JsonTree::Null,
    }
}

/// A size that may be absent, as data.
pub open spec fn size_tree(n: Option<u64>) -> JsonTree {
    match n {
        Some(n) => JsonTree::unsigned(n),
        None => JsonTree::Null,
    }
}

/// A text that may be absent, as data.
pub open spec fn option_tree_of(s: Option<Seq<char>>) -> JsonTree {
    match s {
        Some(s) => JsonTree::Text(s),
        None => JsonTree::Null,
    }
}

/// The name of an encoding.
pub open spec fn encoding_name(encoding: Option<Seq<char>>) -> Seq<char> {
    match encoding {
        Some(label) => label,
        None => "auto"@,
    }
}

/// Whether context lines are worth asking for: not where nothing or only names
/// or counts are printed.
pub open spec fn wants_context(o: SearchOptionsView) -> bool {
    !(o.count || o.count_matches || o.files_only || o.quiet)
}

/// The primary pattern of a request.
pub open spec fn primary_pattern(o: SearchOptionsView, patterns: Seq<Seq<char>>) -> Seq<char> {
    if patterns.len() > 0 {
        patterns[0]
    } else {
        o.pattern
    }
}

/// The further patterns of a request.
pub open spec fn further_patterns(patterns: Seq<Seq<char>>) -> Seq<Seq<char>> {
    if patterns.len() > 0 {
        patterns.skip(1)
    } else {
        Seq::empty()
    }
}

/// What a server is asked to search for: the part on patterns.
#[verifier::opaque]
pub open spec fn pattern_params(
    o: SearchOptionsView,
    patterns: Seq<Seq<char>>,
    ci: bool,
) -> Map<Seq<char>, JsonTree> {
    Map::<Seq<char>, JsonTree>::empty().insert(
        "pattern"@,
        JsonTree::Text(primary_pattern(o, patterns)),
    ).insert("extra_patterns"@, texts_tree(further_patterns(patterns))).insert(
        "case_insensitive"@,
        JsonTree::Bool(ci),
    ).insert("fixed_string"@, JsonTree::Bool(o.fixed_string)).insert(
        "files_only"@,
        JsonTree::Bool(o.files_only),
    ).insert("word_boundary"@, JsonTree::Bool(o.word_boundary)).insert(
        "max_count"@,
        count_tree(o.match_limit()),
    )
}

/// What a server is asked to search for: the part on files.
#[verifier::opaque]
pub open spec fn file_params(
    head: Map<Seq<char>, JsonTree>,
    o: SearchOptionsView,
) -> Map<Seq<char>, JsonTree> {
    head.insert("glob"@, texts_tree(o.glob)).insert("iglob"@, texts_tree(o.iglob)).insert(
        "glob_case_insensitive"@,
        JsonTree::Bool(o.glob_case_insensitive),
    ).insert("types"@, texts_tree(o.types)).insert("types_not"@, texts_tree(o.types_not)).insert(
        "type_add"@,
        texts_tree(o.type_add),
    ).insert("type_clear"@, texts_tree(o.type_clear)).insert(
        "invert_match"@,
        JsonTree::Bool(o.invert_match),
    ).insert("only_matching"@, JsonTree::Bool(o.reports_matches_only()))
}

/// What a server is asked to search for: the part on lines.
#[verifier::opaque]
pub open spec fn line_params(
    head: Map<Seq<char>, JsonTree>,
    o: SearchOptionsView,
) -> Map<Seq<char>, JsonTree> {
    head.insert(
        "after_context"@,
        JsonTree::unsigned(
            if wants_context(o) {
                o.after_lines() as u64
            } else {
                0
            },
        ),
    ).insert(
        "before_context"@,
        JsonTree::unsigned(
            if wants_context(o) {
                o.before_lines() as u64
            } else {
                0
            },
        ),
    ).insert("multiline"@, JsonTree::Bool(o.multiline)).insert(
        "multiline_dotall"@,
        JsonTree::Bool(o.multiline_dotall),
    ).insert("text"@, JsonTree::Bool(o.text)).insert("binary_lines"@, JsonTree::Bool(o.json)).insert(
        "max_filesize"@,
        size_tree(o.max_filesize),
    )
}

/// What a server is asked to search for: the part on decoding and engines.
#[verifier::opaque]
pub open spec fn engine_params(
    head: Map<Seq<char>, JsonTree>,
    o: SearchOptionsView,
) -> Map<Seq<char>, JsonTree> {
    head.insert("encoding"@, JsonTree::Text(encoding_name(o.encoding))).insert(
        "line_regexp"@,
        JsonTree::Bool(o.line_regexp),
    ).insert("no_unicode"@, JsonTree::Bool(o.no_unicode)).insert(
        "engine"@,
        JsonTree::Text(o.engine.name()),
    ).insert("regex_size_limit"@, count_tree(o.regex_size_limit)).insert(
        "dfa_size_limit"@,
        count_tree(o.dfa_size_limit),
    )
}

/// What a server is asked to search for: the part on the reply.
#[verifier::opaque]
pub open spec fn reply_params(
    head: Map<Seq<char>, JsonTree>,
    o: SearchOptionsView,
    prefix: Seq<char>,
    is_tty: bool,
) -> Map<Seq<char>, JsonTree> {
    head.insert("replace"@, option_tree_of(o.replace)).insert(
        "passthru"@,
        JsonTree::Bool(o.passes_through()),
    ).insert("stop_on_nonmatch"@, JsonTree::Bool(o.stop_on_nonmatch)).insert(
        "vimgrep"@,
        JsonTree::Bool(o.vimgrep),
    ).insert("detail"@, JsonTree::Bool(o.needs_match_detail(is_tty))).insert(
        "positions"@,
        JsonTree::Bool(o.needs_position_detail()),
    ).insert("stats"@, JsonTree::Bool(o.stats)).insert("hidden"@, JsonTree::Bool(o.hidden)).insert(
        "scope"@,
        JsonTree::Text(prefix),
    ).insert("max_depth"@, count_tree(o.max_depth))
}

/// A request.
pub open spec fn request_tree(method: Seq<char>, params: Map<Seq<char>, JsonTree>) -> JsonTree {
    JsonTree::Object(
        Map::<Seq<char>, JsonTree>::empty().insert("jsonrpc"@, JsonTree::Text("2.0"@)).insert(
            "method"@,
            JsonTree::Text(method),
        ).insert("params"@, JsonTree::Object(params)).insert("id"@, JsonTree::unsigned(1)),
    )
}

/// The request for a search.
pub open spec fn search_request_tree(
    o: SearchOptionsView,
    prefix: Seq<char>,
    patterns: Seq<Seq<char>>,
    ci: bool,
    is_tty: bool,
) -> JsonTree {
    request_tree(
        "search"@,
        reply_params(
            engine_params(line_params(file_params(pattern_params(o, patterns, ci), o), o), o),
            o,
            prefix,
            is_tty,
        ),
    )
}

/// A list of texts as data.
pub fn texts_json(list: &Vec<String>, from: usize) -> (r: Json)
    requires
        from <= list@.len(),
    ensures
        r@ == texts_tree(texts(list@).skip(from as int)),
{
    let mut out: Vec<Json> = Vec::new();
    let ghost all = texts(list@).skip(from as int);
    let ghost f = |s: Seq<char>| JsonTree::Text(s);
    let mut i: usize = from;
    assert(trees(out@) =~= all.take(0).map_values(f));
    while i < list.len()
        invariant
            from <= i <= list@.len(),
            all == texts(list@).skip(from as int),
            f == (|s: Seq<char>| JsonTree::Text(s)),
            trees(out@) == all.take(i - from).map_values(f),
        decreases list@.len() - i,
    {
        let item = Json::text(list[i].as_str());
        proof {
            lemma_trees_push(out@, item);
            assert(all[i - from] == list@[i as int]@);
            assert(all.take(i + 1 - from).map_values(f) =~= all.take(i - from).map_values(f).push(
                item@,
            ));
        }
        out.push(item);
        i += 1;
    }
    assert(all.take(all.len() as int) =~= all);
    Json::List(out)
}

/// A list of texts as data.
pub fn all_texts_json(list: &Vec<String>) -> (r: Json)
    ensures
        r@ == texts_tree(texts(list@)),
{
    assert(texts(list@).skip(0) =~= texts(list@));
    texts_json(list, 0)
}

fn count_json(n: Option<usize>) -> (r: Json)
    ensures
        r@ == count_tree(n),
{
    match n {
        Some(n) => Json::unsigned(n as u64),
        None => Json::Null,
    }
}

fn option_json(s: &Option<String>) -> (r: Json)
    ensures
        r@ == option_tree_of(option_text(*s)),
{
    match s {
        Some(s) => Json::text(s.as_str()),
        None => Json::Null,
    }
}

fn pattern_json(o: &SearchOptions, patterns: &Vec<String>, ci: bool) -> (r: Json)
    ensures
        r@ == JsonTree::Object(pattern_params(o@, texts(patterns@), ci)),
{
    proof {
        reveal(pattern_params);
    }
    let primary = if patterns.len() > 0 {
        Json::text(patterns[0].as_str())
    } else {
        Json::text(o.pattern.as_str())
    };
    let further = if patterns.len() > 0 {
        texts_json(patterns, 1)
    } else {
        assert(texts(patterns@) =~= Seq::<Seq<char>>::empty());
        all_texts_json(patterns)
    };
    Json::object().put("pattern", primary).put("extra_patterns", further).put(
        "case_insensitive",
        Json::Bool(ci),
    ).put("fixed_string", Json::Bool(o.fixed_string)).put(
        "files_only",
        Json::Bool(o.files_only),
    ).put("word_boundary", Json::Bool(o.word_boundary)).put(
        "max_count",
        count_json(o.effective_max_count()),
    )
}

fn file_json(head: Json, o: &SearchOptions) -> (r: Json)
    requires
        head@ is Object,
    ensures
        r@ == JsonTree::Object(file_params(head@->Object_0, o@)),
{
    proof {
        reveal(file_params);
    }
    head.put("glob", all_texts_json(&o.glob)).put("iglob", all_texts_json(&o.iglob)).put(
        "glob_case_insensitive",
        Json::Bool(o.glob_case_insensitive),
    ).put("types", all_texts_json(&o.types)).put("types_not", all_texts_json(&o.types_not)).put(
        "type_add",
        all_texts_json(&o.type_add),
    ).put("type_clear", all_texts_json(&o.type_clear)).put(
        "invert_match",
        Json::Bool(o.invert_match),
    ).put("only_matching", Json::Bool(o.effective_only_matching()))
}

fn line_json(head: Json, o: &SearchOptions) -> (r: Json)
    requires
        head@ is Object,
    ensures
        r@ == JsonTree::Object(line_params(head@->Object_0, o@)),
{
    proof {
        reveal(line_params);
    }
    let context = !(o.count || o.count_matches || o.files_only || o.quiet);
    let after: u64 = if context {
        o.after_ctx() as u64
    } else {
        0
    };
    let before: u64 = if context {
        o.before_ctx() as u64
    } else {
        0
    };
    let max_filesize = match o.max_filesize {
        Some(n) => Json::unsigned(n),
        None => Json::Null,
    };
    head.put("after_context", Json::unsigned(after)).put(
        "before_context",
        Json::unsigned(before),
    ).put("multiline", Json::Bool(o.multiline)).put(
        "multiline_dotall",
        Json::Bool(o.dotall()),
    ).put("text", Json::Bool(o.text)).put("binary_lines", Json::Bool(o.json)).put(
        "max_filesize",
        max_filesize,
    )
}

fn engine_json(head: Json, o: &SearchOptions) -> (r: Json)
    requires
        head@ is Object,
    ensures
        r@ == JsonTree::Object(engine_params(head@->Object_0, o@)),
{
    proof {
        reveal(engine_params);
    }
    let encoding = match &o.encoding {
        Some(label) => Json::text(label.as_str()),
        None => Json::text("auto"),
    };
    head.put("encoding", encoding).put("line_regexp", Json::Bool(o.line_regexp)).put(
        "no_unicode",
        Json::Bool(o.no_unicode),
    ).put("engine", Json::text(o.engine.label())).put(
        "regex_size_limit",
        count_json(o.regex_size_limit),
    ).put("dfa_size_limit", count_json(o.dfa_size_limit))
}

fn request_json(method: &str, params: Json) -> (r: Json)
    requires
        params@ is Object,
    ensures
        r@ == request_tree(method@, params@->Object_0),
{
    Json::object().put("jsonrpc", Json::text("2.0")).put("method", Json::text(method)).put(
        "params",
        params,
    ).put("id", Json::unsigned(1))
}

/// The request for a search. Patterns of a file are resolved before it is
/// made: the server has a directory of its own.
pub fn search_request(
    o: &SearchOptions,
    scope: &IndexScope,
    patterns: &Vec<String>,
    ci: bool,
    is_tty: bool,
) -> (r: Json)
    ensures
        r@ == search_request_tree(o@, scope@.prefix(), texts(patterns@), ci, is_tty),
{
    proof {
        reveal(reply_params);
    }
    let head = engine_json(line_json(file_json(pattern_json(o, patterns, ci), o), o), o);
    let prefix = scope.prefix();
    let params = head.put("replace", option_json(&o.replace)).put(
        "passthru",
        Json::Bool(o.effective_passthru()),
    ).put("stop_on_nonmatch", Json::Bool(o.stop_on_nonmatch)).put(
        "vimgrep",
        Json::Bool(o.vimgrep),
    ).put("detail", Json::Bool(o.wants_match_detail(is_tty))).put(
        "positions",
        Json::Bool(o.wants_position_detail()),
    ).put("stats", Json::Bool(o.stats)).put("hidden", Json::Bool(o.hidden)).put(
        "scope",
        Json::Text(prefix),
    ).put("max_depth", count_json(o.max_depth));
    request_json("search", params)
}

/// The request for the list of files.
pub open spec fn files_request_tree(hidden: bool, prefix: Seq<char>) -> JsonTree {
    request_tree(
        "files"@,
        Map::<Seq<char>, JsonTree>::empty().insert("hidden"@, JsonTree::Bool(hidden)).insert(
            "scope"@,
            JsonTree::Text(prefix),
        ),
    )
}

/// The request for the list of files.
pub fn files_request(hidden: bool, scope: &IndexScope) -> (r: Json)
    ensures
        r@ == files_request_tree(hidden, scope@.prefix()),
{
    let prefix = scope.prefix();
    request_json(
        "files",
        Json::object().put("hidden", Json::Bool(hidden)).put("scope", Json::Text(prefix)),
    )
}

/// The message of a reply that reports an error.
pub open spec fn error_in(reply: JsonTree) -> Option<Seq<char>> {
    match reply.field("error"@) {
        Some(error) => Some(
            "server error: "@ + (match error.field_text("message"@) {
                Some(m) => m,
                None => "unknown error"@,
            }),
        ),
        None => None,
    }
}

/// Whether a result covers hidden files completely, and says so.
pub open spec fn is_covered(result: JsonTree) -> bool {
    result.field_bool("hidden_complete"@) == Some(true)
}

/// What refuses a reply, if anything: an error, no result, or a result that
/// does not cover hidden files.
pub open spec fn refusal_of(reply: JsonTree, missing: Seq<char>) -> Option<Seq<char>> {
    match error_in(reply) {
        Some(m) => Some(m),
        None => match reply.field("result"@) {
            None => Some(missing),
            Some(result) => if is_covered(result) {
                None
            } else {
                Some("server does not support complete hidden-file coverage"@)
            },
        },
    }
}

/// Requires that a result covers hidden files completely. An older server, or
/// one whose index is partial, must not answer for them silently.
pub fn require_server_coverage(result: &Json) -> (r: Result<(), String>)
    ensures
        match r {
            Ok(_) => is_covered(result@),
            Err(m) => !is_covered(result@) && m@
                == "server does not support complete hidden-file coverage"@,
        },
{
    match result.get_bool("hidden_complete") {
        Some(true) => Ok(()),
        _ => Err("server does not support complete hidden-file coverage".to_string()),
    }
}

fn accepted_result<'a>(reply: &'a Json, missing: &str) -> (r: Result<&'a Json, String>)
    ensures
        match r {
            Ok(result) => refusal_of(reply@, missing@) is None && reply@.field("result"@) == Some(
                result@,
            ),
            Err(m) => refusal_of(reply@, missing@) == Some(m@),
        },
{
    if let Some(error) = reply.get("error") {
        let mut out = owned("server error: ");
        match error.get_str("message") {
            Some(m) => add_text(&mut out, m),
            None => add_text(&mut out, "unknown error"),
        }
        return Err(out);
    }
    match reply.get("result") {
        Some(result) => match require_server_coverage(result) {
            Ok(_) => Ok(result),
            Err(m) => Err(m),
        },
        None => Err(owned(missing)),
    }
}

/// The result of a search's reply. It is checked before any row is written.
pub fn search_result(reply: &Json) -> (r: Result<&Json, String>)
    ensures
        match r {
            Ok(result) => refusal_of(reply@, "no result in response"@) is None && reply@.field(
                "result"@,
            ) == Some(result@),
            Err(m) => refusal_of(reply@, "no result in response"@) == Some(m@),
        },
{
    accepted_result(reply, "no result in response")
}

/// Whether a list holds nothing but texts.
pub open spec fn all_texts(items: Seq<JsonTree>) -> bool {
    forall|i: int| 0 <= i < items.len() ==> (#[trigger] items[i]) is Text
}

/// What the reply to a request for files lists.
pub open spec fn listed_files(reply: JsonTree) -> Result<Seq<Seq<char>>, Seq<char>> {
    match refusal_of(reply, "server response did not contain a result"@) {
        Some(m) => Err(m),
        None => match (reply.field("result"@)->0).field_list("files"@) {
            None => Err("server response did not contain files"@),
            Some(items) => if all_texts(items) {
                Ok(items.map_values(|t: JsonTree| t->Text_0))
            } else {
                Err("server returned a non-string file path"@)
            },
        },
    }
}

/// The view of a list of files or a message.
pub open spec fn files_result(r: Result<Vec<String>, String>) -> Result<Seq<Seq<char>>, Seq<char>> {
    match r {
        Ok(files) => Ok(texts(files@)),
        Err(m) => Err(m@),
    }
}

/// The files that the reply to a request lists.
pub fn files_in_reply(reply: &Json) -> (r: Result<Vec<String>, String>)
    ensures
        files_result(r) == listed_files(reply@),
{
    let result = match accepted_result(reply, "server response did not contain a result") {
        Ok(result) => result,
        Err(m) => return Err(m),
    };
    let items = match result.get_list("files") {
        Some(items) => items,
        None => return Err("server response did not contain files".to_string()),
    };
    let ghost all = trees(items@);
    proof {
        lemma_trees(items@);
    }
    let mut out: Vec<String> = Vec::new();
    let mut i: usize = 0;
    while i < items.len()
        invariant
            i <= items@.len(),
            all == trees(items@),
            all.len() == items@.len(),
            forall|k: int| 0 <= k < items@.len() ==> #[trigger] all[k] == items@[k]@,
            out@.len() == i,
            forall|k: int|
                0 <= k < i ==> (#[trigger] all[k]) is Text && texts(out@)[k] == all[k]->Text_0,
            listed_files(reply@) == (if all_texts(all) {
                Result::<Seq<Seq<char>>, Seq<char>>::Ok(all.map_values(|t: JsonTree| t->Text_0))
            } else {
                Err("server returned a non-string file path"@)
            }),
        decreases items@.len() - i,
    {
        assert(all[i as int] == items@[i as int]@);
        match items[i].as_str() {
            Some(path) => {
                let copy = owned(path);
                proof {
                    lemma_texts_push(out@, copy);
                }
                out.push(copy);
            },
            None => {
                assert(!all_texts(all));
                return Err("server returned a non-string file path".to_string());
            },
        }
        i += 1;
    }
    assert(texts(out@) =~= all.map_values(|t: JsonTree| t->Text_0));
    Ok(out)
}

/// The context line of a row.
pub open spec fn row_context(row: RowView) -> ContextView {
    ContextView {
        file: file_of(row),
        line_number: row.line as usize,
        content: row.content,
        absolute_offset: row.offset as usize,
        terminator_len: row.term as usize,
    }
}

/// The match of a row.
pub open spec fn row_match(row: RowView) -> MatchView {
    MatchView {
        file: file_of(row),
        line_number: row.line as usize,
        content: row.content,
        columns: row.columns,
        spans: row.spans,
        absolute_offset: row.offset as usize,
        terminator_len: row.term as usize,
    }
}

/// The file of a row, nothing where it names none.
pub open spec fn file_of(row: RowView) -> Seq<char> {
    match row.file {
        Some(file) => file,
        None => Seq::empty(),
    }
}

/// The state once a row is written.
pub open spec fn row_written(style: Style, st: WriterState, row: RowView) -> WriterState {
    let file = file_of(row);
    let line = row.line as usize;
    match row.kind {
        RowKind::Context => style.context_written(
            style.separated(st, file, line),
            row_context(row),
        ),
        RowKind::Binary => style.binary_noted(st, file, row.offset as usize),
        _ => style.match_written(style.separated(st, file, line), row_match(row)),
    }
}

/// The state once rows are written.
pub open spec fn rows_written(style: Style, st: WriterState, rows: Seq<RowView>) -> WriterState
    decreases rows.len(),
{
    if rows.len() == 0 {
        st
    } else {
        row_written(style, rows_written(style, st, rows.drop_last()), rows.last())
    }
}

/// Whether a row can be printed.
pub open spec fn row_fits(row: RowView, style: Style) -> bool {
    row.kind == RowKind::Context || row.kind == RowKind::Binary || style.takes(
        row.content,
        row.spans,
    )
}

/// Whether every row can be printed.
pub open spec fn rows_fit(rows: Seq<RowView>, style: Style) -> bool {
    forall|i: int| 0 <= i < rows.len() ==> row_fits(#[trigger] rows[i], style)
}

/// Whether the spans of every row cut its text between characters.
pub open spec fn spans_cut_cleanly(rows: Seq<RowView>) -> bool {
    forall|i: int| 0 <= i < rows.len() ==> spans_fit((#[trigger] rows[i]).content, rows[i].spans)
}

proof fn lemma_rows_fit(rows: Seq<RowView>, style: Style)
    requires
        spans_cut_cleanly(rows),
    ensures
        rows_fit(rows, style),
{
    assert forall|i: int| 0 <= i < rows.len() implies row_fits(#[trigger] rows[i], style) by {
        lemma_printed_spans_fit(style.config, rows[i].content, rows[i].spans);
    }
}

/// Whether a place in a text is between characters.
fn at_boundary(s: &str, at: usize) -> (r: bool)
    ensures
        r == is_boundary(s@, at as int),
{
    at <= byte_len(s) && s.is_char_boundary(at)
}

/// Whether the spans of every row cut its text between characters, so that the
/// rows can be printed in any style.
pub fn spans_are_sound(rows: &Vec<Row>) -> (r: bool)
    ensures
        r == spans_cut_cleanly(row_views(rows@)),
        r ==> forall|style: Style| #[trigger] rows_fit(row_views(rows@), style),
{
    let ghost all = row_views(rows@);
    let mut i: usize = 0;
    while i < rows.len()
        invariant
            i <= rows@.len(),
            all == row_views(rows@),
            forall|k: int| 0 <= k < i ==> spans_fit((#[trigger] all[k]).content, all[k].spans),
        decreases rows@.len() - i,
    {
        let row = &rows[i];
        assert(all[i as int] == row@);
        let mut j: usize = 0;
        while j < row.spans.len()
            invariant
                j <= row.spans@.len(),
                i < rows@.len(),
                all == row_views(rows@),
                *row == rows@[i as int],
                all[i as int] == row@,
                forall|k: int|
                    0 <= k < j ==> (#[trigger] row.spans@[k]).0 <= row.spans@[k].1 && is_boundary(
                        row.content@,
                        row.spans@[k].0 as int,
                    ) && is_boundary(row.content@, row.spans@[k].1 as int),
            decreases row.spans@.len() - j,
        {
            let (a, b) = row.spans[j];
            if a > b || !at_boundary(row.content.as_str(), a) || !at_boundary(
                row.content.as_str(),
                b,
            ) {
                assert(row.spans@[j as int] == (a, b));
                assert(!spans_fit(all[i as int].content, all[i as int].spans));
                return false;
            }
            j += 1;
        }
        assert(spans_fit(row.content@, row.spans@));
        i += 1;
    }
    proof {
        assert forall|style: Style| #[trigger] rows_fit(all, style) by {
            lemma_rows_fit(all, style);
        }
    }
    true
}

pub(crate) fn copy_spans(spans: &Vec<(usize, usize)>) -> (r: Vec<(usize, usize)>)
    ensures
        r@ == spans@,
{
    let mut out: Vec<(usize, usize)> = Vec::new();
    let mut i: usize = 0;
    while i < spans.len()
        invariant
            i <= spans@.len(),
            out@ == spans@.take(i as int),
        decreases spans@.len() - i,
    {
        out.push(spans[i]);
        assert(spans@.take(i + 1) =~= spans@.take(i as int).push(spans@[i as int]));
        i += 1;
    }
    assert(spans@.take(spans@.len() as int) =~= spans@);
    out
}

fn copy_numbers(list: &Vec<usize>) -> (r: Vec<usize>)
    ensures
        r@ == list@,
{
    let mut out: Vec<usize> = Vec::new();
    let mut i: usize = 0;
    while i < list.len()
        invariant
            i <= list@.len(),
            out@ == list@.take(i as int),
        decreases list@.len() - i,
    {
        out.push(list[i]);
        assert(list@.take(i + 1) =~= list@.take(i as int).push(list@[i as int]));
        i += 1;
    }
    assert(list@.take(list@.len() as int) =~= list@);
    out
}

fn write_row(row: &Row, writer: &mut OutputWriter)
    requires
        old(writer).wf(),
        row_fits(row@, old(writer).style()),
    ensures
        final(writer).wf(),
        final(writer).style() == old(writer).style(),
        final(writer)@ == row_written(old(writer).style(), old(writer)@, row@),
{
    let file = match &row.file {
        Some(file) => file.clone(),
        None => {
            let none = String::new();
            assert(none@ =~= Seq::<char>::empty());
            none
        },
    };
    let line: usize = #[verifier::truncate] (row.line as usize);
    let offset: usize = #[verifier::truncate] (row.offset as usize);
    let term: usize = #[verifier::truncate] (row.term as usize);
    match row.kind {
        RowKind::Context => {
            writer.write_context_separator(file.as_str(), line);
            let ctx = ContextLine {
                file,
                line_number: line,
                content: row.content.clone(),
                absolute_offset: offset,
                terminator_len: term,
            };
            assert(ctx@ == row_context(row@));
            writer.write_context_line(&ctx);
        },
        RowKind::Binary => {
            writer.write_binary_note(file.as_str(), offset);
        },
        _ => {
            writer.write_context_separator(file.as_str(), line);
            let m = Match {
                file,
                line_number: line,
                content: row.content.clone(),
                columns: copy_numbers(&row.columns),
                spans: copy_spans(&row.spans),
                absolute_offset: offset,
                terminator_len: term,
            };
            assert(m@ == row_match(row@));
            writer.write_match(&m);
        },
    }
}

/// Writes the rows of a reply. In JSON mode their spans must be sound.
pub fn write_rows(rows: &Vec<Row>, writer: &mut OutputWriter)
    requires
        old(writer).wf(),
        rows_fit(row_views(rows@), old(writer).style()),
    ensures
        final(writer).wf(),
        final(writer).style() == old(writer).style(),
        final(writer)@ == rows_written(old(writer).style(), old(writer)@, row_views(rows@)),
{
    let ghost style = writer.style();
    let ghost start = writer@;
    let ghost all = row_views(rows@);
    let mut i: usize = 0;
    assert(all.take(0) =~= Seq::<RowView>::empty());
    while i < rows.len()
        invariant
            i <= rows@.len(),
            writer.wf(),
            writer.style() == style,
            all == row_views(rows@),
            rows_fit(all, style),
            writer@ == rows_written(style, start, all.take(i as int)),
        decreases rows@.len() - i,
    {
        assert(all.take(i + 1).drop_last() =~= all.take(i as int));
        assert(all.take(i + 1).last() == rows@[i as int]@);
        assert(all[i as int] == rows@[i as int]@);
        write_row(&rows[i], writer);
        i += 1;
    }
    assert(all.take(all.len() as int) =~= all);
}

/// Whether lines are printed, as opposed to nothing, names or counts.
pub open spec fn prints_lines(o: SearchOptionsView) -> bool {
    !o.quiet && !o.files_only && !o.count && !o.count_matches
}

/// The state once a reply is printed as asked for: nothing, file names,
/// counts, or lines.
pub open spec fn reply_printed(
    style: Style,
    st: WriterState,
    rows: Seq<RowView>,
    o: SearchOptionsView,
) -> WriterState {
    if o.quiet {
        st
    } else if o.files_only {
        files_written(style, st, files_of(rows))
    } else if o.count || o.count_matches {
        counts_written(style, st, rows, counted_files(rows), o.count_matches)
    } else {
        rows_written(style, st, rows)
    }
}

/// Prints the rows of a reply as asked for; whether there are any. In JSON
/// mode their spans must be sound.
pub fn print_reply(rows: &Vec<Row>, o: &SearchOptions, writer: &mut OutputWriter) -> (had_matches:
    bool)
    requires
        old(writer).wf(),
        prints_lines(o@) ==> rows_fit(row_views(rows@), old(writer).style()),
    ensures
        had_matches == (rows@.len() > 0),
        final(writer).wf(),
        final(writer).style() == old(writer).style(),
        final(writer)@ == reply_printed(old(writer).style(), old(writer)@, row_views(rows@), o@),
{
    if o.quiet {
    } else if o.files_only {
        write_row_files(rows, writer);
    } else if o.count || o.count_matches {
        write_row_counts(rows, o.count_matches, writer);
    } else {
        write_rows(rows, writer);
    }
    rows.len() > 0
}

} // verus!
