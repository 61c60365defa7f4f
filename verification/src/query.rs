//! The search-shaped tools: what they ask for.
use crate::events::Budget;
use crate::json::{lemma_trees, trees, Json, JsonTree};
use crate::options::{SearchOptions, SearchOptionsView};
use crate::output::{ColorMode, DisplayView, PathDisplay};
use crate::server_search::all_texts;
use crate::snapshot::text_result;
use crate::snapshot_diff::option_text;
use crate::snapshot_tools::clamped;
use crate::state::McpOptions;
use crate::text::{add_text, lemma_texts_push, owned, same, texts};
use vstd::prelude::*;

verus! {

/// Matches reported when the caller names no limit.
pub const DEFAULT_MAX_RESULTS: usize = 60;

pub const MAX_MAX_RESULTS: usize = 1000;

/// Matches reported for each file when the caller names no limit, so that one
/// generated file cannot crowd out every other hit.
pub const DEFAULT_MAX_PER_FILE: usize = 10;

/// Files listed in the breakdown of a truncated result.
pub const TOP_FILES: usize = 8;

/// How long a query waits for a building index when the caller does not say,
/// in seconds.
pub const DEFAULT_WAIT_SECONDS: u64 = 3;

pub const MAX_WAIT_SECONDS: u64 = 600;

/// How long a query waits for a building index, in seconds.
pub open spec fn wait_of(args: JsonTree) -> u64 {
    match args.field_unsigned("wait_seconds"@) {
        Some(n) => if n > MAX_WAIT_SECONDS {
            MAX_WAIT_SECONDS
        } else {
            n
        },
        None => DEFAULT_WAIT_SECONDS,
    }
}

/// How long a query waits for a building index, in seconds.
pub fn wait_seconds(args: &Json) -> (r: u64)
    ensures
        r == wait_of(args@),
{
    match args.get_u64("wait_seconds") {
        Some(n) => if n > MAX_WAIT_SECONDS {
            MAX_WAIT_SECONDS
        } else {
            n
        },
        None => DEFAULT_WAIT_SECONDS,
    }
}

/// Whether a flag of a request is set.
pub open spec fn is_set(args: JsonTree, key: Seq<char>) -> bool {
    args.field_bool(key) == Some(true)
}

/// Whether a flag of a request is set.
pub fn flag(args: &Json, key: &str) -> (r: bool)
    ensures
        r == is_set(args@, key@),
{
    match args.get_bool(key) {
        Some(b) => b,
        None => false,
    }
}

/// The texts of an argument that is a text or a list of them.
pub open spec fn list_of(args: JsonTree, key: Seq<char>) -> Result<Seq<Seq<char>>, Seq<char>> {
    match args.field(key) {
        None => Ok(Seq::empty()),
        Some(JsonTree::Null) => Ok(Seq::empty()),
        Some(JsonTree::Text(one)) => Ok(seq![one]),
        Some(JsonTree::List(items)) => if all_texts(items) {
            Ok(items.map_values(|t: JsonTree| t->Text_0))
        } else {
            Err("`"@ + key + "` must contain strings"@)
        },
        Some(_) => Err("`"@ + key + "` must be a string or an array of strings"@),
    }
}

/// The view of a list or a message.
pub open spec fn list_result(r: Result<Vec<String>, String>) -> Result<Seq<Seq<char>>, Seq<char>> {
    match r {
        Ok(list) => Ok(texts(list@)),
        Err(m) => Err(m@),
    }
}

fn quoted(key: &str, rest: &str) -> (r: String)
    ensures
        r@ == "`"@ + key@ + rest@,
{
    let mut out = owned("`");
    add_text(&mut out, key);
    add_text(&mut out, rest);
    out
}

fn strings_in(items: &Vec<Json>, key: &str) -> (r: Result<Vec<String>, String>)
    ensures
        list_result(r) == (if all_texts(trees(items@)) {
            Result::<Seq<Seq<char>>, Seq<char>>::Ok(
                trees(items@).map_values(|t: JsonTree| t->Text_0),
            )
        } else {
            Err("`"@ + key@ + "` must contain strings"@)
        }),
{
    let ghost all = trees(items@);
    proof {
        lemma_trees(items@);
    }
    let mut out: Vec<String> = Vec::new();
    let mut i: usize = 0;
    while i < items.len()
        invariant
            i <= items@.len(),
            all == trees(items@),
            all.len() == items@.len(),
            forall|k: int| 0 <= k < items@.len() ==> #[trigger] all[k] == items@[k]@,
            out@.len() == i,
            forall|k: int|
                0 <= k < i ==> (#[trigger] all[k]) is Text && texts(out@)[k] == all[k]->Text_0,
        decreases items@.len() - i,
    {
        assert(all[i as int] == items@[i as int]@);
        match items[i].as_str() {
            Some(s) => {
                let copy = owned(s);
                proof {
                    lemma_texts_push(out@, copy);
                }
                out.push(copy);
            },
            None => {
                assert(!all_texts(all));
                return Err(quoted(key, "` must contain strings"));
            },
        }
        i += 1;
    }
    assert(texts(out@) =~= all.map_values(|t: JsonTree| t->Text_0));
    Ok(out)
}

/// The texts of an argument that is a text or a list of them.
pub fn string_list(args: &Json, key: &str) -> (r: Result<Vec<String>, String>)
    ensures
        list_result(r) == list_of(args@, key@),
{
    let value = match args.get(key) {
        Some(value) => value,
        None => {
            let none: Vec<String> = Vec::new();
            assert(texts(none@) =~= Seq::<Seq<char>>::empty());
            return Ok(none);
        },
    };
    match value {
        Json::Null => {
            let none: Vec<String> = Vec::new();
            assert(texts(none@) =~= Seq::<Seq<char>>::empty());
            Ok(none)
        },
        Json::Text(one) => {
            let mut list: Vec<String> = Vec::new();
            list.push(one.clone());
            assert(texts(list@) =~= seq![one@]);
            Ok(list)
        },
        Json::List(items) => strings_in(items, key),
        _ => Err(quoted(key, "` must be a string or an array of strings")),
    }
}

/// The number of an argument, brought into range.
pub open spec fn bounded_of(args: JsonTree, key: Seq<char>, default: nat, max: nat) -> Result<
    nat,
    Seq<char>,
> {
    match args.field(key) {
        None => Ok(default),
        Some(JsonTree::Null) => Ok(default),
        Some(v) => match v.as_unsigned() {
            Some(n) => Ok(clamped(n, max)),
            None => Err("`"@ + key + "` must be a non-negative integer"@),
        },
    }
}

/// The number of an argument, brought into the range from one to `max`.
pub fn bounded(args: &Json, key: &str, default: usize, max: usize) -> (r: Result<usize, String>)
    requires
        max >= 1,
    ensures
        bounded_of(args@, key@, default as nat, max as nat) == (match r {
            Ok(n) => Result::<nat, Seq<char>>::Ok(n as nat),
            Err(m) => Err(m@),
        }),
{
    let value = match args.get(key) {
        Some(value) => value,
        None => return Ok(default),
    };
    if value.is_null() {
        return Ok(default);
    }
    match value.as_u64() {
        Some(n) => if n < 1 {
            Ok(1)
        } else if n > max as u64 {
            Ok(max)
        } else {
            Ok(n as usize)
        },
        None => Err(quoted(key, "` must be a non-negative integer")),
    }
}

/// The pattern of a request.
pub open spec fn pattern_of(args: JsonTree) -> Result<Seq<char>, Seq<char>> {
    match args.field_text("pattern"@) {
        None => Err("`pattern` is required"@),
        Some(p) => if p.len() == 0 {
            Err("`pattern` must not be empty"@)
        } else {
            Ok(p)
        },
    }
}

/// The pattern of a request.
pub fn required_pattern(args: &Json) -> (r: Result<String, String>)
    ensures
        text_result(r) == pattern_of(args@),
{
    match args.get_str("pattern") {
        None => Err("`pattern` is required".to_string()),
        Some(p) => if p.is_empty() {
            Err("`pattern` must not be empty".to_string())
        } else {
            Ok(owned(p))
        },
    }
}

/// The options that every search-shaped tool starts from: root-relative paths
/// with forward slashes, so that one tool's paths feed the next.
pub open spec fn base_view(
    opts: McpOptions,
    display: DisplayView,
    args: JsonTree,
) -> Result<SearchOptionsView, Seq<char>> {
    match list_of(args, "glob"@) {
        Err(m) => Err(m),
        Ok(glob) => match list_of(args, "type"@) {
            Err(m) => Err(m),
            Ok(types) => match list_of(args, "type_not"@) {
                Err(m) => Err(m),
                Ok(types_not) => Ok(
                    SearchOptionsView {
                        color: ColorMode::Never,
                        path_separator: Some("/"@),
                        path_display: display,
                        field_match_separator: ":"@,
                        field_context_separator: "-"@,
                        max_filesize: opts.max_file_size,
                        no_require_git: opts.no_require_git,
                        hidden: is_set(args, "hidden"@),
                        glob,
                        types,
                        types_not,
                        ..SearchOptionsView::defaults()
                    },
                ),
            },
        },
    }
}

/// The view of options or a message.
pub open spec fn options_outcome(
    r: Result<SearchOptions, String>,
) -> Result<SearchOptionsView, Seq<char>> {
    match r {
        Ok(o) => Ok(o@),
        Err(m) => Err(m@),
    }
}

/// The options that every search-shaped tool starts from.
pub fn base_options(opts: &McpOptions, display: &PathDisplay, args: &Json) -> (r: Result<
    SearchOptions,
    String,
>)
    ensures
        options_outcome(r) == base_view(*opts, display@, args@),
{
    let glob = match string_list(args, "glob") {
        Ok(list) => list,
        Err(m) => return Err(m),
    };
    let types = match string_list(args, "type") {
        Ok(list) => list,
        Err(m) => return Err(m),
    };
    let types_not = match string_list(args, "type_not") {
        Ok(list) => list,
        Err(m) => return Err(m),
    };
    let mut o = SearchOptions::default();
    o.color = ColorMode::Never;
    o.path_separator = Some(owned("/"));
    o.path_display = display.copy();
    o.field_match_separator = owned(":");
    o.field_context_separator = owned("-");
    o.max_filesize = opts.max_file_size;
    o.no_require_git = opts.no_require_git;
    o.hidden = flag(args, "hidden");
    o.glob = glob;
    o.types = types;
    o.types_not = types_not;
    Ok(o)
}

/// How case is handled.
#[derive(Clone, Copy, Debug, PartialEq, Eq, Structural)]
pub enum Case {
    /// Case counts only where the pattern has an upper-case character.
    Smart,
    Sensitive,
    Insensitive,
}

/// How case is handled, as a request asks for it.
pub open spec fn case_of(args: JsonTree) -> Result<Case, Seq<char>> {
    let case = match args.field_text("case"@) {
        Some(case) => case,
        None => "smart"@,
    };
    if case == "smart"@ {
        Ok(Case::Smart)
    } else if case == "sensitive"@ {
        Ok(Case::Sensitive)
    } else if case == "insensitive"@ {
        Ok(Case::Insensitive)
    } else {
        Err("`case` must be smart, sensitive or insensitive (got `"@ + case + "`)"@)
    }
}

/// Options with case handled in a way.
pub open spec fn with_case(o: SearchOptionsView, case: Case) -> SearchOptionsView {
    SearchOptionsView {
        smart_case: case == Case::Smart,
        case_sensitive: case == Case::Sensitive,
        case_insensitive: case == Case::Insensitive,
        ..o
    }
}

fn read_case(args: &Json) -> (r: Result<Case, String>)
    ensures
        case_of(args@) == (match r {
            Ok(case) => Result::<Case, Seq<char>>::Ok(case),
            Err(m) => Err(m@),
        }),
{
    let case = match args.get_str("case") {
        Some(case) => case,
        None => "smart",
    };
    if same(case, "smart") {
        Ok(Case::Smart)
    } else if same(case, "sensitive") {
        Ok(Case::Sensitive)
    } else if same(case, "insensitive") {
        Ok(Case::Insensitive)
    } else {
        let mut m = owned("`case` must be smart, sensitive or insensitive (got `");
        add_text(&mut m, case);
        add_text(&mut m, "`)");
        Err(m)
    }
}

/// What a search asks for.
pub struct SearchPlan {
    pub options: SearchOptions,
    pub budget: Budget,
}

/// How many lines of context a request asks for.
pub open spec fn context_of(args: JsonTree) -> nat {
    match args.field_unsigned("context"@) {
        Some(n) => if n > 20 {
            20
        } else {
            n as nat
        },
        None => 0,
    }
}

/// The options of a search: an event stream, with long lines clipped. Every
/// match is counted; how many are listed is left to the budget.
pub open spec fn search_view(
    base: SearchOptionsView,
    pattern: Seq<char>,
    args: JsonTree,
) -> SearchOptionsView {
    SearchOptionsView {
        pattern,
        fixed_string: is_set(args, "literal"@),
        word_boundary: is_set(args, "word"@),
        multiline: is_set(args, "multiline"@),
        invert_match: is_set(args, "invert"@),
        json: true,
        max_columns: Some(crate::events::MAX_LINE_BYTES),
        max_columns_preview: true,
        context: if context_of(args) > 0 {
            Some(context_of(args) as usize)
        } else {
            None
        },
        ..base
    }
}

/// What a search asks for, or why it is refused.
pub open spec fn search_plan_result(
    opts: McpOptions,
    display: DisplayView,
    pattern: Seq<char>,
    args: JsonTree,
) -> Result<(SearchOptionsView, Budget), Seq<char>> {
    match bounded_of(
        args,
        "max_results"@,
        DEFAULT_MAX_RESULTS as nat,
        MAX_MAX_RESULTS as nat,
    ) {
        Err(m) => Err(m),
        Ok(max_results) => match bounded_of(
            args,
            "max_per_file"@,
            DEFAULT_MAX_PER_FILE as nat,
            MAX_MAX_RESULTS as nat,
        ) {
            Err(m) => Err(m),
            Ok(max_per_file) => match base_view(opts, display, args) {
                Err(m) => Err(m),
                Ok(base) => match case_of(args) {
                    Err(m) => Err(m),
                    Ok(case) => Ok(
                        (
                            with_case(search_view(base, pattern, args), case),
                            Budget {
                                max_results: max_results as usize,
                                max_per_file: max_per_file as usize,
                                context: context_of(args) as usize,
                            },
                        ),
                    ),
                },
            },
        },
    }
}

/// The view of a search's plan or a message.
pub open spec fn plan_outcome(r: Result<SearchPlan, String>) -> Result<
    (SearchOptionsView, Budget),
    Seq<char>,
> {
    match r {
        Ok(p) => Ok((p.options@, p.budget)),
        Err(m) => Err(m@),
    }
}

/// Reads what a search asks for.
pub fn plan_search(opts: &McpOptions, display: &PathDisplay, pattern: &str, args: &Json) -> (r:
    Result<SearchPlan, String>)
    ensures
        plan_outcome(r) == search_plan_result(*opts, display@, pattern@, args@),
{
    let max_results: usize = match bounded(
        args,
        "max_results",
        DEFAULT_MAX_RESULTS,
        MAX_MAX_RESULTS,
    ) {
        Ok(n) => n,
        Err(m) => return Err(m),
    };
    let max_per_file: usize = match bounded(
        args,
        "max_per_file",
        DEFAULT_MAX_PER_FILE,
        MAX_MAX_RESULTS,
    ) {
        Ok(n) => n,
        Err(m) => return Err(m),
    };
    let context: usize = match args.get_u64("context") {
        Some(n) => if n > 20 {
            20
        } else {
            n as usize
        },
        None => 0,
    };
    let mut o = match base_options(opts, display, args) {
        Ok(o) => o,
        Err(m) => return Err(m),
    };
    let case = match read_case(args) {
        Ok(case) => case,
        Err(m) => return Err(m),
    };
    o.smart_case = case == Case::Smart;
    o.case_sensitive = case == Case::Sensitive;
    o.case_insensitive = case == Case::Insensitive;
    o.pattern = owned(pattern);
    o.fixed_string = flag(args, "literal");
    o.word_boundary = flag(args, "word");
    o.multiline = flag(args, "multiline");
    o.invert_match = flag(args, "invert");
    o.json = true;
    o.max_columns = Some(crate::events::MAX_LINE_BYTES);
    o.max_columns_preview = true;
    o.context = if context > 0 {
        Some(context)
    } else {
        None
    };
    Ok(SearchPlan { options: o, budget: Budget { max_results, max_per_file, context } })
}

/// What a count asks for.
pub struct CountPlan {
    pub options: SearchOptions,
    pub max_files: usize,
}

/// The options of a count. A separator that no path contains keeps reading its
/// output unambiguous.
pub open spec fn count_view(
    base: SearchOptionsView,
    pattern: Seq<char>,
    args: JsonTree,
) -> SearchOptionsView {
    SearchOptionsView {
        pattern,
        fixed_string: is_set(args, "literal"@),
        word_boundary: is_set(args, "word"@),
        count: true,
        count_matches: true,
        field_match_separator: "\u{1}"@,
        ..base
    }
}

/// What a count asks for, or why it is refused.
pub open spec fn count_plan_result(
    opts: McpOptions,
    display: DisplayView,
    pattern: Seq<char>,
    args: JsonTree,
) -> Result<(SearchOptionsView, nat), Seq<char>> {
    match bounded_of(args, "max_files"@, 40, 1000) {
        Err(m) => Err(m),
        Ok(max_files) => match base_view(opts, display, args) {
            Err(m) => Err(m),
            Ok(base) => match case_of(args) {
                Err(m) => Err(m),
                Ok(case) => Ok((with_case(count_view(base, pattern, args), case), max_files)),
            },
        },
    }
}

/// Reads what a count asks for.
pub fn plan_count(opts: &McpOptions, display: &PathDisplay, pattern: &str, args: &Json) -> (r:
    Result<CountPlan, String>)
    ensures
        count_plan_result(*opts, display@, pattern@, args@) == (match r {
            Ok(p) => Result::<(SearchOptionsView, nat), Seq<char>>::Ok(
                (p.options@, p.max_files as nat),
            ),
            Err(m) => Err(m@),
        }),
{
    let max_files: usize = match bounded(args, "max_files", 40, 1000) {
        Ok(n) => n,
        Err(m) => return Err(m),
    };
    let mut o = match base_options(opts, display, args) {
        Ok(o) => o,
        Err(m) => return Err(m),
    };
    let case = match read_case(args) {
        Ok(case) => case,
        Err(m) => return Err(m),
    };
    o.smart_case = case == Case::Smart;
    o.case_sensitive = case == Case::Sensitive;
    o.case_insensitive = case == Case::Insensitive;
    o.pattern = owned(pattern);
    o.fixed_string = flag(args, "literal");
    o.word_boundary = flag(args, "word");
    o.count = true;
    o.count_matches = true;
    o.field_match_separator = owned("\u{1}");
    Ok(CountPlan { options: o, max_files })
}

/// A text in lower case.
pub uninterp spec fn lower_case(s: Seq<char>) -> Seq<char>;

/// `str::to_lowercase`: the text in lower case, which depends on the text
/// alone; [`lower_case`] names it.
#[verifier::external_body]
pub(crate) fn to_lower(s: &str) -> (r: String)
    ensures
        r@ == lower_case(s@),
{
    s.to_lowercase()
}

/// What a search for files asks for.
pub struct FilesPlan {
    pub options: SearchOptions,
    pub max_results: usize,
    /// What a path must contain, in lower case.
    pub contains: Option<String>,
}

/// What a search for files asks for, or why it is refused.
pub open spec fn files_plan_result(opts: McpOptions, display: DisplayView, args: JsonTree) -> Result<
    (SearchOptionsView, nat, Option<Seq<char>>),
    Seq<char>,
> {
    match bounded_of(args, "max_results"@, 200, 5000) {
        Err(m) => Err(m),
        Ok(max_results) => match base_view(opts, display, args) {
            Err(m) => Err(m),
            Ok(base) => Ok(
                (
                    base,
                    max_results,
                    match args.field_text("contains"@) {
                        Some(s) => Some(lower_case(s)),
                        None => None,
                    },
                ),
            ),
        },
    }
}

/// Reads what a search for files asks for.
pub fn plan_files(opts: &McpOptions, display: &PathDisplay, args: &Json) -> (r: Result<
    FilesPlan,
    String,
>)
    ensures
        files_plan_result(*opts, display@, args@) == (match r {
            Ok(p) => Result::<(SearchOptionsView, nat, Option<Seq<char>>), Seq<char>>::Ok(
                (p.options@, p.max_results as nat, option_text(p.contains)),
            ),
            Err(m) => Err(m@),
        }),
{
    let max_results: usize = match bounded(args, "max_results", 200, 5000) {
        Ok(n) => n,
        Err(m) => return Err(m),
    };
    let contains = match args.get_str("contains") {
        Some(s) => Some(to_lower(s)),
        None => None,
    };
    let options = match base_options(opts, display, args) {
        Ok(o) => o,
        Err(m) => return Err(m),
    };
    Ok(FilesPlan { options, max_results, contains })
}

} // verus!
