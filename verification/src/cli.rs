//! The command line: what its arguments ask for.
use crate::args::{
    limit_result, parse_size_limit, parse_sort, parse_byte_size, size_result, sort_result,
    with_message, Refresh, DEFAULT_MAX_FILE_SIZE,
};
use crate::options::{copy_option, copy_texts, RegexEngine, SearchOptions, SearchOptionsView};
use crate::output::{ColorMode, DisplayView, PathDisplay};
use crate::snapshot_diff::option_text;
use crate::sort::{SortKey, SortMode};
use crate::state::McpOptions;
use crate::text::{add_text, lemma_texts_push, owned, texts};
use vstd::prelude::*;

verus! {

/// How postings are accumulated when an index is built.
#[derive(Clone, Copy, Debug, PartialEq, Eq, Structural)]
pub enum IndexStrategy {
    /// All of them in memory, sorted once.
    InMemory,
    /// A merge sort that spills to disk, so that memory stays bounded.
    External,
}

/// The arguments of `index`.
pub struct IndexArgs {
    pub path: String,
    pub exclude: Vec<String>,
    pub strategy: IndexStrategy,
    pub index_buffer_mb: Option<u64>,
}

/// The arguments of `serve`.
pub struct ServeArgs {
    pub path: String,
    pub refresh: Refresh,
    pub max_memory_mb: Option<u64>,
    pub max_cpu_percent: Option<u8>,
    pub exclude: Vec<String>,
    pub auto_save_mutations: Option<u32>,
    pub watcher_queue_cap: Option<u64>,
}

/// The arguments of `mcp`.
pub struct McpArgs {
    pub path: String,
    pub no_auto_index: bool,
    pub exclude: Vec<String>,
    pub max_memory_mb: Option<u64>,
    pub max_cpu_percent: Option<u8>,
}

/// What the program is told to do, where it is not a plain search.
pub enum Command {
    Index(IndexArgs),
    Serve(ServeArgs),
    Mcp(McpArgs),
    /// A pattern and the paths to search it in.
    Search(String, Vec<String>),
    Status(String),
    CountFiles(String),
}

/// The command line as it was given.
pub struct Cli {
    pub command: Option<Command>,
    pub pattern: Option<String>,
    pub paths: Vec<String>,
    pub regexp: Vec<String>,
    pub pattern_file: Option<String>,
    pub ignore_case: bool,
    pub case_sensitive: bool,
    pub smart_case: bool,
    pub fixed_strings: bool,
    pub word_regexp: bool,
    pub invert_match: bool,
    pub multiline: bool,
    pub multiline_dotall: bool,
    pub files_only: bool,
    pub files_without_match: bool,
    pub count: bool,
    pub only_matching: bool,
    pub max_count: Option<usize>,
    pub list_files: bool,
    pub quiet: bool,
    pub glob: Vec<String>,
    pub iglob: Vec<String>,
    pub glob_case_insensitive: bool,
    pub file_type: Vec<String>,
    pub type_not: Vec<String>,
    pub type_add: Vec<String>,
    pub type_clear: Vec<String>,
    pub type_list: bool,
    pub max_filesize: Option<String>,
    pub no_max_filesize: bool,
    pub encoding: Option<String>,
    pub text: bool,
    pub after_context: Option<usize>,
    pub before_context: Option<usize>,
    pub context: Option<usize>,
    pub with_filename: bool,
    pub no_filename: bool,
    pub line_number: bool,
    pub no_line_number: bool,
    pub heading: bool,
    pub no_heading: bool,
    pub json: bool,
    pub vimgrep: bool,
    pub color: String,
    pub null: bool,
    pub trim: bool,
    pub stats: bool,
    pub no_index: bool,
    pub index_path: Option<String>,
    pub hidden: bool,
    pub no_ignore: bool,
    pub follow: bool,
    pub no_messages: bool,
    pub unrestricted: u8,
    pub binary: bool,
    pub line_regexp: bool,
    pub pcre2: bool,
    pub engine: String,
    pub pcre2_version: bool,
    pub no_unicode: bool,
    pub regex_size_limit: Option<String>,
    pub dfa_size_limit: Option<String>,
    pub replace: Option<String>,
    pub passthru: bool,
    pub stop_on_nonmatch: bool,
    pub column: bool,
    pub byte_offset: bool,
    pub max_columns: Option<usize>,
    pub max_columns_preview: bool,
    pub count_matches: bool,
    pub include_zero: bool,
    pub pretty: bool,
    pub context_separator: Option<String>,
    pub no_context_separator: bool,
    pub field_match_separator: Option<String>,
    pub field_context_separator: Option<String>,
    pub path_separator: Option<String>,
    pub sort: Option<String>,
    pub sortr: Option<String>,
    pub sort_files: bool,
    pub max_depth: Option<usize>,
    pub one_file_system: bool,
    pub ignore_file: Vec<String>,
    pub ignore_file_case_insensitive: bool,
    pub no_ignore_dot: bool,
    pub no_ignore_exclude: bool,
    pub no_ignore_files: bool,
    pub no_ignore_global: bool,
    pub no_ignore_messages: bool,
    pub no_ignore_parent: bool,
    pub no_ignore_vcs: bool,
    pub no_require_git: bool,
    pub threads: Option<usize>,
    pub line_buffered: bool,
    pub debug: bool,
    pub trace: bool,
    pub search_zip: bool,
}

/// The arguments that need parsing and can fail, resolved once up front.
pub struct ResolvedArgs {
    pub max_filesize: Option<u64>,
    /// Whether the size limit was asked for. A file that is named directly
    /// ignores a limit that was not, and honours one that was.
    pub max_filesize_requested: bool,
    /// The label of the encoding; absent where it is told from the bytes.
    pub encoding: Option<String>,
    pub engine: RegexEngine,
    pub regex_size_limit: Option<usize>,
    pub dfa_size_limit: Option<usize>,
    pub sort: Option<SortMode>,
}

/// What [`ResolvedArgs`] hold.
pub struct ResolvedView {
    pub max_filesize: Option<u64>,
    pub max_filesize_requested: bool,
    pub encoding: Option<Seq<char>>,
    pub engine: RegexEngine,
    pub regex_size_limit: Option<usize>,
    pub dfa_size_limit: Option<usize>,
    pub sort: Option<SortMode>,
}

impl View for ResolvedArgs {
    type V = ResolvedView;

    open spec fn view(&self) -> ResolvedView {
        ResolvedView {
            max_filesize: self.max_filesize,
            max_filesize_requested: self.max_filesize_requested,
            encoding: option_text(self.encoding),
            engine: self.engine,
            regex_size_limit: self.regex_size_limit,
            dfa_size_limit: self.dfa_size_limit,
            sort: self.sort,
        }
    }
}

/// A text, or another where it is absent.
pub open spec fn text_or(text: Option<String>, other: Seq<char>) -> Seq<char> {
    match text {
        Some(s) => s@,
        None => other,
    }
}

fn or_text(text: &Option<String>, other: &str) -> (r: String)
    ensures
        r@ == text_or(*text, other@),
{
    match text {
        Some(s) => s.clone(),
        None => owned(other),
    }
}

/// A limit that may not be given, with the message of its error.
pub open spec fn optional_limit(flag: Seq<char>, value: Option<String>) -> Result<
    Option<usize>,
    Seq<char>,
> {
    match value {
        None => Ok(None),
        Some(s) => match limit_result(flag, s@) {
            Ok(n) => Ok(Some(n)),
            Err(m) => Err(m),
        },
    }
}

fn parse_limit(flag: &str, value: &Option<String>) -> (r: Result<Option<usize>, String>)
    ensures
        with_message(r) == optional_limit(flag@, *value),
{
    match value {
        None => Ok(None),
        Some(s) => match parse_size_limit(flag, s.as_str()) {
            Ok(n) => Ok(Some(n)),
            Err(m) => Err(m),
        },
    }
}

/// The view of an encoding that may be refused.
pub open spec fn encoding_view(encoding: Result<Option<String>, String>) -> Result<
    Option<Seq<char>>,
    Seq<char>,
> {
    match encoding {
        Ok(label) => Ok(option_text(label)),
        Err(m) => Err(m@),
    }
}

/// The view of arguments that may be refused.
pub open spec fn resolved_view(r: Result<ResolvedArgs, String>) -> Result<ResolvedView, Seq<char>> {
    match r {
        Ok(args) => Ok(args@),
        Err(m) => Err(m@),
    }
}

impl Cli {
    /// The limit on the size of files: the one that was given, none where that
    /// was asked for, and a default otherwise, so that an index and a search
    /// agree on which files there are.
    pub open spec fn size_limit(self) -> Result<Option<u64>, Seq<char>> {
        if self.no_max_filesize {
            Ok(None)
        } else {
            match self.max_filesize {
                None => Ok(Some(DEFAULT_MAX_FILE_SIZE)),
                Some(s) => match size_result("--max-filesize"@, s@) {
                    Ok(n) => Ok(Some(n)),
                    Err(m) => Err(m),
                },
            }
        }
    }

    /// Resolves the limit on the size of files.
    pub fn max_filesize_bytes(&self) -> (r: Result<Option<u64>, String>)
        ensures
            with_message(r) == self.size_limit(),
    {
        if self.no_max_filesize {
            return Ok(None);
        }
        match &self.max_filesize {
            None => Ok(Some(DEFAULT_MAX_FILE_SIZE)),
            Some(s) => match parse_byte_size("--max-filesize", s.as_str()) {
                Ok(n) => Ok(Some(n)),
                Err(m) => Err(m),
            },
        }
    }

    /// The engine that is asked for.
    pub open spec fn engine_choice(self) -> Result<RegexEngine, Seq<char>> {
        if self.pcre2 {
            Ok(RegexEngine::Pcre2)
        } else {
            match RegexEngine::named(self.engine@) {
                Some(engine) => Ok(engine),
                None => Err("unrecognized regex engine: "@ + self.engine@),
            }
        }
    }

    /// The engine that is asked for.
    pub fn regex_engine(&self) -> (r: Result<RegexEngine, String>)
        ensures
            with_message(r) == self.engine_choice(),
    {
        if self.pcre2 {
            return Ok(RegexEngine::Pcre2);
        }
        match RegexEngine::from_str_opt(self.engine.as_str()) {
            Some(engine) => Ok(engine),
            None => {
                let mut message = owned("unrecognized regex engine: ");
                add_text(&mut message, self.engine.as_str());
                Err(message)
            },
        }
    }

    /// The order that is asked for: an ascending one before a descending one,
    /// and either before the old name of ordering by path.
    pub open spec fn sort_choice(self) -> Result<Option<SortMode>, Seq<char>> {
        match (self.sort, self.sortr) {
            (Some(key), _) => sort_result(key@, false),
            (None, Some(key)) => sort_result(key@, true),
            (None, None) => Ok(
                if self.sort_files {
                    Some(SortMode { key: SortKey::Path, reverse: false })
                } else {
                    None
                },
            ),
        }
    }

    /// The order that is asked for.
    pub fn sort_mode(&self) -> (r: Result<Option<SortMode>, String>)
        ensures
            with_message(r) == self.sort_choice(),
    {
        if let Some(key) = &self.sort {
            return parse_sort(key.as_str(), false);
        }
        if let Some(key) = &self.sortr {
            return parse_sort(key.as_str(), true);
        }
        if self.sort_files {
            Ok(Some(SortMode { key: SortKey::Path, reverse: false }))
        } else {
            Ok(None)
        }
    }

    /// What the label of an encoding comes to: without one the encoding is told
    /// from the bytes.
    pub open spec fn encoding_choice(
        self,
        known: Result<Option<Seq<char>>, Seq<char>>,
    ) -> Result<Option<Seq<char>>, Seq<char>> {
        match self.encoding {
            Some(_) => known,
            None => Ok(None),
        }
    }

    /// Resolves the encoding. `known` is what the label that was given is known
    /// as.
    pub fn encoding_mode(&self, known: Result<Option<String>, String>) -> (r: Result<
        Option<String>,
        String,
    >)
        ensures
            encoding_view(r) == self.encoding_choice(encoding_view(known)),
    {
        match &self.encoding {
            Some(_) => known,
            None => Ok(None),
        }
    }

    /// The arguments that can fail: all of them, or the message of the first
    /// that does.
    pub open spec fn resolution(self, known: Result<Option<Seq<char>>, Seq<char>>) -> Result<
        ResolvedView,
        Seq<char>,
    > {
        match self.engine_choice() {
            Err(m) => Err(m),
            Ok(engine) => match self.sort_choice() {
                Err(m) => Err(m),
                Ok(sort) => match self.size_limit() {
                    Err(m) => Err(m),
                    Ok(max_filesize) => match self.encoding_choice(known) {
                        Err(m) => Err(m),
                        Ok(encoding) => match optional_limit(
                            "--regex-size-limit"@,
                            self.regex_size_limit,
                        ) {
                            Err(m) => Err(m),
                            Ok(regex_size_limit) => match optional_limit(
                                "--dfa-size-limit"@,
                                self.dfa_size_limit,
                            ) {
                                Err(m) => Err(m),
                                Ok(dfa_size_limit) => Ok(
                                    ResolvedView {
                                        max_filesize,
                                        max_filesize_requested: self.max_filesize is Some
                                            || self.no_max_filesize,
                                        encoding,
                                        engine,
                                        regex_size_limit,
                                        dfa_size_limit,
                                        sort,
                                    },
                                ),
                            },
                        },
                    },
                },
            },
        }
    }

    /// Parses every argument that can fail, so that a bad value is reported and
    /// never leads to a search with other settings. `known` is what the label of
    /// an encoding that was given is known as.
    pub fn resolve(&self, known: Result<Option<String>, String>) -> (r: Result<
        ResolvedArgs,
        String,
    >)
        ensures
            resolved_view(r) == self.resolution(encoding_view(known)),
    {
        let engine = match self.regex_engine() {
            Ok(engine) => engine,
            Err(m) => {
                return Err(m);
            },
        };
        let sort = match self.sort_mode() {
            Ok(sort) => sort,
            Err(m) => {
                return Err(m);
            },
        };
        let max_filesize = match self.max_filesize_bytes() {
            Ok(n) => n,
            Err(m) => {
                return Err(m);
            },
        };
        let encoding = match self.encoding_mode(known) {
            Ok(label) => label,
            Err(m) => {
                return Err(m);
            },
        };
        let regex_size_limit = match parse_limit("--regex-size-limit", &self.regex_size_limit) {
            Ok(n) => n,
            Err(m) => {
                return Err(m);
            },
        };
        let dfa_size_limit = match parse_limit("--dfa-size-limit", &self.dfa_size_limit) {
            Ok(n) => n,
            Err(m) => {
                return Err(m);
            },
        };
        Ok(
            ResolvedArgs {
                max_filesize,
                max_filesize_requested: self.max_filesize.is_some() || self.no_max_filesize,
                encoding,
                engine,
                regex_size_limit,
                dfa_size_limit,
                sort,
            },
        )
    }

    /// The pattern and the paths that the positional arguments are. The first is
    /// the pattern only where no pattern is given in another way.
    pub open spec fn pattern_and_paths(
        self,
        positional: Option<Seq<char>>,
        rest: Seq<Seq<char>>,
    ) -> (Seq<char>, Seq<Seq<char>>) {
        if self.regexp@.len() == 0 && self.pattern_file is None {
            (
                match positional {
                    Some(p) => p,
                    None => Seq::empty(),
                },
                rest,
            )
        } else {
            (
                Seq::empty(),
                match positional {
                    Some(p) => seq![p] + rest,
                    None => rest,
                },
            )
        }
    }

    /// Splits the positional arguments into a pattern and paths.
    pub fn split_pattern_and_paths(&self, positional: Option<&String>, rest: &Vec<String>) -> (r: (
        String,
        Vec<String>,
    ))
        ensures
            (r.0@, texts(r.1@)) == self.pattern_and_paths(
                match positional {
                    Some(p) => Some(p@),
                    None => None,
                },
                texts(rest@),
            ),
    {
        if self.regexp.len() == 0 && self.pattern_file.is_none() {
            let pattern = match positional {
                Some(p) => p.clone(),
                None => String::new(),
            };
            return (pattern, copy_texts(rest));
        }
        (String::new(), with_first(positional, rest))
    }

    /// Whether results are grouped under headings, where that is asked for.
    pub open spec fn heading_choice(self) -> Option<bool> {
        if self.heading || self.pretty {
            Some(true)
        } else if self.no_heading {
            Some(false)
        } else {
            None
        }
    }

    fn heading_mode(&self) -> (r: Option<bool>)
        ensures
            r == self.heading_choice(),
    {
        if self.heading || self.pretty {
            Some(true)
        } else if self.no_heading {
            Some(false)
        } else {
            None
        }
    }

    /// Whether colors are printed; an unknown mode counts as none given.
    pub open spec fn color_choice(self) -> ColorMode {
        if self.pretty {
            ColorMode::Always
        } else {
            match ColorMode::named(self.color@) {
                Some(mode) => mode,
                None => ColorMode::Auto,
            }
        }
    }

    fn color_mode(&self) -> (r: ColorMode)
        ensures
            r == self.color_choice(),
    {
        if self.pretty {
            ColorMode::Always
        } else {
            match ColorMode::from_str_opt(self.color.as_str()) {
                Some(mode) => mode,
                None => ColorMode::Auto,
            }
        }
    }

    /// Whether JSON is printed. Counts and lists of files have no JSON form, so
    /// they win.
    pub open spec fn prints_json(self) -> bool {
        self.json && !(self.count || self.count_matches || self.files_only
            || self.files_without_match || self.list_files)
    }

    /// What is printed between blocks of context.
    pub open spec fn separator_between_blocks(self) -> Option<Seq<char>> {
        if self.no_context_separator {
            None
        } else {
            Some(text_or(self.context_separator, "--"@))
        }
    }

    fn block_separator(&self) -> (r: Option<String>)
        ensures
            option_text(r) == self.separator_between_blocks(),
    {
        if self.no_context_separator {
            None
        } else {
            Some(or_text(&self.context_separator, "--"))
        }
    }

    /// The search that the arguments ask for, printed to a terminal or not.
    pub open spec fn search_asked(
        self,
        pattern: Seq<char>,
        resolved: ResolvedArgs,
        is_tty: bool,
    ) -> SearchOptionsView {
        SearchOptionsView {
            pattern,
            extra_patterns: texts(self.regexp@),
            pattern_file: option_text(self.pattern_file),
            case_insensitive: self.ignore_case,
            case_sensitive: self.case_sensitive,
            smart_case: self.smart_case,
            fixed_string: self.fixed_strings,
            files_only: self.files_only,
            files_without_match: self.files_without_match,
            count: self.count,
            word_boundary: self.word_regexp,
            max_count: self.max_count,
            json: self.prints_json(),
            vimgrep: self.vimgrep,
            stats: self.stats || self.debug || self.trace,
            no_index: self.no_index,
            glob: texts(self.glob@),
            iglob: texts(self.iglob@),
            glob_case_insensitive: self.glob_case_insensitive,
            types: texts(self.file_type@),
            types_not: texts(self.type_not@),
            type_add: texts(self.type_add@),
            type_clear: texts(self.type_clear@),
            invert_match: self.invert_match,
            only_matching: self.only_matching,
            after_context: self.after_context,
            before_context: self.before_context,
            context: self.context,
            heading: self.heading_choice(),
            color: self.color_choice(),
            null: self.null,
            trim: self.trim,
            multiline: self.multiline || self.multiline_dotall,
            multiline_dotall: self.multiline_dotall,
            no_ignore: self.no_ignore || self.unrestricted >= 1,
            hidden: self.hidden || self.unrestricted >= 2,
            quiet: self.quiet,
            no_filename: self.no_filename,
            no_line_number: self.no_line_number || !(self.line_number || self.column
                || self.vimgrep || self.pretty || is_tty),
            text: self.text,
            binary: self.binary || self.unrestricted >= 3,
            path_display: DisplayView::Bare,
            max_filesize: resolved.max_filesize,
            max_filesize_requested: resolved.max_filesize_requested,
            encoding: option_text(resolved.encoding),
            follow: self.follow,
            no_messages: self.no_messages,
            no_ignore_messages: self.no_ignore_messages,
            line_regexp: self.line_regexp,
            no_unicode: self.no_unicode,
            engine: resolved.engine,
            regex_size_limit: resolved.regex_size_limit,
            dfa_size_limit: resolved.dfa_size_limit,
            replace: option_text(self.replace),
            passthru: self.passthru,
            stop_on_nonmatch: self.stop_on_nonmatch,
            column: self.column || self.vimgrep,
            byte_offset: self.byte_offset,
            max_columns: self.max_columns,
            max_columns_preview: self.max_columns_preview,
            count_matches: self.count_matches,
            include_zero: self.include_zero,
            context_separator: self.separator_between_blocks(),
            field_match_separator: text_or(self.field_match_separator, ":"@),
            field_context_separator: text_or(self.field_context_separator, "-"@),
            path_separator: option_text(self.path_separator),
            sort: resolved.sort,
            max_depth: self.max_depth,
            one_file_system: self.one_file_system,
            ignore_files: if self.no_ignore_files {
                Seq::empty()
            } else {
                texts(self.ignore_file@)
            },
            ignore_file_case_insensitive: self.ignore_file_case_insensitive,
            no_ignore_dot: self.no_ignore_dot,
            no_ignore_exclude: self.no_ignore_exclude,
            no_ignore_global: self.no_ignore_global,
            no_ignore_parent: self.no_ignore_parent,
            no_ignore_vcs: self.no_ignore_vcs,
            no_require_git: self.no_require_git,
            threads: self.threads,
            line_buffered: self.line_buffered,
        }
    }

    /// The search that the arguments ask for.
    pub fn build_search_opts(&self, pattern: String, resolved: &ResolvedArgs, is_tty: bool) -> (r:
        SearchOptions)
        ensures
            r@ == self.search_asked(pattern@, *resolved, is_tty),
    {
        let json = self.json && !(self.count || self.count_matches || self.files_only
            || self.files_without_match || self.list_files);
        let ignore_files = if self.no_ignore_files {
            let none: Vec<String> = Vec::new();
            assert(texts(none@) =~= Seq::empty());
            none
        } else {
            copy_texts(&self.ignore_file)
        };
        SearchOptions {
            pattern,
            extra_patterns: copy_texts(&self.regexp),
            pattern_file: copy_option(&self.pattern_file),
            case_insensitive: self.ignore_case,
            case_sensitive: self.case_sensitive,
            smart_case: self.smart_case,
            fixed_string: self.fixed_strings,
            files_only: self.files_only,
            files_without_match: self.files_without_match,
            count: self.count,
            word_boundary: self.word_regexp,
            max_count: self.max_count,
            json,
            vimgrep: self.vimgrep,
            stats: self.stats || self.debug || self.trace,
            no_index: self.no_index,
            glob: copy_texts(&self.glob),
            iglob: copy_texts(&self.iglob),
            glob_case_insensitive: self.glob_case_insensitive,
            types: copy_texts(&self.file_type),
            types_not: copy_texts(&self.type_not),
            type_add: copy_texts(&self.type_add),
            type_clear: copy_texts(&self.type_clear),
            invert_match: self.invert_match,
            only_matching: self.only_matching,
            after_context: self.after_context,
            before_context: self.before_context,
            context: self.context,
            heading: self.heading_mode(),
            color: self.color_mode(),
            null: self.null,
            trim: self.trim,
            multiline: self.multiline || self.multiline_dotall,
            multiline_dotall: self.multiline_dotall,
            no_ignore: self.no_ignore || self.unrestricted >= 1,
            hidden: self.hidden || self.unrestricted >= 2,
            quiet: self.quiet,
            no_filename: self.no_filename,
            no_line_number: self.no_line_number || !(self.line_number || self.column
                || self.vimgrep || self.pretty || is_tty),
            text: self.text,
            binary: self.binary || self.unrestricted >= 3,
            path_display: PathDisplay::Bare,
            max_filesize: resolved.max_filesize,
            max_filesize_requested: resolved.max_filesize_requested,
            encoding: copy_option(&resolved.encoding),
            follow: self.follow,
            no_messages: self.no_messages,
            no_ignore_messages: self.no_ignore_messages,
            line_regexp: self.line_regexp,
            no_unicode: self.no_unicode,
            engine: resolved.engine,
            regex_size_limit: resolved.regex_size_limit,
            dfa_size_limit: resolved.dfa_size_limit,
            replace: copy_option(&self.replace),
            passthru: self.passthru,
            stop_on_nonmatch: self.stop_on_nonmatch,
            column: self.column || self.vimgrep,
            byte_offset: self.byte_offset,
            max_columns: self.max_columns,
            max_columns_preview: self.max_columns_preview,
            count_matches: self.count_matches,
            include_zero: self.include_zero,
            context_separator: self.block_separator(),
            field_match_separator: or_text(&self.field_match_separator, ":"),
            field_context_separator: or_text(&self.field_context_separator, "-"),
            path_separator: copy_option(&self.path_separator),
            sort: resolved.sort,
            max_depth: self.max_depth,
            one_file_system: self.one_file_system,
            ignore_files,
            ignore_file_case_insensitive: self.ignore_file_case_insensitive,
            no_ignore_dot: self.no_ignore_dot,
            no_ignore_exclude: self.no_ignore_exclude,
            no_ignore_global: self.no_ignore_global,
            no_ignore_parent: self.no_ignore_parent,
            no_ignore_vcs: self.no_ignore_vcs,
            no_require_git: self.no_require_git,
            threads: self.threads,
            line_buffered: self.line_buffered,
        }
    }
}

fn with_first(first: Option<&String>, rest: &Vec<String>) -> (r: Vec<String>)
    ensures
        texts(r@) == (match first {
            Some(p) => seq![p@] + texts(rest@),
            None => texts(rest@),
        }),
{
    match first {
        None => copy_texts(rest),
        Some(p) => {
            let mut out: Vec<String> = Vec::new();
            out.push(p.clone());
            let mut i: usize = 0;
            assert(texts(out@) =~= seq![p@] + texts(rest@).take(0));
            while i < rest.len()
                invariant
                    i <= rest@.len(),
                    texts(out@) == seq![p@] + texts(rest@).take(i as int),
                decreases rest@.len() - i,
            {
                let next = rest[i].clone();
                proof {
                    lemma_texts_push(out@, next);
                    assert(texts(rest@).take(i + 1) =~= texts(rest@).take(i as int).push(next@));
                    assert((seq![p@] + texts(rest@).take(i as int)).push(next@) =~= seq![p@]
                        + texts(rest@).take(i + 1));
                }
                out.push(next);
                i += 1;
            }
            assert(texts(rest@).take(texts(rest@).len() as int) =~= texts(rest@));
            out
        },
    }
}

/// The flags of a list that are set, in order.
pub open spec fn set_flags(flags: Seq<(bool, Seq<char>)>) -> Seq<Seq<char>> {
    flags.filter_map(
        |f: (bool, Seq<char>)|
            if f.0 {
                Some(f.1)
            } else {
                None
            },
    )
}

impl Cli {
    /// The flags on which files there are that only a search honours. Building
    /// an index takes hidden files in any case.
    pub open spec fn discovery_flags(self) -> Seq<(bool, Seq<char>)> {
        seq![
            (self.follow, "--follow"@),
            (self.max_depth is Some, "--max-depth"@),
            (self.one_file_system, "--one-file-system"@),
            (self.ignore_file@.len() > 0, "--ignore-file"@),
            (self.ignore_file_case_insensitive, "--ignore-file-case-insensitive"@),
            (self.no_ignore_dot, "--no-ignore-dot"@),
            (self.no_ignore_exclude, "--no-ignore-exclude"@),
            (self.no_ignore_files, "--no-ignore-files"@),
            (self.no_ignore_global, "--no-ignore-global"@),
            (self.no_ignore_parent, "--no-ignore-parent"@),
            (self.no_ignore_vcs, "--no-ignore-vcs"@),
        ]
    }

    /// The given flags that building an index would ignore, so that it has to
    /// refuse them.
    pub fn unsupported_discovery_flags(&self) -> (r: Vec<&'static str>)
        ensures
            r@.map_values(|s: &'static str| s@) == set_flags(self.discovery_flags()),
    {
        let flags: Vec<(bool, &'static str)> = vec![
            (self.follow, "--follow"),
            (self.max_depth.is_some(), "--max-depth"),
            (self.one_file_system, "--one-file-system"),
            (self.ignore_file.len() > 0, "--ignore-file"),
            (self.ignore_file_case_insensitive, "--ignore-file-case-insensitive"),
            (self.no_ignore_dot, "--no-ignore-dot"),
            (self.no_ignore_exclude, "--no-ignore-exclude"),
            (self.no_ignore_files, "--no-ignore-files"),
            (self.no_ignore_global, "--no-ignore-global"),
            (self.no_ignore_parent, "--no-ignore-parent"),
            (self.no_ignore_vcs, "--no-ignore-vcs"),
        ];
        let ghost all = self.discovery_flags();
        let ghost f = |f: (bool, Seq<char>)|
            if f.0 {
                Some(f.1)
            } else {
                None
            };
        assert(flags@.map_values(|f: (bool, &'static str)| (f.0, f.1@)) =~= all);
        let mut out: Vec<&'static str> = Vec::new();
        let mut i: usize = 0;
        assert(out@.map_values(|s: &'static str| s@) =~= all.take(0).filter_map(f));
        while i < flags.len()
            invariant
                i <= flags@.len(),
                all == flags@.map_values(|f: (bool, &'static str)| (f.0, f.1@)),
                f == (|f: (bool, Seq<char>)|
                    if f.0 {
                        Some(f.1)
                    } else {
                        None
                    }),
                out@.map_values(|s: &'static str| s@) == all.take(i as int).filter_map(f),
            decreases flags@.len() - i,
        {
            let ghost before = out@;
            let (is_set, name) = flags[i];
            proof {
                assert(all.take(i + 1).drop_last() =~= all.take(i as int));
                assert(all.take(i + 1).last() == (is_set, name@));
            }
            if is_set {
                out.push(name);
                assert(out@.map_values(|s: &'static str| s@) =~= before.map_values(
                    |s: &'static str| s@,
                ) + seq![name@]);
            }
            i += 1;
        }
        assert(all.take(all.len() as int) =~= all);
        out
    }
}

/// Texts with a comma between them.
pub open spec fn listed(names: Seq<Seq<char>>) -> Seq<char>
    decreases names.len(),
{
    if names.len() == 0 {
        Seq::empty()
    } else if names.len() == 1 {
        names[0]
    } else {
        listed(names.drop_last()) + ", "@ + names.last()
    }
}

fn list_names(names: &Vec<&'static str>) -> (r: String)
    ensures
        r@ == listed(names@.map_values(|s: &'static str| s@)),
{
    let mut out = String::new();
    let ghost all = names@.map_values(|s: &'static str| s@);
    let mut i: usize = 0;
    assert(out@ =~= listed(all.take(0)));
    while i < names.len()
        invariant
            i <= names@.len(),
            all == names@.map_values(|s: &'static str| s@),
            out@ == listed(all.take(i as int)),
        decreases names@.len() - i,
    {
        proof {
            assert(all.take(i + 1).drop_last() =~= all.take(i as int));
            assert(all.take(i + 1).last() == names@[i as int]@);
            assert(all.take(i + 1)[0] == all[0]);
        }
        if i > 0 {
            add_text(&mut out, ", ");
        }
        add_text(&mut out, names[i]);
        proof {
            if i == 0 {
                assert(out@ =~= names@[0]@);
            }
        }
        i += 1;
    }
    assert(all.take(all.len() as int) =~= all);
    out
}

/// Why a command that builds an index refuses flags; nothing where it takes
/// them all.
pub open spec fn discovery_refusal(subcommand: Seq<char>, flags: Seq<Seq<char>>) -> Option<
    Seq<char>,
> {
    if flags.len() == 0 {
        None
    } else {
        Some(
            "`"@ + subcommand + "` does not support "@ + listed(flags)
                + "; it would be ignored and the index would not match what you asked for"@,
        )
    }
}

/// Refuses flags that a command would ignore.
pub fn reject_unsupported_discovery_flags(cli: &Cli, subcommand: &str) -> (r: Option<String>)
    ensures
        option_text(r) == discovery_refusal(subcommand@, set_flags(cli.discovery_flags())),
{
    let flags = cli.unsupported_discovery_flags();
    let ghost names = flags@.map_values(|s: &'static str| s@);
    assert(names.len() == flags@.len());
    if flags.len() == 0 {
        return None;
    }
    let mut message = owned("`");
    add_text(&mut message, subcommand);
    add_text(&mut message, "` does not support ");
    let list = list_names(&flags);
    add_text(&mut message, list.as_str());
    add_text(
        &mut message,
        "; it would be ignored and the index would not match what you asked for",
    );
    Some(message)
}

/// What the program does.
pub enum Action {
    /// The file types are listed.
    ListTypes,
    /// A message is printed, and that is all.
    Print(String),
    /// A message goes to the error stream, and the program fails.
    Fail(String),
    /// The program says how it is used, and fails.
    Usage,
    /// The command runs.
    Run,
    /// A pattern is searched in paths.
    Search(String, Vec<String>),
    /// The files of paths are listed.
    ListFiles(Vec<String>),
}

/// What an [`Action`] is.
pub enum ActionView {
    ListTypes,
    Print(Seq<char>),
    Fail(Seq<char>),
    Usage,
    Run,
    Search(Seq<char>, Seq<Seq<char>>),
    ListFiles(Seq<Seq<char>>),
}

impl View for Action {
    type V = ActionView;

    open spec fn view(&self) -> ActionView {
        match self {
            Action::ListTypes => ActionView::ListTypes,
            Action::Print(m) => ActionView::Print(m@),
            Action::Fail(m) => ActionView::Fail(m@),
            Action::Usage => ActionView::Usage,
            Action::Run => ActionView::Run,
            Action::Search(p, paths) => ActionView::Search(p@, texts(paths@)),
            Action::ListFiles(paths) => ActionView::ListFiles(texts(paths@)),
        }
    }
}

/// The name under which a command that builds an index refuses flags.
pub open spec fn building_name(command: Option<Command>) -> Option<Seq<char>> {
    match command {
        Some(Command::Index(_)) => Some("index"@),
        Some(Command::Serve(_)) => Some("serve"@),
        Some(Command::Mcp(_)) => Some("mcp"@),
        _ => None,
    }
}

impl Cli {
    /// What is listed where files are to be listed: every positional argument is
    /// a path.
    pub open spec fn listed_paths(self) -> Seq<Seq<char>> {
        match self.pattern {
            Some(p) => seq![p@] + texts(self.paths@),
            None => texts(self.paths@),
        }
    }

    /// What the program does, where nothing was refused.
    pub open spec fn command_action(self) -> ActionView {
        match self.command {
            Some(Command::Search(pattern, paths)) => {
                let (pattern, paths) = self.pattern_and_paths(Some(pattern@), texts(paths@));
                ActionView::Search(pattern, paths)
            },
            Some(_) => ActionView::Run,
            None => if self.list_files {
                ActionView::ListFiles(self.listed_paths())
            } else if self.pattern is Some || self.regexp@.len() > 0 || self.pattern_file is Some {
                let (pattern, paths) = self.pattern_and_paths(
                    option_text(self.pattern),
                    texts(self.paths@),
                );
                ActionView::Search(pattern, paths)
            } else {
                ActionView::Usage
            },
        }
    }

    /// What the program does. A bad value fails loudly: a search with other
    /// settings than were asked for looks like one that found nothing.
    pub open spec fn action(self, resolved: Result<ResolvedView, Seq<char>>) -> ActionView {
        if self.type_list {
            ActionView::ListTypes
        } else if self.search_zip {
            ActionView::Fail("-z/--search-zip is not supported; decompress the files first"@)
        } else if self.pcre2_version {
            ActionView::Print(
                "fancy-regex (PCRE2-compatible backtracking engine; PCRE2 is not linked)"@,
            )
        } else {
            match (resolved, building_name(self.command)) {
                (Err(m), _) => ActionView::Fail(m),
                (Ok(_), Some(name)) => match discovery_refusal(
                    name,
                    set_flags(self.discovery_flags()),
                ) {
                    Some(m) => ActionView::Fail(m),
                    None => self.command_action(),
                },
                (Ok(_), None) => self.command_action(),
            }
        }
    }

    /// What is listed where files are to be listed.
    pub fn list_files_paths(&self) -> (r: Vec<String>)
        ensures
            texts(r@) == self.listed_paths(),
    {
        with_first(self.pattern.as_ref(), &self.paths)
    }

    fn plan_command(&self) -> (r: Action)
        ensures
            r@ == self.command_action(),
    {
        match &self.command {
            Some(Command::Search(pattern, paths)) => {
                let (pattern, paths) = self.split_pattern_and_paths(Some(pattern), paths);
                Action::Search(pattern, paths)
            },
            Some(_) => Action::Run,
            None => if self.list_files {
                Action::ListFiles(self.list_files_paths())
            } else if self.pattern.is_some() || self.regexp.len() > 0
                || self.pattern_file.is_some() {
                let (pattern, paths) = self.split_pattern_and_paths(
                    self.pattern.as_ref(),
                    &self.paths,
                );
                Action::Search(pattern, paths)
            } else {
                Action::Usage
            },
        }
    }

    fn command_name(&self) -> (r: Option<&'static str>)
        ensures
            building_name(self.command) == (match r {
                Some(s) => Some(s@),
                None => None,
            }),
    {
        match &self.command {
            Some(Command::Index(_)) => Some("index"),
            Some(Command::Serve(_)) => Some("serve"),
            Some(Command::Mcp(_)) => Some("mcp"),
            _ => None,
        }
    }

    /// Decides what the program does, once the arguments that can fail were
    /// resolved.
    pub fn plan(&self, resolved: &Result<ResolvedArgs, String>) -> (r: Action)
        ensures
            r@ == self.action(resolved_view(*resolved)),
    {
        if self.type_list {
            return Action::ListTypes;
        }
        if self.search_zip {
            return Action::Fail(
                owned("-z/--search-zip is not supported; decompress the files first"),
            );
        }
        if self.pcre2_version {
            return Action::Print(
                owned("fancy-regex (PCRE2-compatible backtracking engine; PCRE2 is not linked)"),
            );
        }
        if let Err(m) = resolved {
            return Action::Fail(m.clone());
        }
        if let Some(name) = self.command_name() {
            if let Some(m) = reject_unsupported_discovery_flags(self, name) {
                return Action::Fail(m);
            }
        }
        self.plan_command()
    }
}

/// What the program says of how it is used.
pub open spec fn usage_text() -> Seq<char> {
    "Usage: tgrep <pattern> [PATH ...]\n       tgrep index [path]\n       tgrep serve [path]\n       tgrep status [path]\nSearch defaults to the current directory when no path is provided.\nRun `tgrep --help` for full usage.\n"@
}

/// What the program says of how it is used.
pub fn usage() -> (r: &'static str)
    ensures
        r@ == usage_text(),
{
    "Usage: tgrep <pattern> [PATH ...]\n       tgrep index [path]\n       tgrep serve [path]\n       tgrep status [path]\nSearch defaults to the current directory when no path is provided.\nRun `tgrep --help` for full usage.\n"
}

/// How an index is built.
pub struct IndexSettings {
    pub root: String,
    pub index_path: Option<String>,
    pub include_hidden: bool,
    pub no_ignore: bool,
    pub no_require_git: bool,
    pub exclude_dirs: Vec<String>,
    pub strategy: IndexStrategy,
    pub index_buffer_mb: Option<u64>,
    pub max_file_size: Option<u64>,
}

/// How a server runs.
pub struct ServeSettings {
    pub refresh: Refresh,
    pub exclude_dirs: Vec<String>,
    pub memory_cap_bytes: u64,
    pub cpu_percent: u8,
    pub no_ignore: bool,
    pub no_require_git: bool,
    pub max_file_size: Option<u64>,
    pub auto_save_mutations: Option<u32>,
    pub watcher_queue_cap: Option<usize>,
}

/// A budget of memory in bytes: what was given in megabytes, as far as it can be
/// counted, or a default.
pub open spec fn memory_cap(megabytes: Option<u64>, default: u64) -> u64 {
    match megabytes {
        Some(mb) => if mb * 1_048_576 <= u64::MAX {
            (mb * 1_048_576) as u64
        } else {
            u64::MAX
        },
        None => default,
    }
}

/// A budget of memory in bytes.
pub fn memory_cap_bytes(megabytes: Option<u64>, default: u64) -> (r: u64)
    ensures
        r == memory_cap(megabytes, default),
{
    match megabytes {
        Some(mb) => match mb.checked_mul(1_048_576) {
            Some(bytes) => bytes,
            None => u64::MAX,
        },
        None => default,
    }
}

/// The share of the cores that building an index may take, in percent.
pub open spec fn cpu_share(percent: Option<u8>) -> u8 {
    match percent {
        Some(p) => p,
        None => 50,
    }
}

/// The share of the cores that building an index may take, in percent.
pub fn cpu_percent(percent: Option<u8>) -> (r: u8)
    ensures
        r == cpu_share(percent),
{
    match percent {
        Some(p) => p,
        None => 50,
    }
}

impl Cli {
    /// Whether settings of a session are what is asked for.
    pub open spec fn opens_session(
        self,
        args: McpArgs,
        max_filesize: Option<u64>,
        default_memory_cap: u64,
        r: McpOptions,
    ) -> bool {
        &&& r.auto_index == !args.no_auto_index
        &&& texts(r.exclude_dirs@) == texts(args.exclude@)
        &&& r.no_ignore == self.ignores_nothing()
        &&& r.no_require_git == self.no_require_git
        &&& r.max_file_size == max_filesize
        &&& r.memory_cap_bytes == memory_cap(args.max_memory_mb, default_memory_cap)
    }

    /// Whether settings for building an index are what is asked for.
    pub open spec fn builds_index(
        self,
        args: IndexArgs,
        max_filesize: Option<u64>,
        r: IndexSettings,
    ) -> bool {
        &&& r.root@ == args.path@
        &&& option_text(r.index_path) == option_text(self.index_path)
        &&& r.include_hidden
        &&& r.no_ignore == self.ignores_nothing()
        &&& r.no_require_git == self.no_require_git
        &&& texts(r.exclude_dirs@) == texts(args.exclude@)
        &&& r.strategy == args.strategy
        &&& r.index_buffer_mb == args.index_buffer_mb
        &&& r.max_file_size == max_filesize
    }

    /// Whether settings of a server are what is asked for.
    pub open spec fn serves(
        self,
        args: ServeArgs,
        max_filesize: Option<u64>,
        default_memory_cap: u64,
        r: ServeSettings,
    ) -> bool {
        &&& r.refresh == args.refresh
        &&& texts(r.exclude_dirs@) == texts(args.exclude@)
        &&& r.memory_cap_bytes == memory_cap(args.max_memory_mb, default_memory_cap)
        &&& r.cpu_percent == cpu_share(args.max_cpu_percent)
        &&& r.no_ignore == self.ignores_nothing()
        &&& r.no_require_git == self.no_require_git
        &&& r.max_file_size == max_filesize
        &&& r.auto_save_mutations == args.auto_save_mutations
    }

    /// Whether ignore rules are left aside.
    pub open spec fn ignores_nothing(self) -> bool {
        self.no_ignore || self.unrestricted >= 1
    }

    /// How `index` builds. Files are left out by the size that a search leaves
    /// them out by.
    pub fn index_settings(&self, args: &IndexArgs, max_filesize: Option<u64>) -> (r: IndexSettings)
        ensures
            self.builds_index(*args, max_filesize, r),
            r.root@ == args.path@,
            option_text(r.index_path) == option_text(self.index_path),
            r.include_hidden,
            r.no_ignore == self.ignores_nothing(),
            r.no_require_git == self.no_require_git,
            texts(r.exclude_dirs@) == texts(args.exclude@),
            r.strategy == args.strategy,
            r.index_buffer_mb == args.index_buffer_mb,
            r.max_file_size == max_filesize,
    {
        IndexSettings {
            root: args.path.clone(),
            index_path: copy_option(&self.index_path),
            include_hidden: true,
            no_ignore: self.no_ignore || self.unrestricted >= 1,
            no_require_git: self.no_require_git,
            exclude_dirs: copy_texts(&args.exclude),
            strategy: args.strategy,
            index_buffer_mb: args.index_buffer_mb,
            max_file_size: max_filesize,
        }
    }

    /// How `serve` runs. A queue that a machine word cannot count is as long as
    /// one can be, never empty.
    pub fn serve_settings(
        &self,
        args: &ServeArgs,
        max_filesize: Option<u64>,
        default_memory_cap: u64,
    ) -> (r: ServeSettings)
        ensures
            self.serves(*args, max_filesize, default_memory_cap, r),
            r.refresh == args.refresh,
            texts(r.exclude_dirs@) == texts(args.exclude@),
            r.memory_cap_bytes == memory_cap(args.max_memory_mb, default_memory_cap),
            r.cpu_percent == cpu_share(args.max_cpu_percent),
            r.no_ignore == self.ignores_nothing(),
            r.no_require_git == self.no_require_git,
            r.max_file_size == max_filesize,
            r.auto_save_mutations == args.auto_save_mutations,
            r.watcher_queue_cap == (match args.watcher_queue_cap {
                Some(n) => Some(
                    if n <= usize::MAX {
                        n as usize
                    } else {
                        usize::MAX
                    },
                ),
                None => None,
            }),
    {
        let most: u64 = usize::MAX as u64;
        let watcher_queue_cap = match args.watcher_queue_cap {
            Some(n) => if n <= most {
                Some(n as usize)
            } else {
                Some(usize::MAX)
            },
            None => None,
        };
        ServeSettings {
            refresh: args.refresh,
            exclude_dirs: copy_texts(&args.exclude),
            memory_cap_bytes: memory_cap_bytes(args.max_memory_mb, default_memory_cap),
            cpu_percent: cpu_percent(args.max_cpu_percent),
            no_ignore: self.no_ignore || self.unrestricted >= 1,
            no_require_git: self.no_require_git,
            max_file_size: max_filesize,
            auto_save_mutations: args.auto_save_mutations,
            watcher_queue_cap,
        }
    }

    /// How `mcp` runs. `index_threads` is what its share of the cores comes to.
    pub fn mcp_options(
        &self,
        args: &McpArgs,
        max_filesize: Option<u64>,
        default_memory_cap: u64,
        index_threads: usize,
    ) -> (r: McpOptions)
        ensures
            self.opens_session(*args, max_filesize, default_memory_cap, r),
            r.auto_index == !args.no_auto_index,
            texts(r.exclude_dirs@) == texts(args.exclude@),
            r.no_ignore == self.ignores_nothing(),
            r.no_require_git == self.no_require_git,
            r.max_file_size == max_filesize,
            r.memory_cap_bytes == memory_cap(args.max_memory_mb, default_memory_cap),
            r.index_threads == index_threads,
    {
        McpOptions {
            auto_index: !args.no_auto_index,
            exclude_dirs: copy_texts(&args.exclude),
            no_ignore: self.no_ignore || self.unrestricted >= 1,
            no_require_git: self.no_require_git,
            max_file_size: max_filesize,
            memory_cap_bytes: memory_cap_bytes(args.max_memory_mb, default_memory_cap),
            index_threads,
        }
    }
}

/// A value that cannot be parsed fails: it never leads to a search, a listing
/// or a command with other settings.
pub proof fn law_a_bad_value_never_runs(cli: Cli, message: Seq<char>)
    requires
        !cli.type_list,
        !cli.pcre2_version,
    ensures
        cli.action(Err(message)) is Fail,
{
}

/// A flag that building an index would ignore is refused there, and nothing
/// else that can be searched for is.
pub proof fn law_ignored_flags_are_refused(cli: Cli, resolved: ResolvedView)
    requires
        !cli.type_list,
        !cli.search_zip,
        !cli.pcre2_version,
    ensures
        building_name(cli.command) is Some && set_flags(cli.discovery_flags()).len() > 0
            ==> cli.action(Ok(resolved)) is Fail,
        cli.action(Ok(resolved)) is Fail ==> building_name(cli.command) is Some && set_flags(
            cli.discovery_flags(),
        ).len() > 0,
{
}

} // verus!
