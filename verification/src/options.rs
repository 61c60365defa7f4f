//! What a search is asked for, and what follows from it.
use crate::output::{ColorMode, DisplayView, OutputConfig, OutputFormat, OutputWriter, PathDisplay};
use crate::snapshot_diff::option_text;
use crate::sort::SortMode;
use crate::text::{chars_of, lemma_texts_push, lines, lines_of, same, texts, trim, trimmed};
use vstd::prelude::*;

verus! {

/// The engine that patterns are matched with.
#[derive(Clone, Copy, Debug, PartialEq, Eq, Structural)]
pub enum RegexEngine {
    Default,
    Pcre2,
    Auto,
}

impl RegexEngine {
    /// The name of the engine.
    pub open spec fn name(self) -> Seq<char> {
        match self {
            RegexEngine::Default => "default"@,
            RegexEngine::Pcre2 => "pcre2"@,
            RegexEngine::Auto => "auto"@,
        }
    }

    /// The engine with a name.
    pub open spec fn named(s: Seq<char>) -> Option<RegexEngine> {
        if s == "default"@ {
            Some(RegexEngine::Default)
        } else if s == "pcre2"@ {
            Some(RegexEngine::Pcre2)
        } else if s == "auto"@ {
            Some(RegexEngine::Auto)
        } else {
            None
        }
    }

    /// The name of the engine.
    pub fn label(self) -> (r: &'static str)
        ensures
            r@ == self.name(),
    {
        match self {
            RegexEngine::Default => "default",
            RegexEngine::Pcre2 => "pcre2",
            RegexEngine::Auto => "auto",
        }
    }

    /// The engine with a name.
    pub fn from_str_opt(s: &str) -> (r: Option<RegexEngine>)
        ensures
            r == RegexEngine::named(s@),
    {
        if same(s, "default") {
            Some(RegexEngine::Default)
        } else if same(s, "pcre2") {
            Some(RegexEngine::Pcre2)
        } else if same(s, "auto") {
            Some(RegexEngine::Auto)
        } else {
            None
        }
    }
}

/// What a search is asked for.
pub struct SearchOptions {
    pub pattern: String,
    pub extra_patterns: Vec<String>,
    /// A file of further patterns, one for each line.
    pub pattern_file: Option<String>,
    pub case_insensitive: bool,
    pub case_sensitive: bool,
    pub smart_case: bool,
    pub fixed_string: bool,
    pub files_only: bool,
    pub files_without_match: bool,
    pub count: bool,
    pub word_boundary: bool,
    pub max_count: Option<usize>,
    pub json: bool,
    pub vimgrep: bool,
    pub stats: bool,
    pub no_index: bool,
    pub glob: Vec<String>,
    pub iglob: Vec<String>,
    pub glob_case_insensitive: bool,
    pub types: Vec<String>,
    pub types_not: Vec<String>,
    pub type_add: Vec<String>,
    pub type_clear: Vec<String>,
    pub invert_match: bool,
    pub only_matching: bool,
    pub after_context: Option<usize>,
    pub before_context: Option<usize>,
    pub context: Option<usize>,
    pub heading: Option<bool>,
    pub color: ColorMode,
    pub null: bool,
    pub trim: bool,
    pub multiline: bool,
    pub multiline_dotall: bool,
    pub no_ignore: bool,
    pub hidden: bool,
    pub quiet: bool,
    pub no_filename: bool,
    pub no_line_number: bool,
    pub text: bool,
    /// Walk into files an extension check would reject, and report a note for
    /// them instead of printing their lines.
    pub binary: bool,
    /// How to rebuild printed paths from the relative ones.
    pub path_display: PathDisplay,
    pub max_filesize: Option<u64>,
    /// Whether the size limit was asked for, as opposed to inherited.
    pub max_filesize_requested: bool,
    /// The label of the encoding to decode with; absent where it is told from
    /// the bytes.
    pub encoding: Option<String>,
    pub follow: bool,
    pub no_messages: bool,
    /// Suppress errors from unparseable ignore files.
    pub no_ignore_messages: bool,
    pub line_regexp: bool,
    pub no_unicode: bool,
    pub engine: RegexEngine,
    pub regex_size_limit: Option<usize>,
    pub dfa_size_limit: Option<usize>,
    pub replace: Option<String>,
    pub passthru: bool,
    pub stop_on_nonmatch: bool,
    pub column: bool,
    pub byte_offset: bool,
    pub max_columns: Option<usize>,
    pub max_columns_preview: bool,
    pub count_matches: bool,
    pub include_zero: bool,
    pub context_separator: Option<String>,
    pub field_match_separator: String,
    pub field_context_separator: String,
    pub path_separator: Option<String>,
    pub sort: Option<SortMode>,
    pub max_depth: Option<usize>,
    pub one_file_system: bool,
    pub ignore_files: Vec<String>,
    pub ignore_file_case_insensitive: bool,
    pub no_ignore_dot: bool,
    pub no_ignore_exclude: bool,
    pub no_ignore_global: bool,
    pub no_ignore_parent: bool,
    pub no_ignore_vcs: bool,
    pub no_require_git: bool,
    pub threads: Option<usize>,
    pub line_buffered: bool,
}

/// What [`SearchOptions`] hold.
pub struct SearchOptionsView {
    pub pattern: Seq<char>,
    pub extra_patterns: Seq<Seq<char>>,
    pub pattern_file: Option<Seq<char>>,
    pub case_insensitive: bool,
    pub case_sensitive: bool,
    pub smart_case: bool,
    pub fixed_string: bool,
    pub files_only: bool,
    pub files_without_match: bool,
    pub count: bool,
    pub word_boundary: bool,
    pub max_count: Option<usize>,
    pub json: bool,
    pub vimgrep: bool,
    pub stats: bool,
    pub no_index: bool,
    pub glob: Seq<Seq<char>>,
    pub iglob: Seq<Seq<char>>,
    pub glob_case_insensitive: bool,
    pub types: Seq<Seq<char>>,
    pub types_not: Seq<Seq<char>>,
    pub type_add: Seq<Seq<char>>,
    pub type_clear: Seq<Seq<char>>,
    pub invert_match: bool,
    pub only_matching: bool,
    pub after_context: Option<usize>,
    pub before_context: Option<usize>,
    pub context: Option<usize>,
    pub heading: Option<bool>,
    pub color: ColorMode,
    pub null: bool,
    pub trim: bool,
    pub multiline: bool,
    pub multiline_dotall: bool,
    pub no_ignore: bool,
    pub hidden: bool,
    pub quiet: bool,
    pub no_filename: bool,
    pub no_line_number: bool,
    pub text: bool,
    pub binary: bool,
    pub path_display: DisplayView,
    pub max_filesize: Option<u64>,
    pub max_filesize_requested: bool,
    pub encoding: Option<Seq<char>>,
    pub follow: bool,
    pub no_messages: bool,
    pub no_ignore_messages: bool,
    pub line_regexp: bool,
    pub no_unicode: bool,
    pub engine: RegexEngine,
    pub regex_size_limit: Option<usize>,
    pub dfa_size_limit: Option<usize>,
    pub replace: Option<Seq<char>>,
    pub passthru: bool,
    pub stop_on_nonmatch: bool,
    pub column: bool,
    pub byte_offset: bool,
    pub max_columns: Option<usize>,
    pub max_columns_preview: bool,
    pub count_matches: bool,
    pub include_zero: bool,
    pub context_separator: Option<Seq<char>>,
    pub field_match_separator: Seq<char>,
    pub field_context_separator: Seq<char>,
    pub path_separator: Option<Seq<char>>,
    pub sort: Option<SortMode>,
    pub max_depth: Option<usize>,
    pub one_file_system: bool,
    pub ignore_files: Seq<Seq<char>>,
    pub ignore_file_case_insensitive: bool,
    pub no_ignore_dot: bool,
    pub no_ignore_exclude: bool,
    pub no_ignore_global: bool,
    pub no_ignore_parent: bool,
    pub no_ignore_vcs: bool,
    pub no_require_git: bool,
    pub threads: Option<usize>,
    pub line_buffered: bool,
}

impl View for SearchOptions {
    type V = SearchOptionsView;

    open spec fn view(&self) -> SearchOptionsView {
        SearchOptionsView {
            pattern: self.pattern@,
            extra_patterns: texts(self.extra_patterns@),
            pattern_file: option_text(self.pattern_file),
            case_insensitive: self.case_insensitive,
            case_sensitive: self.case_sensitive,
            smart_case: self.smart_case,
            fixed_string: self.fixed_string,
            files_only: self.files_only,
            files_without_match: self.files_without_match,
            count: self.count,
            word_boundary: self.word_boundary,
            max_count: self.max_count,
            json: self.json,
            vimgrep: self.vimgrep,
            stats: self.stats,
            no_index: self.no_index,
            glob: texts(self.glob@),
            iglob: texts(self.iglob@),
            glob_case_insensitive: self.glob_case_insensitive,
            types: texts(self.types@),
            types_not: texts(self.types_not@),
            type_add: texts(self.type_add@),
            type_clear: texts(self.type_clear@),
            invert_match: self.invert_match,
            only_matching: self.only_matching,
            after_context: self.after_context,
            before_context: self.before_context,
            context: self.context,
            heading: self.heading,
            color: self.color,
            null: self.null,
            trim: self.trim,
            multiline: self.multiline,
            multiline_dotall: self.multiline_dotall,
            no_ignore: self.no_ignore,
            hidden: self.hidden,
            quiet: self.quiet,
            no_filename: self.no_filename,
            no_line_number: self.no_line_number,
            text: self.text,
            binary: self.binary,
            path_display: self.path_display@,
            max_filesize: self.max_filesize,
            max_filesize_requested: self.max_filesize_requested,
            encoding: option_text(self.encoding),
            follow: self.follow,
            no_messages: self.no_messages,
            no_ignore_messages: self.no_ignore_messages,
            line_regexp: self.line_regexp,
            no_unicode: self.no_unicode,
            engine: self.engine,
            regex_size_limit: self.regex_size_limit,
            dfa_size_limit: self.dfa_size_limit,
            replace: option_text(self.replace),
            passthru: self.passthru,
            stop_on_nonmatch: self.stop_on_nonmatch,
            column: self.column,
            byte_offset: self.byte_offset,
            max_columns: self.max_columns,
            max_columns_preview: self.max_columns_preview,
            count_matches: self.count_matches,
            include_zero: self.include_zero,
            context_separator: option_text(self.context_separator),
            field_match_separator: self.field_match_separator@,
            field_context_separator: self.field_context_separator@,
            path_separator: option_text(self.path_separator),
            sort: self.sort,
            max_depth: self.max_depth,
            one_file_system: self.one_file_system,
            ignore_files: texts(self.ignore_files@),
            ignore_file_case_insensitive: self.ignore_file_case_insensitive,
            no_ignore_dot: self.no_ignore_dot,
            no_ignore_exclude: self.no_ignore_exclude,
            no_ignore_global: self.no_ignore_global,
            no_ignore_parent: self.no_ignore_parent,
            no_ignore_vcs: self.no_ignore_vcs,
            no_require_git: self.no_require_git,
            threads: self.threads,
            line_buffered: self.line_buffered,
        }
    }
}

impl SearchOptionsView {
    /// The options of a search that nothing is asked of.
    pub open spec fn defaults() -> SearchOptionsView {
        SearchOptionsView {
            pattern: Seq::empty(),
            extra_patterns: Seq::empty(),
            pattern_file: None,
            case_insensitive: false,
            case_sensitive: false,
            smart_case: false,
            fixed_string: false,
            files_only: false,
            files_without_match: false,
            count: false,
            word_boundary: false,
            max_count: None,
            json: false,
            vimgrep: false,
            stats: false,
            no_index: false,
            glob: Seq::empty(),
            iglob: Seq::empty(),
            glob_case_insensitive: false,
            types: Seq::empty(),
            types_not: Seq::empty(),
            type_add: Seq::empty(),
            type_clear: Seq::empty(),
            invert_match: false,
            only_matching: false,
            after_context: None,
            before_context: None,
            context: None,
            heading: None,
            color: ColorMode::Auto,
            null: false,
            trim: false,
            multiline: false,
            multiline_dotall: false,
            no_ignore: false,
            hidden: false,
            quiet: false,
            no_filename: false,
            no_line_number: false,
            text: false,
            binary: false,
            path_display: DisplayView::Bare,
            max_filesize: None,
            max_filesize_requested: false,
            encoding: None,
            follow: false,
            no_messages: false,
            no_ignore_messages: false,
            line_regexp: false,
            no_unicode: false,
            engine: RegexEngine::Default,
            regex_size_limit: None,
            dfa_size_limit: None,
            replace: None,
            passthru: false,
            stop_on_nonmatch: false,
            column: false,
            byte_offset: false,
            max_columns: None,
            max_columns_preview: false,
            count_matches: false,
            include_zero: false,
            context_separator: None,
            field_match_separator: Seq::empty(),
            field_context_separator: Seq::empty(),
            path_separator: None,
            sort: None,
            max_depth: None,
            one_file_system: false,
            ignore_files: Seq::empty(),
            ignore_file_case_insensitive: false,
            no_ignore_dot: false,
            no_ignore_exclude: false,
            no_ignore_global: false,
            no_ignore_parent: false,
            no_ignore_vcs: false,
            no_require_git: false,
            threads: None,
            line_buffered: false,
        }
    }
}

impl Default for SearchOptions {
    fn default() -> (r: SearchOptions)
        ensures
            r@ == SearchOptionsView::defaults(),
    {
        let r = SearchOptions {
            pattern: String::new(),
            extra_patterns: Vec::new(),
            pattern_file: None,
            case_insensitive: false,
            case_sensitive: false,
            smart_case: false,
            fixed_string: false,
            files_only: false,
            files_without_match: false,
            count: false,
            word_boundary: false,
            max_count: None,
            json: false,
            vimgrep: false,
            stats: false,
            no_index: false,
            glob: Vec::new(),
            iglob: Vec::new(),
            glob_case_insensitive: false,
            types: Vec::new(),
            types_not: Vec::new(),
            type_add: Vec::new(),
            type_clear: Vec::new(),
            invert_match: false,
            only_matching: false,
            after_context: None,
            before_context: None,
            context: None,
            heading: None,
            color: ColorMode::Auto,
            null: false,
            trim: false,
            multiline: false,
            multiline_dotall: false,
            no_ignore: false,
            hidden: false,
            quiet: false,
            no_filename: false,
            no_line_number: false,
            text: false,
            binary: false,
            path_display: PathDisplay::Bare,
            max_filesize: None,
            max_filesize_requested: false,
            encoding: None,
            follow: false,
            no_messages: false,
            no_ignore_messages: false,
            line_regexp: false,
            no_unicode: false,
            engine: RegexEngine::Default,
            regex_size_limit: None,
            dfa_size_limit: None,
            replace: None,
            passthru: false,
            stop_on_nonmatch: false,
            column: false,
            byte_offset: false,
            max_columns: None,
            max_columns_preview: false,
            count_matches: false,
            include_zero: false,
            context_separator: None,
            field_match_separator: String::new(),
            field_context_separator: String::new(),
            path_separator: None,
            sort: None,
            max_depth: None,
            one_file_system: false,
            ignore_files: Vec::new(),
            ignore_file_case_insensitive: false,
            no_ignore_dot: false,
            no_ignore_exclude: false,
            no_ignore_global: false,
            no_ignore_parent: false,
            no_ignore_vcs: false,
            no_require_git: false,
            threads: None,
            line_buffered: false,
        };
        assert(r.pattern@ =~= Seq::<char>::empty());
        assert(texts(r.extra_patterns@) =~= Seq::<Seq<char>>::empty());
        assert(texts(r.glob@) =~= Seq::<Seq<char>>::empty());
        assert(texts(r.iglob@) =~= Seq::<Seq<char>>::empty());
        assert(texts(r.types@) =~= Seq::<Seq<char>>::empty());
        assert(texts(r.types_not@) =~= Seq::<Seq<char>>::empty());
        assert(texts(r.type_add@) =~= Seq::<Seq<char>>::empty());
        assert(texts(r.type_clear@) =~= Seq::<Seq<char>>::empty());
        assert(r.field_match_separator@ =~= Seq::<char>::empty());
        assert(r.field_context_separator@ =~= Seq::<char>::empty());
        assert(texts(r.ignore_files@) =~= Seq::<Seq<char>>::empty());
        r
    }
}

/// Whether a character is upper case by Unicode's `Uppercase` property.
pub uninterp spec fn is_upper(c: char) -> bool;

/// `char::is_uppercase`; [`is_upper`] names it. Of the ASCII characters the
/// letters from `A` to `Z` are upper case and no others.
#[verifier::external_body]
pub(crate) fn char_is_uppercase(c: char) -> (r: bool)
    ensures
        r == is_upper(c),
        (c as u32) < 128 ==> r == ('A' <= c && c <= 'Z'),
{
    c.is_uppercase()
}

/// Whether a text holds an upper-case character.
pub open spec fn has_upper(s: Seq<char>) -> bool {
    exists|i: int| 0 <= i < s.len() && is_upper(#[trigger] s[i])
}

/// Whether a text holds an upper-case character.
fn any_uppercase(s: &str) -> (r: bool)
    ensures
        r == has_upper(s@),
{
    let chars = chars_of(s);
    let mut i: usize = 0;
    while i < chars.len()
        invariant
            i <= chars@.len(),
            chars@ == s@,
            forall|j: int| 0 <= j < i ==> !is_upper(#[trigger] s@[j]),
        decreases chars@.len() - i,
    {
        if char_is_uppercase(chars[i]) {
            assert(is_upper(s@[i as int]));
            return true;
        }
        i += 1;
    }
    false
}

/// How matches are looked for in a file.
pub struct MatchOptions {
    pub invert_match: bool,
    pub multiline: bool,
    pub only_matching: bool,
    pub before_context: usize,
    pub after_context: usize,
    pub max_count: Option<usize>,
    pub passthru: bool,
    pub replace: Option<String>,
    pub stop_on_nonmatch: bool,
    pub vimgrep: bool,
    pub all_spans: bool,
}

/// How patterns are compiled.
#[derive(Clone, Copy, Debug, PartialEq, Eq, Structural)]
pub struct MatcherConfig {
    pub case_insensitive: bool,
    pub fixed_string: bool,
    pub word_boundary: bool,
    pub line_regexp: bool,
    pub multiline: bool,
    pub dotall: bool,
    pub no_unicode: bool,
    pub engine: RegexEngine,
    pub regex_size_limit: Option<usize>,
    pub dfa_size_limit: Option<usize>,
}

/// How a tree is walked.
pub struct WalkOptions {
    pub include_hidden: bool,
    pub no_ignore: bool,
    pub search_binary: bool,
    pub follow_links: bool,
    pub max_file_size: Option<u64>,
    pub max_depth: Option<usize>,
    pub same_file_system: bool,
    pub ignore_files: Vec<String>,
    pub ignore_files_case_insensitive: bool,
    pub no_ignore_dot: bool,
    pub no_ignore_exclude: bool,
    pub no_ignore_global: bool,
    pub no_ignore_parent: bool,
    pub no_ignore_vcs: bool,
    pub no_require_git: bool,
    pub no_ignore_messages: bool,
    pub threads: Option<usize>,
}

/// A change to the definitions of file types.
#[derive(Debug, PartialEq, Eq)]
pub enum TypeStep {
    /// Forget what belongs to a type.
    Clear(String),
    /// Add to a type, as `name:glob`.
    Define(String),
}

/// What a [`TypeStep`] does.
pub enum TypeStepView {
    Clear(Seq<char>),
    Define(Seq<char>),
}

impl View for TypeStep {
    type V = TypeStepView;

    open spec fn view(&self) -> TypeStepView {
        match self {
            TypeStep::Clear(name) => TypeStepView::Clear(name@),
            TypeStep::Define(spec) => TypeStepView::Define(spec@),
        }
    }
}

/// Which files a search takes by their type.
#[derive(Debug, PartialEq, Eq)]
pub enum TypeFilter {
    /// Every file.
    Everything,
    /// The changes to the built-in definitions, in order, and the types that
    /// are selected and rejected by what then is defined.
    Selected { steps: Vec<TypeStep>, types: Vec<String>, types_not: Vec<String> },
}

/// What a [`TypeFilter`] selects.
pub enum TypeFilterView {
    Everything,
    Selected { steps: Seq<TypeStepView>, types: Seq<Seq<char>>, types_not: Seq<Seq<char>> },
}

/// What a list of changes does.
pub open spec fn step_views(steps: Seq<TypeStep>) -> Seq<TypeStepView> {
    steps.map_values(|s: TypeStep| s@)
}

impl View for TypeFilter {
    type V = TypeFilterView;

    open spec fn view(&self) -> TypeFilterView {
        match self {
            TypeFilter::Everything => TypeFilterView::Everything,
            TypeFilter::Selected { steps, types, types_not } => TypeFilterView::Selected {
                steps: step_views(steps@),
                types: texts(types@),
                types_not: texts(types_not@),
            },
        }
    }
}

/// The filter for a selection of types. Types are cleared before they are
/// added to, so that clearing and adding a type redefines it from scratch.
pub open spec fn type_filter_for(
    type_add: Seq<Seq<char>>,
    type_clear: Seq<Seq<char>>,
    types: Seq<Seq<char>>,
    types_not: Seq<Seq<char>>,
) -> TypeFilterView {
    if type_add.len() == 0 && type_clear.len() == 0 && types.len() == 0 && types_not.len() == 0 {
        TypeFilterView::Everything
    } else {
        TypeFilterView::Selected {
            steps: type_clear.map_values(|n: Seq<char>| TypeStepView::Clear(n))
                + type_add.map_values(|n: Seq<char>| TypeStepView::Define(n)),
            types,
            types_not,
        }
    }
}

/// A copy of a list of strings.
pub fn copy_texts(list: &Vec<String>) -> (r: Vec<String>)
    ensures
        texts(r@) == texts(list@),
        r@.len() == list@.len(),
{
    let mut out: Vec<String> = Vec::new();
    let mut i: usize = 0;
    while i < list.len()
        invariant
            i <= list@.len(),
            out@ == list@.take(i as int),
        decreases list@.len() - i,
    {
        out.push(list[i].clone());
        assert(list@.take(i + 1) =~= list@.take(i as int).push(list@[i as int]));
        i += 1;
    }
    assert(list@.take(list@.len() as int) =~= list@);
    out
}

/// A copy of a string that may be absent.
pub fn copy_option(text: &Option<String>) -> (r: Option<String>)
    ensures
        option_text(r) == option_text(*text),
{
    match text {
        Some(s) => Some(s.clone()),
        None => None,
    }
}

/// The filter for a selection of types.
pub fn build_type_filter(
    type_add: &Vec<String>,
    type_clear: &Vec<String>,
    types: &Vec<String>,
    types_not: &Vec<String>,
) -> (r: TypeFilter)
    ensures
        r@ == type_filter_for(
            texts(type_add@),
            texts(type_clear@),
            texts(types@),
            texts(types_not@),
        ),
{
    if type_add.len() == 0 && type_clear.len() == 0 && types.len() == 0 && types_not.len() == 0 {
        return TypeFilter::Everything;
    }
    let ghost clears = texts(type_clear@).map_values(|n: Seq<char>| TypeStepView::Clear(n));
    let ghost adds = texts(type_add@).map_values(|n: Seq<char>| TypeStepView::Define(n));
    let mut steps: Vec<TypeStep> = Vec::new();
    let mut i: usize = 0;
    while i < type_clear.len()
        invariant
            i <= type_clear@.len(),
            clears == texts(type_clear@).map_values(|n: Seq<char>| TypeStepView::Clear(n)),
            step_views(steps@) =~= clears.take(i as int),
        decreases type_clear@.len() - i,
    {
        let step = TypeStep::Clear(type_clear[i].clone());
        proof {
            assert(clears[i as int] == step@);
            assert(clears.take(i + 1) =~= clears.take(i as int).push(step@));
            assert(step_views(steps@.push(step)) =~= step_views(steps@).push(step@));
        }
        steps.push(step);
        i += 1;
    }
    assert(step_views(steps@) =~= clears);
    let mut j: usize = 0;
    while j < type_add.len()
        invariant
            j <= type_add@.len(),
            adds == texts(type_add@).map_values(|n: Seq<char>| TypeStepView::Define(n)),
            step_views(steps@) =~= clears + adds.take(j as int),
        decreases type_add@.len() - j,
    {
        let step = TypeStep::Define(type_add[j].clone());
        proof {
            assert(adds[j as int] == step@);
            assert(clears + adds.take(j + 1) =~= (clears + adds.take(j as int)).push(step@));
            assert(step_views(steps@.push(step)) =~= step_views(steps@).push(step@));
        }
        steps.push(step);
        j += 1;
    }
    assert(step_views(steps@) =~= clears + adds);
    TypeFilter::Selected { steps, types: copy_texts(types), types_not: copy_texts(types_not) }
}

/// The patterns that a file of patterns holds: its lines without surrounding
/// white space, the empty ones left out.
pub open spec fn file_patterns(content: Seq<char>) -> Seq<Seq<char>> {
    lines_of(content).filter_map(
        |line: Seq<char>|
            if trimmed(line).len() > 0 {
                Some(trimmed(line))
            } else {
                None
            },
    )
}

impl SearchOptionsView {
    /// Whether case is ignored: where that is asked for, or where smart case
    /// is and the pattern has no upper-case character. Asking for case to
    /// count overrides smart case.
    pub open spec fn ignores_case(self) -> bool {
        self.case_insensitive || (!self.case_sensitive && self.smart_case && !has_upper(
            self.pattern,
        ))
    }

    /// Lines of context behind a match.
    pub open spec fn after_lines(self) -> usize {
        match (self.after_context, self.context) {
            (Some(n), _) => n,
            (None, Some(n)) => n,
            (None, None) => 0,
        }
    }

    /// Lines of context before a match.
    pub open spec fn before_lines(self) -> usize {
        match (self.before_context, self.context) {
            (Some(n), _) => n,
            (None, Some(n)) => n,
            (None, None) => 0,
        }
    }

    /// Whether anything that is asked for reads the places of matches.
    pub open spec fn needs_match_detail(self, is_tty: bool) -> bool {
        self.color.enabled(is_tty) || self.json || self.vimgrep || self.column
            || self.count_matches || self.only_matching || self.replace is Some || self.stats
    }

    /// Whether anything that is asked for reads the places of lines.
    pub open spec fn needs_position_detail(self) -> bool {
        self.byte_offset || self.max_columns is Some
    }

    /// Whether only the matches are reported; a JSON stream always reports
    /// whole lines.
    pub open spec fn reports_matches_only(self) -> bool {
        self.only_matching && !self.json
    }

    /// Whether a glob takes files in, and so reincludes those that would be
    /// ignored: every one does that does not start with `!`.
    pub open spec fn has_includes(self) -> bool {
        (exists|i: int| 0 <= i < self.glob.len() && is_include(#[trigger] self.glob[i])) || (exists|
            i: int,
        |
            0 <= i < self.iglob.len() && is_include(#[trigger] self.iglob[i]))
    }

    /// Whether every line is printed: not where nothing or only names or
    /// counts are.
    pub open spec fn passes_through(self) -> bool {
        self.passthru && self.max_count != Some(0usize) && !self.files_only
            && !self.files_without_match && !self.count && !self.count_matches && !self.quiet
    }

    /// After how many matches a file is done: after one where only the fact
    /// that it matched counts.
    pub open spec fn match_limit(self) -> Option<usize> {
        if self.quiet || self.files_without_match {
            Some(1)
        } else {
            self.max_count
        }
    }

    /// The format of the output.
    pub open spec fn format(self) -> OutputFormat {
        if self.json {
            OutputFormat::Json
        } else if self.files_only {
            OutputFormat::FilesOnly
        } else if self.count || self.count_matches {
            OutputFormat::Count
        } else if self.vimgrep {
            OutputFormat::Vimgrep
        } else {
            OutputFormat::Heading
        }
    }

    /// All patterns: the primary one, the further ones, and those of a file.
    /// An empty primary pattern beside others is no pattern.
    pub open spec fn patterns(self, file_content: Option<Seq<char>>) -> Seq<Seq<char>> {
        let has_extra = self.extra_patterns.len() > 0 || self.pattern_file is Some;
        (if has_extra && self.pattern.len() == 0 {
            Seq::empty()
        } else {
            seq![self.pattern]
        }) + self.extra_patterns + (match (self.pattern_file, file_content) {
            (Some(_), Some(content)) => file_patterns(content),
            _ => Seq::empty(),
        })
    }
}

/// Whether a tree is walked as options ask.
pub open spec fn is_walk(w: WalkOptions, o: SearchOptionsView) -> bool {
    &&& w.include_hidden == o.hidden
    &&& w.no_ignore == o.no_ignore
    &&& w.search_binary == (o.text || o.binary)
    &&& w.follow_links == o.follow
    &&& w.max_file_size == o.max_filesize
    &&& w.max_depth == o.max_depth
    &&& w.same_file_system == o.one_file_system
    &&& texts(w.ignore_files@) == o.ignore_files
    &&& w.ignore_files_case_insensitive == o.ignore_file_case_insensitive
    &&& w.no_ignore_dot == o.no_ignore_dot
    &&& w.no_ignore_exclude == o.no_ignore_exclude
    &&& w.no_ignore_global == o.no_ignore_global
    &&& w.no_ignore_parent == o.no_ignore_parent
    &&& w.no_ignore_vcs == o.no_ignore_vcs
    &&& w.no_require_git == o.no_require_git
    &&& w.no_ignore_messages == (o.no_messages || o.no_ignore_messages)
    &&& w.threads == o.threads
}

/// Whether a configuration is what options ask for.
pub open spec fn is_output_config(config: OutputConfig, o: SearchOptionsView) -> bool {
    &&& config.format == o.format()
    &&& config.color == o.color
    &&& config.heading == o.heading
    &&& config.null == o.null
    &&& config.trim == o.trim
    &&& config.no_filename == o.no_filename
    &&& config.no_line_number == o.no_line_number
    &&& config.context == (o.after_lines() > 0 || o.before_lines() > 0)
    &&& config.column == o.column
    &&& config.byte_offset == o.byte_offset
    &&& config.max_columns == o.max_columns
    &&& config.max_columns_preview == o.max_columns_preview
    &&& option_text(config.context_separator) == o.context_separator
    &&& config.field_match_separator@ == o.field_match_separator
    &&& config.field_context_separator@ == o.field_context_separator
    &&& option_text(config.path_separator) == o.path_separator
    &&& config.path_display@ == o.path_display
    &&& config.line_buffered == o.line_buffered
}

impl SearchOptions {
    /// Whether case is ignored.
    pub fn effective_case_insensitive(&self) -> (r: bool)
        ensures
            r == self@.ignores_case(),
    {
        if self.case_insensitive {
            return true;
        }
        if self.case_sensitive {
            return false;
        }
        self.smart_case && !any_uppercase(self.pattern.as_str())
    }

    /// Whether `.` matches a line feed, which is separate from matches
    /// spanning lines.
    pub fn dotall(&self) -> (r: bool)
        ensures
            r == self.multiline_dotall,
    {
        self.multiline_dotall
    }

    /// How the tree is walked by every search that does not use an index.
    pub fn walk_options(&self) -> (r: WalkOptions)
        ensures
            is_walk(r, self@),
            r.include_hidden == self.hidden,
            r.no_ignore == self.no_ignore,
            r.search_binary == (self.text || self.binary),
            r.follow_links == self.follow,
            r.max_file_size == self.max_filesize,
            r.max_depth == self.max_depth,
            r.same_file_system == self.one_file_system,
            texts(r.ignore_files@) == self@.ignore_files,
            r.ignore_files_case_insensitive == self.ignore_file_case_insensitive,
            r.no_ignore_dot == self.no_ignore_dot,
            r.no_ignore_exclude == self.no_ignore_exclude,
            r.no_ignore_global == self.no_ignore_global,
            r.no_ignore_parent == self.no_ignore_parent,
            r.no_ignore_vcs == self.no_ignore_vcs,
            r.no_require_git == self.no_require_git,
            r.no_ignore_messages == (self.no_messages || self.no_ignore_messages),
            r.threads == self.threads,
    {
        WalkOptions {
            include_hidden: self.hidden,
            no_ignore: self.no_ignore,
            search_binary: self.text || self.binary,
            follow_links: self.follow,
            max_file_size: self.max_filesize,
            max_depth: self.max_depth,
            same_file_system: self.one_file_system,
            ignore_files: copy_texts(&self.ignore_files),
            ignore_files_case_insensitive: self.ignore_file_case_insensitive,
            no_ignore_dot: self.no_ignore_dot,
            no_ignore_exclude: self.no_ignore_exclude,
            no_ignore_global: self.no_ignore_global,
            no_ignore_parent: self.no_ignore_parent,
            no_ignore_vcs: self.no_ignore_vcs,
            no_require_git: self.no_require_git,
            no_ignore_messages: self.no_messages || self.no_ignore_messages,
            threads: self.threads,
        }
    }

    /// Whether a reply has to carry the places of matches: wherever anything
    /// reads them.
    pub fn wants_match_detail(&self, is_tty: bool) -> (r: bool)
        ensures
            r == self@.needs_match_detail(is_tty),
    {
        self.color.is_enabled(is_tty) || self.json || self.vimgrep || self.column
            || self.count_matches || self.only_matching || self.replace.is_some() || self.stats
    }

    /// Whether a reply has to carry the places of lines.
    pub fn wants_position_detail(&self) -> (r: bool)
        ensures
            r == self@.needs_position_detail(),
    {
        self.byte_offset || self.max_columns.is_some()
    }

    /// Whether only the matches are reported.
    pub fn effective_only_matching(&self) -> (r: bool)
        ensures
            r == self@.reports_matches_only(),
    {
        self.only_matching && !self.json
    }

    /// Whether a glob takes files in, and so reincludes those that would be
    /// ignored.
    pub fn has_includes(&self) -> (r: bool)
        ensures
            r == self@.has_includes(),
    {
        any_include(&self.glob) || any_include(&self.iglob)
    }

    /// Whether every line is printed.
    pub fn effective_passthru(&self) -> (r: bool)
        ensures
            r == self@.passes_through(),
    {
        let nothing = match self.max_count {
            Some(n) => n == 0,
            None => false,
        };
        self.passthru && !nothing && !self.files_only && !self.files_without_match && !self.count
            && !self.count_matches && !self.quiet
    }

    /// After how many matches a file is done.
    pub fn effective_max_count(&self) -> (r: Option<usize>)
        ensures
            r == self@.match_limit(),
    {
        if self.quiet || self.files_without_match {
            Some(1)
        } else {
            self.max_count
        }
    }

    /// How matches are looked for in a file.
    pub fn match_options(&self, is_tty: bool) -> (r: MatchOptions)
        ensures
            r.invert_match == self.invert_match,
            r.multiline == self.multiline,
            r.only_matching == self@.reports_matches_only(),
            r.before_context == self@.before_lines(),
            r.after_context == self@.after_lines(),
            r.max_count == self@.match_limit(),
            r.passthru == self@.passes_through(),
            option_text(r.replace) == self@.replace,
            r.stop_on_nonmatch == self.stop_on_nonmatch,
            r.vimgrep == self.vimgrep,
            r.all_spans == self@.needs_match_detail(is_tty),
    {
        MatchOptions {
            invert_match: self.invert_match,
            multiline: self.multiline,
            only_matching: self.effective_only_matching(),
            before_context: self.before_ctx(),
            after_context: self.after_ctx(),
            max_count: self.effective_max_count(),
            passthru: self.effective_passthru(),
            replace: copy_option(&self.replace),
            stop_on_nonmatch: self.stop_on_nonmatch,
            vimgrep: self.vimgrep,
            all_spans: self.wants_match_detail(is_tty),
        }
    }

    /// How patterns are compiled.
    pub fn matcher_config(&self, ci: bool) -> (r: MatcherConfig)
        ensures
            r == (MatcherConfig {
                case_insensitive: ci,
                fixed_string: self.fixed_string,
                word_boundary: self.word_boundary,
                line_regexp: self.line_regexp,
                multiline: self.multiline,
                dotall: self.multiline_dotall,
                no_unicode: self.no_unicode,
                engine: self.engine,
                regex_size_limit: self.regex_size_limit,
                dfa_size_limit: self.dfa_size_limit,
            }),
    {
        MatcherConfig {
            case_insensitive: ci,
            fixed_string: self.fixed_string,
            word_boundary: self.word_boundary,
            line_regexp: self.line_regexp,
            multiline: self.multiline,
            dotall: self.dotall(),
            no_unicode: self.no_unicode,
            engine: self.engine,
            regex_size_limit: self.regex_size_limit,
            dfa_size_limit: self.dfa_size_limit,
        }
    }

    /// Which files the search takes by their type.
    pub fn type_filter(&self) -> (r: TypeFilter)
        ensures
            r@ == type_filter_for(
                self@.type_add,
                self@.type_clear,
                self@.types,
                self@.types_not,
            ),
    {
        build_type_filter(&self.type_add, &self.type_clear, &self.types, &self.types_not)
    }

    /// Lines of context behind a match.
    pub fn after_ctx(&self) -> (r: usize)
        ensures
            r == self@.after_lines(),
    {
        match (self.after_context, self.context) {
            (Some(n), _) => n,
            (None, Some(n)) => n,
            (None, None) => 0,
        }
    }

    /// Lines of context before a match.
    pub fn before_ctx(&self) -> (r: usize)
        ensures
            r == self@.before_lines(),
    {
        match (self.before_context, self.context) {
            (Some(n), _) => n,
            (None, Some(n)) => n,
            (None, None) => 0,
        }
    }

    /// How output is formatted.
    pub fn make_output_config(&self) -> (r: OutputConfig)
        ensures
            is_output_config(r, self@),
    {
        let format = if self.json {
            OutputFormat::Json
        } else if self.files_only {
            OutputFormat::FilesOnly
        } else if self.count || self.count_matches {
            OutputFormat::Count
        } else if self.vimgrep {
            OutputFormat::Vimgrep
        } else {
            OutputFormat::Heading
        };
        OutputConfig {
            format,
            color: self.color,
            heading: self.heading,
            null: self.null,
            trim: self.trim,
            no_filename: self.no_filename,
            no_line_number: self.no_line_number,
            context: self.after_ctx() > 0 || self.before_ctx() > 0,
            column: self.column,
            byte_offset: self.byte_offset,
            max_columns: self.max_columns,
            max_columns_preview: self.max_columns_preview,
            context_separator: copy_option(&self.context_separator),
            field_match_separator: self.field_match_separator.clone(),
            field_context_separator: self.field_context_separator.clone(),
            path_separator: copy_option(&self.path_separator),
            path_display: self.path_display.copy(),
            line_buffered: self.line_buffered,
        }
    }

    /// All patterns, given the content of the file of patterns.
    pub fn all_patterns(&self, file_content: Option<&str>) -> (r: Vec<String>)
        ensures
            texts(r@) == self@.patterns(
                match file_content {
                    Some(content) => Some(content@),
                    None => None,
                },
            ),
    {
        let has_extra = self.extra_patterns.len() > 0 || self.pattern_file.is_some();
        let mut out: Vec<String> = Vec::new();
        if !(has_extra && self.pattern.as_str().is_empty()) {
            out.push(self.pattern.clone());
            assert(texts(out@) =~= seq![self.pattern@]);
        } else {
            assert(texts(out@) =~= Seq::<Seq<char>>::empty());
        }
        let ghost first = texts(out@);
        let ghost extra = texts(self.extra_patterns@);
        let mut i: usize = 0;
        while i < self.extra_patterns.len()
            invariant
                i <= self.extra_patterns@.len(),
                extra == texts(self.extra_patterns@),
                texts(out@) =~= first + extra.take(i as int),
            decreases self.extra_patterns@.len() - i,
        {
            let pattern = self.extra_patterns[i].clone();
            proof {
                lemma_texts_push(out@, pattern);
                assert(extra[i as int] == pattern@);
                assert(first + extra.take(i + 1) =~= (first + extra.take(i as int)).push(pattern@));
            }
            out.push(pattern);
            i += 1;
        }
        assert(texts(out@) =~= first + extra);
        let content = match (&self.pattern_file, file_content) {
            (Some(_), Some(content)) => content,
            _ => {
                assert(texts(out@) =~= first + extra + Seq::<Seq<char>>::empty());
                return out;
            },
        };
        let all = lines(content);
        let ghost f = |line: Seq<char>|
            if trimmed(line).len() > 0 {
                Some(trimmed(line))
            } else {
                None
            };
        let ghost ls = lines_of(content@);
        let ghost head = first + extra;
        let mut j: usize = 0;
        assert(texts(out@) =~= head + ls.take(0).filter_map(f));
        while j < all.len()
            invariant
                j <= all@.len(),
                ls == texts(all@),
                f == (|line: Seq<char>|
                    if trimmed(line).len() > 0 {
                        Some(trimmed(line))
                    } else {
                        None
                    }),
                texts(out@) == head + ls.take(j as int).filter_map(f),
            decreases all@.len() - j,
        {
            let ghost before = texts(out@);
            let ghost done = ls.take(j as int).filter_map(f);
            assert(ls.take(j + 1).drop_last() =~= ls.take(j as int));
            assert(ls.take(j + 1).last() == all@[j as int]@);
            let line = trim(all[j].as_str());
            if !line.as_str().is_empty() {
                assert(texts(out@.push(line)) =~= before.push(line@));
                assert((head + done).push(line@) =~= head + (done + seq![line@]));
                out.push(line);
            }
            j += 1;
        }
        assert(ls.take(ls.len() as int) =~= ls);
        out
    }
}

/// Whether a glob takes files in, rather than leaving them out.
pub open spec fn is_include(glob: Seq<char>) -> bool {
    !(glob.len() > 0 && glob[0] == '!')
}

fn any_include(globs: &Vec<String>) -> (r: bool)
    ensures
        r == (exists|i: int|
            0 <= i < texts(globs@).len() && is_include(#[trigger] texts(globs@)[i])),
{
    assert(texts(globs@).len() == globs@.len());
    let mut i: usize = 0;
    while i < globs.len()
        invariant
            i <= globs@.len(),
            texts(globs@).len() == globs@.len(),
            forall|j: int| 0 <= j < i ==> !is_include(#[trigger] texts(globs@)[j]),
        decreases globs@.len() - i,
    {
        let chars = chars_of(globs[i].as_str());
        assert(texts(globs@)[i as int] == globs@[i as int]@);
        if chars.len() == 0 || chars[0] != '!' {
            return true;
        }
        i += 1;
    }
    false
}

/// The writer that spans a whole invocation.
pub fn new_writer(opts: &SearchOptions, is_tty: bool) -> (r: OutputWriter)
    ensures
        r.wf(),
        r@ == crate::output::new_state(),
        is_output_config(r.style().config, opts@),
        r.style() == crate::output::new_style(
            r.style().config,
            is_tty,
            r.style().separator,
        ),
        r.style().separator == '/' || r.style().separator == '\\',
{
    OutputWriter::new(opts.make_output_config(), is_tty)
}

/// A writer whose output is consumed in the process.
pub fn new_writer_to(opts: &SearchOptions) -> (r: OutputWriter)
    ensures
        r.wf(),
        r@ == crate::output::new_state(),
        is_output_config(r.style().config, opts@),
        r.style() == crate::output::new_style(r.style().config, false, r.style().separator),
        r.style().separator == '/' || r.style().separator == '\\',
{
    OutputWriter::with_sink(opts.make_output_config())
}

} // verus!
